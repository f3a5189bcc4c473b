use srv::objects::{Flag, ObjectPatch, RoomObjectType, UserPatch};
use srv::room::{Room, RoomId, RoomUpdate, Terrain, TerrainType};
use srv::room_name::RoomName;

fn plain_terrain(name: RoomName) -> Terrain {
    let rows = vec![vec![TerrainType::Plains; 50]; 50];
    Terrain::new(name, rows).unwrap()
}

fn fresh_room(text: &str) -> Room {
    let name = RoomName::parse(text).unwrap();
    Room::new(RoomId::new(None, name), plain_terrain(name))
}

fn empty_update() -> RoomUpdate {
    RoomUpdate { game_time: None, objects: Vec::new(), flags: Vec::new(), users: Vec::new() }
}

fn creep_patch(x: u32, y: u32) -> ObjectPatch {
    let mut p = ObjectPatch::empty();
    p.ty = Some(RoomObjectType::Creep);
    p.x = Some(x);
    p.y = Some(y);
    p
}

#[test]
fn terrain_must_be_fifty_by_fifty() {
    let name = RoomName::parse("W1N1").unwrap();
    assert!(Terrain::new(name, vec![vec![TerrainType::Plains; 50]; 49]).is_none());
    assert!(Terrain::new(name, vec![vec![TerrainType::Plains; 49]; 50]).is_none());
    assert!(Terrain::new(name, vec![vec![TerrainType::Plains; 50]; 50]).is_some());
}

#[test]
fn new_room_is_empty() {
    let room = fresh_room("W1N1");
    assert_eq!(room.last_update_time(), None);
    assert!(room.get_object("anything").is_none());
    assert_eq!(room.room_id().display_string(), "W1N1");
}

#[test]
fn null_patch_for_absent_id_is_noop() {
    let mut room = fresh_room("W1N1");
    let mut update = empty_update();
    update.objects.push(("ghost".to_string(), None));
    assert!(room.update(update).is_ok());
    assert!(room.get_object("ghost").is_none());
}

#[test]
fn update_inserts_and_removes_objects() {
    let mut room = fresh_room("W1N1");
    let mut update = empty_update();
    update.objects.push(("abc".to_string(), Some(creep_patch(10, 12))));
    assert!(room.update(update).is_ok());
    let obj = room.get_object("abc").unwrap();
    assert_eq!(obj.ty, RoomObjectType::Creep);
    assert_eq!(obj.x, 10);
    assert_eq!(obj.y, 12);

    let mut removal = empty_update();
    removal.objects.push(("abc".to_string(), None));
    assert!(room.update(removal).is_ok());
    assert!(room.get_object("abc").is_none());
}

#[test]
fn merge_leaves_unspecified_fields_unchanged() {
    let mut room = fresh_room("W1N1");
    let mut create = empty_update();
    let mut p = creep_patch(10, 12);
    p.hits = Some(90);
    p.hits_max = Some(100);
    create.objects.push(("abc".to_string(), Some(p)));
    assert!(room.update(create).is_ok());

    let mut merge = empty_update();
    let mut hit = ObjectPatch::empty();
    hit.hits = Some(50);
    merge.objects.push(("abc".to_string(), Some(hit)));
    assert!(room.update(merge).is_ok());

    let obj = room.get_object("abc").unwrap();
    assert_eq!(obj.hits, Some(50));
    assert_eq!(obj.hits_max, Some(100));
    assert_eq!(obj.x, 10);
    assert_eq!(obj.y, 12);
}

#[test]
fn merge_is_idempotent_for_fixed_patch() {
    let mut room = fresh_room("W1N1");
    let mut create = empty_update();
    create.objects.push(("abc".to_string(), Some(creep_patch(10, 12))));
    assert!(room.update(create).is_ok());

    let terminal_patch = |hits: i32| {
        let mut p = ObjectPatch::empty();
        p.hits = Some(hits);
        p.energy = Some(7);
        p
    };
    let mut once = empty_update();
    once.objects.push(("abc".to_string(), Some(terminal_patch(42))));
    assert!(room.update(once).is_ok());
    let after_once = room.get_object("abc").unwrap();
    let snapshot = (after_once.hits, after_once.energy, after_once.x, after_once.y);

    let mut twice = empty_update();
    twice.objects.push(("abc".to_string(), Some(terminal_patch(42))));
    assert!(room.update(twice).is_ok());
    let after_twice = room.get_object("abc").unwrap();
    assert_eq!(snapshot, (after_twice.hits, after_twice.energy, after_twice.x, after_twice.y));
}

#[test]
fn creating_from_partial_patch_fails_with_the_id() {
    let mut room = fresh_room("W1N1");
    let mut update = empty_update();
    let mut p = ObjectPatch::empty();
    p.hits = Some(1);
    update.objects.push(("broken".to_string(), Some(p)));
    let err = room.update(update).unwrap_err();
    assert_eq!(err.id, "broken");
    assert_eq!(err.patch.hits, Some(1));
}

#[test]
fn merging_a_different_type_fails() {
    let mut room = fresh_room("W1N1");
    let mut create = empty_update();
    create.objects.push(("abc".to_string(), Some(creep_patch(1, 1))));
    assert!(room.update(create).is_ok());

    let mut conflict = empty_update();
    let mut p = ObjectPatch::empty();
    p.ty = Some(RoomObjectType::Road);
    conflict.objects.push(("abc".to_string(), Some(p)));
    let err = room.update(conflict).unwrap_err();
    assert_eq!(err.id, "abc");
}

#[test]
fn failed_update_keeps_entries_already_applied() {
    let mut room = fresh_room("W1N1");
    let mut seed = empty_update();
    seed.flags.push(Flag {
        name: "keep".to_string(),
        primary_color: 1,
        secondary_color: 1,
        x: 5,
        y: 5,
    });
    assert!(room.update(seed).is_ok());
    assert_eq!(room.flags.len(), 1);

    let mut mixed = empty_update();
    mixed.game_time = Some(77);
    mixed.objects.push(("good".to_string(), Some(creep_patch(2, 2))));
    mixed.objects.push(("bad".to_string(), Some(ObjectPatch::empty())));
    mixed.flags.push(Flag {
        name: "new".to_string(),
        primary_color: 2,
        secondary_color: 2,
        x: 6,
        y: 6,
    });
    let err = room.update(mixed).unwrap_err();
    assert_eq!(err.id, "bad");
    // the good entry stays applied, the flags are not replaced, the time is
    assert!(room.get_object("good").is_some());
    assert_eq!(room.flags.len(), 1);
    assert_eq!(room.flags[0].name, "keep");
    assert_eq!(room.last_update_time(), Some(77));
}

#[test]
fn flags_are_replaced_wholesale() {
    let mut room = fresh_room("W1N1");
    let mut first = empty_update();
    first.flags.push(Flag {
        name: "a".to_string(),
        primary_color: 1,
        secondary_color: 2,
        x: 1,
        y: 1,
    });
    first.flags.push(Flag {
        name: "b".to_string(),
        primary_color: 3,
        secondary_color: 4,
        x: 2,
        y: 2,
    });
    assert!(room.update(first).is_ok());
    assert_eq!(room.flags.len(), 2);

    let second = empty_update();
    assert!(room.update(second).is_ok());
    assert_eq!(room.flags.len(), 0);
}

#[test]
fn game_time_survives_even_absent_updates() {
    let mut room = fresh_room("W1N1");
    let mut first = empty_update();
    first.game_time = Some(100);
    assert!(room.update(first).is_ok());
    assert_eq!(room.last_update_time(), Some(100));

    assert!(room.update(empty_update()).is_ok());
    assert_eq!(room.last_update_time(), Some(100));

    let mut third = empty_update();
    third.game_time = Some(250);
    assert!(room.update(third).is_ok());
    assert_eq!(room.last_update_time(), Some(250));
}

#[test]
fn users_follow_the_object_policy() {
    let mut room = fresh_room("W1N1");
    let mut first = empty_update();
    first.users.push(("u1".to_string(), Some(UserPatch { username: Some("alice".to_string()) })));
    first.users.push(("u2".to_string(), Some(UserPatch { username: None })));
    assert!(room.update(first).is_ok());
    assert_eq!(room.users.len(), 2);

    let mut second = empty_update();
    second.users.push(("u2".to_string(), Some(UserPatch { username: Some("bob".to_string()) })));
    second.users.push(("u1".to_string(), None));
    assert!(room.update(second).is_ok());
    assert_eq!(room.users.len(), 1);
    assert_eq!(room.users[0].0, "u2");
    assert_eq!(room.users[0].1.username, Some("bob".to_string()));
}

#[test]
fn reapplying_a_two_entry_update_changes_nothing() {
    let mut room = fresh_room("W1N1");
    let mut create = empty_update();
    create.objects.push(("a".to_string(), Some(creep_patch(1, 1))));
    create.objects.push(("b".to_string(), Some(creep_patch(2, 2))));
    assert!(room.update(create).is_ok());

    let terminal = |hits: i32| {
        let mut u = empty_update();
        let mut pa = ObjectPatch::empty();
        pa.hits = Some(hits);
        u.objects.push(("a".to_string(), Some(pa)));
        let mut pb = ObjectPatch::empty();
        pb.energy = Some(3);
        u.objects.push(("b".to_string(), Some(pb)));
        u
    };
    assert!(room.update(terminal(5)).is_ok());
    let a1 = (room.get_object("a").unwrap().hits, room.get_object("a").unwrap().x);
    let b1 = (room.get_object("b").unwrap().energy, room.get_object("b").unwrap().y);

    assert!(room.update(terminal(5)).is_ok());
    let a2 = (room.get_object("a").unwrap().hits, room.get_object("a").unwrap().x);
    let b2 = (room.get_object("b").unwrap().energy, room.get_object("b").unwrap().y);
    assert_eq!(a1, a2);
    assert_eq!(b1, b2);
}
