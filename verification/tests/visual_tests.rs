use srv::objects::{Flag, ObjectPatch, RoomObjectType};
use srv::room::{Room, RoomId, RoomUpdate, Terrain, TerrainType};
use srv::room_name::RoomName;
use srv::visual::{InterestingTerrainType, VisualObject};

fn terrain_with(name: RoomName, cells: &[(usize, usize, TerrainType)]) -> Terrain {
    let mut rows = vec![vec![TerrainType::Plains; 50]; 50];
    for (x, y, t) in cells {
        rows[*y][*x] = *t;
    }
    Terrain::new(name, rows).unwrap()
}

fn room_with_terrain(cells: &[(usize, usize, TerrainType)]) -> Room {
    let name = RoomName::parse("W1N1").unwrap();
    Room::new(RoomId::new(None, name), terrain_with(name, cells))
}

fn empty_update() -> RoomUpdate {
    RoomUpdate { game_time: None, objects: Vec::new(), flags: Vec::new(), users: Vec::new() }
}

fn object_patch(ty: RoomObjectType, x: u32, y: u32) -> ObjectPatch {
    let mut p = ObjectPatch::empty();
    p.ty = Some(ty);
    p.x = Some(x);
    p.y = Some(y);
    p
}

fn glyph_at(row: &str, x: usize) -> char {
    row.chars().nth(x).unwrap()
}

#[test]
fn from_terrain_keeps_only_interesting_kinds() {
    assert_eq!(InterestingTerrainType::from_terrain(TerrainType::Plains), None);
    assert_eq!(
        InterestingTerrainType::from_terrain(TerrainType::Swamp),
        Some(InterestingTerrainType::Swamp)
    );
    assert_eq!(
        InterestingTerrainType::from_terrain(TerrainType::Wall),
        Some(InterestingTerrainType::Wall)
    );
    assert_eq!(
        InterestingTerrainType::from_terrain(TerrainType::SwampyWall),
        Some(InterestingTerrainType::Wall)
    );
}

#[test]
fn symbols_match_the_glyph_table() {
    let swamp = VisualObject::InterestingTerrain { x: 0, y: 0, ty: InterestingTerrainType::Swamp };
    assert_eq!(swamp.to_symbol(), "⌇");
    let wall = VisualObject::InterestingTerrain { x: 0, y: 0, ty: InterestingTerrainType::Wall };
    assert_eq!(wall.to_symbol(), "█");
    let flag = VisualObject::Flag(Flag {
        name: "f".to_string(),
        primary_color: 1,
        secondary_color: 1,
        x: 0,
        y: 0,
    });
    assert_eq!(flag.to_symbol(), "F");
}

#[test]
fn multiple_to_symbol_of_empty_cell_is_blank() {
    let empty: Vec<VisualObject> = Vec::new();
    assert_eq!(VisualObject::multiple_to_symbol(empty.as_slice()), " ");
}

#[test]
fn wall_below_creep_renders_creep() {
    let mut room = room_with_terrain(&[(3, 4, TerrainType::Wall)]);
    let mut update = empty_update();
    update.objects.push(("c1".to_string(), Some(object_patch(RoomObjectType::Creep, 3, 4))));
    assert!(room.update(update).is_ok());

    let visual = room.visualize();
    let rows = visual.rendered_rows.as_ref().unwrap();
    assert_eq!(glyph_at(&rows[4], 3), '●');

    // both entries share the cell, wall below, creep on top
    let cell = visual.cell(3, 4);
    assert_eq!(cell.len(), 2);
    assert!(matches!(cell[0], VisualObject::InterestingTerrain { .. }));
    assert!(matches!(cell[1], VisualObject::RoomObject(_)));
}

#[test]
fn terrain_renders_where_nothing_covers_it() {
    let room = room_with_terrain(&[(0, 0, TerrainType::Swamp), (49, 49, TerrainType::Wall)]);
    let visual = room.visualize();
    let rows = visual.rendered_rows.as_ref().unwrap();
    assert_eq!(rows.len(), 50);
    assert_eq!(glyph_at(&rows[0], 0), '⌇');
    assert_eq!(glyph_at(&rows[49], 49), '█');
    assert_eq!(glyph_at(&rows[0], 1), ' ');
}

#[test]
fn cell_orders_terrain_below_flags_below_objects() {
    let mut room = room_with_terrain(&[(7, 8, TerrainType::Swamp)]);
    let mut update = empty_update();
    update.objects.push(("ob".to_string(), Some(object_patch(RoomObjectType::Road, 7, 8))));
    update.flags.push(Flag {
        name: "flag1".to_string(),
        primary_color: 1,
        secondary_color: 1,
        x: 7,
        y: 8,
    });
    assert!(room.update(update).is_ok());

    let visual = room.visualize();
    let cell = visual.cell(7, 8);
    assert_eq!(cell.len(), 3);
    assert!(matches!(cell[0], VisualObject::InterestingTerrain { .. }));
    assert!(matches!(cell[1], VisualObject::Flag(_)));
    assert!(matches!(cell[2], VisualObject::RoomObject(_)));
    // the road still outranks the flag and the terrain in the glyph
    let rows = visual.rendered_rows.as_ref().unwrap();
    assert_eq!(glyph_at(&rows[8], 7), '╬');
}

#[test]
fn objects_in_one_cell_order_by_rank_then_id() {
    let mut room = room_with_terrain(&[]);
    let mut update = empty_update();
    update.objects.push(("zz".to_string(), Some(object_patch(RoomObjectType::Creep, 1, 1))));
    update.objects.push(("aa".to_string(), Some(object_patch(RoomObjectType::Creep, 1, 1))));
    update.objects.push(("mm".to_string(), Some(object_patch(RoomObjectType::Road, 1, 1))));
    assert!(room.update(update).is_ok());

    let visual = room.visualize();
    let cell = visual.cell(1, 1);
    let ids: Vec<&str> = cell
        .iter()
        .map(|v| match v {
            VisualObject::RoomObject(o) => o.id.as_str(),
            _ => panic!("expected only room objects"),
        })
        .collect();
    assert_eq!(ids, vec!["mm", "aa", "zz"]);
}

#[test]
fn visualize_twice_is_identical() {
    let mut room = room_with_terrain(&[(3, 4, TerrainType::Wall), (10, 20, TerrainType::Swamp)]);
    let mut update = empty_update();
    update.game_time = Some(9);
    update.objects.push(("c1".to_string(), Some(object_patch(RoomObjectType::Creep, 3, 4))));
    update.objects.push(("s1".to_string(), Some(object_patch(RoomObjectType::Source, 10, 20))));
    update.flags.push(Flag {
        name: "f".to_string(),
        primary_color: 1,
        secondary_color: 2,
        x: 10,
        y: 20,
    });
    assert!(room.update(update).is_ok());

    let first = room.visualize();
    let second = room.visualize();
    assert_eq!(first.rendered_rows, second.rendered_rows);
    assert_eq!(first.last_update_time, second.last_update_time);
    for x in 0..50 {
        for y in 0..50 {
            assert_eq!(first.cell(x, y), second.cell(x, y));
        }
    }
}

#[test]
fn visual_snapshot_carries_identity_and_time() {
    let mut room = room_with_terrain(&[]);
    let mut update = empty_update();
    update.game_time = Some(123);
    assert!(room.update(update).is_ok());
    let visual = room.visualize();
    assert_eq!(visual.last_update_time, Some(123));
    assert_eq!(visual.room_id.display_string(), "W1N1");
}

#[test]
fn visual_object_equality_ignores_object_details() {
    let mut left = object_patch(RoomObjectType::Creep, 1, 1);
    left.hits = Some(1);
    let mut right = object_patch(RoomObjectType::Creep, 2, 2);
    right.hits = Some(99);
    let a = srv::objects::RoomObject::from_patch("same".to_string(), &left).unwrap();
    let b = srv::objects::RoomObject::from_patch("same".to_string(), &right).unwrap();
    assert!(VisualObject::RoomObject(a) == VisualObject::RoomObject(b));

    let c = srv::objects::RoomObject::from_patch("other".to_string(), &left).unwrap();
    let d = srv::objects::RoomObject::from_patch("same".to_string(), &left).unwrap();
    assert!(VisualObject::RoomObject(c) != VisualObject::RoomObject(d));
}

#[test]
fn of_names_an_objects_kind() {
    let p = object_patch(RoomObjectType::Creep, 1, 1);
    let o = srv::objects::RoomObject::from_patch("c".to_string(), &p).unwrap();
    assert_eq!(RoomObjectType::of(&o), RoomObjectType::Creep);
    assert_eq!(RoomObjectType::Creep.rank(), 24);
    assert_eq!(RoomObjectType::Road.rank(), 0);
}
