use srv::dec::u32_string;
use srv::info::{fmt_disabled, fmt_energy, fmt_hits, fmt_hits_inf, fmt_id, info, InfoInfo};
use srv::objects::{Flag, ObjectPatch, RoomObject, RoomObjectType, UserInfo};
use srv::room::ConnectionState;
use srv::visual::{InterestingTerrainType, VisualObject};

#[test]
fn decimal_rendering_is_exact() {
    assert_eq!(u32_string(0), "0");
    assert_eq!(u32_string(7), "7");
    assert_eq!(u32_string(12345), "12345");
    assert_eq!(u32_string(4294967295), "4294967295");
}

#[test]
fn fmt_id_line() {
    assert_eq!(fmt_id("abc123"), " id: abc123\n");
}

#[test]
fn fmt_hits_line() {
    assert_eq!(fmt_hits(100, 200), " hits: 100/200\n");
    assert_eq!(fmt_hits(-5, 10), " hits: -5/10\n");
}

#[test]
fn fmt_hits_inf_shows_the_maximum_only_near_it() {
    assert_eq!(fmt_hits_inf(91, 100), " hits: 91/100\n");
    // exactly nine tenths is not "near": the maximum is hidden
    assert_eq!(fmt_hits_inf(90, 100), "hits: 90\n");
    assert_eq!(fmt_hits_inf(1, 300000000), "hits: 1\n");
}

#[test]
fn fmt_energy_line() {
    assert_eq!(fmt_energy(50, 300), " energy: 50/300\n");
}

#[test]
fn fmt_disabled_line_only_when_disabled() {
    assert_eq!(fmt_disabled(true), " --disabled--\n");
    assert_eq!(fmt_disabled(false), "");
}

#[test]
fn connection_states_have_display_text() {
    assert_eq!(ConnectionState::Disconnected.display_string(), "disconnected");
    assert_eq!(ConnectionState::Authenticating.display_string(), "authenticating...");
    assert_eq!(ConnectionState::Connected.display_string(), "connected");
    assert_eq!(
        ConnectionState::Error.display_string(),
        "network error occurred, see log"
    );
}

fn source_with_owner() -> RoomObject {
    let mut p = ObjectPatch::empty();
    p.ty = Some(RoomObjectType::Source);
    p.x = Some(1);
    p.y = Some(2);
    p.energy = Some(50);
    p.energy_capacity = Some(300);
    p.user = Some("u1".to_string());
    RoomObject::from_patch("idsrc".to_string(), &p).unwrap()
}

#[test]
fn info_describes_a_whole_cell() {
    let users = vec![
        ("u1".to_string(), UserInfo { username: Some("alice".to_string()) }),
        ("u2".to_string(), UserInfo { username: None }),
    ];
    let state = InfoInfo::new(100, &users);
    let things = vec![
        VisualObject::InterestingTerrain { x: 1, y: 2, ty: InterestingTerrainType::Swamp },
        VisualObject::Flag(Flag {
            name: "home".to_string(),
            primary_color: 1,
            secondary_color: 1,
            x: 1,
            y: 2,
        }),
        VisualObject::RoomObject(source_with_owner()),
    ];
    let text = info(&things, &state);
    assert_eq!(
        text,
        "terrain: swamp\nflag home\n[alice] source:\n id: idsrc\n energy: 50/300\n"
    );
}

#[test]
fn info_falls_back_to_the_user_id() {
    let users = vec![("u2".to_string(), UserInfo { username: None })];
    let state = InfoInfo::new(0, &users);
    let mut p = ObjectPatch::empty();
    p.ty = Some(RoomObjectType::Tower);
    p.x = Some(0);
    p.y = Some(0);
    p.user = Some("u2".to_string());
    p.hits = Some(10);
    p.hits_max = Some(10);
    p.disabled = Some(true);
    let tower = RoomObject::from_patch("t1".to_string(), &p).unwrap();
    let things = vec![VisualObject::RoomObject(tower)];
    let text = info(&things, &state);
    assert_eq!(
        text,
        "[user u2] tower:\n id: t1\n hits: 10/10\n --disabled--\n"
    );
}

#[test]
fn info_uses_the_wall_hit_rendering_for_walls() {
    let users: Vec<(String, UserInfo)> = Vec::new();
    let state = InfoInfo::new(0, &users);
    let mut p = ObjectPatch::empty();
    p.ty = Some(RoomObjectType::Wall);
    p.x = Some(0);
    p.y = Some(0);
    p.hits = Some(100);
    p.hits_max = Some(300000000);
    let wall = RoomObject::from_patch("w1".to_string(), &p).unwrap();
    let things = vec![VisualObject::RoomObject(wall)];
    assert_eq!(info(&things, &state), "wall:\n id: w1\nhits: 100\n");
}

#[test]
fn creep_headings_carry_the_name() {
    let users: Vec<(String, UserInfo)> = Vec::new();
    let state = InfoInfo::new(0, &users);
    let mut p = ObjectPatch::empty();
    p.ty = Some(RoomObjectType::Creep);
    p.x = Some(0);
    p.y = Some(0);
    p.name = Some("bob".to_string());
    let creep = RoomObject::from_patch("c1".to_string(), &p).unwrap();
    let things = vec![VisualObject::RoomObject(creep)];
    assert_eq!(info(&things, &state), "creep bob:\n id: c1\n");
}
