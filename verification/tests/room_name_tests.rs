use srv::room::RoomId;
use srv::room_name::RoomName;

#[test]
fn parses_simple_west_north_name() {
    let r = RoomName::parse("W1N1").unwrap();
    assert_eq!(r.x_coord, -2);
    assert_eq!(r.y_coord, 1);
}

#[test]
fn parses_east_south_name() {
    let r = RoomName::parse("E0S0").unwrap();
    assert_eq!(r.x_coord, 0);
    assert_eq!(r.y_coord, -1);
}

#[test]
fn parse_is_case_insensitive() {
    assert_eq!(RoomName::parse("w12s3"), RoomName::parse("W12S3"));
    assert!(RoomName::parse("w12s3").is_some());
}

#[test]
fn parse_rejects_malformed_names() {
    assert!(RoomName::parse("").is_none());
    assert!(RoomName::parse("W1").is_none());
    assert!(RoomName::parse("1N1").is_none());
    assert!(RoomName::parse("WN1").is_none());
    assert!(RoomName::parse("W1N").is_none());
    assert!(RoomName::parse("W1X1").is_none());
    assert!(RoomName::parse("W1N1x").is_none());
    assert!(RoomName::parse("W-1N1").is_none());
}

#[test]
fn parse_rejects_oversized_magnitudes() {
    // the east edge of the nameable grid is one room wider than the west one
    assert!(RoomName::parse("E2147483647N0").is_some());
    assert!(RoomName::parse("W2147483646N0").is_some());
    assert!(RoomName::parse("W2147483647N0").is_none());
    assert!(RoomName::parse("W2147483648N0").is_none());
    assert!(RoomName::parse("E0S2147483647").is_none());
}

#[test]
fn display_renders_quadrants() {
    let r = RoomName { x_coord: -2, y_coord: 1 };
    assert_eq!(r.display_string(), "W1N1");
    let r = RoomName { x_coord: 0, y_coord: -1 };
    assert_eq!(r.display_string(), "E0S0");
}

#[test]
fn display_then_parse_round_trips() {
    let names = vec![
        RoomName { x_coord: 0, y_coord: 0 },
        RoomName { x_coord: -1, y_coord: -1 },
        RoomName { x_coord: 25, y_coord: -30 },
        RoomName { x_coord: -100, y_coord: 7 },
    ];
    for n in names {
        let shown = n.display_string();
        assert_eq!(RoomName::parse(shown.as_str()), Some(n));
    }
}

#[test]
fn offset_moves_across_the_grid() {
    let r = RoomName::parse("E0N0").unwrap();
    let west = r.offset(-1, 0).unwrap();
    assert_eq!(west.display_string(), "W0N0");
    let north = r.offset(0, 2).unwrap();
    assert_eq!(north.display_string(), "E0N2");
}

#[test]
fn offset_reports_overflow() {
    let r = RoomName { x_coord: i32::MAX, y_coord: 0 };
    assert!(r.offset(1, 0).is_none());
    // the step onto the unnameable west edge is refused too
    let edge = RoomName { x_coord: i32::MIN + 1, y_coord: 0 };
    assert!(edge.offset(-1, 0).is_none());
}

#[test]
fn shard_distinguishes_room_identity() {
    let name = RoomName::parse("W1N1").unwrap();
    let with_shard = RoomId::new(Some("shard3".to_string()), name);
    let without_shard = RoomId::new(None, name);
    assert!(with_shard != without_shard);
    let same = RoomId::new(Some("shard3".to_string()), name);
    assert!(with_shard == same);
    let other_shard = RoomId::new(Some("shard0".to_string()), name);
    assert!(with_shard != other_shard);
}

#[test]
fn room_id_displays_with_shard() {
    let name = RoomName::parse("W1N1").unwrap();
    let id = RoomId::new(Some("shard3".to_string()), name);
    assert_eq!(id.display_string(), "shard3:W1N1");
    let bare = RoomId::new(None, name);
    assert_eq!(bare.display_string(), "W1N1");
}
