use srv::cursor::{cursor_step, wrap50};

#[test]
fn wrap_keeps_in_room_coordinates() {
    assert_eq!(wrap50(0), (0, 0));
    assert_eq!(wrap50(25), (0, 25));
    assert_eq!(wrap50(49), (0, 49));
    assert_eq!(wrap50(50), (1, 0));
    assert_eq!(wrap50(-1), (-1, 49));
    assert_eq!(wrap50(-50), (-1, 0));
    assert_eq!(wrap50(-51), (-2, 49));
}

#[test]
fn moving_inside_the_room_changes_no_room() {
    assert_eq!(cursor_step(25, 25), ((25, 25), None));
    assert_eq!(cursor_step(0, 49), ((0, 49), None));
}

#[test]
fn crossing_the_west_edge_moves_one_room_west() {
    assert_eq!(cursor_step(-1, 10), ((49, 10), Some((-1, 0))));
}

#[test]
fn crossing_the_top_edge_moves_one_room_north() {
    // rows grow downward on screen, so leaving upward means north
    assert_eq!(cursor_step(10, -1), ((10, 49), Some((0, 1))));
}

#[test]
fn crossing_both_edges_moves_diagonally() {
    assert_eq!(cursor_step(52, 75), ((2, 25), Some((1, -1))));
}
