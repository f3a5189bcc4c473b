use screeps_api::websocket::commands;
use screeps_api::websocket::Channel;
use srv::frames::action_frame;
use srv::room::RoomId;
use srv::room_name::RoomName;
use srv::session::SessionAction;

fn room_id(shard: Option<&str>, room: &str) -> RoomId {
    RoomId::new(shard.map(|s| s.to_string()), RoomName::parse(room).unwrap())
}

fn api_room_name(room: &str) -> screeps_api::RoomName {
    screeps_api::RoomName::new(room).unwrap()
}

#[test]
fn auth_frames_match_the_protocol_library() {
    let frame = action_frame(&SessionAction::SendAuth("token-xyz".to_string())).unwrap();
    assert_eq!(frame, commands::authenticate(b"token-xyz"));
    // the frame is sockjs-wrapped text, not the bare token
    assert!(frame != "token-xyz");
    assert!(frame.contains("auth"));
}

#[test]
fn subscribe_frames_match_the_protocol_library() {
    let frame =
        action_frame(&SessionAction::SendSubscribe(room_id(Some("shard0"), "W1N1"))).unwrap();
    let expected =
        commands::subscribe(&Channel::room_detail(api_room_name("W1N1"), Some("shard0")));
    assert_eq!(frame, expected);

    let bare = action_frame(&SessionAction::SendSubscribe(room_id(None, "E2S3"))).unwrap();
    let expected_bare =
        commands::subscribe(&Channel::room_detail(api_room_name("E2S3"), None::<&str>));
    assert_eq!(bare, expected_bare);
}

#[test]
fn unsubscribe_frames_match_the_protocol_library() {
    let frame =
        action_frame(&SessionAction::SendUnsubscribe(room_id(Some("shard0"), "W1N1"))).unwrap();
    let expected =
        commands::unsubscribe(&Channel::room_detail(api_room_name("W1N1"), Some("shard0")));
    assert_eq!(frame, expected);
}

#[test]
fn only_frame_actions_render_frames() {
    assert!(action_frame(&SessionAction::Connect).is_none());
    assert!(action_frame(&SessionAction::FetchShardList).is_none());
    assert!(action_frame(&SessionAction::SendPong(vec![1])).is_none());
}
