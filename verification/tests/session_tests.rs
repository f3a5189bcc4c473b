use srv::objects::ObjectPatch;
use srv::objects::RoomObjectType;
use srv::room::{ConnectionState, Room, RoomId, RoomUpdate, Terrain, TerrainType};
use srv::room_name::RoomName;
use srv::session::{
    initial_room_choice, start_room_from_response, Command, ServerMessage, Session, SessionAction,
    SessionError, SessionEvent, StartRoomChoice,
};

fn plain_terrain(name: RoomName) -> Terrain {
    Terrain::new(name, vec![vec![TerrainType::Plains; 50]; 50]).unwrap()
}

fn subscribed_session(shard: Option<&str>, room: &str) -> Session {
    let name = RoomName::parse(room).unwrap();
    let id = RoomId::new(shard.map(|s| s.to_string()), name);
    let replica = Room::new(id, plain_terrain(name));
    Session::new("token-0".to_string(), replica)
}

fn empty_update() -> RoomUpdate {
    RoomUpdate { game_time: None, objects: Vec::new(), flags: Vec::new(), users: Vec::new() }
}

fn full_creep_patch(x: u32, y: u32) -> ObjectPatch {
    let mut p = ObjectPatch::empty();
    p.ty = Some(RoomObjectType::Creep);
    p.x = Some(x);
    p.y = Some(y);
    p
}

fn detail_for(shard: Option<&str>, room: &str, update: RoomUpdate) -> SessionEvent {
    let name = RoomName::parse(room).unwrap();
    SessionEvent::Message(ServerMessage::RoomDetail {
        room: RoomId::new(shard.map(|s| s.to_string()), name),
        update,
    })
}

#[test]
fn opening_authenticates_and_subscribes() {
    let mut session = subscribed_session(Some("s1"), "W1N1");
    let start = session.start();
    assert_eq!(start.len(), 1);
    assert!(matches!(start[0], SessionAction::Connect));

    let acts = session.handle_event(SessionEvent::Opened);
    assert_eq!(session.conn_state, ConnectionState::Authenticating);
    assert_eq!(acts.len(), 3);
    assert!(matches!(
        acts[0],
        SessionAction::SetConnState(ConnectionState::Authenticating)
    ));
    match &acts[1] {
        SessionAction::SendAuth(token) => assert_eq!(token, "token-0"),
        other => panic!("expected an auth frame, got {:?}", action_name(other)),
    }
    match &acts[2] {
        SessionAction::SendSubscribe(id) => assert_eq!(id.display_string(), "s1:W1N1"),
        other => panic!("expected a subscribe frame, got {:?}", action_name(other)),
    }
}

fn action_name(a: &SessionAction) -> &'static str {
    match a {
        SessionAction::Connect => "Connect",
        SessionAction::SendAuth(_) => "SendAuth",
        SessionAction::SendSubscribe(_) => "SendSubscribe",
        SessionAction::SendUnsubscribe(_) => "SendUnsubscribe",
        SessionAction::SendPong(_) => "SendPong",
        SessionAction::FetchTerrain(_) => "FetchTerrain",
        SessionAction::FetchShardList => "FetchShardList",
        SessionAction::PushRoom(_) => "PushRoom",
        SessionAction::SetConnState(_) => "SetConnState",
        SessionAction::Warn(_) => "Warn",
        SessionAction::Fatal(_) => "Fatal",
    }
}

#[test]
fn auth_ok_stores_the_new_token() {
    let mut session = subscribed_session(Some("s1"), "W1N1");
    session.handle_event(SessionEvent::Opened);
    let acts = session.handle_event(SessionEvent::Message(ServerMessage::AuthOk {
        new_token: "token-1".to_string(),
    }));
    assert_eq!(session.conn_state, ConnectionState::Connected);
    assert_eq!(session.token, "token-1");
    assert_eq!(acts.len(), 1);
    assert!(matches!(acts[0], SessionAction::SetConnState(ConnectionState::Connected)));

    // the next connection round authenticates with the stored token
    session.handle_event(SessionEvent::StreamEnded);
    let reopened = session.handle_event(SessionEvent::Opened);
    match &reopened[1] {
        SessionAction::SendAuth(token) => assert_eq!(token, "token-1"),
        other => panic!("expected an auth frame, got {:?}", action_name(other)),
    }
}

#[test]
fn scenario_auth_then_update_builds_the_replica() {
    let mut session = subscribed_session(Some("s1"), "W1N1");
    session.handle_event(SessionEvent::Opened);
    session.handle_event(SessionEvent::Message(ServerMessage::AuthOk {
        new_token: "token-1".to_string(),
    }));

    let mut update = empty_update();
    update.objects.push(("abc".to_string(), Some(full_creep_patch(4, 5))));
    let acts = session.handle_event(detail_for(Some("s1"), "W1N1", update));
    assert!(session.room.get_object("abc").is_some());
    assert_eq!(acts.len(), 1);
    match &acts[0] {
        SessionAction::PushRoom(v) => {
            let rows = v.rendered_rows.as_ref().unwrap();
            assert_eq!(rows[5].chars().nth(4).unwrap(), '●');
        },
        other => panic!("expected a pushed room, got {:?}", action_name(other)),
    }

    let mut removal = empty_update();
    removal.objects.push(("abc".to_string(), None));
    session.handle_event(detail_for(Some("s1"), "W1N1", removal));
    assert!(session.room.get_object("abc").is_none());
}

#[test]
fn scenario_wrong_room_update_only_warns() {
    let mut session = subscribed_session(Some("s1"), "W1N1");
    session.handle_event(SessionEvent::Opened);
    session.handle_event(SessionEvent::Message(ServerMessage::AuthOk {
        new_token: "token-1".to_string(),
    }));

    let mut update = empty_update();
    update.objects.push(("abc".to_string(), Some(full_creep_patch(4, 5))));
    let acts = session.handle_event(detail_for(Some("s2"), "W2N2", update));

    assert!(session.room.get_object("abc").is_none());
    assert_eq!(session.conn_state, ConnectionState::Connected);
    assert_eq!(acts.len(), 1);
    match &acts[0] {
        SessionAction::Warn(msg) => {
            assert_eq!(msg, "received update for wrong room: expected s1:W1N1, found s2:W2N2");
        },
        other => panic!("expected a warning, got {:?}", action_name(other)),
    }
}

#[test]
fn scenario_change_room_replaces_the_replica() {
    let mut session = subscribed_session(None, "W1N1");
    session.handle_event(SessionEvent::Opened);
    let mut update = empty_update();
    update.objects.push(("abc".to_string(), Some(full_creep_patch(4, 5))));
    session.handle_event(detail_for(None, "W1N1", update));
    assert!(session.room.get_object("abc").is_some());

    let new_name = RoomName::parse("W5N5").unwrap();
    let new_id = RoomId::new(None, new_name);
    let acts = session.handle_event(SessionEvent::Cmd(Command::ChangeRoom(new_id)));
    assert_eq!(acts.len(), 1);
    match &acts[0] {
        SessionAction::FetchTerrain(id) => assert_eq!(id.display_string(), "W5N5"),
        other => panic!("expected a terrain fetch, got {:?}", action_name(other)),
    }

    let fetched = SessionEvent::TerrainFetched(
        RoomId::new(None, new_name),
        plain_terrain(new_name),
    );
    let acts = session.handle_event(fetched);
    assert_eq!(acts.len(), 2);
    match &acts[0] {
        SessionAction::SendUnsubscribe(id) => assert_eq!(id.display_string(), "W1N1"),
        other => panic!("expected an unsubscribe frame, got {:?}", action_name(other)),
    }
    match &acts[1] {
        SessionAction::SendSubscribe(id) => assert_eq!(id.display_string(), "W5N5"),
        other => panic!("expected a subscribe frame, got {:?}", action_name(other)),
    }
    assert_eq!(session.room.room_id().display_string(), "W5N5");
    assert!(session.room.get_object("abc").is_none());
    assert_eq!(session.room.last_update_time(), None);
}

#[test]
fn scenario_stream_end_reconnects_promptly() {
    let mut session = subscribed_session(None, "W1N1");
    session.handle_event(SessionEvent::Opened);
    let acts = session.handle_event(SessionEvent::StreamEnded);
    assert_eq!(session.conn_state, ConnectionState::Disconnected);
    assert_eq!(acts.len(), 2);
    assert!(matches!(
        acts[0],
        SessionAction::SetConnState(ConnectionState::Disconnected)
    ));
    assert!(matches!(acts[1], SessionAction::Connect));

    // disconnected is shown before the next round authenticates
    let reopened = session.handle_event(SessionEvent::Opened);
    assert_eq!(session.conn_state, ConnectionState::Authenticating);
    assert!(matches!(
        reopened[0],
        SessionAction::SetConnState(ConnectionState::Authenticating)
    ));
}

#[test]
fn reconnect_command_acts_like_stream_end() {
    let mut session = subscribed_session(None, "W1N1");
    session.handle_event(SessionEvent::Opened);
    let acts = session.handle_event(SessionEvent::Cmd(Command::Reconnect));
    assert_eq!(session.conn_state, ConnectionState::Disconnected);
    assert_eq!(acts.len(), 2);
    assert!(matches!(acts[1], SessionAction::Connect));
}

#[test]
fn auth_failure_is_fatal_and_final() {
    let mut session = subscribed_session(None, "W1N1");
    session.handle_event(SessionEvent::Opened);
    let acts = session.handle_event(SessionEvent::Message(ServerMessage::AuthFailed));
    assert_eq!(session.conn_state, ConnectionState::Error);
    assert_eq!(acts.len(), 2);
    assert!(matches!(acts[0], SessionAction::SetConnState(ConnectionState::Error)));
    assert!(matches!(acts[1], SessionAction::Fatal(SessionError::AuthRejected)));

    // the error state is a sink: nothing more happens
    let after = session.handle_event(SessionEvent::StreamEnded);
    assert!(after.is_empty());
    assert_eq!(session.conn_state, ConnectionState::Error);
}

#[test]
fn bad_frame_is_fatal() {
    let mut session = subscribed_session(None, "W1N1");
    session.handle_event(SessionEvent::Opened);
    let acts = session.handle_event(SessionEvent::BadFrame("garbage".to_string()));
    assert_eq!(session.conn_state, ConnectionState::Error);
    match &acts[1] {
        SessionAction::Fatal(SessionError::BadFrame(t)) => assert_eq!(t, "garbage"),
        other => panic!("expected a fatal error, got {:?}", action_name(other)),
    }
}

#[test]
fn merge_failure_is_fatal() {
    let mut session = subscribed_session(None, "W1N1");
    session.handle_event(SessionEvent::Opened);
    let mut update = empty_update();
    update.objects.push(("broken".to_string(), Some(ObjectPatch::empty())));
    let acts = session.handle_event(detail_for(None, "W1N1", update));
    assert_eq!(session.conn_state, ConnectionState::Error);
    match &acts[1] {
        SessionAction::Fatal(SessionError::Merge(e)) => assert_eq!(e.id, "broken"),
        other => panic!("expected a fatal merge error, got {:?}", action_name(other)),
    }
}

#[test]
fn fetch_failure_is_fatal() {
    let mut session = subscribed_session(None, "W1N1");
    session.handle_event(SessionEvent::Opened);
    let acts = session.handle_event(SessionEvent::FetchFailed("timed out".to_string()));
    assert_eq!(session.conn_state, ConnectionState::Error);
    match &acts[1] {
        SessionAction::Fatal(SessionError::Fetch(m)) => assert_eq!(m, "timed out"),
        other => panic!("expected a fatal fetch error, got {:?}", action_name(other)),
    }
}

#[test]
fn ping_is_answered_with_its_payload() {
    let mut session = subscribed_session(None, "W1N1");
    session.handle_event(SessionEvent::Opened);
    let acts = session.handle_event(SessionEvent::Ping(vec![1, 2, 3]));
    assert_eq!(acts.len(), 1);
    match &acts[0] {
        SessionAction::SendPong(d) => assert_eq!(d, &vec![1, 2, 3]),
        other => panic!("expected a pong, got {:?}", action_name(other)),
    }
}

#[test]
fn change_shard_keeps_the_room_name() {
    let mut session = subscribed_session(Some("s1"), "W1N1");
    session.handle_event(SessionEvent::Opened);
    let acts = session.handle_event(SessionEvent::Cmd(Command::ChangeShard("s9".to_string())));
    assert_eq!(acts.len(), 1);
    match &acts[0] {
        SessionAction::FetchTerrain(id) => assert_eq!(id.display_string(), "s9:W1N1"),
        other => panic!("expected a terrain fetch, got {:?}", action_name(other)),
    }
}

#[test]
fn fetch_shard_names_asks_for_the_list() {
    let mut session = subscribed_session(Some("s1"), "W1N1");
    let acts = session.handle_event(SessionEvent::Cmd(Command::FetchShardNames));
    assert_eq!(acts.len(), 1);
    assert!(matches!(acts[0], SessionAction::FetchShardList));
}

#[test]
fn initial_room_choice_prefers_explicit_configuration() {
    let name = RoomName::parse("E5S5").unwrap();
    match initial_room_choice(Some("s1".to_string()), Some(name)) {
        StartRoomChoice::Use(id) => assert_eq!(id.display_string(), "s1:E5S5"),
        _ => panic!("expected a direct room choice"),
    }
    match initial_room_choice(Some("s1".to_string()), None) {
        StartRoomChoice::NeedShardStart(s) => assert_eq!(s, "s1"),
        _ => panic!("expected a shard start query"),
    }
    assert!(matches!(initial_room_choice(None, None), StartRoomChoice::NeedWorldStart));
}

#[test]
fn start_room_response_must_parse() {
    let id = start_room_from_response(Some("s2".to_string()), "E1N8").unwrap();
    assert_eq!(id.display_string(), "s2:E1N8");
    assert!(start_room_from_response(None, "nonsense").is_none());
}
