//! The session state machine: one network session at a time, event-driven.
//!
//! The embedding binary owns the transport, the HTTP client and the UI; the
//! machine owns every decision.  The binary hands each arrival — a decoded
//! application message, a transport frame, a command from the UI, a fetch
//! result — to `handle_event`, in arrival order, and performs the returned
//! actions: opening the transport, sending frames, fetching terrain, and
//! pushing state to the UI.  A transport failure reconnects; authentication
//! rejection, undecodable frames, merge failures and failed fetches are
//! fatal and put the machine into its `Error` sink state for good.

use vstd::prelude::*;
use vstd::string::*;

use crate::objects::opt_str_view;
use crate::room::{
    fresh_room_model, spec_apply, spec_apply_error, ConnectionState, MergeError, MergeErrorModel,
    Room, RoomId, RoomIdModel, RoomModel, RoomUpdate, Terrain,
};
use crate::room_name::RoomName;
use crate::visual::{spec_visualize, VisualRoom, VisualRoomModel};

verus! {

/// A command the UI injects into the session loop.
#[derive(Debug)]
pub enum Command {
    /// Tear the transport down and reconnect.
    Reconnect,
    /// Switch the subscription to another room.
    ChangeRoom(RoomId),
    /// Switch the subscription to the same room on another shard.
    ChangeShard(String),
    /// Ask the server for the list of shard names.
    FetchShardNames,
}

/// One decoded application message from the server.
#[derive(Debug)]
pub enum ServerMessage {
    /// The server rejected the bearer token.
    AuthFailed,
    /// The server accepted authentication and issued a fresh token.
    AuthOk {
        /// The token every later authentication must carry.
        new_token: String,
    },
    /// One incremental update from a room's detail channel.
    RoomDetail {
        /// The room the update describes.
        room: RoomId,
        /// The delta to apply.
        update: RoomUpdate,
    },
    /// Anything else: server metadata and unrelated channels, observed for
    /// diagnostics only.
    Other,
}

/// One arrival the embedding binary hands to the machine.
#[derive(Debug)]
pub enum SessionEvent {
    /// The transport connection opened.
    Opened,
    /// A transport ping frame with its payload.
    Ping(Vec<u8>),
    /// A binary frame, which the protocol never uses.
    Binary,
    /// A transport close frame; the stream end will follow.
    Closed,
    /// One decoded application message.
    Message(ServerMessage),
    /// A text frame that could not be decoded; fatal.
    BadFrame(String),
    /// The transport stream ended.
    StreamEnded,
    /// A command from the UI.
    Cmd(Command),
    /// The terrain fetch for a room switch came back.
    TerrainFetched(RoomId, Terrain),
    /// A terrain or metadata fetch failed; fatal.
    FetchFailed(String),
}

/// An error that ends the session.
#[derive(Debug)]
pub enum SessionError {
    /// The server rejected authentication.
    AuthRejected,
    /// A frame failed to decode; the offending text.
    BadFrame(String),
    /// A delta failed to apply.
    Merge(MergeError),
    /// A terrain or metadata fetch failed; the reported reason.
    Fetch(String),
}

/// The mathematical value of a `SessionError`.
#[verifier::ext_equal]
pub enum SessionErrorModel {
    AuthRejected,
    BadFrame(Seq<char>),
    Merge(MergeErrorModel),
    Fetch(Seq<char>),
}

impl View for SessionError {
    type V = SessionErrorModel;

    open spec fn view(&self) -> SessionErrorModel {
        match self {
            SessionError::AuthRejected => SessionErrorModel::AuthRejected,
            SessionError::BadFrame(t) => SessionErrorModel::BadFrame(t@),
            SessionError::Merge(e) => SessionErrorModel::Merge(e@),
            SessionError::Fetch(m) => SessionErrorModel::Fetch(m@),
        }
    }
}

/// One action the machine asks the embedding binary to perform.
pub enum SessionAction {
    /// Open the transport connection to the configured endpoint.
    Connect,
    /// Send an authenticate frame carrying this bearer token.
    SendAuth(String),
    /// Send a subscribe frame for this room's detail channel.
    SendSubscribe(RoomId),
    /// Send an unsubscribe frame for this room's detail channel.
    SendUnsubscribe(RoomId),
    /// Answer a ping frame with this payload.
    SendPong(Vec<u8>),
    /// Fetch this room's terrain, then hand back `TerrainFetched`.
    FetchTerrain(RoomId),
    /// Fetch the shard name list for the UI.
    FetchShardList,
    /// Push a fresh visualization to the UI.
    PushRoom(VisualRoom),
    /// Show this connection state in the UI.
    SetConnState(ConnectionState),
    /// Log this soft warning.
    Warn(String),
    /// Report this fatal error and stop.
    Fatal(SessionError),
}

/// The mathematical value of a `SessionAction`.
#[verifier::ext_equal]
pub enum SessionActionModel {
    Connect,
    SendAuth(Seq<char>),
    SendSubscribe(RoomIdModel),
    SendUnsubscribe(RoomIdModel),
    SendPong(Seq<u8>),
    FetchTerrain(RoomIdModel),
    FetchShardList,
    PushRoom(VisualRoomModel),
    SetConnState(ConnectionState),
    Warn(Seq<char>),
    Fatal(SessionErrorModel),
}

impl View for SessionAction {
    type V = SessionActionModel;

    open spec fn view(&self) -> SessionActionModel {
        match self {
            SessionAction::Connect => SessionActionModel::Connect,
            SessionAction::SendAuth(t) => SessionActionModel::SendAuth(t@),
            SessionAction::SendSubscribe(r) => SessionActionModel::SendSubscribe(r@),
            SessionAction::SendUnsubscribe(r) => SessionActionModel::SendUnsubscribe(r@),
            SessionAction::SendPong(d) => SessionActionModel::SendPong(d@),
            SessionAction::FetchTerrain(r) => SessionActionModel::FetchTerrain(r@),
            SessionAction::FetchShardList => SessionActionModel::FetchShardList,
            SessionAction::PushRoom(v) => SessionActionModel::PushRoom(v@),
            SessionAction::SetConnState(c) => SessionActionModel::SetConnState(*c),
            SessionAction::Warn(m) => SessionActionModel::Warn(m@),
            SessionAction::Fatal(e) => SessionActionModel::Fatal(e@),
        }
    }
}

/// The values of a run of actions.
pub open spec fn actions_view(s: Seq<SessionAction>) -> Seq<SessionActionModel> {
    Seq::new(s.len(), |i: int| s[i]@)
}

/// The session state machine.
pub struct Session {
    /// The externally visible connection phase.
    pub conn_state: ConnectionState,
    /// The current bearer token, replaced by every `AuthOk`.
    pub token: String,
    /// The replica of the subscribed room.
    pub room: Room,
    /// The room a switch is heading to while its terrain fetch is in
    /// flight, and `None` otherwise.  The machine's own transitions do not
    /// branch on it — a fetched terrain is applied against whatever the
    /// state then is — but the contracts pin it, so an embedder can show an
    /// in-flight switch.
    pub pending_room: Option<RoomId>,
}

/// The mathematical value of a `Session`.
#[verifier::ext_equal]
pub struct SessionModel {
    pub conn_state: ConnectionState,
    pub token: Seq<char>,
    pub room: RoomModel,
    pub pending_room: Option<RoomIdModel>,
}

impl View for Session {
    type V = SessionModel;

    open spec fn view(&self) -> SessionModel {
        SessionModel {
            conn_state: self.conn_state,
            token: self.token@,
            room: self.room@,
            pending_room: match &self.pending_room {
                Some(r) => Some(r@),
                None => None,
            },
        }
    }
}

/// What the machine assumes of an arrival: a room-detail delta keeps its
/// positions inside the room, and a fetched terrain grid is full-sized and
/// belongs to the room it was fetched for.
pub open spec fn event_wf(ev: SessionEvent) -> bool {
    match ev {
        SessionEvent::Message(m) => match m {
            ServerMessage::RoomDetail { room, update } => update@.wf(),
            _ => true,
        },
        SessionEvent::TerrainFetched(id, terrain) => terrain@.wf() && terrain.room_name
            == id.room_name,
        _ => true,
    }
}

/// The soft warning for an update that names a room other than the
/// subscribed one.
pub open spec fn spec_warn_wrong_room(expected: RoomIdModel, found: RoomIdModel) -> Seq<char> {
    "received update for wrong room: expected "@ + expected.spec_display() + ", found "@
        + found.spec_display()
}

/// Renders the wrong-room warning.
fn warn_wrong_room(expected: &RoomId, found: &RoomId) -> (r: String)
    ensures
        r@ == spec_warn_wrong_room(expected@, found@),
{
    let mut s = String::from_str("received update for wrong room: expected ");
    let e = expected.display_string();
    s.append(e.as_str());
    s.append(", found ");
    let f = found.display_string();
    s.append(f.as_str());
    proof {
        assert(s@ =~= spec_warn_wrong_room(expected@, found@));
    }
    s
}

/// The machine's state after one arrival.
pub open spec fn spec_step_state(s: Session, ev: SessionEvent) -> SessionModel {
    if s.conn_state is Error {
        s@
    } else {
        match ev {
            SessionEvent::Opened => SessionModel {
                conn_state: ConnectionState::Authenticating,
                ..s@
            },
            SessionEvent::Ping(d) => s@,
            SessionEvent::Binary => s@,
            SessionEvent::Closed => s@,
            SessionEvent::Message(m) => match m {
                ServerMessage::AuthFailed => SessionModel { conn_state: ConnectionState::Error, ..s@ },
                ServerMessage::AuthOk { new_token } => SessionModel {
                    conn_state: ConnectionState::Connected,
                    token: new_token@,
                    ..s@
                },
                ServerMessage::RoomDetail { room: rid, update } => {
                    if rid@ == s.room.room@ {
                        let ap = spec_apply(s.room@, update@);
                        if ap.1 {
                            SessionModel { room: ap.0, ..s@ }
                        } else {
                            SessionModel { conn_state: ConnectionState::Error, room: ap.0, ..s@ }
                        }
                    } else {
                        s@
                    }
                },
                ServerMessage::Other => s@,
            },
            SessionEvent::BadFrame(t) => SessionModel { conn_state: ConnectionState::Error, ..s@ },
            SessionEvent::StreamEnded => SessionModel {
                conn_state: ConnectionState::Disconnected,
                ..s@
            },
            SessionEvent::Cmd(c) => match c {
                Command::Reconnect => SessionModel {
                    conn_state: ConnectionState::Disconnected,
                    ..s@
                },
                Command::ChangeRoom(id) => SessionModel { pending_room: Some(id@), ..s@ },
                Command::ChangeShard(sh) => SessionModel {
                    pending_room: Some(
                        RoomIdModel { shard: Some(sh@), room_name: s.room.room.room_name },
                    ),
                    ..s@
                },
                Command::FetchShardNames => s@,
            },
            SessionEvent::TerrainFetched(id, terrain) => SessionModel {
                room: fresh_room_model(id@, terrain@),
                pending_room: None,
                ..s@
            },
            SessionEvent::FetchFailed(m) => SessionModel { conn_state: ConnectionState::Error, ..s@ },
        }
    }
}

/// The actions one arrival produces.  `room_after` is the replica after the
/// step; only a successfully applied room-detail update reads it, for the
/// visualization it pushes.
pub open spec fn spec_step_actions(s: Session, ev: SessionEvent, room_after: Room) -> Seq<
    SessionActionModel,
> {
    if s.conn_state is Error {
        Seq::empty()
    } else {
        match ev {
            SessionEvent::Opened => seq![
                SessionActionModel::SetConnState(ConnectionState::Authenticating),
                SessionActionModel::SendAuth(s.token@),
                SessionActionModel::SendSubscribe(s.room.room@),
            ],
            SessionEvent::Ping(d) => seq![SessionActionModel::SendPong(d@)],
            SessionEvent::Binary => seq![
                SessionActionModel::Warn("ignoring binary data from websocket"@),
            ],
            SessionEvent::Closed => Seq::empty(),
            SessionEvent::Message(m) => match m {
                ServerMessage::AuthFailed => seq![
                    SessionActionModel::SetConnState(ConnectionState::Error),
                    SessionActionModel::Fatal(SessionErrorModel::AuthRejected),
                ],
                ServerMessage::AuthOk { new_token } => seq![
                    SessionActionModel::SetConnState(ConnectionState::Connected),
                ],
                ServerMessage::RoomDetail { room: rid, update } => {
                    if rid@ == s.room.room@ {
                        if spec_apply(s.room@, update@).1 {
                            seq![SessionActionModel::PushRoom(spec_visualize(room_after))]
                        } else {
                            seq![
                                SessionActionModel::SetConnState(ConnectionState::Error),
                                SessionActionModel::Fatal(
                                    SessionErrorModel::Merge(spec_apply_error(s.room@, update@)),
                                ),
                            ]
                        }
                    } else {
                        seq![
                            SessionActionModel::Warn(spec_warn_wrong_room(s.room.room@, rid@)),
                        ]
                    }
                },
                ServerMessage::Other => Seq::empty(),
            },
            SessionEvent::BadFrame(t) => seq![
                SessionActionModel::SetConnState(ConnectionState::Error),
                SessionActionModel::Fatal(SessionErrorModel::BadFrame(t@)),
            ],
            SessionEvent::StreamEnded => seq![
                SessionActionModel::SetConnState(ConnectionState::Disconnected),
                SessionActionModel::Connect,
            ],
            SessionEvent::Cmd(c) => match c {
                Command::Reconnect => seq![
                    SessionActionModel::SetConnState(ConnectionState::Disconnected),
                    SessionActionModel::Connect,
                ],
                Command::ChangeRoom(id) => seq![SessionActionModel::FetchTerrain(id@)],
                Command::ChangeShard(sh) => seq![
                    SessionActionModel::FetchTerrain(
                        RoomIdModel { shard: Some(sh@), room_name: s.room.room.room_name },
                    ),
                ],
                Command::FetchShardNames => seq![SessionActionModel::FetchShardList],
            },
            SessionEvent::TerrainFetched(id, terrain) => seq![
                SessionActionModel::SendUnsubscribe(s.room.room@),
                SessionActionModel::SendSubscribe(id@),
            ],
            SessionEvent::FetchFailed(m) => seq![
                SessionActionModel::SetConnState(ConnectionState::Error),
                SessionActionModel::Fatal(SessionErrorModel::Fetch(m@)),
            ],
        }
    }
}

impl Session {
    /// The machine is sane when its replica is.
    pub open spec fn wf(self) -> bool {
        self.room.wf()
    }

    /// A fresh machine for one startup room, disconnected and holding the
    /// configured bearer token.
    pub fn new(token: String, room: Room) -> (r: Session)
        requires
            room.wf(),
        ensures
            r.wf(),
            r@ == (SessionModel {
                conn_state: ConnectionState::Disconnected,
                token: token@,
                room: room@,
                pending_room: None,
            }),
    {
        Session { conn_state: ConnectionState::Disconnected, token, room, pending_room: None }
    }

    /// The first action of a session: open the transport.
    pub fn start(&self) -> (acts: Vec<SessionAction>)
        ensures
            actions_view(acts@) == seq![SessionActionModel::Connect],
    {
        let mut acts: Vec<SessionAction> = Vec::new();
        acts.push(SessionAction::Connect);
        proof {
            assert(actions_view(acts@) =~= seq![SessionActionModel::Connect]);
        }
        acts
    }

    /// Feeds one arrival through the machine and returns the actions the
    /// embedding binary must perform, in order.
    pub fn handle_event(&mut self, event: SessionEvent) -> (acts: Vec<SessionAction>)
        requires
            old(self).wf(),
            event_wf(event),
        ensures
            final(self).wf(),
            final(self)@ == spec_step_state(*old(self), event),
            actions_view(acts@) == spec_step_actions(*old(self), event, final(self).room),
    {
        let ghost s0 = *old(self);
        let ghost ev0 = event;
        let mut acts: Vec<SessionAction> = Vec::new();
        match self.conn_state {
            ConnectionState::Error => {
                proof {
                    assert(actions_view(acts@) =~= Seq::<SessionActionModel>::empty());
                }
                return acts;
            },
            _ => {},
        }
        match event {
            SessionEvent::Opened => {
                self.conn_state = ConnectionState::Authenticating;
                acts.push(SessionAction::SetConnState(ConnectionState::Authenticating));
                acts.push(SessionAction::SendAuth(self.token.clone()));
                acts.push(SessionAction::SendSubscribe(self.room.room.clone()));
                proof {
                    assert(self@ =~= spec_step_state(s0, ev0));
                    assert(actions_view(acts@) =~= spec_step_actions(s0, ev0, self.room));
                }
            },
            SessionEvent::Ping(data) => {
                acts.push(SessionAction::SendPong(data));
                proof {
                    assert(self@ =~= spec_step_state(s0, ev0));
                    assert(actions_view(acts@) =~= spec_step_actions(s0, ev0, self.room));
                }
            },
            SessionEvent::Binary => {
                acts.push(
                    SessionAction::Warn(String::from_str("ignoring binary data from websocket")),
                );
                proof {
                    assert(self@ =~= spec_step_state(s0, ev0));
                    assert(actions_view(acts@) =~= spec_step_actions(s0, ev0, self.room));
                }
            },
            SessionEvent::Closed => {
                proof {
                    assert(self@ =~= spec_step_state(s0, ev0));
                    assert(actions_view(acts@) =~= spec_step_actions(s0, ev0, self.room));
                }
            },
            SessionEvent::Message(m) => match m {
                ServerMessage::AuthFailed => {
                    self.conn_state = ConnectionState::Error;
                    acts.push(SessionAction::SetConnState(ConnectionState::Error));
                    acts.push(SessionAction::Fatal(SessionError::AuthRejected));
                    proof {
                        assert(self@ =~= spec_step_state(s0, ev0));
                        assert(actions_view(acts@) =~= spec_step_actions(s0, ev0, self.room));
                    }
                },
                ServerMessage::AuthOk { new_token } => {
                    self.token = new_token;
                    self.conn_state = ConnectionState::Connected;
                    acts.push(SessionAction::SetConnState(ConnectionState::Connected));
                    proof {
                        assert(self@ =~= spec_step_state(s0, ev0));
                        assert(actions_view(acts@) =~= spec_step_actions(s0, ev0, self.room));
                    }
                },
                ServerMessage::RoomDetail { room: rid, update } => {
                    let ghost upd_v = update@;
                    if rid == self.room.room {
                        match self.room.update(update) {
                            Ok(u) => {
                                let visual = self.room.visualize();
                                acts.push(SessionAction::PushRoom(visual));
                                proof {
                                    assert(self.room@ =~= spec_apply(s0.room@, upd_v).0);
                                    assert(self@ =~= spec_step_state(s0, ev0));
                                    assert(actions_view(acts@) =~= spec_step_actions(
                                        s0,
                                        ev0,
                                        self.room,
                                    ));
                                }
                            },
                            Err(e) => {
                                self.conn_state = ConnectionState::Error;
                                acts.push(SessionAction::SetConnState(ConnectionState::Error));
                                proof {
                                    assert(self.room@ =~= spec_apply(s0.room@, upd_v).0);
                                    assert(e@ =~= spec_apply_error(s0.room@, upd_v));
                                }
                                acts.push(SessionAction::Fatal(SessionError::Merge(e)));
                                proof {
                                    assert(self@ =~= spec_step_state(s0, ev0));
                                    assert(actions_view(acts@) =~= spec_step_actions(
                                        s0,
                                        ev0,
                                        self.room,
                                    ));
                                }
                            },
                        }
                    } else {
                        let msg = warn_wrong_room(&self.room.room, &rid);
                        acts.push(SessionAction::Warn(msg));
                        proof {
                            assert(self@ =~= spec_step_state(s0, ev0));
                            assert(actions_view(acts@) =~= spec_step_actions(s0, ev0, self.room));
                        }
                    }
                },
                ServerMessage::Other => {
                    proof {
                        assert(self@ =~= spec_step_state(s0, ev0));
                        assert(actions_view(acts@) =~= spec_step_actions(s0, ev0, self.room));
                    }
                },
            },
            SessionEvent::BadFrame(text) => {
                self.conn_state = ConnectionState::Error;
                acts.push(SessionAction::SetConnState(ConnectionState::Error));
                acts.push(SessionAction::Fatal(SessionError::BadFrame(text)));
                proof {
                    assert(self@ =~= spec_step_state(s0, ev0));
                    assert(actions_view(acts@) =~= spec_step_actions(s0, ev0, self.room));
                }
            },
            SessionEvent::StreamEnded => {
                self.conn_state = ConnectionState::Disconnected;
                acts.push(SessionAction::SetConnState(ConnectionState::Disconnected));
                acts.push(SessionAction::Connect);
                proof {
                    assert(self@ =~= spec_step_state(s0, ev0));
                    assert(actions_view(acts@) =~= spec_step_actions(s0, ev0, self.room));
                }
            },
            SessionEvent::Cmd(c) => match c {
                Command::Reconnect => {
                    self.conn_state = ConnectionState::Disconnected;
                    acts.push(SessionAction::SetConnState(ConnectionState::Disconnected));
                    acts.push(SessionAction::Connect);
                    proof {
                        assert(self@ =~= spec_step_state(s0, ev0));
                        assert(actions_view(acts@) =~= spec_step_actions(s0, ev0, self.room));
                    }
                },
                Command::ChangeRoom(id) => {
                    self.pending_room = Some(id.clone());
                    acts.push(SessionAction::FetchTerrain(id));
                    proof {
                        assert(self@ =~= spec_step_state(s0, ev0));
                        assert(actions_view(acts@) =~= spec_step_actions(s0, ev0, self.room));
                    }
                },
                Command::ChangeShard(sh) => {
                    let id = RoomId::new(Some(sh), self.room.room.room_name);
                    self.pending_room = Some(id.clone());
                    acts.push(SessionAction::FetchTerrain(id));
                    proof {
                        assert(self@ =~= spec_step_state(s0, ev0));
                        assert(actions_view(acts@) =~= spec_step_actions(s0, ev0, self.room));
                    }
                },
                Command::FetchShardNames => {
                    acts.push(SessionAction::FetchShardList);
                    proof {
                        assert(self@ =~= spec_step_state(s0, ev0));
                        assert(actions_view(acts@) =~= spec_step_actions(s0, ev0, self.room));
                    }
                },
            },
            SessionEvent::TerrainFetched(id, terrain) => {
                let old_id = self.room.room.clone();
                acts.push(SessionAction::SendUnsubscribe(old_id));
                acts.push(SessionAction::SendSubscribe(id.clone()));
                self.room = Room::new(id, terrain);
                self.pending_room = None;
                proof {
                    assert(self@ =~= spec_step_state(s0, ev0));
                    assert(actions_view(acts@) =~= spec_step_actions(s0, ev0, self.room));
                }
            },
            SessionEvent::FetchFailed(msg) => {
                self.conn_state = ConnectionState::Error;
                acts.push(SessionAction::SetConnState(ConnectionState::Error));
                acts.push(SessionAction::Fatal(SessionError::Fetch(msg)));
                proof {
                    assert(self@ =~= spec_step_state(s0, ev0));
                    assert(actions_view(acts@) =~= spec_step_actions(s0, ev0, self.room));
                }
            },
        }
        acts
    }
}

/// The room the session should start at: what the configuration names, or
/// which server endpoint to ask when it names no room.
#[derive(Debug)]
pub enum StartRoomChoice {
    /// Both parts configured: use them directly.
    Use(RoomId),
    /// Only a shard configured: ask that shard's start-room endpoint.
    NeedShardStart(String),
    /// Nothing configured: ask the world start-room endpoint.
    NeedWorldStart,
}

/// Decides the startup room from the configuration: an explicit room wins,
/// an explicit shard alone asks that shard's start room, and nothing at all
/// asks the world start room.
pub fn initial_room_choice(shard: Option<String>, room: Option<RoomName>) -> (r: StartRoomChoice)
    ensures
        match room {
            Some(rn) => (r matches StartRoomChoice::Use(id) && id@.shard == opt_str_view(shard)
                && id@.room_name == rn),
            None => match shard {
                Some(sh) => (r matches StartRoomChoice::NeedShardStart(s) && s@ == sh@),
                None => (r is NeedWorldStart),
            },
        },
{
    match room {
        Some(rn) => StartRoomChoice::Use(RoomId::new(shard, rn)),
        None => match shard {
            Some(sh) => StartRoomChoice::NeedShardStart(sh),
            None => StartRoomChoice::NeedWorldStart,
        },
    }
}

/// Builds the startup room identity from a start-room response: the shard
/// the response or configuration names, and the room name the response
/// carries, which must parse.
pub fn start_room_from_response(shard: Option<String>, room_name: &str) -> (r: Option<RoomId>)
    ensures
        match crate::room_name::spec_parse_room_name(room_name@) {
            Some(rn) => (r matches Some(id) && id@.shard == opt_str_view(shard) && id@.room_name
                == rn),
            None => r is None,
        },
{
    match RoomName::parse(room_name) {
        Some(rn) => Some(RoomId::new(shard, rn)),
        None => None,
    }
}

} // verus!
