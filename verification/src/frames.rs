//! Rendering outbound protocol frames.
//!
//! The transport carries sockjs text frames; their exact text is the
//! protocol library's concern.  Each renderer here is trusted to return the
//! frame text for its command, named as an opaque function of the command's
//! plain values, and `action_frame` is the verified mapping from a session
//! action to the frame it sends.

use vstd::prelude::*;

use crate::room::{RoomId, RoomIdModel};
use crate::session::SessionAction;

verus! {

/// The sockjs text frame that authenticates with a bearer token.
pub uninterp spec fn auth_frame_of(token: Seq<char>) -> Seq<char>;

/// The sockjs text frame that subscribes to a room's detail channel.
pub uninterp spec fn subscribe_frame_of(room: RoomIdModel) -> Seq<char>;

/// The sockjs text frame that unsubscribes from a room's detail channel.
pub uninterp spec fn unsubscribe_frame_of(room: RoomIdModel) -> Seq<char>;

/// Relies on `screeps_api::websocket::commands::authenticate`: the frame text that
/// authenticates with the given token, a function of the token alone.
#[verifier::external_body]
fn render_auth_frame(token: &str) -> (r: String)
    ensures
        r@ == auth_frame_of(token@),
{
    screeps_api::websocket::commands::authenticate(token.as_bytes())
}

/// Relies on `screeps_api::websocket::commands::subscribe` and
/// `Channel::room_detail`: the frame text that subscribes to the room's
/// detail channel, a function of the room identity alone.  Rendering the
/// channel negates a west or south coordinate's magnitude, so the name must
/// be nameable (`wf`): `i32::MIN` would make that negation unrepresentable.
#[verifier::external_body]
fn render_subscribe_frame(id: &RoomId) -> (r: String)
    requires
        id.room_name.wf(),
    ensures
        r@ == subscribe_frame_of(id@),
{
    let name = screeps_api::RoomName {
        x_coord: id.room_name.x_coord,
        y_coord: id.room_name.y_coord,
    };
    screeps_api::websocket::commands::subscribe(
        &screeps_api::websocket::Channel::room_detail(name, id.shard.as_ref()),
    )
}

/// Relies on `screeps_api::websocket::commands::unsubscribe` and
/// `Channel::room_detail`: the frame text that unsubscribes from the room's
/// detail channel, a function of the room identity alone.  As for
/// subscribing, the name must be nameable (`wf`).
#[verifier::external_body]
fn render_unsubscribe_frame(id: &RoomId) -> (r: String)
    requires
        id.room_name.wf(),
    ensures
        r@ == unsubscribe_frame_of(id@),
{
    let name = screeps_api::RoomName {
        x_coord: id.room_name.x_coord,
        y_coord: id.room_name.y_coord,
    };
    screeps_api::websocket::commands::unsubscribe(
        &screeps_api::websocket::Channel::room_detail(name, id.shard.as_ref()),
    )
}

/// The transport text frame one session action sends, if that action sends
/// one: the authenticate frame for its token, or the subscribe or
/// unsubscribe frame for its channel.  Every other action sends no frame.
/// A subscribed channel's room must be nameable (`wf`); rendering a name
/// with an `i32::MIN` coordinate would not be representable.
pub fn action_frame(action: &SessionAction) -> (r: Option<String>)
    requires
        match action {
            SessionAction::SendSubscribe(id) => id.room_name.wf(),
            SessionAction::SendUnsubscribe(id) => id.room_name.wf(),
            _ => true,
        },
    ensures
        match action {
            SessionAction::SendAuth(t) => (r matches Some(f) && f@ == auth_frame_of(t@)),
            SessionAction::SendSubscribe(id) => (r matches Some(f) && f@ == subscribe_frame_of(
                id@,
            )),
            SessionAction::SendUnsubscribe(id) => (r matches Some(f) && f@ == unsubscribe_frame_of(
                id@,
            )),
            _ => r is None,
        },
{
    match action {
        SessionAction::SendAuth(t) => Some(render_auth_frame(t.as_str())),
        SessionAction::SendSubscribe(id) => Some(render_subscribe_frame(id)),
        SessionAction::SendUnsubscribe(id) => Some(render_unsubscribe_frame(id)),
        _ => None,
    }
}

} // verus!
