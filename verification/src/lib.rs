//! A live terminal viewer for one room of a Screeps world.
//!
//! The crate keeps a local replica of a single subscribed room, applies the
//! incremental updates that the room's detail channel delivers, derives a
//! spatial visualization from the replica, and drives the whole connection
//! through an explicit session state machine.  All of the decision logic
//! lives here; transport, HTTP and terminal I/O are left to the binary that
//! embeds the library.

pub mod assoc;
pub mod cursor;
pub mod dec;
pub mod frames;
pub mod info;
pub mod objects;
pub mod order;
pub mod room;
pub mod room_name;
pub mod session;
pub mod visual;
