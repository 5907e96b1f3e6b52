//! Room logic of a real-time collaborative canvas server: the state each room
//! keeps, how it answers joins, element updates and departures, which events
//! reach which client, and how frames and paths are read and written.

pub mod external;
pub mod registry;
pub mod room;
pub mod session;
pub mod types;

pub use registry::RoomRegistry;
pub use room::RoomState;
pub use types::{
    CursorUpdate, Element, JoinMetadata, RoomCommand, RoomEvent, RoomJoinResponse, RoomSnapshot,
};
