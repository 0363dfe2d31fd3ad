//! Room and signalling logic of a WebRTC SFU server: which peers sit in which
//! room, which media transports, producers and consumers each peer owns, who
//! is told about what, and how each signalling request is answered.
//!
//! The media objects themselves (transports, producers, consumers of the SFU)
//! are carried as opaque handles; the library decides, the caller performs.

pub mod keyed;
pub mod media;
pub mod peer;
pub mod room;
pub mod rooms;
pub mod channels;
pub mod ids;
pub mod messages;
pub mod signaling;
pub mod session;
pub mod laws;
