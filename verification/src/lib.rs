//! An event-driven WebSocket server engine, verified.
//!
//! The library holds the runtime engine of a WebSocket server as verified
//! state machines: the per-connection ingest and send machinery, the global
//! client registry with broadcast fan-out, and the room coordinator that owns
//! the room table. An unverified shell drives these machines over real
//! sockets.

pub mod conn;
pub mod handle;
pub mod room;
pub mod types;
pub mod wynd;
