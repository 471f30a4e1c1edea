//! A protocol handler for `mpv://` play links: decodes the embedded media
//! address and session parameters, supervises a local player, and keeps the
//! remote media server informed of the playback lifecycle. The decoding,
//! the position arithmetic, the request material and the coordinator's
//! state machine are verified; transport and process I/O stay outside.
pub mod codec;
pub mod coordinator;
pub mod config;
pub mod error;
pub mod extractor;
pub mod player;
pub mod registry;
pub mod session;
pub mod text;
pub mod ticks;
pub mod unicode;
