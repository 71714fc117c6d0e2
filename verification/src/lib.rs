//! A language-server client core and the editor state it serves.
//!
//! The crate verifies the protocol-bearing parts of a small terminal editor:
//! the length-prefixed wire framing, the correlation of request identifiers
//! with their eventual responses, the inbound dispatch step, and the client
//! lifecycle, together with the editor's line-buffer and key-decoding logic.
//! Process plumbing, terminal I/O and the event loops live outside the
//! library and drive it with plain values.

pub mod app;
pub mod client;
pub mod config;
pub mod correlation;
pub mod editor;
pub mod framing;
pub mod input;
pub mod message;
pub mod params;
pub mod terminal;
