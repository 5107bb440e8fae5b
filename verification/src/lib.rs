//! A small runtime for one node of a line-delimited JSON message protocol.
//!
//! A harness starts the node as a process and talks to it over its standard
//! streams, one JSON object per line. The first message is `init`; the node
//! acknowledges it and from then on is handed one message at a time.
//!
//! The embedding program reads and writes the streams. This library decides
//! everything else: [`wire`] lays messages out and reads them back,
//! [`runtime`] conducts the startup exchange and the run, [`node`] is what
//! the node logic implements, and [`trace`] states what holds of a run as a
//! whole.

pub mod error;
pub mod json;
pub mod message;
pub mod node;
pub mod payload;
pub mod runtime;
pub mod trace;
pub mod wire;

pub use error::{DecodeError, DecodeKind, Error, Phase, ProtocolError};
pub use json::Json;
pub use message::{Body, Fields, Init, InitPayload, Message};
pub use node::{Node, OutputSink};
pub use payload::Payload;
pub use runtime::{handshake, main_loop, Action, Event, Runtime, State};
