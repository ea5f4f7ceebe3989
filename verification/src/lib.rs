//! Session, signaling and peer-connection logic of the browser client.

pub mod app;
pub mod arith;
pub mod config;
pub mod ffi;
pub mod json;
pub mod layers;
pub mod session_registry;
pub mod signaling;
pub mod storage;
pub mod table;
pub mod text;
pub mod transport;
pub mod types;
