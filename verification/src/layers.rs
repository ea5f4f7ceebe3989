//! Layers of the client.

pub mod wasm_l0;
