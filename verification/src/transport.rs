//! Transports that carry messages between nodes.

pub mod webrtc;
