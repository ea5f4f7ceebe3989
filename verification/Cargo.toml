[package]
name = "mistlib-wasm"
version = "0.1.0"
edition = "2021"
publish = false

[dependencies]
bytes = "=1.12.1"
serde_json = "=1.0.154"
rand = "=0.8.8"
bincode = "=1.3.3"
async-trait = "=0.1.92"
futures = "=0.3.34"
tokio = { version = "=1.54.1", default-features = false, features = ["sync", "macros"] }
tracing = "=0.1.44"
tracing-wasm = "=0.2.1"
console_error_panic_hook = "=0.1.7"
gloo-timers = { version = "=0.3.0", features = ["futures"] }
web-time = "=1.1.0"
wasm-bindgen = "=0.2.130"
wasm-bindgen-futures = "=0.4.80"
js-sys = "=0.3.107"
web-sys = { version = "=0.3.107", features = ["AbortController", "AbortSignal", "BinaryType", "CloseEvent", "console", "DomException", "ErrorEvent", "Event", "EventTarget", "MediaStream", "MediaStreamTrack", "MessageEvent", "Navigator", "RequestInit", "Response", "RtcConfiguration", "RtcDataChannel", "RtcDataChannelEvent", "RtcDataChannelInit", "RtcDataChannelState", "RtcDataChannelType", "RtcIceCandidate", "RtcIceCandidateInit", "RtcIceConnectionState", "RtcIceServer", "RtcOfferOptions", "RtcPeerConnection", "RtcPeerConnectionIceEvent", "RtcPeerConnectionState", "RtcRtpReceiver", "RtcRtpSender", "RtcSdpType", "RtcSessionDescription", "RtcSessionDescriptionInit", "RtcSignalingState", "RtcTrackEvent", "WebSocket", "Window"] }
