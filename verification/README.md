# mistlib-wasm

The browser client of a peer-to-peer overlay network: rooms, WebRTC connections,
signaling over a server or over Nostr relays, and content storage.

- `src/` holds the client's state and the rules by which it changes, stated in
  contracts and proved with Verus: joins, leaves and settings (`app`, `layers`,
  `session_registry`), connections (`transport/webrtc`), signaling (`signaling`)
  and storage (`storage`). What holds across calls is proved in functions named
  `lemma_*`; those on connections as a whole are in `transport/webrtc/laws.rs`.
- `tests/` runs the library on concrete values.
- `app/` is the shell around it: sockets, peer connections, files, timers and the
  functions that a page calls. It carries out the steps that the library names
  and reports what came of them; nothing of it is proved.
- The overlay engine is handed to the shell through the traits in
  `app/engine.rs`. What the engine decides is not part of the library: routing,
  the reading and sealing of relay events, whether settings for signaling hold
  together, and which node owns a key.

Browser objects do not enter the library. A socket or a connection is a number
there, under which the shell keeps the object; time comes in as milliseconds.
