# unitree_webrtc_connect_rs

A client library for the WebRTC control channel of Unitree robots, verified
with Verus, and a Python extension module built on it.

## Layout

- `src/` — the verified library.
  - `json.rs` — the JSON model the protocol logic works on (`JsonValue`, its
    meaning `Json`, field access and update).
  - `strmap.rs` — a finite map keyed by text, viewed as a `Map`.
  - `message.rs` — the framing of binary data-channel messages.
  - `msgs/` — the data-channel protocol pieces: reply matching and chunk
    reassembly (`future_resolver`), subscriptions and throttling (`pubsub`),
    heartbeat, validation, network status and file transfer state, error
    reports.
  - `datachannel.rs` — routing of incoming text and binary messages.
  - `connection.rs` — the connection life cycle, ICE configuration, reconnect
    backoff, and the requests it publishes.
  - `signaling.rs`, `encryption.rs`, `codec.rs` — local signaling steps, AES,
    RSA and the encodings they rest on (the cryptographic primitives are those
    of the `aes`, `aes-gcm`, `rsa`, `base64`, `hex` and `md-5` crates, called
    through small trusted wrappers).
  - `lidar.rs` — LZ4 decompression and voxel extraction of lidar maps.
  - `audiohub.rs`, `audio.rs`, `video.rs`, `tables.rs`, `constants.rs`,
    `multicast.rs`, `utils.rs`, `text.rs`, `time.rs` — request builders,
    media channels, named tables and helpers.
- `tests/` — tests of the library.
- `app/` — the Python module (PyO3): network I/O (HTTP signaling, UDP
  discovery), the tokio runtime, Python callbacks, JSON text conversion with
  `serde_json`, and the floating-point parts of lidar decoding.
