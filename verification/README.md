# hap — camera streaming for the HomeKit Accessory Protocol, verified

This crate holds the camera-streaming side of a HomeKit accessory server as a Verus
library: every function in `src/` carries a `requires`/`ensures` contract that Verus
proves.

- `src/tlv.rs` — the TLV8 codec, with the law that decoding what was encoded gives each
  type's value back.
- `src/protocol.rs` — the stream-management messages: setup-endpoint requests and
  answers, selected-stream-configuration requests, the selected stream parameters, and
  the supported video, audio and RTP configurations.
- `src/manager.rs` — the stream manager's decisions: sessions, what a write asks the
  media provider to do, and the streaming status.
- `src/media.rs` — the GStreamer provider's pipeline description and the registry of
  running pipelines.
- `src/camera.rs`, `src/characteristic.rs`, `src/accessory_list.rs` — the camera's
  service ids, the Siri endpoint characteristic, and the accessory list with the answers
  to characteristic reads and writes.
- `src/text.rs` — the few calls into `hex`, `uuid`, `rand` and std that Verus takes on
  trust, each with the contract its source supports.

`app/` is the unverified rest: the asynchronous stream manager and media provider,
JSON options, IP addresses (`std::net`), and the GStreamer process itself. `tests/`
runs the library on example messages and edge cases.
