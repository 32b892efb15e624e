# protocol

Verified core of a LoRa search-and-rescue telemetry network: hiker tags
beacon POSITION frames, relays flood them with packet-id dedup, and a
gateway decodes them for an offline kiosk map.

- `src/crc.rs` — CRC-16/CCITT-FALSE, and the proof that it catches every
  single-bit error.
- `src/flags.rs`, `src/frame.rs` — the flags byte, wire constants and types.
- `src/position.rs` — the 22-byte POSITION frame: encoder, validating
  decoder, and the round-trip and canonical-encoding laws.
- `src/seen_cache.rs` — the 32-slot dedup ring with 60 s expiry, and the law
  that it answers from exactly the last 32 insertions.
- `src/relay.rs` — the relay's forward/drop decision and its dedup laws.
- `src/lab/` — the decision rules of the kiosk lab: freshness buckets,
  node-list ordering, OSM XML reading (through xml-rs) with way
  classification and collection, region overlay selection, marker and
  selection rules, menu labels.
- `app/` — the kiosk lab front end: region discovery (TOML), coordinate
  parsing, scenario fixtures and layout files (JSON), text output.
