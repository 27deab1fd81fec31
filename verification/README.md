# remux_server

Stream selection, subtitle conversion and media description for a
Jellyfin-compatible media server, verified with Verus.

- `src/` is the verified library.
  - `stream_service`, `loading`, `lookup`, `selection`, `probing`: which streams a
    playback request gets, in steps that say what to ask the rest of the server
    for.
  - `store_keys`: what is remembered of streams that were chosen.
  - `conversions`, `infer`, `paths`, `score`, `remuxdb`: what clients and RemuxDB
    are told of a stream.
  - `subtitles`: SRT to WebVTT and to JSON track events.
  - `subtitle_laws`, `source_laws`: what holds of these as a whole.
  - `text`, `number`, `ids`, `json`, `model`: what the others are made of.
- `tests/` runs the library.
- `app/` asks the database, the add-ons, the prober and the store.

Sequences of characters model texts, and each type has a view in which contracts
are stated. The calls into `serde_json`, `url` and `uuid` stand in `json`, `infer`
and `ids`, and that into `std::path` in `paths`. Each stands behind one small
function whose contract says what is relied on, but for two: `as_str` of a
`serde_json` value and `push` of a `String` are called as they are, under contracts
that `json` and `text` state for them.
