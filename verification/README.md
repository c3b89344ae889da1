# livestream_server

A self-hosted live streaming server: it ingests RTMP (including Enhanced
RTMP multitrack), writes HLS as fragmented MP4 (CMAF) with a sliding-window
playlist, records sessions as MP4 files and produces thumbnails.

The media path is a library verified with Verus; the server around it is
ordinary Rust.

## Layout

- `src/` — the verified library.
  - `rtmp/` — AMF0 values and lookups (`amf`), colour and HDR metadata
    (`color`), Enhanced RTMP headers and multitrack packets (`enhanced`),
    what a session does with each media message (`dispatch`), codec names
    (`names`).
  - `hls/fmp4/` — the fMP4 muxer: init segment (`init`), fragments
    (`fragment`), codec records and RFC 6381 codec strings (`codec`), AV1
    sequence headers and OBU size fields (`av1`), box encoding (`boxes`).
  - `hls/mpegts.rs` — the MPEG-TS muxer (PAT, PMT, PES packets, CRC-32).
  - `hls/segments.rs` — segment timing, the playlist window, init segment
    versions and the media playlist text.
  - `recording.rs` — placing fragments on a recording's timeline, the
    recorder's init decisions, recording file names.
  - `thumbnail.rs`, `api.rs`, `config.rs`, `disk_writer.rs`, `text.rs`,
    `util.rs` — thumbnail formats and ffmpeg filter graphs, API helpers,
    configuration checks, errors, text and byte encoding.
- `tests/` — tests of the library.
- `app/` — the server: RTMP sessions, HTTP API, file I/O, ffmpeg, and the
  floating-point conversions of HDR metadata.

Every function in `src/` has a contract; the laws that relate several
functions are public proof functions named `lemma_*`.
