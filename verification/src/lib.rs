//! Media-path logic of a live streaming server: RTMP/FLV tag parsing,
//! fMP4 (CMAF) and MPEG-TS muxing, and helpers for recordings and the API.
pub mod api;
pub mod config;
pub mod disk_writer;
pub mod hls;
pub mod recording;
pub mod rtmp;
pub mod text;
pub mod thumbnail;
pub mod util;
