//! HLS output: fragmented MP4 and MPEG-TS muxers, and the segment and
//! playlist bookkeeping of a track.
pub mod fmp4;
pub mod mpegts;
pub mod segments;
