//! RTMP ingest: AMF0 metadata, Enhanced RTMP tag headers, the handling of
//! each media message, codec names and stream info.
pub mod amf;
pub mod color;
pub mod dispatch;
pub mod enhanced;
pub mod names;
pub mod track;

pub use track::{Announcement, TrackInfo, TrackRegistry};
