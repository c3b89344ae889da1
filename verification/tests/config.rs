use livestream_server::config::{config_from_values, parse_sizes, ConfigParseError, ConfigValues};
use livestream_server::thumbnail::{thumbnail_attempt_allowed, thumbnail_needed};
use livestream_server::util::hash_bytes;
use std::collections::hash_map::DefaultHasher;
use std::hash::{Hash, Hasher};

fn no_values() -> ConfigValues {
    ConfigValues {
        rtmp_host: None,
        rtmp_port: None,
        api_host: None,
        api_port: None,
        media_dir: None,
        hls_segment_duration: None,
        hls_segments_keep: None,
        recording_enabled: None,
        thumbnail_sizes: None,
        thumbnail_interval_seconds: None,
        thumbnail_live_update: None,
        recordings_base_url: None,
        stream_grace_period_seconds: None,
        recording_remux_enabled: None,
        recording_remux_concurrency: None,
        thumbnail_ffmpeg_concurrency: None,
        thumbnail_rate_limit_seconds: None,
        cors_allowed_origins: None,
    }
}

#[test]
fn config_defaults_follow_the_variable_table() {
    let c = config_from_values(&no_values()).ok().expect("defaults parse");
    assert_eq!(c.rtmp_host, "0.0.0.0");
    assert_eq!(c.rtmp_port, 1935);
    assert_eq!(c.api_host, "0.0.0.0");
    assert_eq!(c.api_port, 8080);
    assert_eq!(c.media_dir, "./data");
    assert_eq!(c.hls_segment_duration, 4);
    assert_eq!(c.hls_segments_keep, 10);
    assert!(c.recording_enabled);
    assert_eq!(c.thumbnail_sizes, vec![320, 480]);
    assert_eq!(c.thumbnail_interval_seconds, 10);
    assert!(c.thumbnail_live_update);
    assert_eq!(c.recordings_base_url, "/recordings");
    assert_eq!(c.stream_grace_period_seconds, 30);
    assert!(c.recording_remux_enabled);
    assert_eq!(c.recording_remux_concurrency, 4);
    assert_eq!(c.thumbnail_ffmpeg_concurrency, 4);
    assert_eq!(c.thumbnail_rate_limit_seconds, 5);
    assert_eq!(c.cors_allowed_origins, "*");
    assert!(c.validate().is_ok());
}

#[test]
fn config_reads_given_values() {
    let mut v = no_values();
    v.rtmp_port = Some("+1936".to_string());
    v.thumbnail_sizes = Some(" 160 ,640,\t1280".to_string());
    v.recording_enabled = Some("false".to_string());
    v.stream_grace_period_seconds = Some("18446744073709551615".to_string());
    v.media_dir = Some("/srv/media".to_string());
    let c = config_from_values(&v).ok().expect("values parse");
    assert_eq!(c.rtmp_port, 1936);
    assert_eq!(c.thumbnail_sizes, vec![160, 640, 1280]);
    assert!(!c.recording_enabled);
    assert_eq!(c.stream_grace_period_seconds, u64::MAX);
    assert_eq!(c.media_dir, "/srv/media");
}

#[test]
fn config_reports_first_bad_variable() {
    let mut v = no_values();
    v.api_port = Some("65536".to_string());
    v.recording_enabled = Some("yes".to_string());
    assert_eq!(config_from_values(&v).err(), Some(ConfigParseError::ApiPort));
    v.api_port = None;
    assert_eq!(config_from_values(&v).err(), Some(ConfigParseError::RecordingEnabled));
    v.recording_enabled = Some("True".to_string());
    assert_eq!(config_from_values(&v).err(), Some(ConfigParseError::RecordingEnabled));
    v.recording_enabled = None;
    v.thumbnail_sizes = Some("320,,480".to_string());
    assert_eq!(config_from_values(&v).err(), Some(ConfigParseError::ThumbnailSizes));
    v.thumbnail_sizes = None;
    v.hls_segment_duration = Some(" 4".to_string());
    let e = config_from_values(&v).err().unwrap();
    assert_eq!(e, ConfigParseError::HlsSegmentDuration);
    assert_eq!(e.message(), "invalid value for HLS_SEGMENT_DURATION");
}

#[test]
fn sizes_split_on_commas_like_std() {
    let parse_std = |s: &str| -> Option<Vec<u32>> {
        s.split(',').map(|p| p.trim().parse::<u32>().ok()).collect()
    };
    for s in ["320,480", "1", "", ",", " 7 ", "4294967295", "4294967296", "1,2,3,", "\u{3000}9\u{a0}", "-1"] {
        assert_eq!(parse_sizes(s), parse_std(s), "input {:?}", s);
    }
}

#[test]
fn thumbnail_rate_limit() {
    assert!(thumbnail_attempt_allowed(100, None, 5));
    assert!(!thumbnail_attempt_allowed(104, Some(100), 5));
    assert!(thumbnail_attempt_allowed(105, Some(100), 5));
    // A clock that went back counts as no time passed.
    assert!(!thumbnail_attempt_allowed(90, Some(100), 5));
    assert!(thumbnail_attempt_allowed(90, Some(100), 0));
}

#[test]
fn thumbnail_regeneration_interval() {
    assert!(thumbnail_needed(false, false, None, 10));
    assert!(!thumbnail_needed(false, true, Some(0), 10));
    assert!(!thumbnail_needed(true, true, Some(9), 10));
    assert!(thumbnail_needed(true, true, Some(10), 10));
    assert!(thumbnail_needed(true, false, None, 10));
}

#[test]
fn hash_bytes_matches_slice_hash() {
    for data in [&b""[..], &b"init"[..], &[0u8, 1, 2, 3, 255][..]] {
        let mut h = DefaultHasher::new();
        data.hash(&mut h);
        assert_eq!(hash_bytes(data), h.finish());
    }
    assert_ne!(hash_bytes(b"ab"), hash_bytes(b"abc"));
}
