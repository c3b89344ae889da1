use livestream_server::hls::fmp4::{AudioCodec, VideoCodec};
use livestream_server::recording::{recorder_init, RecorderInit, RecordingTimeline};
use livestream_server::rtmp::color::{
    amf_hdr_metadata_bits, parse_enhanced_color_config,
};
use livestream_server::rtmp::names::{audio_codec_display_name, video_codec_display_name};
use livestream_server::api::extract_host;
use livestream_server::config::{Config, ConfigError};
use livestream_server::disk_writer::DiskWriterError;
use livestream_server::recording::{
    parse_stream_key_from_filename, rewrite_segment_tfdt, tfdt_rewrite_is_in_range,
};
use livestream_server::rtmp::amf::{
    amf_lookup, amf_next_value, amf_number_bits,
};
use livestream_server::rtmp::color::{
    amf_color_config_bits, parse_binary_color_config, parse_binary_hdr_metadata,
};
use livestream_server::rtmp::names::{audio_codec_id_name, video_codec_id_name};
use livestream_server::thumbnail::{
    available_formats, encoder_args, filter_graph, parse_u32, segment_index, thumbnail_format,
    ThumbnailFormat,
};

fn amf_name(out: &mut Vec<u8>, name: &str) {
    out.extend_from_slice(&(name.len() as u16).to_be_bytes());
    out.extend_from_slice(name.as_bytes());
}

fn amf_number(out: &mut Vec<u8>, name: &str, v: f64) {
    amf_name(out, name);
    out.push(0x00);
    out.extend_from_slice(&v.to_be_bytes());
}

fn color_info_message() -> Vec<u8> {
    let mut data = vec![0x02u8];
    amf_name(&mut data, "colorInfo");
    data.push(0x03);
    amf_name(&mut data, "colorConfig");
    data.push(0x03);
    amf_number(&mut data, "colorPrimaries", 9.0);
    amf_number(&mut data, "TransferCharacteristics", 16.0);
    amf_number(&mut data, "matrix_coefficients", 9.0);
    data.extend_from_slice(&[0x00, 0x00, 0x09]);
    data.extend_from_slice(&[0x00, 0x00, 0x09]);
    data
}

fn sample_config() -> Config {
    Config {
        rtmp_host: "0.0.0.0".to_string(),
        rtmp_port: 1935,
        api_host: "0.0.0.0".to_string(),
        api_port: 8080,
        media_dir: "./data".to_string(),
        hls_segment_duration: 4,
        hls_segments_keep: 10,
        recording_enabled: true,
        thumbnail_sizes: vec![320, 480],
        thumbnail_interval_seconds: 10,
        thumbnail_live_update: true,
        recordings_base_url: "/recordings".to_string(),
        stream_grace_period_seconds: 30,
        recording_remux_enabled: false,
        recording_remux_concurrency: 1,
        thumbnail_ffmpeg_concurrency: 2,
        thumbnail_rate_limit_seconds: 5,
        cors_allowed_origins: String::new(),
    }
}

#[test]
fn amf_reads_values_and_fields() {
    let msg = color_info_message();
    let (marker, value, consumed) = amf_next_value(&msg).unwrap();
    assert_eq!(marker, 0x02);
    assert_eq!(value, b"colorInfo");
    assert_eq!(consumed, 12);
    let obj = &msg[consumed..];
    let cfg = amf_lookup(obj, "colorConfig").unwrap();
    assert_eq!(cfg[0], 0x03);
    let cp = amf_lookup(cfg, "colorPrimaries").unwrap();
    assert_eq!(amf_number_bits(cp), Some((9.0f64.to_bits(), 9)));
    assert!(amf_lookup(cfg, "fullRange").is_none());
    assert!(amf_next_value(&[0x00, 0x40]).is_none());
}

#[test]
fn amf_truncated_values_are_rejected() {
    // A boolean marker without its byte is refused, not read past the end.
    assert_eq!(amf_next_value(&[0x01]), None);
    assert_eq!(amf_next_value(&[0x01, 0x01]), Some((0x01, &[0x01u8][..], 2)));
    let cut = [0x03u8, 0x00, 0x01, b'a', 0x01];
    assert_eq!(amf_lookup(&cut, "a"), None);
    let whole = [0x03u8, 0x00, 0x01, b'a', 0x01, 0x01, 0x00, 0x00, 0x09];
    assert_eq!(amf_lookup(&whole, "a"), Some(&[0x01u8, 0x01][..]));
}

#[test]
fn amf_color_fields_in_any_spelling() {
    let bits = amf_color_config_bits(&color_info_message()).unwrap();
    assert_eq!(bits.color_primaries, Some(9.0f64.to_bits()));
    assert_eq!(bits.transfer_characteristics, Some(16.0f64.to_bits()));
    assert_eq!(bits.matrix_coefficients, 9.0f64.to_bits());
    assert_eq!(bits.full_range, None);
}

#[test]
fn amf_color_requires_matrix_coefficients() {
    let mut data = vec![0x02u8];
    amf_name(&mut data, "colorInfo");
    data.push(0x03);
    amf_number(&mut data, "colorPrimaries", 1.0);
    data.extend_from_slice(&[0x00, 0x00, 0x09]);
    assert!(amf_color_config_bits(&data).is_none());
    // Not a metadata message at all: no leading string.
    assert!(amf_color_config_bits(&[0x00u8; 12]).is_none());
}

#[test]
fn binary_color_config_with_defaults() {
    let c = parse_binary_color_config(&[9, 16, 9, 1]);
    assert_eq!(
        (c.color_primaries, c.transfer_characteristics, c.matrix_coefficients, c.full_range),
        (9, 16, 9, true)
    );
    let d = parse_binary_color_config(&[5]);
    assert_eq!(
        (d.color_primaries, d.transfer_characteristics, d.matrix_coefficients, d.full_range),
        (5, 1, 1, false)
    );
}

#[test]
fn binary_hdr_metadata_layout() {
    let mut data = vec![0u8; 4];
    data.extend_from_slice(&28u32.to_be_bytes());
    data.extend_from_slice(&1000u16.to_be_bytes());
    data.extend_from_slice(&400u16.to_be_bytes());
    // G, B, R primaries, white point, max and min luminance.
    for v in [13250u16, 34500, 7500, 3000, 34000, 16000, 15635, 16450] {
        data.extend_from_slice(&v.to_be_bytes());
    }
    data.extend_from_slice(&10_000_000u32.to_be_bytes());
    data.extend_from_slice(&50u32.to_be_bytes());
    let h = parse_binary_hdr_metadata(&data).unwrap();
    assert_eq!(h.max_content_light_level, 1000);
    assert_eq!(h.max_frame_average_light_level, 400);
    assert_eq!(h.display_primaries_x, [34000, 13250, 7500]);
    assert_eq!(h.display_primaries_y, [16000, 34500, 3000]);
    assert_eq!((h.white_point_x, h.white_point_y), (15635, 16450));
    assert_eq!((h.max_luminance, h.min_luminance), (10_000_000, 50));
    let mut wrong = data.clone();
    wrong[7] = 27;
    assert!(parse_binary_hdr_metadata(&wrong).is_none());
    assert!(parse_binary_hdr_metadata(&data[..35]).is_none());
    let mut amf = data.clone();
    amf[0] = 0x02;
    assert!(parse_binary_hdr_metadata(&amf).is_none());
}

#[test]
fn config_accepts_defaults() {
    assert!(sample_config().validate().is_ok());
}

#[test]
fn config_errors_name_the_first_broken_rule() {
    let mut c = sample_config();
    c.thumbnail_sizes = vec![];
    assert_eq!(c.validate(), Err(ConfigError::NoThumbnailSizes));
    c.thumbnail_sizes = vec![320, 0, 9000];
    assert_eq!(c.validate(), Err(ConfigError::ZeroThumbnailSize));
    c.thumbnail_sizes = vec![320, 9000, 0];
    assert_eq!(c.validate(), Err(ConfigError::ThumbnailSizeTooLarge(9000)));
    c.thumbnail_sizes = vec![7680];
    c.hls_segment_duration = 0;
    assert_eq!(c.validate(), Err(ConfigError::ZeroSegmentDuration));
    c.hls_segment_duration = 2;
    c.hls_segments_keep = 2;
    assert_eq!(c.validate(), Err(ConfigError::TooFewSegmentsKept));
    c.hls_segments_keep = 3;
    c.thumbnail_interval_seconds = 0;
    assert_eq!(c.validate(), Err(ConfigError::ZeroThumbnailInterval));
    c.thumbnail_interval_seconds = 1;
    c.thumbnail_ffmpeg_concurrency = 0;
    assert_eq!(c.validate(), Err(ConfigError::ZeroFfmpegConcurrency));
    c.thumbnail_ffmpeg_concurrency = 1;
    c.recording_remux_concurrency = 0;
    assert_eq!(c.validate(), Err(ConfigError::ZeroRemuxConcurrency));
}

#[test]
fn config_error_messages() {
    assert_eq!(
        ConfigError::ThumbnailSizeTooLarge(9000).message(),
        "THUMBNAIL_SIZES contains width 9000 which exceeds maximum 7680"
    );
    assert_eq!(
        ConfigError::TooFewSegmentsKept.message(),
        "HLS_SEGMENTS_KEEP must be >= 3 to maintain a valid sliding window"
    );
    assert_eq!(
        ConfigError::NoThumbnailSizes.message(),
        "THUMBNAIL_SIZES must contain at least one width (e.g. \"320\")"
    );
}

#[test]
fn host_header_without_port() {
    assert_eq!(extract_host("example.com:8080"), "example.com");
    assert_eq!(extract_host("example.com"), "example.com");
    assert_eq!(extract_host("[::1]:8080"), "::1");
    assert_eq!(extract_host("[fe80::1]"), "fe80::1");
}

fn fragment_with_tfdt(version: u8, base: u64, pad: usize) -> Vec<u8> {
    let mut tfdt = vec![0u8, 0, 0, 0];
    tfdt.extend_from_slice(b"tfdt");
    tfdt.push(version);
    tfdt.extend_from_slice(&[0, 0, 0]);
    if version == 1 {
        tfdt.extend_from_slice(&base.to_be_bytes());
    } else {
        tfdt.extend_from_slice(&(base as u32).to_be_bytes());
    }
    tfdt.extend(std::iter::repeat(0u8).take(pad));
    let n = tfdt.len() as u32;
    tfdt[..4].copy_from_slice(&n.to_be_bytes());
    let mut traf = (8 + n).to_be_bytes().to_vec();
    traf.extend_from_slice(b"traf");
    traf.extend_from_slice(&tfdt);
    let mut moof = (8 + traf.len() as u32).to_be_bytes().to_vec();
    moof.extend_from_slice(b"moof");
    moof.extend_from_slice(&traf);
    moof.extend_from_slice(&[0, 0, 0, 8]);
    moof.extend_from_slice(b"mdat");
    moof
}

#[test]
fn tfdt_rewrite_moves_decode_time() {
    let mut seg = fragment_with_tfdt(1, 90_000, 0);
    assert!(tfdt_rewrite_is_in_range(&seg, 10_000));
    assert_eq!(rewrite_segment_tfdt(&mut seg, 10_000), Some(100_000));
    assert_eq!(&seg[28..36], &100_000u64.to_be_bytes());
    // A standard 16-byte version 0 tfdt is rewritten in place.
    let mut short = fragment_with_tfdt(0, 500, 0);
    assert_eq!(short.len(), 40);
    assert_eq!(rewrite_segment_tfdt(&mut short, 7), Some(507));
    assert_eq!(&short[28..32], &507u32.to_be_bytes());
    // A version 1 tfdt too short for its 64-bit time is left alone.
    let mut cut = fragment_with_tfdt(0, 500, 0);
    cut[24] = 1;
    let before = cut.clone();
    assert_eq!(rewrite_segment_tfdt(&mut cut, 7), None);
    assert_eq!(cut, before);
    let mut seg0 = fragment_with_tfdt(0, 500, 4);
    assert_eq!(rewrite_segment_tfdt(&mut seg0, 20), Some(520));
    assert_eq!(&seg0[28..32], &520u32.to_be_bytes());
    let mut none = vec![0u8, 0, 0, 8, b'm', b'd', b'a', b't'];
    assert_eq!(rewrite_segment_tfdt(&mut none, 5), None);
    assert_eq!(none, vec![0u8, 0, 0, 8, b'm', b'd', b'a', b't']);
    let big = fragment_with_tfdt(1, u64::MAX - 1, 0);
    assert!(!tfdt_rewrite_is_in_range(&big, 2));
}

#[test]
fn thumbnail_formats_in_preference_order() {
    assert_eq!(available_formats(true, true), vec!["jxl", "avif", "png"]);
    assert_eq!(available_formats(false, true), vec!["avif", "png"]);
    assert_eq!(available_formats(false, false), vec!["png"]);
}

#[test]
fn codec_id_names() {
    assert_eq!(video_codec_id_name(7), "H264");
    assert_eq!(video_codec_id_name(0x61763031), "AV1");
    assert_eq!(video_codec_id_name(99), "99");
    assert_eq!(audio_codec_id_name(10), "AAC");
    assert_eq!(audio_codec_id_name(0x4F707573), "Opus");
    assert_eq!(audio_codec_id_name(3), "3");
}

#[test]
fn disk_writer_error_message() {
    let e = DiskWriterError { reason: "channel closed".to_string() };
    assert_eq!(e.message(), "DiskWriter channel closed: channel closed");
}

#[test]
fn recording_timeline_bridges_backward_jumps() {
    let mut tl = RecordingTimeline::new();
    let mut a = fragment_with_tfdt(1, 1000, 0);
    assert!(tl.place_is_in_range(&a));
    assert_eq!(tl.place_segment(&mut a), Some(1000));
    assert_eq!(tl.last_tfdt(), Some(1000));
    let mut b = fragment_with_tfdt(1, 500, 0);
    assert!(tl.place_is_in_range(&b));
    assert_eq!(tl.place_segment(&mut b), Some(1001));
    assert_eq!(tl.offset(), 501);
    assert_eq!(&b[28..36], &1001u64.to_be_bytes());
    let mut c = fragment_with_tfdt(1, 2000, 0);
    assert_eq!(tl.place_segment(&mut c), Some(2501));
    tl.restart_file();
    assert_eq!(tl.last_tfdt(), None);
    let mut none = vec![0u8, 0, 0, 8, b'm', b'd', b'a', b't'];
    assert_eq!(tl.place_segment(&mut none), None);
    assert_eq!(tl.offset(), 501);
}

#[test]
fn amf_hdr_fields_as_number_bits() {
    let mut data = vec![0x02u8];
    amf_name(&mut data, "colorInfo");
    data.push(0x03);
    amf_name(&mut data, "colorConfig");
    data.push(0x03);
    amf_number(&mut data, "matrixCoefficients", 9.0);
    data.extend_from_slice(&[0x00, 0x00, 0x09]);
    amf_name(&mut data, "hdrCll");
    data.push(0x03);
    amf_number(&mut data, "maxFall", 400.0);
    amf_number(&mut data, "maxCLL", 1000.0);
    data.extend_from_slice(&[0x00, 0x00, 0x09]);
    amf_name(&mut data, "hdrMdcv");
    data.push(0x03);
    for (name, val) in [
        ("redX", 0.68),
        ("redY", 0.32),
        ("greenX", 0.265),
        ("greenY", 0.69),
        ("blueX", 0.15),
        ("blueY", 0.06),
        ("whitePointX", 0.3127),
        ("whitePointY", 0.329),
        ("maxLuminance", 1000.0),
        ("minLuminance", 0.005),
    ] {
        amf_number(&mut data, name, val);
    }
    data.extend_from_slice(&[0x00, 0x00, 0x09]);
    data.extend_from_slice(&[0x00, 0x00, 0x09]);
    let b = amf_hdr_metadata_bits(&data).unwrap();
    assert_eq!(b.max_cll, 1000.0f64.to_bits());
    assert_eq!(b.max_fall, 400.0f64.to_bits());
    assert_eq!(
        b.primaries_x,
        [0.68f64.to_bits(), 0.265f64.to_bits(), 0.15f64.to_bits()]
    );
    assert_eq!(
        b.primaries_y,
        [0.32f64.to_bits(), 0.69f64.to_bits(), 0.06f64.to_bits()]
    );
    assert_eq!(b.white_point_x, 0.3127f64.to_bits());
    assert_eq!(b.white_point_y, 0.329f64.to_bits());
    assert_eq!(b.max_luminance, 1000.0f64.to_bits());
    assert_eq!(b.min_luminance, 0.005f64.to_bits());
    // Without the light levels there is no HDR metadata.
    assert!(amf_hdr_metadata_bits(&color_info_message()).is_none());
}

#[test]
fn codec_display_names() {
    assert_eq!(video_codec_display_name(VideoCodec::H265), "HEVC");
    assert_eq!(video_codec_display_name(VideoCodec::AV1), "AV1");
    assert_eq!(audio_codec_display_name(AudioCodec::Flac), "FLAC");
    assert_eq!(audio_codec_display_name(AudioCodec::Aac), "AAC");
}

#[test]
fn thumbnail_filter_graph_scales_each_width() {
    assert_eq!(
        filter_graph(&[320, 480]),
        "[0:v]split=2[v0][v1];[v0]scale=320:-1[s0];[v1]scale=480:-1[s1]"
    );
    assert_eq!(filter_graph(&[640]), "[0:v]split=1[v0];[v0]scale=640:-1[s0]");
}

#[test]
fn finished_segment_indices() {
    assert_eq!(segment_index("segment00012.m4s"), Some(12));
    assert_eq!(segment_index("segment+7.m4s"), Some(7));
    assert_eq!(segment_index("segment4294967295.m4s"), Some(u32::MAX));
    assert_eq!(segment_index("segment4294967296.m4s"), None);
    assert_eq!(segment_index("segment.m4s"), None);
    assert_eq!(segment_index("segment00012.m4s.tmp"), None);
    assert_eq!(segment_index("segment1a.m4s"), None);
    assert_eq!(segment_index("init.mp4"), None);
}

#[test]
fn u32_parser_matches_std() {
    for s in ["0", "42", "+42", "", "+", "-1", "007", "4294967295", "4294967296", "1 2"] {
        let cs: Vec<char> = s.chars().collect();
        assert_eq!(parse_u32(&cs), s.parse::<u32>().ok(), "input {:?}", s);
    }
}

#[test]
fn recorder_init_decisions() {
    assert!(matches!(recorder_init(Some(1), 2, true, true), RecorderInit::Rotate));
    assert!(matches!(recorder_init(Some(1), 1, true, true), RecorderInit::Keep));
    assert!(matches!(recorder_init(None, 1, false, false), RecorderInit::Create));
    assert!(matches!(recorder_init(Some(1), 2, false, false), RecorderInit::Create));
    assert!(matches!(recorder_init(None, 1, true, false), RecorderInit::Adopt));
}

#[test]
fn stream_key_round_trip_with_underscores() {
    assert_eq!(parse_stream_key_from_filename("my_cam_key_20240131_235959.mp4"), "my_cam_key");
    assert_eq!(parse_stream_key_from_filename("_20240131_235959.mp4"), "");
    assert_eq!(parse_stream_key_from_filename("plain.mp4"), "plain");
}

fn color_message(primaries: f64, full_range: f64) -> Vec<u8> {
    let mut data = vec![0x02u8];
    amf_name(&mut data, "colorInfo");
    data.push(0x08);
    data.extend_from_slice(&3u32.to_be_bytes());
    amf_number(&mut data, "ColorPrimaries", primaries);
    amf_number(&mut data, "MatrixCoefficients", 1.0);
    amf_number(&mut data, "fullRange", full_range);
    data.extend_from_slice(&[0x00, 0x00, 0x09]);
    data
}

#[test]
fn enhanced_color_config_casts_like_as() {
    for v in [9.0f64, 16.7, 0.99, -1.0, -0.0, 65535.9, 65536.0, 1e12, f64::NAN, f64::INFINITY, f64::NEG_INFINITY, 4.5e-300] {
        for fr in [0.0f64, 1.0, 0.5, 255.9, 256.0, -3.0, f64::NAN] {
            let c = parse_enhanced_color_config(&color_message(v, fr));
            assert_eq!(c.color_primaries, v as u16, "primaries {}", v);
            assert_eq!(c.matrix_coefficients, 1);
            assert_eq!(c.transfer_characteristics, 0);
            assert_eq!(c.full_range, (fr as u8) != 0, "full range {}", fr);
        }
    }
    // Not AMF0: the binary layout.
    let b = parse_enhanced_color_config(&[1, 13, 6, 0]);
    assert_eq!((b.color_primaries, b.transfer_characteristics, b.matrix_coefficients, b.full_range), (1, 13, 6, false));
}

#[test]
fn thumbnail_formats_and_encoder_options() {
    assert!(matches!(thumbnail_format("png"), Some(ThumbnailFormat::Png)));
    assert!(matches!(thumbnail_format("jxl"), Some(ThumbnailFormat::Jxl)));
    assert!(matches!(thumbnail_format("avif"), Some(ThumbnailFormat::Avif)));
    assert!(thumbnail_format("webp").is_none());
    assert!(thumbnail_format("PNG").is_none());
    assert!(encoder_args(ThumbnailFormat::Png).is_empty());
    assert_eq!(encoder_args(ThumbnailFormat::Jxl), vec!["-c:v", "libjxl", "-q:v", "90", "-f", "image2"]);
    assert_eq!(
        encoder_args(ThumbnailFormat::Avif),
        vec!["-c:v", "libaom-av1", "-crf", "30", "-still-picture", "1", "-f", "avif"]
    );
}
