use livestream_server::hls::fmp4::codec::{av1c_box_from_config, ensure_av1_obu_size_fields};
use livestream_server::hls::fmp4::{Fmp4Muxer, VideoCodec};
#[test]
fn test_reverse_bits_32() {
    assert_eq!(Fmp4Muxer::reverse_bits_32(0x00000001), 0x80000000);
    assert_eq!(Fmp4Muxer::reverse_bits_32(0x80000000), 0x00000001);
    assert_eq!(Fmp4Muxer::reverse_bits_32(0x60000000), 0x00000006);
    assert_eq!(Fmp4Muxer::reverse_bits_32(0xFFFFFFFF), 0xFFFFFFFF);
    assert_eq!(Fmp4Muxer::reverse_bits_32(0x00000000), 0x00000000);
}

#[test]
fn codec_test_av1c_passthrough() {
    let config = vec![0x81, 0x04, 0x0c, 0x00];
    let av1c = av1c_box_from_config(&config);
    assert_eq!(av1c, config);
}

#[test]
fn codec_test_av1c_from_raw_obu() {
    let obu = vec![0x0a, 0x04, 0x00, 0x00, 0x00, 0x40];
    let av1c = av1c_box_from_config(&obu);
    assert_eq!(av1c[0], 0x81);
    assert_eq!(av1c[1], 0x08);
    assert_eq!(av1c[2], 0x0C);
    assert_eq!(av1c[3], 0x00);
    assert_eq!(&av1c[4..], &obu[..]);
}

#[test]
fn test_ensure_av1_sizeless_sequence_header_obu() {
    // Sequence Header OBU (obu_type=1) without size field: header 0x08
    let obu = vec![
        0x08, // obu_type=1, obu_extension_flag=0, obu_has_size_field=0
        0x00, 0x00, // arbitrary payload
    ];
    let result = ensure_av1_obu_size_fields(&obu);
    assert!(
        result[0] & 0x02 != 0,
        "obu_has_size_field must be set after rewrite"
    );
    assert_ne!(
        result.len(),
        obu.len(),
        "result should differ from input (size field added)"
    );
    // Parse LEB128 size
    let mut size = 0usize;
    let mut shift = 0;
    let mut pos = 1;
    loop {
        let byte = result[pos];
        size |= ((byte & 0x7F) as usize) << shift;
        pos += 1;
        if byte & 0x80 == 0 {
            break;
        }
        shift += 7;
    }
    assert_eq!(
        size,
        obu.len() - 1,
        "LEB128 size should equal the payload length"
    );
}

#[test]
fn test_hevc_codec_string() {
    let mut muxer = Fmp4Muxer::new();
    muxer.set_video_codec(VideoCodec::H265, 1920, 1080);
    muxer.set_video_config(vec![
        0x01, 0x01, 0x60, 0x00, 0x00, 0x00, 0x00, 0x00, 0x00, 0x00, 0x00, 0x00, 0x78, 0xF0,
        0x00, 0xFC, 0xFD, 0xF8, 0xF8, 0x00, 0x00, 0x0F, 0x03, 0x20, 0x00, 0x00, 0x03, 0x00,
        0x80, 0x00, 0x00, 0x03, 0x00, 0x00, 0x03, 0x00, 0x78, 0xAC, 0x09,
    ]);
    assert_eq!(
        muxer.video_codec_string(),
        Some("hvc1.1.6.L120".to_string())
    );
    assert_eq!(
        muxer.video_codec_string(),
        Some("hvc1.1.6.L120".to_string())
    );
}

#[test]
fn test_avc_codec_string() {
    let mut muxer = Fmp4Muxer::new();
    muxer.set_video_codec(VideoCodec::H264, 1920, 1080);
    muxer.set_video_config(vec![0x01, 0x42, 0xC0, 0x1E]);
    assert_eq!(muxer.video_codec_string(), Some("avc1.42C01E".to_string()));
}

#[test]
fn test_av1_codec_string() {
    let mut muxer = Fmp4Muxer::new();
    muxer.set_video_codec(VideoCodec::AV1, 1920, 1080);
    muxer.set_video_config(vec![0x81, 0x08, 0x0C, 0x00]);
    assert_eq!(muxer.video_codec_string(), Some("av01.0.08M8".to_string()));
}

#[test]
fn test_hevc_codec_string_with_constraints() {
    let mut muxer = Fmp4Muxer::new();
    muxer.set_video_codec(VideoCodec::H265, 1920, 1080);
    muxer.set_video_config(vec![
        0x01, // configurationVersion
        0x01, // profile_space=0, tier_flag=0, profile_idc=1 (Main)
        0x80, 0x00, 0x00, 0x00, // profile_compatibility_flags
        0x12, 0x34, 0x00, 0x00, 0x00, 0x00, // constraint_indicator_flags
        0x78, // level_idc = 120
        0xF0, 0x00, 0xFC, 0xFD, 0xF8, 0xF8, 0x00, 0x00, 0x0F, 0x03, 0x20, 0x00, 0x00, 0x03,
        0x00, 0x80, 0x00, 0x00, 0x03, 0x00, 0x00, 0x03, 0x00, 0x78, 0xAC, 0x09,
    ]);
    assert_eq!(
        muxer.video_codec_string(),
        Some("hvc1.1.1.L120.12.34".to_string())
    );
}
