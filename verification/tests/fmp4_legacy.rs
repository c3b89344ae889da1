use livestream_server::hls::fmp4::codec::av1c_box_from_config;
use livestream_server::hls::fmp4::{AudioCodec, Fmp4Muxer, VideoCodec};
#[test]
fn fmp4_test_ftyp_box() {
    let muxer = Fmp4Muxer::new();
    let init = muxer.init_segment();
    assert!(!init.is_empty());
    assert_eq!(&init[4..8], b"ftyp");
    // CMAF major brand per ISO/IEC 23000-19
    assert_eq!(&init[8..12], b"cmfc");
    // compatible_brands should include iso6 (fMP4 support)
    assert!(init.windows(4).any(|w| w == b"iso6"));
}

#[test]
fn fmp4_test_moov_structure() {
    let mut muxer = Fmp4Muxer::new();
    muxer.set_video_codec(VideoCodec::H264, 1920, 1080);
    muxer.set_audio_codec(AudioCodec::Aac);
    muxer.set_video_config(vec![0x01, 0x42, 0xC0, 0x1E, 0xFF, 0xE1, 0x00, 0x00]);
    let init = muxer.init_segment();
    // Should contain ftyp + moov
    assert!(init.windows(4).any(|w| w == b"moov"));
    assert!(init.windows(4).any(|w| w == b"mvhd"));
    assert!(init.windows(4).any(|w| w == b"trak"));
    assert!(init.windows(4).any(|w| w == b"mvex"));
}

#[test]
fn fmp4_test_video_fragment() {
    let mut muxer = Fmp4Muxer::new();
    muxer.set_video_codec(VideoCodec::H264, 1920, 1080);
    muxer.set_video_config(vec![0x01, 0x42, 0xC0, 0x1E]);

    muxer.add_video_sample(vec![0x00, 0x00, 0x00, 0x01, 0x65, 0x88].into(), 0, 0, true);
    muxer.set_video_durations(vec![33]);

    let frag = muxer.flush_video_fragment();
    assert!(frag.is_some());
    let frag = frag.unwrap();
    // Segment structure: moof + mdat
    assert!(frag.windows(4).any(|w| w == b"moof"));
    assert!(frag.windows(4).any(|w| w == b"mdat"));
}

#[test]
fn fmp4_test_combined_fragment() {
    let mut muxer = Fmp4Muxer::new();
    muxer.set_video_codec(VideoCodec::H264, 1920, 1080);
    muxer.set_audio_codec(AudioCodec::Aac);
    muxer.set_video_config(vec![0x01, 0x42, 0xC0, 0x1E]);
    muxer.set_audio_config(vec![0x12, 0x10]);

    muxer.add_video_sample(vec![0x00, 0x00, 0x00, 0x01, 0x65].into(), 0, 0, true);
    muxer.add_audio_sample(vec![0xAF, 0x01].into(), 0);
    muxer.set_video_durations(vec![33]);
    muxer.set_audio_durations(vec![21]);

    let frag = muxer.flush_combined_fragment().unwrap();
    assert!(frag.len() > 16);
    // Segment structure: moof + mdat
    assert!(frag.windows(4).any(|w| w == b"moof"));
    assert!(frag.windows(4).any(|w| w == b"mdat"));
}

/// Parse a box at offset, returning (box_type, box_size, data_offset, data_len)
fn legacy_parse_box(data: &[u8], offset: usize) -> Option<(&[u8], usize, usize, usize)> {
    if offset + 8 > data.len() {
        return None;
    }
    let size = u32::from_be_bytes([data[offset], data[offset+1], data[offset+2], data[offset+3]]) as usize;
    let box_type = &data[offset+4..offset+8];
    let data_offset = offset + 8;
    let data_len = size.saturating_sub(8);
    Some((box_type, size, data_offset, data_len))
}

#[test]
fn test_combined_fragment_large_segment() {
    let mut muxer = Fmp4Muxer::new();
    muxer.set_video_codec(VideoCodec::H264, 1920, 1080);
    muxer.set_audio_codec(AudioCodec::Aac);
    muxer.set_video_config(vec![0x01, 0x42, 0xC0, 0x1E]);
    muxer.set_audio_config(vec![0x12, 0x10]);

    let video_data = vec![0x00, 0x00, 0x00, 0x01, 0x65, 0x88, 0x84, 0x00];
    let audio_data = vec![0xAF, 0x01];

    // Simulate 2s at 30fps + 48kHz AAC (~1024 samples/frame = ~93 frames)
    for i in 0..60 {
        muxer.add_video_sample(video_data.clone().into(), i as u64 * 33, i as u64 * 33, i % 30 == 0);
    }
    for i in 0..93 {
        muxer.add_audio_sample(audio_data.clone().into(), i as u64 * 21);
    }

    let frag = muxer.flush_combined_fragment().unwrap();
    println!("Large fragment size: {}", frag.len());

    let mut offset = 0;
    let mut boxes = Vec::new();
    while offset < frag.len() {
        let (box_type, size, data_offset, data_len) = legacy_parse_box(&frag, offset).unwrap();
        println!("Box {} at offset {} size {}", std::str::from_utf8(box_type).unwrap(), offset, size);
        boxes.push((box_type.to_vec(), offset, size, data_offset, data_len));
        offset += size;
    }

    // Segment structure: moof + mdat
    assert_eq!(boxes.len(), 2, "Expected moof+mdat, got {} boxes", boxes.len());
    assert_eq!(&boxes[0].0, b"moof");
    assert_eq!(&boxes[1].0, b"mdat");

    let moof_offset = boxes[0].1;
    let moof_size = boxes[0].2;
    let moof_data_offset = boxes[0].3;
    let moof_end = moof_offset + moof_size;
    let mut moof_off = moof_data_offset;
    let mut moof_boxes = Vec::new();
    while moof_off < moof_end {
        let (box_type, size, data_offset, data_len) = legacy_parse_box(&frag, moof_off).unwrap();
        moof_boxes.push((box_type.to_vec(), moof_off, size, data_offset, data_len));
        moof_off += size;
    }

    assert_eq!(moof_boxes.len(), 3);
    assert_eq!(&moof_boxes[0].0, b"mfhd");
    assert_eq!(&moof_boxes[1].0, b"traf");
    assert_eq!(&moof_boxes[2].0, b"traf");

    // Verify video trun
    let video_traf_data = moof_boxes[1].3;
    let video_traf_end = moof_boxes[1].1 + moof_boxes[1].2;
    let mut traf_off = video_traf_data;
    while traf_off < video_traf_end {
        let (box_type, size, data_offset, _) = legacy_parse_box(&frag, traf_off).unwrap();
        if box_type == b"trun" {
            let sample_count = u32::from_be_bytes([frag[data_offset+4], frag[data_offset+5], frag[data_offset+6], frag[data_offset+7]]);
            println!("Video trun sample_count = {}", sample_count);
            assert_eq!(sample_count, 60);
            break;
        }
        traf_off += size;
    }

    // Verify audio trun
    let audio_traf_data = moof_boxes[2].3;
    let audio_traf_end = moof_boxes[2].1 + moof_boxes[2].2;
    let mut traf_off = audio_traf_data;
    while traf_off < audio_traf_end {
        let (box_type, size, data_offset, _) = legacy_parse_box(&frag, traf_off).unwrap();
        if box_type == b"trun" {
            let sample_count = u32::from_be_bytes([frag[data_offset+4], frag[data_offset+5], frag[data_offset+6], frag[data_offset+7]]);
            println!("Audio trun sample_count = {}", sample_count);
            assert_eq!(sample_count, 93);
            break;
        }
        traf_off += size;
    }
}

#[test]
fn fmp4_test_combined_fragment_box_structure() {
    let mut muxer = Fmp4Muxer::new();
    muxer.set_video_codec(VideoCodec::H264, 1920, 1080);
    muxer.set_audio_codec(AudioCodec::Aac);
    muxer.set_video_config(vec![0x01, 0x42, 0xC0, 0x1E]);
    muxer.set_audio_config(vec![0x12, 0x10]);

    // 1 keyframe video sample + 1 audio sample
    let video_data = vec![0x00, 0x00, 0x00, 0x01, 0x65, 0x88, 0x84, 0x00];
    let audio_data = vec![0xAF, 0x01];
    muxer.add_video_sample(video_data.clone().into(), 0, 0, true);
    muxer.add_audio_sample(audio_data.clone().into(), 0);
    muxer.set_video_durations(vec![33]);
    muxer.set_audio_durations(vec![21]);

    let frag = muxer.flush_combined_fragment().unwrap();
    println!("Fragment size: {}", frag.len());

    // Parse top-level boxes
    let mut offset = 0;
    let mut boxes = Vec::new();
    while offset < frag.len() {
        let (box_type, size, data_offset, data_len) = legacy_parse_box(&frag, offset).unwrap();
        println!("Box {} at offset {} size {}", std::str::from_utf8(box_type).unwrap(), offset, size);
        boxes.push((box_type.to_vec(), offset, size, data_offset, data_len));
        offset += size;
    }

    // Segment structure: moof + mdat
    assert_eq!(boxes.len(), 2, "Expected moof+mdat, got {} boxes", boxes.len());
    assert_eq!(&boxes[0].0, b"moof");
    assert_eq!(&boxes[1].0, b"mdat");

    // Parse moof
    let moof_offset = boxes[0].1;
    let moof_size = boxes[0].2;
    let moof_data_offset = boxes[0].3;
    let moof_end = moof_offset + moof_size;
    let mut moof_off = moof_data_offset;
    let mut moof_boxes = Vec::new();
    while moof_off < moof_end {
        let (box_type, size, data_offset, data_len) = legacy_parse_box(&frag, moof_off).unwrap();
        println!("  Moof child {} at moof+{} size {}", std::str::from_utf8(box_type).unwrap(), moof_off - moof_offset, size);
        moof_boxes.push((box_type.to_vec(), moof_off, size, data_offset, data_len));
        moof_off += size;
    }

    // Should be mfhd + 2 trafs
    assert_eq!(moof_boxes.len(), 3);
    assert_eq!(&moof_boxes[0].0, b"mfhd");
    assert_eq!(&moof_boxes[1].0, b"traf");
    assert_eq!(&moof_boxes[2].0, b"traf");

    // Parse first traf (video)
    for (i, traf_box) in moof_boxes[1..].iter().enumerate() {
        let traf_offset = traf_box.1;
        let traf_size = traf_box.2;
        let traf_data_offset = traf_box.3;
        let traf_end = traf_offset + traf_size;
        let mut traf_off = traf_data_offset;
        let mut traf_children = Vec::new();
        while traf_off < traf_end {
            let (box_type, size, data_offset, data_len) = legacy_parse_box(&frag, traf_off).unwrap();
            println!("    Traf[{}] child {} at moof+{} size {}", i, std::str::from_utf8(box_type).unwrap(), traf_off - moof_offset, size);
            traf_children.push((box_type.to_vec(), traf_off, size, data_offset, data_len));
            traf_off += size;
        }

        // Should be tfhd + tfdt + trun
        assert_eq!(traf_children.len(), 3, "Traf[{}] should have tfhd+tfdt+trun", i);
        assert_eq!(&traf_children[0].0, b"tfhd");
        assert_eq!(&traf_children[1].0, b"tfdt");
        assert_eq!(&traf_children[2].0, b"trun");

        // Check tfhd
        let tfhd_offset = traf_children[0].3;
        let tfhd_version = frag[tfhd_offset];
        let tfhd_flags = u32::from_be_bytes([0, frag[tfhd_offset+1], frag[tfhd_offset+2], frag[tfhd_offset+3]]);
        let tfhd_track_id = u32::from_be_bytes([frag[tfhd_offset+4], frag[tfhd_offset+5], frag[tfhd_offset+6], frag[tfhd_offset+7]]);
        println!("      tfhd version={} flags=0x{:06X} track_id={}", tfhd_version, tfhd_flags, tfhd_track_id);
        assert_eq!(tfhd_version, 0);
        assert!(tfhd_flags & 0x020000 != 0, "default-base-is-moof should be set");
        assert!(tfhd_flags & 0x000008 != 0, "default-sample-duration-present");
        assert!(tfhd_flags & 0x000010 != 0, "default-sample-size-present");
        assert!(tfhd_flags & 0x000020 != 0, "default-sample-flags-present");
        assert_eq!(tfhd_track_id, if i == 0 { 1 } else { 2 });

        // Check tfdt
        let tfdt_offset = traf_children[1].3;
        let tfdt_version = frag[tfdt_offset];
        let tfdt_base = if tfdt_version == 1 {
            u64::from_be_bytes([
                frag[tfdt_offset+4], frag[tfdt_offset+5], frag[tfdt_offset+6], frag[tfdt_offset+7],
                frag[tfdt_offset+8], frag[tfdt_offset+9], frag[tfdt_offset+10], frag[tfdt_offset+11],
            ])
        } else {
            u32::from_be_bytes([frag[tfdt_offset+4], frag[tfdt_offset+5], frag[tfdt_offset+6], frag[tfdt_offset+7]]) as u64
        };
        println!("      tfdt version={} baseMediaDecodeTime={}", tfdt_version, tfdt_base);
        assert_eq!(tfdt_version, 1);
        assert_eq!(tfdt_base, 0);

        // Check trun
        let trun_offset = traf_children[2].3;
        let trun_version = frag[trun_offset];
        let trun_flags = u32::from_be_bytes([0, frag[trun_offset+1], frag[trun_offset+2], frag[trun_offset+3]]);
        let sample_count = u32::from_be_bytes([frag[trun_offset+4], frag[trun_offset+5], frag[trun_offset+6], frag[trun_offset+7]]);
        let data_offset_val = i32::from_be_bytes([frag[trun_offset+8], frag[trun_offset+9], frag[trun_offset+10], frag[trun_offset+11]]);
        println!("      trun version={} flags=0x{:06X} sample_count={} data_offset={}", trun_version, trun_flags, sample_count, data_offset_val);
        assert_eq!(trun_version, 0);
        assert_eq!(sample_count, 1);
        assert!(trun_flags & 0x000001 != 0, "data-offset-present");
        assert!(trun_flags & 0x000200 != 0, "sample-size-present");

        if i == 0 {
            // Video trun: first-sample-flags-present, no per-sample duration/flags
            assert!(trun_flags & 0x000004 != 0, "first-sample-flags-present");
            assert!(trun_flags & 0x000100 == 0, "video should not have sample-duration-present");
            assert!(trun_flags & 0x000400 == 0, "video should not have sample-flags-present");
        } else {
            // Audio trun: no per-sample duration (uses tfhd default), no per-sample flags
            assert!(trun_flags & 0x000100 == 0, "audio should not have sample-duration-present");
            assert!(trun_flags & 0x000004 == 0, "audio should not have first-sample-flags-present");
            assert!(trun_flags & 0x000400 == 0, "audio should not have sample-flags-present");
        }

        // Verify data_offset points into mdat payload.
        // default-base-is-moof means base_data_offset = moof start, so
        // data_offset is relative to moof start. For multi-track, each
        // track's data_offset skips previous tracks' sample data.
        let mdat_offset = boxes[1].1;
        let mdat_header = 8;
        let base_data_offset = (mdat_offset + mdat_header) as i32 - moof_offset as i32;
        let expected_data_offset = if i == 0 {
            base_data_offset
        } else {
            // skip previous track's samples (video = 8 bytes)
            base_data_offset + video_data.len() as i32
        };
        assert_eq!(data_offset_val, expected_data_offset, "data_offset should be relative to moof start");

        // Verify sample entry
        if i == 0 {
            // Video: first_sample_flags (4) + size (4) = 8 bytes before entries
            let first_flags = u32::from_be_bytes([frag[trun_offset+12], frag[trun_offset+13], frag[trun_offset+14], frag[trun_offset+15]]);
            let entry_off = trun_offset + 16;
            let size = u32::from_be_bytes([frag[entry_off], frag[entry_off+1], frag[entry_off+2], frag[entry_off+3]]);
            println!("      first_sample_flags=0x{:08X} size={}", first_flags, size);
            assert_eq!(first_flags, 0x02000000, "video keyframe first-sample-flags");
            assert_eq!(size, video_data.len() as u32);
        } else {
            // Audio: size (4) only; duration from tfhd default (no per-sample duration)
            let entry_off = trun_offset + 12;
            let size = u32::from_be_bytes([frag[entry_off], frag[entry_off+1], frag[entry_off+2], frag[entry_off+3]]);
            println!("      sample size={}", size);
            assert_eq!(size, audio_data.len() as u32);
        }
    }
}

#[test]
fn fmp4_test_moov_video_only() {
    let mut muxer = Fmp4Muxer::new();
    muxer.set_video_codec(VideoCodec::H264, 1280, 720);
    muxer.set_video_config(vec![0x01, 0x42, 0xC0, 0x1E]);
    let init = muxer.init_segment();
    // Should contain exactly one trak (video only)
    assert_eq!(init.windows(4).filter(|w| *w == b"trak").count(), 1);
    assert!(init.windows(4).any(|w| w == b"avc1"));
}

#[test]
fn fmp4_test_hevc_init_segment() {
    let mut muxer = Fmp4Muxer::new();
    muxer.set_video_codec(VideoCodec::H265, 1920, 1080);
    muxer.set_video_config(vec![0x01, 0x01, 0x60, 0x00, 0x00, 0x00, 0x00, 0x00, 0x00, 0x00, 0x00, 0x00, 0x78, 0xF0, 0x00, 0xFC, 0xFD, 0xF8, 0xF8, 0x00, 0x00, 0x0F, 0x03, 0x20, 0x00, 0x00, 0x03, 0x00, 0x80, 0x00, 0x00, 0x03, 0x00, 0x00, 0x03, 0x00, 0x78, 0xAC, 0x09]);
    let init = muxer.init_segment();
    assert!(init.windows(4).any(|w| w == b"hvc1"));
    assert!(init.windows(4).any(|w| w == b"hvcC"));
}

#[test]
fn fmp4_test_flac_sample_entry() {
    let mut muxer = Fmp4Muxer::new();
    muxer.set_audio_codec(AudioCodec::Flac);
    // FLV FLAC config: "fLaC" + 34-byte STREAMINFO
    let config = vec![
        0x66, 0x4c, 0x61, 0x43, // "fLaC"
        0x12, 0x00, 0x12, 0x00, 0x00, 0x00, 0x00, 0x00,
        0x24, 0x15, 0x0a, 0xc4, 0x40, 0xf0, 0x00, 0x00,
        0x00, 0x00, 0x00, 0x00, 0x00, 0x00, 0x00, 0x00,
        0x00, 0x00, 0x00, 0x00, 0x00, 0x00, 0x00, 0x00,
        0x00, 0x00,
    ];
    assert_eq!(config.len(), 38);
    muxer.set_audio_config(config);
    let init = muxer.init_segment();
    assert!(init.windows(4).any(|w| w == b"fLaC"));
    assert!(init.windows(4).any(|w| w == b"dfLa"));

    // Verify dfLa is a FullBox with correct STREAMINFO
    let dfla_pos = init.windows(4).position(|w| w == b"dfLa").unwrap();
    let dfla_size = u32::from_be_bytes([init[dfla_pos-4], init[dfla_pos-3], init[dfla_pos-2], init[dfla_pos-1]]) as usize;
    let dfla_data = &init[dfla_pos+4..dfla_pos-4+dfla_size];
    // FullBox header: version(1) + flags(3) = 4 bytes
    assert_eq!(dfla_data[0], 0x00); // version
    assert_eq!(&dfla_data[1..4], &[0x00, 0x00, 0x00]); // flags
    // First metadata block header: last=1, type=0, length=34
    assert_eq!(dfla_data[4], 0x80);
    assert_eq!(u32::from_be_bytes([0x00, dfla_data[5], dfla_data[6], dfla_data[7]]), 34);
    // STREAMINFO data should match config[4..38]
    assert_eq!(&dfla_data[8..42], &[
        0x12, 0x00, 0x12, 0x00, 0x00, 0x00, 0x00, 0x00,
        0x24, 0x15, 0x0a, 0xc4, 0x40, 0xf0, 0x00, 0x00,
        0x00, 0x00, 0x00, 0x00, 0x00, 0x00, 0x00, 0x00,
        0x00, 0x00, 0x00, 0x00, 0x00, 0x00, 0x00, 0x00,
        0x00, 0x00,
    ]);
}

#[test]
fn fmp4_test_av1c_passthrough() {
    // Already an AV1CodecConfigurationRecord (starts with 0x81)
    let config = vec![0x81, 0x04, 0x0c, 0x00];
    let av1c = av1c_box_from_config(&config);
    assert_eq!(av1c, config);
}

#[test]
fn fmp4_test_av1c_from_raw_obu() {
    // Raw AV1 sequence header OBU:
    // OBU header: 0x0a = type=1 (SEQ_HDR), has_size=1
    // OBU size: 0x04 = 4 bytes
    // Sequence header payload (simplified):
    // seq_profile=0 (3 bits), still_picture=0 (1 bit), reduced_still_picture_header=0 (1 bit)
    // timing_info_present_flag=0 (1 bit), initial_display_delay_present_flag=0 (1 bit)
    // operating_points_cnt_minus_1=0 (5 bits)
    // operating_point_idc[0]=0 (12 bits)
    // seq_level_idx[0]=8 (5 bits) -> level 4.0
    // seq_tier[0]=0 (1 bit, since level > 7)
    //
    // Byte layout (MSB first):
    // Byte 0: seq_profile(3) | still(1) | reduced(1) | timing_info(1) | initial_disp(1) | op_cnt(2 MSB)
    //         = 000 | 0 | 0 | 0 | 0 | 00 = 0x00
    // Byte 1: op_cnt(3 LSB) | op_idc(4 MSB)
    //         = 000 | 0000 = 0x00
    // Byte 2: op_idc(8 LSB)
    //         = 0000_0000 = 0x00
    // Byte 3: seq_level_idx(5) | seq_tier(1) | remaining(2)
    //         = 01000 | 0 | 00 = 0x40
    //
    // So payload = [0x00, 0x00, 0x00, 0x40]
    // Full OBU = [0x0a, 0x04, 0x00, 0x00, 0x00, 0x40]
    let obu = vec![0x0a, 0x04, 0x00, 0x00, 0x00, 0x40];
    let av1c = av1c_box_from_config(&obu);
    // av1C header:
    // byte0: marker=1, version=1 -> 0x81
    // byte1: profile=0, level=8 -> 0x08
    // byte2: seq_tier=0, high_bitdepth=0, twelve_bit=0, monochrome=0,
    //        chroma_subsampling_x=1, chroma_subsampling_y=1, chroma_sample_position=0 -> 0x0C
    // byte3: reserved=0, initial_presentation_delay_present=0, reserved=0 -> 0x00
    assert_eq!(av1c[0], 0x81);
    assert_eq!(av1c[1], 0x08); // profile=0, level=8
    assert_eq!(av1c[2], 0x0C); // 4:2:0 subsampling for profile 0
    assert_eq!(av1c[3], 0x00);
    // configOBUs appended
    assert_eq!(&av1c[4..], &obu[..]);
}
