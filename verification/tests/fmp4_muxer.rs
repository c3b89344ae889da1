use livestream_server::hls::fmp4::{
    opus_frame_samples, AudioCodec, ColorConfig, Fmp4Muxer, HdrMetadata, VideoCodec,
};
#[test]
fn mod_test_ftyp_box() {
    let muxer = Fmp4Muxer::new();
    let init = muxer.init_segment();
    assert!(!init.is_empty());
    assert_eq!(&init[4..8], b"ftyp");
    assert_eq!(&init[8..12], b"cmfc");
    assert!(init.windows(4).any(|w| w == b"iso6"));
}

#[test]
fn mod_test_moov_structure() {
    let mut muxer = Fmp4Muxer::new();
    muxer.set_video_codec(VideoCodec::H264, 1920, 1080);
    muxer.set_audio_codec(AudioCodec::Aac);
    muxer.set_video_config(vec![0x01, 0x42, 0xC0, 0x1E, 0xFF, 0xE1, 0x00, 0x00]);
    let init = muxer.init_segment();
    assert!(init.windows(4).any(|w| w == b"moov"));
    assert!(init.windows(4).any(|w| w == b"mvhd"));
    assert!(init.windows(4).any(|w| w == b"trak"));
    assert!(init.windows(4).any(|w| w == b"mvex"));
}

fn read_mvhd_next_track_id(data: &[u8]) -> u32 {
    // Walk top-level boxes, find moov, then walk moov children to find mvhd
    let mut off = 0;
    while off + 8 <= data.len() {
        let box_size =
            u32::from_be_bytes([data[off], data[off + 1], data[off + 2], data[off + 3]])
                as usize;
        if off + box_size > data.len() {
            break;
        }
        if &data[off + 4..off + 8] == b"moov" {
            let moov_end = off + box_size;
            let mut inner = off + 8;
            while inner + 8 <= moov_end {
                let child_size = u32::from_be_bytes([
                    data[inner],
                    data[inner + 1],
                    data[inner + 2],
                    data[inner + 3],
                ]) as usize;
                if inner + child_size > moov_end {
                    break;
                }
                if &data[inner + 4..inner + 8] == b"mvhd" {
                    // next_track_ID is at offset 92 from FullBox data start
                    let data_off = inner + 12; // skip size(4)+type(4)+version(1)+flags(3)
                    return u32::from_be_bytes([
                        data[data_off + 92],
                        data[data_off + 93],
                        data[data_off + 94],
                        data[data_off + 95],
                    ]);
                }
                inner += child_size;
            }
        }
        off += box_size;
    }
    panic!("mvhd not found");
}

#[test]
fn test_mvhd_next_track_id_video_audio() {
    let mut muxer = Fmp4Muxer::new();
    muxer.set_video_codec(VideoCodec::H264, 1280, 720);
    muxer.set_audio_codec(AudioCodec::Aac);
    let init = muxer.init_segment();
    assert_eq!(read_mvhd_next_track_id(&init), 3);
}

#[test]
fn test_mvhd_next_track_id_video_only() {
    let mut muxer = Fmp4Muxer::new();
    muxer.set_video_codec(VideoCodec::H264, 1280, 720);
    let init = muxer.init_segment();
    assert_eq!(read_mvhd_next_track_id(&init), 2);
}

#[test]
fn test_mvhd_next_track_id_audio_only() {
    let mut muxer = Fmp4Muxer::new();
    muxer.set_audio_codec(AudioCodec::Aac);
    let init = muxer.init_segment();
    assert_eq!(read_mvhd_next_track_id(&init), 3);
}

#[test]
fn mod_test_video_fragment() {
    let mut muxer = Fmp4Muxer::new();
    muxer.set_video_codec(VideoCodec::H264, 1920, 1080);
    muxer.set_video_config(vec![0x01, 0x42, 0xC0, 0x1E]);

    muxer.add_video_sample(vec![0x00, 0x00, 0x00, 0x01, 0x65, 0x88].into(), 0, 0, true);

    let frag = muxer.flush_combined_fragment();
    assert!(frag.is_some());
    let frag = frag.unwrap();
    assert!(frag.windows(4).any(|w| w == b"moof"));
    assert!(frag.windows(4).any(|w| w == b"mdat"));
}

#[test]
fn mod_test_combined_fragment() {
    let mut muxer = Fmp4Muxer::new();
    muxer.set_video_codec(VideoCodec::H264, 1920, 1080);
    muxer.set_audio_codec(AudioCodec::Aac);
    muxer.set_video_config(vec![0x01, 0x42, 0xC0, 0x1E]);
    muxer.set_audio_config(vec![0x12, 0x10]);

    muxer.add_video_sample(vec![0x00, 0x00, 0x00, 0x01, 0x65].into(), 0, 0, true);
    muxer.add_audio_sample(vec![0xAF, 0x01].into(), 0);

    let frag = muxer.flush_combined_fragment().unwrap();
    assert!(frag.len() > 16);
    assert!(frag.windows(4).any(|w| w == b"moof"));
    assert!(frag.windows(4).any(|w| w == b"mdat"));
}

fn parse_box(data: &[u8], offset: usize) -> Option<(&[u8], usize, usize, usize)> {
    if offset + 8 > data.len() {
        return None;
    }
    let size = u32::from_be_bytes([
        data[offset],
        data[offset + 1],
        data[offset + 2],
        data[offset + 3],
    ]) as usize;
    Some((
        &data[offset + 4..offset + 8],
        size,
        offset + 8,
        size.saturating_sub(8),
    ))
}

/// Walk ISOBMFF box hierarchy to find a child box within a traf within a moof.
fn find_traf_child<'a>(
    frag: &'a [u8],
    traf_index: usize,
    child: &[u8; 4],
) -> (usize, usize, usize, &'a [u8]) {
    let (_type, moof_size, moof_data, _) = parse_box(frag, 0).unwrap();
    assert_eq!(_type, b"moof");
    let moof_end = moof_size;
    let mut off = moof_data;
    let mut traf_idx = 0;
    while off < moof_end {
        let (btype, bsize, bdata, _) = parse_box(frag, off).unwrap();
        if btype == b"traf" {
            if traf_idx == traf_index {
                let traf_end = off + bsize;
                let mut inner = bdata;
                while inner < traf_end {
                    let (it, isize, idata, idata_len) = parse_box(frag, inner).unwrap();
                    if it == child {
                        return (inner, isize, idata, &frag[idata..idata + idata_len]);
                    }
                    inner += isize;
                }
            }
            traf_idx += 1;
        }
        off += bsize;
    }
    panic!(
        "{} not found in traf[{}]",
        String::from_utf8_lossy(child),
        traf_index
    );
}

/// Walk ISOBMFF box hierarchy to find a trun within a traf within a moof,
/// and return the `sample_count` field.
fn get_trun_sample_count(frag: &[u8], traf_index: usize) -> u32 {
    let (_, _, _, trun_data) = find_traf_child(frag, traf_index, b"trun");
    u32::from_be_bytes([trun_data[4], trun_data[5], trun_data[6], trun_data[7]])
}

fn get_tfdt_base(frag: &[u8], traf_index: usize) -> u64 {
    let (_, _, _, tfdt_data) = find_traf_child(frag, traf_index, b"tfdt");
    assert_eq!(tfdt_data[0], 1, "tfdt should be version 1");
    u64::from_be_bytes([
        tfdt_data[4],
        tfdt_data[5],
        tfdt_data[6],
        tfdt_data[7],
        tfdt_data[8],
        tfdt_data[9],
        tfdt_data[10],
        tfdt_data[11],
    ])
}

#[test]
fn test_large_multi_sample_fragment() {
    let mut muxer = Fmp4Muxer::new();
    muxer.set_video_codec(VideoCodec::H264, 1920, 1080);
    muxer.set_audio_codec(AudioCodec::Aac);
    muxer.set_video_config(vec![0x01, 0x42, 0xC0, 0x1E]);
    muxer.set_audio_config(vec![0x12, 0x10]);

    let video_data = vec![0x00, 0x00, 0x00, 0x01, 0x65, 0x88, 0x84, 0x00];
    let audio_data = vec![0xAF, 0x01];

    for i in 0..60 {
        muxer.add_video_sample(
            video_data.clone().into(),
            i as u64 * 33,
            i as u64 * 33,
            i % 30 == 0,
        );
    }
    for i in 0..93 {
        muxer.add_audio_sample(audio_data.clone().into(), i as u64 * 21);
    }

    let frag = muxer.flush_combined_fragment().unwrap();

    let (_type, _size, _data, _) = parse_box(&frag, 0).unwrap();
    assert_eq!(_type, b"moof");
    let (next_type, _next_size, _, _) = parse_box(&frag, _size).unwrap();
    assert_eq!(next_type, b"mdat");

    assert_eq!(get_trun_sample_count(&frag, 0), 60);
    assert_eq!(get_trun_sample_count(&frag, 1), 93);
}

#[test]
fn mod_test_combined_fragment_box_structure() {
    let mut muxer = Fmp4Muxer::new();
    muxer.set_video_codec(VideoCodec::H264, 1920, 1080);
    muxer.set_audio_codec(AudioCodec::Aac);
    muxer.set_video_config(vec![0x01, 0x42, 0xC0, 0x1E]);
    muxer.set_audio_config(vec![0x12, 0x10]);

    let video_data = vec![0x00, 0x00, 0x00, 0x01, 0x65, 0x88, 0x84, 0x00];
    let audio_data = vec![0xAF, 0x01];
    muxer.add_video_sample(video_data.clone().into(), 0, 0, true);
    muxer.add_audio_sample(audio_data.clone().into(), 0);

    let frag = muxer.flush_combined_fragment().unwrap();

    // Parse top-level boxes
    let mut offset = 0;
    let mut boxes = Vec::new();
    while offset < frag.len() {
        let (box_type, size, data_offset, data_len) = parse_box(&frag, offset).unwrap();
        boxes.push((box_type.to_vec(), offset, size, data_offset, data_len));
        offset += size;
    }

    assert_eq!(boxes.len(), 2);
    assert_eq!(&boxes[0].0, b"moof");
    assert_eq!(&boxes[1].0, b"mdat");

    // Parse moof
    let moof_offset = boxes[0].1;
    let moof_size = boxes[0].2;
    let moof_data_offset = boxes[0].3;
    let moof_end = moof_offset + moof_size;
    let mut moof_off = moof_data_offset;
    let mut moof_boxes = Vec::new();
    while moof_off < moof_end {
        let (box_type, size, data_offset, data_len) = parse_box(&frag, moof_off).unwrap();
        moof_boxes.push((box_type.to_vec(), moof_off, size, data_offset, data_len));
        moof_off += size;
    }

    assert_eq!(moof_boxes.len(), 3);
    assert_eq!(&moof_boxes[0].0, b"mfhd");
    assert_eq!(&moof_boxes[1].0, b"traf");
    assert_eq!(&moof_boxes[2].0, b"traf");

    // Parse each traf
    for (i, traf_box) in moof_boxes[1..].iter().enumerate() {
        let traf_offset = traf_box.1;
        let traf_size = traf_box.2;
        let traf_data_offset = traf_box.3;
        let traf_end = traf_offset + traf_size;
        let mut traf_off = traf_data_offset;
        let mut traf_children = Vec::new();
        while traf_off < traf_end {
            let (box_type, size, data_offset, data_len) = parse_box(&frag, traf_off).unwrap();
            traf_children.push((box_type.to_vec(), traf_off, size, data_offset, data_len));
            traf_off += size;
        }

        assert_eq!(traf_children.len(), 3);
        assert_eq!(&traf_children[0].0, b"tfhd");
        assert_eq!(&traf_children[1].0, b"tfdt");
        assert_eq!(&traf_children[2].0, b"trun");

        // Check tfhd
        let tfhd_offset = traf_children[0].3;
        let tfhd_version = frag[tfhd_offset];
        let tfhd_flags = u32::from_be_bytes([
            0,
            frag[tfhd_offset + 1],
            frag[tfhd_offset + 2],
            frag[tfhd_offset + 3],
        ]);
        let tfhd_track_id = u32::from_be_bytes([
            frag[tfhd_offset + 4],
            frag[tfhd_offset + 5],
            frag[tfhd_offset + 6],
            frag[tfhd_offset + 7],
        ]);
        assert_eq!(tfhd_version, 0);
        assert!(tfhd_flags & 0x020000 != 0);
        assert!(tfhd_flags & 0x000008 != 0);
        assert!(tfhd_flags & 0x000010 != 0);
        assert!(tfhd_flags & 0x000020 != 0);
        assert_eq!(tfhd_track_id, if i == 0 { 1 } else { 2 });

        // Check tfdt
        let tfdt_offset = traf_children[1].3;
        let tfdt_version = frag[tfdt_offset];
        let tfdt_base = if tfdt_version == 1 {
            u64::from_be_bytes([
                frag[tfdt_offset + 4],
                frag[tfdt_offset + 5],
                frag[tfdt_offset + 6],
                frag[tfdt_offset + 7],
                frag[tfdt_offset + 8],
                frag[tfdt_offset + 9],
                frag[tfdt_offset + 10],
                frag[tfdt_offset + 11],
            ])
        } else {
            u32::from_be_bytes([
                frag[tfdt_offset + 4],
                frag[tfdt_offset + 5],
                frag[tfdt_offset + 6],
                frag[tfdt_offset + 7],
            ]) as u64
        };
        assert_eq!(tfdt_version, 1);
        assert_eq!(tfdt_base, 0);

        // Check trun
        let trun_offset = traf_children[2].3;
        let trun_version = frag[trun_offset];
        let trun_flags = u32::from_be_bytes([
            0,
            frag[trun_offset + 1],
            frag[trun_offset + 2],
            frag[trun_offset + 3],
        ]);
        let sample_count = u32::from_be_bytes([
            frag[trun_offset + 4],
            frag[trun_offset + 5],
            frag[trun_offset + 6],
            frag[trun_offset + 7],
        ]);
        let data_offset_val = i32::from_be_bytes([
            frag[trun_offset + 8],
            frag[trun_offset + 9],
            frag[trun_offset + 10],
            frag[trun_offset + 11],
        ]);
        assert_eq!(trun_version, 0);
        assert_eq!(sample_count, 1);
        assert!(trun_flags & 0x000001 != 0);
        assert!(trun_flags & 0x000200 != 0);

        if i == 0 {
            assert!(trun_flags & 0x000004 != 0);
            assert!(trun_flags & 0x000100 == 0);
            assert!(trun_flags & 0x000400 == 0);
        } else {
            assert!(trun_flags & 0x000100 == 0);
            assert!(trun_flags & 0x000004 == 0);
            assert!(trun_flags & 0x000400 == 0);
        }

        let mdat_offset = boxes[1].1;
        let mdat_header = 8;
        let base_data_offset = (mdat_offset + mdat_header) as i32 - moof_offset as i32;
        let expected_data_offset = if i == 0 {
            base_data_offset
        } else {
            base_data_offset + video_data.len() as i32
        };
        assert_eq!(data_offset_val, expected_data_offset);

        if i == 0 {
            let first_flags = u32::from_be_bytes([
                frag[trun_offset + 12],
                frag[trun_offset + 13],
                frag[trun_offset + 14],
                frag[trun_offset + 15],
            ]);
            let entry_off = trun_offset + 16;
            let size = u32::from_be_bytes([
                frag[entry_off],
                frag[entry_off + 1],
                frag[entry_off + 2],
                frag[entry_off + 3],
            ]);
            assert_eq!(first_flags, 0x02000000);
            assert_eq!(size, video_data.len() as u32);
        } else {
            let entry_off = trun_offset + 12;
            let size = u32::from_be_bytes([
                frag[entry_off],
                frag[entry_off + 1],
                frag[entry_off + 2],
                frag[entry_off + 3],
            ]);
            assert_eq!(size, audio_data.len() as u32);
        }
    }
}

#[test]
fn mod_test_moov_video_only() {
    let mut muxer = Fmp4Muxer::new();
    muxer.set_video_codec(VideoCodec::H264, 1280, 720);
    muxer.set_video_config(vec![0x01, 0x42, 0xC0, 0x1E]);
    let init = muxer.init_segment();
    assert_eq!(init.windows(4).filter(|w| *w == b"trak").count(), 1);
    assert!(init.windows(4).any(|w| w == b"avc1"));
}

#[test]
fn test_opus_sample_entry() {
    let mut muxer = Fmp4Muxer::new();
    muxer.set_audio_codec(AudioCodec::Opus);
    let config = vec![
        b'O', b'p', b'u', b's', b'H', b'e', b'a', b'd', 0x01, 0x02, 0x38, 0x01, 0x80, 0xBB,
        0x00, 0x00, 0x00, 0x00, 0x00,
    ];
    muxer.set_audio_config(config);
    let init = muxer.init_segment();
    assert!(init.windows(4).any(|w| w == b"Opus"));
    assert!(init.windows(4).any(|w| w == b"dOps"));
}

#[test]
fn test_audio_only_fragment() {
    let mut muxer = Fmp4Muxer::new();
    muxer.set_audio_codec(AudioCodec::Aac);
    muxer.set_audio_config(vec![0x12, 0x10]);

    muxer.add_audio_sample(vec![0xAF, 0x01].into(), 0);
    muxer.add_audio_sample(vec![0xBF, 0x02].into(), 21);

    let frag = muxer.flush_combined_fragment().unwrap();
    assert!(frag.windows(4).any(|w| w == b"moof"));
    assert!(frag.windows(4).any(|w| w == b"mdat"));
}

#[test]
fn test_aac_tfdt_stays_on_1024_sample_grid_across_fragments() {
    let mut muxer = Fmp4Muxer::new();
    muxer.set_audio_codec(AudioCodec::Aac);
    muxer.set_audio_config(vec![0x11, 0x90]); // AAC-LC, 48kHz, stereo

    // These are typical RTMP millisecond timestamps for exact 1024-sample
    // AAC frames at 48kHz.  Converting each ms timestamp back to samples
    // would produce 1008, 2064, ... and eventually non-1024-aligned tfdt.
    muxer.add_audio_sample(vec![0xAF, 0x01].into(), 0);
    muxer.add_audio_sample(vec![0xAF, 0x02].into(), 21);
    muxer.add_audio_sample(vec![0xAF, 0x03].into(), 43);
    let frag0 = muxer.flush_combined_fragment().unwrap();
    assert_eq!(get_tfdt_base(&frag0, 0), 0);

    muxer.add_audio_sample(vec![0xAF, 0x04].into(), 64);
    muxer.add_audio_sample(vec![0xAF, 0x05].into(), 85);
    let frag1 = muxer.flush_combined_fragment().unwrap();
    let base = get_tfdt_base(&frag1, 0);
    assert_eq!(base, 3 * 1024);
    assert_eq!(base % 1024, 0);
}

#[test]
fn mod_test_hevc_init_segment() {
    let mut muxer = Fmp4Muxer::new();
    muxer.set_video_codec(VideoCodec::H265, 1920, 1080);
    muxer.set_video_config(vec![
        0x01, 0x01, 0x60, 0x00, 0x00, 0x00, 0x00, 0x00, 0x00, 0x00, 0x00, 0x00, 0x78, 0xF0,
        0x00, 0xFC, 0xFD, 0xF8, 0xF8, 0x00, 0x00, 0x0F, 0x03, 0x20, 0x00, 0x00, 0x03, 0x00,
        0x80, 0x00, 0x00, 0x03, 0x00, 0x00, 0x03, 0x00, 0x78, 0xAC, 0x09,
    ]);
    let init = muxer.init_segment();
    assert!(init.windows(4).any(|w| w == b"hvc1"));
    assert!(init.windows(4).any(|w| w == b"hvcC"));
}

#[test]
fn test_trun_version_1_with_composition_offset() {
    let mut muxer = Fmp4Muxer::new();
    muxer.set_video_codec(VideoCodec::H264, 1920, 1080);
    muxer.set_video_config(vec![0x01, 0x42, 0xC0, 0x1E]);

    // Sample with DTS=0, PTS=100  →  composition_time_offset = 100*30/1000 = 3
    muxer.add_video_sample(vec![0x00, 0x00, 0x00, 0x01, 0x65].into(), 0, 100, true);

    let frag = muxer.flush_combined_fragment().unwrap();

    // Find trun version inside moof/traf
    let (_type, moof_size, moof_data, _) = parse_box(&frag, 0).unwrap();
    assert_eq!(_type, b"moof");
    let mut off = moof_data;
    while off < moof_size {
        let (btype, bsize, bdata, _) = parse_box(&frag, off).unwrap();
        if btype == b"traf" {
            let traf_end = off + bsize;
            let mut inner = bdata;
            while inner < traf_end {
                let (it, _isize, idata, _) = parse_box(&frag, inner).unwrap();
                if it == b"trun" {
                    let version = frag[idata];
                    assert_eq!(
                        version, 1,
                        "trun version should be 1 when composition_time_offset is non-zero"
                    );
                    // Check CTO flag is set (0x000800)
                    let trun_flags = u32::from_be_bytes([
                        0,
                        frag[idata + 1],
                        frag[idata + 2],
                        frag[idata + 3],
                    ]);
                    assert!(trun_flags & 0x000800 != 0, "trun should have sample_composition_time_offset flag");
                    // trun data: version(1)+flags(3)+sample_count(4)+data_offset(4)+first_flags(4)+entries
                    // Each entry: sample_size(4)+composition_time_offset(4)
                    // CTO is at data_offset+20 for video
                    // CTO is in media timescale: 100ms X 30 / 1000 = 3
                    let cto = i32::from_be_bytes([
                        frag[idata + 20],
                        frag[idata + 21],
                        frag[idata + 22],
                        frag[idata + 23],
                    ]);
                    assert_eq!(cto, 3);
                    return;
                }
                inner += _isize;
            }
        }
        off += bsize;
    }
    panic!("trun not found in moof");
}

#[test]
fn mod_test_flac_sample_entry() {
    let mut muxer = Fmp4Muxer::new();
    muxer.set_audio_codec(AudioCodec::Flac);
    let config = vec![
        0x66, 0x4c, 0x61, 0x43, 0x12, 0x00, 0x12, 0x00, 0x00, 0x00, 0x00, 0x00, 0x24, 0x15,
        0x0a, 0xc4, 0x40, 0xf0, 0x00, 0x00, 0x00, 0x00, 0x00, 0x00, 0x00, 0x00, 0x00, 0x00,
        0x00, 0x00, 0x00, 0x00, 0x00, 0x00, 0x00, 0x00, 0x00, 0x00,
    ];
    assert_eq!(config.len(), 38);
    muxer.set_audio_config(config);
    let init = muxer.init_segment();
    assert!(init.windows(4).any(|w| w == b"fLaC"));
    assert!(init.windows(4).any(|w| w == b"dfLa"));

    let dfla_pos = init.windows(4).position(|w| w == b"dfLa").unwrap();
    let dfla_size = u32::from_be_bytes([
        init[dfla_pos - 4],
        init[dfla_pos - 3],
        init[dfla_pos - 2],
        init[dfla_pos - 1],
    ]) as usize;
    let dfla_data = &init[dfla_pos + 4..dfla_pos - 4 + dfla_size];
    assert_eq!(dfla_data[0], 0x00);
    assert_eq!(&dfla_data[1..4], &[0x00, 0x00, 0x00]);
    assert_eq!(dfla_data[4], 0x80);
    assert_eq!(
        u32::from_be_bytes([0x00, dfla_data[5], dfla_data[6], dfla_data[7]]),
        34
    );
    assert_eq!(
        &dfla_data[8..42],
        &[
            0x12, 0x00, 0x12, 0x00, 0x00, 0x00, 0x00, 0x00, 0x24, 0x15, 0x0a, 0xc4, 0x40, 0xf0,
            0x00, 0x00, 0x00, 0x00, 0x00, 0x00, 0x00, 0x00, 0x00, 0x00, 0x00, 0x00, 0x00, 0x00,
            0x00, 0x00, 0x00, 0x00, 0x00, 0x00,
        ]
    );
}

#[test]
fn test_opus_frame_samples_all_configs() {
    // config=0 (2.5ms), code=0 (1 frame) → 120 samples
    // TOC: config=0<<3 | code=0 = 0x00
    assert_eq!(opus_frame_samples(&[0x00]), Some(120));

    // config=3 (20ms, most common), code=0 (1 frame) → 960 samples
    // TOC: config=3<<3 | code=0 = 0x18
    assert_eq!(opus_frame_samples(&[0x18]), Some(960));

    // config=3, stereo=1, code=1 (2 frames) → 2 × 960 = 1920 samples
    // TOC: config=3<<3 | stereo=1<<2 | code=1 = 0x18 | 0x04 | 0x01 = 0x1D
    assert_eq!(opus_frame_samples(&[0x1D]), Some(1920));

    // config=4 (40ms), code=0 (1 frame) → 1920 samples
    // TOC: config=4<<3 | code=0 = 0x20
    assert_eq!(opus_frame_samples(&[0x20]), Some(1920));

    // config=3, code=3 (3 frames) → 3 × 960 = 2880 samples
    // TOC: config=3<<3 | code=3 = 0x1B
    assert_eq!(opus_frame_samples(&[0x1B]), Some(2880));

    // Empty packet → None
    assert!(opus_frame_samples(&[]).is_none());
}

#[test]
fn test_audio_duration_aac_fixed_1024() {
    let mut muxer = Fmp4Muxer::new();
    muxer.set_audio_codec(AudioCodec::Aac);
    muxer.set_audio_config(vec![0x12, 0x10]); // 44100Hz

    // Feed samples at jittery RTMP timestamps that would produce
    // an incorrect average with the old RTMP-averaging approach.
    muxer.add_audio_sample(vec![0xAF, 0x01].into(), 0);
    muxer.add_audio_sample(vec![0xAF, 0x02].into(), 23);
    muxer.add_audio_sample(vec![0xAF, 0x03].into(), 46);
    muxer.add_audio_sample(vec![0xAF, 0x04].into(), 70); // 24ms gap instead of 23

    muxer.compute_and_set_durations();

    // Every audio sample must have exactly 1024 (AAC fixed frame size)
    for s in muxer.audio_samples() {
        assert_eq!(s.duration, 1024, "AAC sample duration must be 1024, got {}", s.duration);
    }
}

#[test]
fn test_audio_duration_opus_from_toc() {
    let mut muxer = Fmp4Muxer::new();
    muxer.set_audio_codec(AudioCodec::Opus);
    muxer.set_audio_config(vec![0x01, 0x02, 0x38, 0x01, 0x80, 0xBB, 0x00, 0x00, 0x00, 0x00, 0x00]);

    // Opus packet with TOC: config=3 (20ms), c=0 (1 frame) → 960 samples
    // TOC = (3<<5) | 0 = 0x60
    let toc: u8 = 0x60;
    let packet = vec![toc, 0x00, 0x01, 0x02];
    muxer.add_audio_sample(packet.into(), 0);

    let packet2 = vec![toc, 0x03, 0x04, 0x05];
    muxer.add_audio_sample(packet2.into(), 20);

    muxer.compute_and_set_durations();

    for s in muxer.audio_samples() {
        assert_eq!(s.duration, 960, "Opus sample duration must be 960 (20ms @ 48kHz), got {}", s.duration);
    }
}

#[test]
fn test_audio_duration_opus_fallback_on_empty_packet() {
    let mut muxer = Fmp4Muxer::new();
    muxer.set_audio_codec(AudioCodec::Opus);
    muxer.set_audio_config(vec![0x01, 0x02, 0x38, 0x01]);

    // Empty audio packet → opus_frame_samples returns None → fallback to 960
    muxer.add_audio_sample(vec![].into(), 0);
    muxer.add_audio_sample(vec![].into(), 20);

    muxer.compute_and_set_durations();

    for s in muxer.audio_samples() {
        assert_eq!(s.duration, 960, "Opus fallback duration must be 960, got {}", s.duration);
    }
}

#[test]
fn test_audio_duration_flac_single_4096() {
    let mut muxer = Fmp4Muxer::new();
    muxer.set_audio_codec(AudioCodec::Flac);
    muxer.set_audio_config(vec![
        0x66, 0x4c, 0x61, 0x43, 0x12, 0x00, 0x12, 0x00, 0x00, 0x00, 0x00, 0x00, 0x24, 0x15,
        0x0a, 0xc4, 0x40, 0xf0, 0x00, 0x00, 0x00, 0x00, 0x00, 0x00, 0x00, 0x00, 0x00, 0x00,
        0x00, 0x00, 0x00, 0x00, 0x00, 0x00, 0x00, 0x00, 0x00, 0x00,
    ]);

    // Single FLAC sample → fallback to 4096
    muxer.add_audio_sample(vec![0xFF, 0xF0, 0x00, 0x01].into(), 0);

    muxer.compute_and_set_durations();

    assert_eq!(muxer.audio_samples().len(), 1);
    assert_eq!(muxer.audio_samples()[0].duration, 4096,
        "Single FLAC sample should default to 4096");
}

#[test]
fn test_audio_duration_unknown_codec_no_audio_codec_set() {
    // When audio_codec is None (not set), the old RTMP averaging should be used.
    let mut muxer = Fmp4Muxer::new();
    // Deliberately NOT setting audio_codec
    muxer.set_audio_config(vec![0x12, 0x10]);

    muxer.add_audio_sample(vec![0xAF, 0x01].into(), 0);
    muxer.add_audio_sample(vec![0xAF, 0x02].into(), 23);

    muxer.compute_and_set_durations();

    // With audio_codec=None, the code uses the RTMP averaging branch
    // which set_audio_config set sample_rate to 44100.
    // total=23, cnt=1 → 23*44100/1000 = 1014 (rounded from 1014.3)
    assert_eq!(muxer.audio_samples()[0].duration, 1014);
    assert_eq!(muxer.audio_samples()[0].duration, muxer.audio_samples()[1].duration);
}

#[test]
fn test_last_audio_sample_duration_rounding() {
    let mut muxer = Fmp4Muxer::new();
    muxer.set_audio_codec(AudioCodec::Aac);
    muxer.set_audio_config(vec![0x12, 0x10]); // 44100Hz

    // AAC duration = 1024 samples @ 44100Hz
    // Expected ms = round(1024 * 1000 / 44100) = round(23.219) = 23
    muxer.add_audio_sample(vec![0xAF, 0x01].into(), 0);

    // Call compute_and_set_durations to set audio duration fields
    muxer.compute_and_set_durations();

    let ms = muxer.last_audio_sample_duration();
    // 1024 * 1000 / 44100 = 23 (truncated) but with rounding: (1024*1000 + 22050) / 44100 = 1024066.5 / 44100 = 23
    assert_eq!(ms, 23, "AAC duration at 44100Hz should round to 23ms");
}

// ── HDR box validation ──────────────────────────────────────────

fn find_box_bytes<'a>(data: &'a [u8], target: &[u8; 4]) -> Option<(usize, &'a [u8])> {
    let mut off = 0;
    while off + 8 <= data.len() {
        let size =
            u32::from_be_bytes([data[off], data[off + 1], data[off + 2], data[off + 3]])
                as usize;
        if size == 0 || off + size > data.len() {
            break;
        }
        if &data[off + 4..off + 8] == target {
            return Some((size, &data[off + 8..off + size]));
        }
        let fourcc = match data.get(off + 4..off + 8) {
            Some(s) if s.len() == 4 => {
                let mut a = [0u8; 4];
                a.copy_from_slice(s);
                a
            }
            _ => {
                off += size;
                continue;
            }
        };
        match &fourcc {
            b"moov" | b"trak" | b"mdia" | b"minf" | b"stbl" if size > 8 => {
                if let Some(r) = find_box_bytes(&data[off + 8..off + size], target) {
                    return Some(r);
                }
            }
            b"stsd" if size > 16 => {
                if let Some(r) = find_box_bytes(&data[off + 16..off + size], target) {
                    return Some(r);
                }
            }
            b"hvc1" | b"avc1" | b"av01" | b"hev1" if size > 8 => {
                if let Some(r) = find_box_bytes(&data[off + 86..off + size], target) {
                    return Some(r);
                }
            }
            _ => {}
        }
        off += size;
    }
    None
}

#[test]
fn test_hdr_boxes_clli_mdcv_in_init_segment() {
    let mut mux = Fmp4Muxer::new();
    mux.set_video_codec(VideoCodec::H265, 1920, 1080);
    mux.set_audio_codec(AudioCodec::Aac);
    mux.set_video_config(vec![
        0x01, 0x01, 0x60, 0x00, 0x00, 0x00, 0x00, 0x00, 0x00, 0x00, 0x00, 0x00, 0x78,
        0xF0, 0x00, 0xFC, 0xFD, 0xF8, 0xF8, 0x00, 0x00, 0x0F, 0x03, 0x20, 0x00, 0x00,
        0x03, 0x00, 0x80, 0x00, 0x00, 0x03, 0x00, 0x00, 0x03, 0x00, 0x78, 0xAC, 0x09,
    ]);
    mux.set_audio_config(vec![0x12, 0x10]);

    mux.set_video_color_config(ColorConfig {
        color_primaries: 9,
        transfer_characteristics: 16,
        matrix_coefficients: 9,
        full_range: false,
    });

    // Mastering display: Display P3 primaries, 1000 nits peak, 0.005 nits black
    mux.set_hdr_metadata(HdrMetadata {
        max_content_light_level: 1000,
        max_frame_average_light_level: 400,
        display_primaries_x: [34000, 13250, 7500],
        display_primaries_y: [16000, 34500, 3000],
        white_point_x: 15635,
        white_point_y: 16450,
        max_luminance: 10_000_000,
        min_luminance: 50,
    });

    let init = mux.init_segment();

    let (clli_size, clli_data) =
        find_box_bytes(&init, b"clli").expect("clli box missing from init segment");
    assert_eq!(clli_size, 12, "clli box should be 12 bytes");
    assert_eq!(
        u16::from_be_bytes([clli_data[0], clli_data[1]]),
        1000,
        "MaxCLL"
    );
    assert_eq!(
        u16::from_be_bytes([clli_data[2], clli_data[3]]),
        400,
        "MaxFALL"
    );

    let (mdcv_size, mdcv_data) =
        find_box_bytes(&init, b"mdcv").expect("mdcv box missing from init segment");
    assert_eq!(mdcv_size, 32, "mdcv box should be 32 bytes");

    assert_eq!(u16::from_be_bytes([mdcv_data[0], mdcv_data[1]]), 13250, "GX");
    assert_eq!(u16::from_be_bytes([mdcv_data[2], mdcv_data[3]]), 34500, "GY");
    assert_eq!(u16::from_be_bytes([mdcv_data[4], mdcv_data[5]]), 7500, "BX");
    assert_eq!(u16::from_be_bytes([mdcv_data[6], mdcv_data[7]]), 3000, "BY");
    assert_eq!(u16::from_be_bytes([mdcv_data[8], mdcv_data[9]]), 34000, "RX");
    assert_eq!(u16::from_be_bytes([mdcv_data[10], mdcv_data[11]]), 16000, "RY");
    assert_eq!(u16::from_be_bytes([mdcv_data[12], mdcv_data[13]]), 15635, "WX");
    assert_eq!(u16::from_be_bytes([mdcv_data[14], mdcv_data[15]]), 16450, "WY");
    assert_eq!(
        u32::from_be_bytes([mdcv_data[16], mdcv_data[17], mdcv_data[18], mdcv_data[19]]),
        10_000_000,
        "maxLum"
    );
    assert_eq!(
        u32::from_be_bytes([mdcv_data[20], mdcv_data[21], mdcv_data[22], mdcv_data[23]]),
        50,
        "minLum"
    );
}
