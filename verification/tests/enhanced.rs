use livestream_server::rtmp::enhanced::{
    is_enhanced_audio, is_enhanced_video, parse_enhanced_audio_header,
    parse_enhanced_audio_multitrack, parse_enhanced_video_header, parse_enhanced_video_multitrack,
    AudioPacketType, EnhancedAudioCodec, EnhancedVideoCodec, MultitrackType, VideoFrameType,
    VideoPacketType,
};
#[test]
fn test_parse_enhanced_av1_header_legacy() {
    let data: Vec<u8> = vec![
        0xCC,             // Enhanced Video CodecID (legacy)
        1,                  // packet_type = CodedFrames
        b'a', b'v', b'0', b'1', // fourcc "av01"
        0x0A, 0x0B, 0x0C,      // AV1 OBU data
    ];
    assert!(is_enhanced_video(&data));
    let (header, remainder) = parse_enhanced_video_header(&data).unwrap();
    assert_eq!(header.packet_type, VideoPacketType::CodedFrames);
    assert_eq!(header.codec, EnhancedVideoCodec::Av1);
    assert_eq!(remainder, &[0x0A, 0x0B, 0x0C]);
}

#[test]
fn test_parse_enhanced_av1_header_veovera() {
    // Veovera/FFmpeg format: [0x80 | frame_type | packet_type, FourCC, payload]
    let data: Vec<u8> = vec![
        0x91,             // is_ex=1, frame_type=Key(1), packet_type=CodedFrames(1)
        b'a', b'v', b'0', b'1', // fourcc "av01"
        0x12, 0x00, 0x0A,      // AV1 OBU data
    ];
    assert!(is_enhanced_video(&data));
    let (header, remainder) = parse_enhanced_video_header(&data).unwrap();
    assert_eq!(header.packet_type, VideoPacketType::CodedFrames);
    assert_eq!(header.frame_type, VideoFrameType::KeyFrame);
    assert_eq!(header.codec, EnhancedVideoCodec::Av1);
    assert_eq!(remainder, &[0x12, 0x00, 0x0A]);
}

#[test]
fn test_parse_enhanced_av1_sequence_start() {
    let data: Vec<u8> = vec![
        0x90,             // is_ex=1, frame_type=Key(1), packet_type=SequenceStart(0)
        b'a', b'v', b'0', b'1', // fourcc "av01"
        0x81, 0x04, 0x0c,      // AV1 sequence header OBU
    ];
    assert!(is_enhanced_video(&data));
    let (header, remainder) = parse_enhanced_video_header(&data).unwrap();
    assert_eq!(header.packet_type, VideoPacketType::SequenceStart);
    assert_eq!(header.frame_type, VideoFrameType::KeyFrame);
    assert_eq!(header.codec, EnhancedVideoCodec::Av1);
    assert_eq!(remainder, &[0x81, 0x04, 0x0c]);
}

#[test]
fn test_parse_enhanced_avc_with_composition_time() {
    let data: Vec<u8> = vec![
        0x91,             // is_ex=1, frame_type=Key, packet_type=CodedFrames
        b'a', b'v', b'c', b'1', // fourcc "avc1"
        0x00, 0x00, 0x21, // composition time = 33ms
        0x67, 0x42, 0xC0, // NAL data
    ];
    assert!(is_enhanced_video(&data));
    let (header, remainder) = parse_enhanced_video_header(&data).unwrap();
    assert_eq!(header.packet_type, VideoPacketType::CodedFrames);
    assert_eq!(header.codec, EnhancedVideoCodec::Avc);
    assert_eq!(remainder, &[0x67, 0x42, 0xC0]);
}

#[test]
fn test_parse_enhanced_inter_frame() {
    let data: Vec<u8> = vec![
        0xA1,             // is_ex=1, frame_type=Inter(2), packet_type=CodedFrames(1)
        b'a', b'v', b'0', b'1', // fourcc "av01"
        0x12, 0x00, 0x00,      // AV1 OBU data
    ];
    let (header, _) = parse_enhanced_video_header(&data).unwrap();
    assert_eq!(header.frame_type, VideoFrameType::InterFrame);
}

#[test]
fn test_parse_enhanced_audio_header_legacy() {
    let data: Vec<u8> = vec![
        0xCA,             // Enhanced Audio CodecID (legacy)
        1,                  // packet_type = CodedFrames
        b'O', b'p', b'u', b's', // fourcc "Opus"
        0x0A, 0x0B,         // Opus frame data
    ];
    assert!(is_enhanced_audio(&data));
    let (header, remainder) = parse_enhanced_audio_header(&data).unwrap();
    assert_eq!(header.packet_type, AudioPacketType::CodedFrames);
    assert_eq!(header.codec, EnhancedAudioCodec::Opus);
    assert_eq!(remainder, &[0x0A, 0x0B]);
}

#[test]
fn test_parse_enhanced_audio_header_veovera() {
    let data: Vec<u8> = vec![
        0x91,             // soundFormat=9, packet_type=CodedFrames
        b'O', b'p', b'u', b's', // fourcc "Opus"
        0x0A, 0x0B,         // Opus frame data
    ];
    assert!(is_enhanced_audio(&data));
    let (header, remainder) = parse_enhanced_audio_header(&data).unwrap();
    assert_eq!(header.packet_type, AudioPacketType::CodedFrames);
    assert_eq!(header.codec, EnhancedAudioCodec::Opus);
    assert_eq!(remainder, &[0x0A, 0x0B]);
}

#[test]
fn test_parse_enhanced_audio_multitrack() {
    // OBS/FFmpeg audio multitrack: [0x95, 0x01, "Opus", 0x01, payload]
    let data: Vec<u8> = vec![
        0x95,             // soundFormat=9 | Multitrack(5)
        0x01,             // OneTrack | CodedFrames(1)
        b'O', b'p', b'u', b's', // fourcc "Opus"
        0x01,             // track_id = 1
        0x0A, 0x0B,       // Opus frame data
    ];
    assert!(is_enhanced_audio(&data));
    let (header, remainder) = parse_enhanced_audio_header(&data).unwrap();
    assert_eq!(header.packet_type, AudioPacketType::Multitrack);
    let (mt, inner_pt, tracks) = parse_enhanced_audio_multitrack(remainder).unwrap();
    assert_eq!(mt, MultitrackType::OneTrack);
    assert_eq!(inner_pt, Some(AudioPacketType::CodedFrames));
    assert_eq!(tracks.len(), 1);
    assert_eq!(tracks[0].track_id, 1);
    assert_eq!(tracks[0].codec, EnhancedAudioCodec::Opus);
    assert_eq!(tracks[0].payload, &[0x0A, 0x0B]);
}

#[test]
fn test_parse_enhanced_video_multitrack_onetrack() {
    // OBS/FFmpeg video multitrack: [0x96, 0x01, "av01", 0x01, payload]
    let data: Vec<u8> = vec![
        0x96,             // is_ex=1 | Multitrack(6) | KeyFrame(0x10)
        0x01,             // OneTrack | CodedFrames(1)
        b'a', b'v', b'0', b'1', // fourcc "av01"
        0x01,             // track_id = 1
        0x0A, 0x0B, 0x0C, // payload
    ];
    assert!(is_enhanced_video(&data));
    let (header, remainder) = parse_enhanced_video_header(&data).unwrap();
    assert_eq!(header.packet_type, VideoPacketType::Multitrack);
    let (mt, inner_pt, tracks) = parse_enhanced_video_multitrack(remainder).unwrap();
    assert_eq!(mt, MultitrackType::OneTrack);
    assert_eq!(inner_pt, Some(VideoPacketType::CodedFrames));
    assert_eq!(tracks.len(), 1);
    assert_eq!(tracks[0].track_id, 1);
    assert_eq!(tracks[0].codec, EnhancedVideoCodec::Av1);
    assert_eq!(tracks[0].payload, &[0x0A, 0x0B, 0x0C]);
}

#[test]
fn test_parse_enhanced_video_multitrack_onetrack_sequence_start() {
    let data: Vec<u8> = vec![
        0x96,             // is_ex=1 | Multitrack(6) | KeyFrame(0x10)
        0x00,             // OneTrack | SequenceStart(0)
        b'a', b'v', b'0', b'1', // fourcc "av01"
        0x01,             // track_id = 1
        0x81, 0x04, 0x0c, // AV1 config payload
    ];
    let (header, remainder) = parse_enhanced_video_header(&data).unwrap();
    assert_eq!(header.packet_type, VideoPacketType::Multitrack);
    let (mt, inner_pt, tracks) = parse_enhanced_video_multitrack(remainder).unwrap();
    assert_eq!(mt, MultitrackType::OneTrack);
    assert_eq!(inner_pt, Some(VideoPacketType::SequenceStart));
    assert_eq!(tracks[0].track_id, 1);
    assert_eq!(tracks[0].codec, EnhancedVideoCodec::Av1);
}

#[test]
fn test_parse_avc_multitrack_strips_cts() {
    // FFmpeg flvenc.c:1414-1415 writes 3-byte CTS after track_id for AVC/HEVC CodedFrames.
    // Data: [exVideo] [OneTrack|CodedFrames] ["avc1"] [track=1] [CTS=0x001234] [NAL data]
    let nal_data = vec![0x00, 0x00, 0x00, 0x05, 0x65, 0x88, 0x84, 0x00, 0x01];
    let mut data: Vec<u8> = vec![
        0x96,             // is_ex=1 | Multitrack(6) | KeyFrame
        0x01,             // OneTrack | CodedFrames(1)
        b'a', b'v', b'c', b'1', // "avc1"
        0x00,             // track_id = 0
        0x00, 0x12, 0x34, // CTS = 0x1234 (4660)
    ];
    data.extend_from_slice(&nal_data);

    let (header, remainder) = parse_enhanced_video_header(&data).unwrap();
    assert_eq!(header.packet_type, VideoPacketType::Multitrack);
    let (mt, inner_pt, tracks) = parse_enhanced_video_multitrack(remainder).unwrap();
    assert_eq!(mt, MultitrackType::OneTrack);
    assert_eq!(inner_pt, Some(VideoPacketType::CodedFrames));
    assert_eq!(tracks.len(), 1);
    assert_eq!(tracks[0].codec, EnhancedVideoCodec::Avc);
    // CTS bytes (0x00, 0x12, 0x34) must be stripped from payload
    assert_eq!(tracks[0].payload, nal_data.as_slice());
}

#[test]
fn test_parse_avc_multitrack_codedframesx_no_cts() {
    // CodedFramesX (DTS==PTS optimization) has NO CTS bytes.
    let nal_data = vec![0x00, 0x00, 0x00, 0x05, 0x65, 0x88, 0x84, 0x00, 0x01];
    let mut data: Vec<u8> = vec![
        0x96,             // is_ex=1 | Multitrack(6) | KeyFrame
        0x03,             // OneTrack | CodedFramesX(3)
        b'a', b'v', b'c', b'1', // "avc1"
        0x00,             // track_id = 0
    ];
    data.extend_from_slice(&nal_data);

    let (_header, remainder) = parse_enhanced_video_header(&data).unwrap();
    let (_mt, inner_pt, tracks) = parse_enhanced_video_multitrack(remainder).unwrap();
    assert_eq!(inner_pt, Some(VideoPacketType::CodedFramesX));
    // CodedFramesX: NO CTS stripping, payload is raw NAL data
    assert_eq!(tracks[0].payload, nal_data.as_slice());
}

#[test]
fn test_parse_hevc_multitrack_strips_cts() {
    let nal_data = vec![0x00, 0x00, 0x00, 0x06, 0x40, 0x01, 0x0C, 0x01, 0xFF, 0xFF];
    let mut data: Vec<u8> = vec![
        0x96,             // is_ex=1 | Multitrack(6) | KeyFrame
        0x01,             // OneTrack | CodedFrames(1)
        b'h', b'v', b'c', b'1', // "hvc1"
        0x00,             // track_id = 0
        0xFF, 0xFE, 0x00, // CTS = -512 (sign-extended from 0xFFFE00)
    ];
    data.extend_from_slice(&nal_data);

    let (_header, remainder) = parse_enhanced_video_header(&data).unwrap();
    let (_mt, _inner_pt, tracks) = parse_enhanced_video_multitrack(remainder).unwrap();
    assert_eq!(tracks[0].codec, EnhancedVideoCodec::Hevc);
    assert_eq!(tracks[0].payload, nal_data.as_slice());
}

#[test]
fn test_parse_avc_multitrack_legacy_strips_cts() {
    // Legacy 0xCC format: [0xCC] [Multitrack|frameType] [multitrack_type] ["avc1"] [track_id] [CTS] [NAL]
    let nal_data = vec![0x00, 0x00, 0x00, 0x04, 0x65, 0x88];
    let mut data: Vec<u8> = vec![
        0xCC,             // legacy ExVideo marker
        0x06,             // packet_type = Multitrack(6), frame_type=InterFrame
        0x01,             // multitrack_type: OneTrack | CodedFrames
        b'a', b'v', b'c', b'1', // "avc1"
        0x00,             // track_id = 0
        0x00, 0x00, 0x00, // CTS = 0
    ];
    data.extend_from_slice(&nal_data);

    let (header, remainder) = parse_enhanced_video_header(&data).unwrap();
    assert_eq!(header.packet_type, VideoPacketType::Multitrack);
    let (_mt, _inner_pt, tracks) = parse_enhanced_video_multitrack(remainder).unwrap();
    assert_eq!(tracks[0].codec, EnhancedVideoCodec::Avc);
    assert_eq!(tracks[0].payload, nal_data.as_slice());
}

#[test]
fn test_parse_avc_multitrack_sequence_start_no_cts() {
    // SequenceStart has NO CTS, only raw AVCC config.
    let config = vec![0x01, 0x42, 0xC0, 0x1E, 0xFF, 0xE1, 0x00, 0x00];
    let mut data: Vec<u8> = vec![
        0x96,             // is_ex=1 | Multitrack(6) | KeyFrame
        0x00,             // OneTrack | SequenceStart(0)
        b'a', b'v', b'c', b'1', // "avc1"
        0x00,             // track_id = 0
    ];
    data.extend_from_slice(&config);

    let (_header, remainder) = parse_enhanced_video_header(&data).unwrap();
    let (_mt, inner_pt, tracks) = parse_enhanced_video_multitrack(remainder).unwrap();
    assert_eq!(inner_pt, Some(VideoPacketType::SequenceStart));
    assert_eq!(tracks[0].payload, config.as_slice());
}

#[test]
fn test_parse_av1_multitrack_codedframes_no_cts_stripping() {
    // AV1 has no CTS - payload should pass through unchanged
    let obu_data = vec![0x0A, 0x04, 0x00, 0x00, 0x00, 0x40];
    let mut data: Vec<u8> = vec![
        0x96,             // is_ex=1 | Multitrack(6) | KeyFrame
        0x01,             // OneTrack | CodedFrames(1)
        b'a', b'v', b'0', b'1', // "av01"
        0x00,             // track_id = 0
    ];
    data.extend_from_slice(&obu_data);

    let (_header, remainder) = parse_enhanced_video_header(&data).unwrap();
    let (_mt, _inner_pt, tracks) = parse_enhanced_video_multitrack(remainder).unwrap();
    assert_eq!(tracks[0].codec, EnhancedVideoCodec::Av1);
    assert_eq!(tracks[0].payload, obu_data.as_slice());
}

#[test]
fn test_parse_avc_multitrack_manytracks_strips_cts() {
    // ManyTracks with 2 AVC tracks, each with CTS
    let nal1 = vec![0x00, 0x00, 0x00, 0x04, 0x65, 0x88];
    let nal2 = vec![0x00, 0x00, 0x00, 0x04, 0x41, 0x88];
    let track0_size = 3 + nal1.len(); // CTS 3 + NAL
    let track1_size = 3 + nal2.len();
    let mut data: Vec<u8> = vec![
        0x96,             // is_ex=1 | Multitrack(6) | KeyFrame
        0x11,             // ManyTracks(1) | CodedFrames(1)
        b'a', b'v', b'c', b'1', // "avc1"
        0x00,             // track 0 id
        (track0_size >> 16) as u8, (track0_size >> 8) as u8, track0_size as u8, // size
        0x00, 0x00, 0x01, // CTS = 1
    ];
    data.extend_from_slice(&nal1);
    data.extend_from_slice(&[
        0x01,             // track 1 id
        (track1_size >> 16) as u8, (track1_size >> 8) as u8, track1_size as u8, // size
        0x00, 0x00, 0x02, // CTS = 2
    ]);
    data.extend_from_slice(&nal2);

    let (_header, remainder) = parse_enhanced_video_header(&data).unwrap();
    let (_mt, _inner_pt, tracks) = parse_enhanced_video_multitrack(remainder).unwrap();
    assert_eq!(tracks.len(), 2);
    assert_eq!(tracks[0].codec, EnhancedVideoCodec::Avc);
    assert_eq!(tracks[1].codec, EnhancedVideoCodec::Avc);
    assert_eq!(tracks[0].payload, nal1.as_slice());
    assert_eq!(tracks[1].payload, nal2.as_slice());
}
