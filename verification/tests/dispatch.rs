use livestream_server::rtmp::dispatch::{
    audio_track_action, classify_legacy_audio, classify_legacy_video, master_playlist,
    temp_segment_file_name, track_dir, track_hls_url, video_track_action, LegacyAudio,
    LegacyVideo, TrackAction,
};
use livestream_server::rtmp::enhanced::{AudioPacketType, VideoPacketType};

#[test]
fn legacy_avc_sequence_header() {
    let tag = [0x17u8, 0x00, 0x00, 0x00, 0x00, 0x01, 0x42, 0xC0, 0x1E];
    assert!(matches!(classify_legacy_video(&tag), LegacyVideo::AvcConfig { start: 5 }));
}

#[test]
fn legacy_avc_frame_positive_composition_time() {
    let tag = [0x17u8, 0x01, 0x00, 0x01, 0x00, 0x00, 0x00, 0x00, 0x04];
    match classify_legacy_video(&tag) {
        LegacyVideo::AvcFrame { start, key, cto } => {
            assert_eq!(start, 5);
            assert!(key);
            assert_eq!(cto, 256);
        }
        _ => panic!("expected an AVC frame"),
    }
}

#[test]
fn legacy_avc_frame_negative_composition_time() {
    let tag = [0x27u8, 0x01, 0xFF, 0xFF, 0xF0, 0x00];
    match classify_legacy_video(&tag) {
        LegacyVideo::AvcFrame { start, key, cto } => {
            assert_eq!(start, 5);
            assert!(!key);
            assert_eq!(cto, -16);
        }
        _ => panic!("expected an AVC frame"),
    }
}

#[test]
fn legacy_avc_short_frame_has_no_payload() {
    let tag = [0x17u8, 0x01, 0x00];
    match classify_legacy_video(&tag) {
        LegacyVideo::AvcFrame { start, key, cto } => {
            assert_eq!(start, 3);
            assert!(key);
            assert_eq!(cto, 0);
        }
        _ => panic!("expected an AVC frame"),
    }
}

#[test]
fn legacy_avc_end_and_other_packets() {
    assert!(matches!(classify_legacy_video(&[0x17u8, 0x02]), LegacyVideo::AvcEnd));
    assert!(matches!(classify_legacy_video(&[0x17u8, 0x05]), LegacyVideo::AvcIgnored));
    assert!(matches!(classify_legacy_video(&[0x17u8]), LegacyVideo::Other { start: 1, key: true }));
    assert!(matches!(classify_legacy_video(&[0x22u8, 0x00]), LegacyVideo::Other { start: 1, key: false }));
}

#[test]
fn legacy_aac_packets() {
    assert!(matches!(classify_legacy_audio(&[0xAFu8, 0x00, 0x12, 0x10], false), LegacyAudio::AacConfig { start: 2 }));
    assert!(matches!(classify_legacy_audio(&[0xAFu8, 0x01, 0x21], false), LegacyAudio::AacFrame { start: 2 }));
    assert!(matches!(classify_legacy_audio(&[0xAFu8, 0x07], false), LegacyAudio::AacIgnored));
    assert!(matches!(classify_legacy_audio(&[0xAFu8], false), LegacyAudio::Other { start: 1 }));
}

#[test]
fn legacy_opus_packets() {
    let mut head = vec![0x9Fu8];
    head.extend_from_slice(b"Opus");
    head.extend_from_slice(b"OpusHead");
    head.extend_from_slice(&[1, 2, 0x38, 0x01]);
    assert!(matches!(classify_legacy_audio(&head, false), LegacyAudio::OpusConfig { start: 5 }));
    let mut frame = vec![0x9Fu8];
    frame.extend_from_slice(b"Opus");
    frame.extend_from_slice(&[0xFC, 0xFF, 0xFE]);
    assert!(matches!(classify_legacy_audio(&frame, false), LegacyAudio::OpusFrame { start: 5 }));
}

#[test]
fn legacy_flac_packets() {
    let mut config = vec![0x9Fu8];
    config.extend_from_slice(b"fLaC");
    config.extend_from_slice(&[0u8; 34]);
    assert_eq!(config.len(), 39);
    assert!(matches!(classify_legacy_audio(&config, false), LegacyAudio::FlacConfig { start: 1 }));
    let mut frame = vec![0x9Fu8];
    frame.extend_from_slice(b"fLaC");
    frame.extend_from_slice(&[0xFF, 0xF8, 0x69]);
    assert!(matches!(classify_legacy_audio(&frame, true), LegacyAudio::FlacFrame { start: 5 }));
    let mut other = vec![0x9Fu8];
    other.extend_from_slice(b"fLaC");
    other.extend_from_slice(&[0x00, 0x01]);
    assert!(matches!(classify_legacy_audio(&other, true), LegacyAudio::FlacSkipped));
    // A short first packet is neither configuration nor frame.
    assert!(matches!(classify_legacy_audio(&frame, false), LegacyAudio::FlacIgnored));
}

#[test]
fn legacy_other_audio_formats() {
    assert!(matches!(classify_legacy_audio(&[0x2Fu8, 0xFF, 0xFB], false), LegacyAudio::Other { start: 1 }));
    let mut short = vec![0x9Fu8];
    short.extend_from_slice(b"Opus");
    assert!(matches!(classify_legacy_audio(&short, false), LegacyAudio::Other { start: 1 }));
}

#[test]
fn track_actions_follow_packet_type() {
    assert!(matches!(video_track_action(Some(VideoPacketType::SequenceStart)), TrackAction::SetConfig));
    assert!(matches!(video_track_action(Some(VideoPacketType::SequenceEnd)), TrackAction::Finalize));
    assert!(matches!(video_track_action(Some(VideoPacketType::Metadata)), TrackAction::Metadata));
    assert!(matches!(video_track_action(Some(VideoPacketType::CodedFramesX)), TrackAction::WriteFrame));
    assert!(matches!(video_track_action(None), TrackAction::WriteFrame));
    assert!(matches!(audio_track_action(Some(AudioPacketType::SequenceStart)), TrackAction::SetConfig));
    assert!(matches!(audio_track_action(Some(AudioPacketType::SequenceEnd)), TrackAction::Finalize));
    assert!(matches!(audio_track_action(Some(AudioPacketType::CodedFrames)), TrackAction::WriteFrame));
}

#[test]
fn master_playlist_lists_alternates() {
    let text = master_playlist(&[1, 2, 3, 4]);
    assert_eq!(
        text,
        "#EXTM3U\n#EXT-X-VERSION:6\n#EXT-X-STREAM-INF:BANDWIDTH=2500000\nindex.m3u8\n\
         #EXT-X-STREAM-INF:BANDWIDTH=1500000\ntrack_1/index.m3u8\n\
         #EXT-X-STREAM-INF:BANDWIDTH=1000000\ntrack_2/index.m3u8\n\
         #EXT-X-STREAM-INF:BANDWIDTH=500000\ntrack_3/index.m3u8\n\
         #EXT-X-STREAM-INF:BANDWIDTH=500000\ntrack_4/index.m3u8\n"
    );
    assert_eq!(
        master_playlist(&[]),
        "#EXTM3U\n#EXT-X-VERSION:6\n#EXT-X-STREAM-INF:BANDWIDTH=2500000\nindex.m3u8\n"
    );
}

#[test]
fn track_urls_and_dirs() {
    assert_eq!(track_hls_url("live1", 0), "/hls/live1/index.m3u8");
    assert_eq!(track_hls_url("live1", 2), "/hls/live1/track_2/index.m3u8");
    assert_eq!(track_dir(12), "track_12");
    assert_eq!(temp_segment_file_name(3), "segment00003.m4s.tmp");
}
