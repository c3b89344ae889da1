use livestream_server::hls::fmp4::{AudioCodec, VideoCodec};
use livestream_server::rtmp::TrackRegistry;

#[test]
fn first_video_codec_announces_track() {
    let mut reg = TrackRegistry::new();
    let a = reg.register_video(0, VideoCodec::H264).expect("new track is announced");
    assert_eq!(a.video, Some(VideoCodec::H264));
    assert_eq!(a.audio, None);
    assert_eq!(reg.video_codec(0), Some(VideoCodec::H264));
}

#[test]
fn same_codec_again_announces_nothing() {
    let mut reg = TrackRegistry::new();
    reg.register_video(1, VideoCodec::H265);
    assert!(reg.register_video(1, VideoCodec::H265).is_none());
    reg.register_audio(1, AudioCodec::Opus);
    assert!(reg.register_audio(1, AudioCodec::Opus).is_none());
}

#[test]
fn codec_change_announces_both_codecs() {
    let mut reg = TrackRegistry::new();
    reg.register_audio(2, AudioCodec::Aac);
    let a = reg.register_video(2, VideoCodec::AV1).expect("video codec is new");
    assert_eq!(a.video, Some(VideoCodec::AV1));
    assert_eq!(a.audio, Some(AudioCodec::Aac));
    let b = reg.register_audio(2, AudioCodec::Flac).expect("audio codec changed");
    assert_eq!(b.video, Some(VideoCodec::AV1));
    assert_eq!(b.audio, Some(AudioCodec::Flac));
}

#[test]
fn discovery_announces_once() {
    let mut reg = TrackRegistry::new();
    let a = reg.ensure_discovered(0).expect("first sighting");
    assert_eq!(a.video, None);
    assert_eq!(a.audio, None);
    assert!(reg.ensure_discovered(0).is_none());
    // A discovered track with no codec yet is announced when one arrives.
    assert!(reg.register_audio(0, AudioCodec::Aac).is_some());
}

#[test]
fn ended_sequences_are_per_track_and_kind() {
    let mut reg = TrackRegistry::new();
    assert!(!reg.video_closed(3));
    reg.close_video(3);
    assert!(reg.video_closed(3));
    assert!(!reg.audio_closed(3));
    assert!(!reg.video_closed(4));
    reg.close_audio(4);
    assert!(reg.audio_closed(4));
    assert_eq!(reg.audio_codec(4), None);
}
