use livestream_server::hls::segments::{
    frame_pts, frame_pts_in_range, init_file_name, segment_file_name, AudioGate, HlsSegmenter,
    InitPlan, VideoGate,
};

/// Feeds a video frame the way a track does; returns whether it was queued.
fn feed_video(seg: &mut HlsSegmenter, ts: u32, key: bool) -> bool {
    if seg.is_audio_only() {
        return false;
    }
    let dts = seg.media_time(ts);
    match seg.video_gate(key) {
        VideoGate::Drop => return false,
        VideoGate::OpenFirst => {
            seg.segment_opened();
            seg.start_first_segment(dts);
        }
        VideoGate::Reopen => {
            seg.reopen_segment(dts);
            seg.segment_opened();
        }
        VideoGate::Continue => {}
    }
    if seg.check_video_rotation(dts, key) {
        close(seg, 33);
        seg.begin_next_segment(dts);
        seg.segment_opened();
    }
    seg.record_video_pts(dts);
    true
}

/// Feeds an audio frame; returns whether it was queued.
fn feed_audio(seg: &mut HlsSegmenter, ts: u32, codec_known: bool) -> bool {
    let pts = seg.media_time(ts);
    let (_, gate) = seg.audio_gate(codec_known);
    match gate {
        AudioGate::Drop => return false,
        AudioGate::OpenFirst => {
            seg.segment_opened();
            seg.start_audio_segment(pts);
        }
        AudioGate::Continue => {}
    }
    seg.record_audio_pts(pts);
    if seg.check_audio_rotation(pts) {
        close(seg, 23);
        seg.begin_next_segment(pts);
        seg.segment_opened();
    }
    true
}

fn close(seg: &mut HlsSegmenter, last_sample_duration: u64) {
    if seg.close_segment() {
        seg.record_segment(last_sample_duration);
    }
    seg.trim_window();
}

#[test]
fn segmenter_waits_for_first_keyframe() {
    let mut seg = HlsSegmenter::new(false, 4, 10);
    assert!(!feed_video(&mut seg, 0, false));
    assert!(!seg.has_video());
    assert!(!seg.file_open());
    assert!(feed_video(&mut seg, 40, true));
    assert!(seg.has_video());
    assert!(seg.file_open());
    assert_eq!(seg.segment_index(), 0);
}

#[test]
fn segmenter_rotates_only_on_keyframe() {
    let mut seg = HlsSegmenter::new(false, 2, 10);
    assert!(feed_video(&mut seg, 0, true));
    assert!(feed_video(&mut seg, 2500, false));
    assert_eq!(seg.segment_index(), 0);
    assert!(seg.pending_rotation());
    assert!(feed_video(&mut seg, 2600, true));
    assert_eq!(seg.segment_index(), 1);
    assert!(!seg.pending_rotation());
    let segs = seg.segments();
    assert_eq!(segs.len(), 1);
    assert_eq!(segs[0].duration_ms, 2533);
    assert_eq!(segs[0].start_ms, 0);
    assert!(!segs[0].discontinuity);
}

#[test]
fn segmenter_nonkeyframes_never_rotate() {
    let mut seg = HlsSegmenter::new(false, 1, 10);
    assert!(feed_video(&mut seg, 0, true));
    for i in 1..50u32 {
        assert!(feed_video(&mut seg, i * 200, false));
    }
    assert_eq!(seg.segment_index(), 0);
    assert!(seg.segments().is_empty());
}

#[test]
fn segmenter_sliding_window_keeps_three() {
    let mut seg = HlsSegmenter::new(false, 1, 3);
    for i in 0..8u32 {
        assert!(feed_video(&mut seg, i * 1000, true));
    }
    assert_eq!(seg.segment_index(), 7);
    assert_eq!(seg.segments().len(), 3);
    assert_eq!(seg.first_segment_index(), 4);
    let starts = seg.segment_start_offsets();
    assert_eq!(starts, vec![4000, 5000, 6000]);
}

#[test]
fn segmenter_window_minimum_is_three() {
    let mut seg = HlsSegmenter::new(false, 1, 1);
    for i in 0..6u32 {
        assert!(feed_video(&mut seg, i * 1000, true));
    }
    assert_eq!(seg.segments().len(), 3);
    assert_eq!(seg.first_segment_index(), 2);
}

#[test]
fn segmenter_playlist_text() {
    let mut seg = HlsSegmenter::new(false, 2, 10);
    assert!(feed_video(&mut seg, 0, true));
    assert!(feed_video(&mut seg, 2500, false));
    assert!(feed_video(&mut seg, 2600, true));
    let text = seg.render_playlist(Some("avc1.42c01e"), None, true);
    assert_eq!(
        text,
        "#EXTM3U\n#EXT-X-VERSION:7\n#EXT-X-CODECS:avc1.42c01e\n#EXT-X-TARGETDURATION:3\n\
         #EXT-X-MEDIA-SEQUENCE:0\n#EXT-X-DISCONTINUITY-SEQUENCE:0\n\
         #EXT-X-MAP:URI=\"init.mp4\"\n#EXTINF:2.533,\nsegment00000.m4s\n#EXT-X-ENDLIST\n"
    );
}

#[test]
fn segmenter_playlist_before_any_segment() {
    let seg = HlsSegmenter::new(false, 4, 10);
    let text = seg.render_playlist(None, None, false);
    assert_eq!(
        text,
        "#EXTM3U\n#EXT-X-VERSION:7\n#EXT-X-TARGETDURATION:4\n#EXT-X-MEDIA-SEQUENCE:0\n\
         #EXT-X-DISCONTINUITY-SEQUENCE:0\n#EXT-X-MAP:URI=\"init.mp4\"\n"
    );
}

#[test]
fn segmenter_playlist_program_date_time() {
    let mut seg = HlsSegmenter::new(false, 4, 10);
    assert!(feed_video(&mut seg, 0, true));
    assert!(feed_video(&mut seg, 3967, false));
    assert!(feed_video(&mut seg, 4000, true));
    assert!(feed_video(&mut seg, 7967, false));
    assert!(feed_video(&mut seg, 8000, true));
    let times = vec![
        "2024-01-01T00:00:00.000Z".to_string(),
        "2024-01-01T00:00:04.000Z".to_string(),
    ];
    let text = seg.render_playlist(None, Some(times.as_slice()), false);
    assert!(text.contains(
        "#EXTINF:4.000,\n#EXT-X-PROGRAM-DATE-TIME:2024-01-01T00:00:00.000Z\nsegment00000.m4s\n"
    ));
    assert!(text.contains(
        "#EXTINF:4.000,\n#EXT-X-PROGRAM-DATE-TIME:2024-01-01T00:00:04.000Z\nsegment00001.m4s\n"
    ));
    assert!(!text.contains("#EXT-X-ENDLIST"));
}

#[test]
fn segmenter_init_versions_and_discontinuity() {
    let mut seg = HlsSegmenter::new(false, 1, 10);
    assert!(matches!(seg.plan_init(11), InitPlan::Write(0)));
    seg.init_stored(11);
    // A second configuration before any segment overwrites version 0.
    seg.invalidate_init();
    assert!(matches!(seg.plan_init(12), InitPlan::Write(0)));
    seg.init_stored(12);
    assert!(feed_video(&mut seg, 0, true));
    assert!(feed_video(&mut seg, 1000, true));
    // Same bytes again: nothing to write.
    assert!(matches!(seg.plan_init(12), InitPlan::Unchanged));
    // New configuration after a segment: a new version.
    seg.invalidate_init();
    assert!(matches!(seg.plan_init(13), InitPlan::Write(1)));
    seg.init_stored(13);
    assert_eq!(seg.init_version(), 1);
    assert!(feed_video(&mut seg, 2000, true));
    let segs = seg.segments();
    assert_eq!(segs.len(), 2);
    assert!(!segs[0].discontinuity);
    assert!(segs[1].discontinuity);
    assert_eq!(segs[1].init_version, 1);
    let text = seg.render_playlist(None, None, false);
    assert!(text.contains(
        "#EXT-X-DISCONTINUITY\n#EXT-X-MAP:URI=\"init_v1.mp4\"\n#EXTINF:0.033,\nsegment00001.m4s\n"
    ));
}

#[test]
fn segmenter_missing_init_file_is_rewritten() {
    let mut seg = HlsSegmenter::new(false, 4, 10);
    assert!(matches!(seg.plan_init(5), InitPlan::Write(0)));
    seg.init_stored(5);
    assert!(seg.init_written());
    seg.init_missing();
    assert!(!seg.init_written());
    assert!(matches!(seg.plan_init(5), InitPlan::Write(0)));
}

#[test]
fn segmenter_grace_period_continues_clock() {
    let mut seg = HlsSegmenter::new(false, 4, 10);
    assert!(feed_video(&mut seg, 1000, true));
    assert!(feed_video(&mut seg, 6000, false));
    close(&mut seg, 33);
    seg.enter_grace_period();
    seg.segment_opened();
    seg.restart_after_grace();
    assert_eq!(seg.segment_index(), 1);
    // Timestamps of the new connection start again from any value.
    assert_eq!(seg.media_time(90), 5033);
    assert_eq!(seg.media_time(1090), 6033);
}

#[test]
fn segmenter_audio_only_rotates_without_keyframes() {
    let mut seg = HlsSegmenter::new(true, 1, 10);
    assert!(!feed_video(&mut seg, 0, true));
    assert!(!feed_audio(&mut seg, 0, false));
    assert!(feed_audio(&mut seg, 0, true));
    assert!(seg.has_audio());
    assert!(seg.file_open());
    assert!(feed_audio(&mut seg, 500, true));
    assert!(feed_audio(&mut seg, 1100, true));
    assert_eq!(seg.segment_index(), 1);
    assert_eq!(seg.segments().len(), 1);
    assert_eq!(seg.segments()[0].duration_ms, 1123);
}

#[test]
fn segmenter_audio_before_video_is_dropped() {
    let mut seg = HlsSegmenter::new(false, 4, 10);
    assert!(!feed_audio(&mut seg, 0, true));
    assert!(!seg.file_open());
    assert!(!seg.has_video());
}

#[test]
fn segmenter_total_duration_sums_segments() {
    let mut seg = HlsSegmenter::new(false, 1, 3);
    for i in 0..5u32 {
        assert!(feed_video(&mut seg, i * 1000, true));
    }
    assert_eq!(seg.total_duration_ms(), 4 * 33);
}

#[test]
fn segment_and_init_file_names() {
    assert_eq!(segment_file_name(7), "segment00007.m4s");
    assert_eq!(segment_file_name(123456), "segment123456.m4s");
    assert_eq!(init_file_name(0), "init.mp4");
    assert_eq!(init_file_name(3), "init_v3.mp4");
}

#[test]
fn frame_pts_adds_composition_offset() {
    assert_eq!(frame_pts(1000, -40), 960);
    assert_eq!(frame_pts(1000, 66), 1066);
    assert!(frame_pts_in_range(1000, -40));
    assert!(!frame_pts_in_range(u64::MAX / 2, 1));
}

#[test]
fn segmenter_target_duration_covers_longest_segment() {
    let mut seg = HlsSegmenter::new(false, 2, 10);
    assert!(feed_video(&mut seg, 0, true));
    assert!(feed_video(&mut seg, 4467, false));
    assert!(feed_video(&mut seg, 4500, true));
    assert_eq!(seg.segments()[0].duration_ms, 4500);
    let text = seg.render_playlist(None, None, false);
    assert!(text.contains("#EXT-X-TARGETDURATION:5\n"));
    assert!(text.contains("#EXTINF:4.500,\n"));
}
