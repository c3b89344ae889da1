//! Segment timing and playlist bookkeeping of an HLS track: when segments
//! open, rotate and close, which finalized segments stay in the sliding
//! window, which init segment each one uses, and the media playlist text.
//! The caller performs the file work each decision asks for.
use crate::text::{
    push_decimal, push_decimal_padded, push_millis, push_str, spec_decimal, spec_decimal_padded,
    spec_millis,
};
use vstd::prelude::*;

verus! {

/// A finalized segment of the playlist window.
#[derive(Clone, Copy)]
pub struct SegmentRecord {
    /// Duration in milliseconds, at least 1.
    pub duration_ms: u64,
    /// Version of the init segment it was written against.
    pub init_version: u32,
    /// Whether its init segment differs from the previous segment's.
    pub discontinuity: bool,
    /// Its start on the track's media clock, in milliseconds.
    pub start_ms: u64,
}

/// Segment and playlist state of one HLS track.
pub struct HlsSegmenter {
    is_audio_only: bool,
    segment_duration: u32,
    segments_keep: u32,
    current_segment_start: u64,
    segment_index: u32,
    file_open: bool,
    has_video: bool,
    has_audio: bool,
    first_ts: Option<u32>,
    timestamp_offset: u64,
    last_video_pts: u64,
    last_audio_pts: u64,
    pending_rotation: bool,
    pending_rotation_pts: u64,
    first_segment_index: u32,
    discontinuity_sequence: u32,
    segments: Vec<SegmentRecord>,
    init_version: u32,
    init_written: bool,
    last_init_hash: Option<u64>,
    max_segment_duration_ms: u64,
    total_duration_ms: u64,
}

/// The state of a segmenter as plain values.
pub struct SegmenterView {
    pub is_audio_only: bool,
    pub segment_duration: u32,
    pub segments_keep: u32,
    pub current_segment_start: u64,
    pub segment_index: u32,
    pub file_open: bool,
    pub has_video: bool,
    pub has_audio: bool,
    pub first_ts: Option<u32>,
    pub timestamp_offset: u64,
    pub last_video_pts: u64,
    pub last_audio_pts: u64,
    pub pending_rotation: bool,
    pub pending_rotation_pts: u64,
    pub first_segment_index: u32,
    pub discontinuity_sequence: u32,
    pub segments: Seq<SegmentRecord>,
    pub init_version: u32,
    pub init_written: bool,
    pub last_init_hash: Option<u64>,
    pub max_segment_duration_ms: u64,
    pub total_duration_ms: u64,
}

impl View for HlsSegmenter {
    type V = SegmenterView;

    closed spec fn view(&self) -> SegmenterView {
        SegmenterView {
            is_audio_only: self.is_audio_only,
            segment_duration: self.segment_duration,
            segments_keep: self.segments_keep,
            current_segment_start: self.current_segment_start,
            segment_index: self.segment_index,
            file_open: self.file_open,
            has_video: self.has_video,
            has_audio: self.has_audio,
            first_ts: self.first_ts,
            timestamp_offset: self.timestamp_offset,
            last_video_pts: self.last_video_pts,
            last_audio_pts: self.last_audio_pts,
            pending_rotation: self.pending_rotation,
            pending_rotation_pts: self.pending_rotation_pts,
            first_segment_index: self.first_segment_index,
            discontinuity_sequence: self.discontinuity_sequence,
            segments: self.segments@,
            init_version: self.init_version,
            init_written: self.init_written,
            last_init_hash: self.last_init_hash,
            max_segment_duration_ms: self.max_segment_duration_ms,
            total_duration_ms: self.total_duration_ms,
        }
    }
}

/// What to do with a video frame before it is queued.
#[derive(Clone, Copy, Debug)]
pub enum VideoGate {
    /// Drop the frame (no keyframe yet to start a segment on).
    Drop,
    /// Open the track's first segment on this keyframe.
    OpenFirst,
    /// Open a new segment on this keyframe after the last one was closed.
    Reopen,
    /// Queue the frame into the open segment.
    Continue,
}

/// What to do with an audio frame before it is queued.
#[derive(Clone, Copy, Debug)]
pub enum AudioGate {
    /// Drop the frame.
    Drop,
    /// Open the first segment of an audio-only track.
    OpenFirst,
    /// Queue the frame into the open segment.
    Continue,
}

/// Whether an init segment must be written.
#[derive(Clone, Copy, Debug)]
pub enum InitPlan {
    /// The init segment is the one last written.
    Unchanged,
    /// Write the init segment as this version.
    Write(u32),
}

// ── Media clock ──────────────────────────────────────────────────

/// The track time in milliseconds of an RTMP timestamp: its distance past
/// the first timestamp seen (none before it), plus the offset carried over
/// a reconnect.
pub open spec fn media_time_int(v: SegmenterView, ts: u32) -> int {
    let base = match v.first_ts {
        Some(b) => b,
        None => ts,
    };
    (if ts >= base {
        ts - base
    } else {
        0
    }) + v.timestamp_offset
}

/// The presentation time of a frame: decode time plus composition offset,
/// with the decode time read as a signed 64-bit value.
pub open spec fn pts_int(dts: u64, cto: i32) -> int {
    (dts as i64) + cto
}

pub open spec fn max_u64(a: u64, b: u64) -> u64 {
    if a >= b {
        a
    } else {
        b
    }
}
/// Where a video frame goes, given whether it is a keyframe.
pub open spec fn video_gate_rule(v: SegmenterView, key: bool) -> VideoGate {
    if !v.has_video {
        if key {
            VideoGate::OpenFirst
        } else {
            VideoGate::Drop
        }
    } else if !v.file_open {
        if key {
            VideoGate::Reopen
        } else {
            VideoGate::Drop
        }
    } else {
        VideoGate::Continue
    }
}

/// The state after a frame at time `t` is checked against the segment's
/// target duration: a rotation becomes pending once the open segment has
/// lasted at least the target duration.
pub open spec fn after_duration_check(v: SegmenterView, t: u64) -> SegmenterView {
    let elapsed = if t >= v.current_segment_start {
        t - v.current_segment_start
    } else {
        0
    };
    if elapsed >= v.segment_duration * 1000 && v.file_open && !v.pending_rotation {
        SegmenterView { pending_rotation: true, pending_rotation_pts: t, ..v }
    } else {
        v
    }
}

/// The audio gate, and whether the track's audio became active with it.
pub open spec fn spec_audio_gate(v: SegmenterView, codec_known: bool) -> (bool, AudioGate) {
    if !v.has_audio && !codec_known {
        (false, AudioGate::Drop)
    } else if !v.file_open {
        (!v.has_audio, if v.is_audio_only {
            AudioGate::OpenFirst
        } else {
            AudioGate::Drop
        })
    } else {
        (!v.has_audio, AudioGate::Continue)
    }
}

// ── Window ───────────────────────────────────────────────────────

/// How many of the oldest finalized segments leave the window: the window
/// holds `max(keep, 3)` segments and never fewer than three once three
/// exist.
pub open spec fn spec_to_remove(n: int, keep: u32) -> int {
    let k: int = if keep >= 3 {
        keep as int
    } else {
        3
    };
    let r = if n > k {
        n - k
    } else {
        0
    };
    if n >= 3 && n - r < 3 {
        n - 3
    } else {
        r
    }
}

/// The number of discontinuities among the first `k` records.
pub open spec fn count_discontinuities(s: Seq<SegmentRecord>, k: int) -> int
    decreases k,
{
    if k <= 0 {
        0
    } else {
        count_discontinuities(s, k - 1) + if s[k - 1].discontinuity {
            1int
        } else {
            0
        }
    }
}

/// Counters that the window and the playlist advance stay within 32 bits.
pub open spec fn window_in_range(v: SegmenterView) -> bool {
    &&& v.first_segment_index + v.segments.len() <= u32::MAX
    &&& v.discontinuity_sequence + v.segments.len() <= u32::MAX
}

/// How trimming the window changes the state.
pub open spec fn window_trimmed(before: SegmenterView, after: SegmenterView) -> bool {
    let r = spec_to_remove(before.segments.len() as int, before.segments_keep);
    &&& after == (SegmenterView {
        segments: before.segments.subrange(r, before.segments.len() as int),
        first_segment_index: (before.first_segment_index + r) as u32,
        discontinuity_sequence: (before.discontinuity_sequence + count_discontinuities(
            before.segments,
            r,
        )) as u32,
        ..before
    })
}

/// How the grace period before a reconnect changes the state: the media
/// clock restarts 33 ms after the latest presentation time, on the next
/// segment.
pub open spec fn grace_entered(before: SegmenterView, after: SegmenterView) -> bool {
    let last = max_u64(before.last_video_pts, before.last_audio_pts);
    &&& after == (SegmenterView {
        timestamp_offset: if last + 33 <= u64::MAX {
            (last + 33) as u64
        } else {
            u64::MAX
        },
        first_ts: None,
        segment_index: (before.segment_index + 1) as u32,
        ..before
    })
}

/// How a finalized segment is recorded: its duration runs from the segment
/// start to the latest presentation time plus the last sample's duration
/// (at least 1 ms); it is a discontinuity when its init version differs
/// from the previous segment's.
pub open spec fn segment_recorded(before: SegmenterView, after: SegmenterView, last_sample_duration: u64) -> bool {
    let end = max_u64(before.last_video_pts, before.last_audio_pts) + last_sample_duration;
    let d = if end >= before.current_segment_start {
        end - before.current_segment_start
    } else {
        0
    };
    let dur: u64 = if d >= 1 {
        d as u64
    } else {
        1
    };
    let rec = SegmentRecord {
        duration_ms: dur,
        init_version: before.init_version,
        discontinuity: before.segments.len() > 0 && before.segments.last().init_version
            != before.init_version,
        start_ms: before.current_segment_start,
    };
    &&& after == (SegmenterView {
        segments: before.segments.push(rec),
        max_segment_duration_ms: max_u64(before.max_segment_duration_ms, d as u64),
        total_duration_ms: if before.total_duration_ms + dur <= u64::MAX {
            (before.total_duration_ms + dur) as u64
        } else {
            u64::MAX
        },
        ..before
    })
}

// ── Names and playlist text ──────────────────────────────────────

/// File name of a media segment: `segment` and the index in at least five
/// digits.
pub open spec fn spec_segment_file_name(index: u32) -> Seq<char> {
    "segment"@ + spec_decimal_padded(index as nat, 5) + ".m4s"@
}

/// File name of an init segment version.
pub open spec fn spec_init_file_name(version: u32) -> Seq<char> {
    if version == 0 {
        "init.mp4"@
    } else {
        "init_v"@ + spec_decimal(version as nat) + ".mp4"@
    }
}

pub open spec fn map_line(version: u32) -> Seq<char> {
    "#EXT-X-MAP:URI=\""@ + spec_init_file_name(version) + "\"\n"@
}

/// The target duration: the configured one, or the longest segment in
/// whole seconds rounded up when longer.
pub open spec fn spec_target_duration(v: SegmenterView) -> u32 {
    let m = v.max_segment_duration_ms;
    let up = (m / 1000 + if m % 1000 != 0 {
        1int
    } else {
        0
    }) as u32;
    if v.segment_duration >= up {
        v.segment_duration
    } else {
        up
    }
}

/// The lines of the `i`-th segment of the window.
pub open spec fn segment_text(v: SegmenterView, times: Option<Seq<String>>, i: int) -> Seq<char> {
    let r = v.segments[i];
    (if r.discontinuity {
        "#EXT-X-DISCONTINUITY\n"@ + map_line(r.init_version)
    } else {
        Seq::empty()
    }) + "#EXTINF:"@ + spec_millis(r.duration_ms as nat) + ",\n"@ + (match times {
        Some(t) => "#EXT-X-PROGRAM-DATE-TIME:"@ + t[i]@ + "\n"@,
        None => Seq::empty(),
    }) + spec_segment_file_name((v.first_segment_index + i) as u32) + "\n"@
}

/// The lines of the first `n` segments of the window.
pub open spec fn segments_text(v: SegmenterView, times: Option<Seq<String>>, n: int) -> Seq<char>
    decreases n,
{
    if n <= 0 {
        Seq::empty()
    } else {
        segments_text(v, times, n - 1) + segment_text(v, times, n - 1)
    }
}

pub open spec fn number_line(tag: Seq<char>, n: nat) -> Seq<char> {
    tag + spec_decimal(n) + "\n"@
}

pub open spec fn codecs_line(codecs: Option<Seq<char>>) -> Seq<char> {
    match codecs {
        Some(c) => "#EXT-X-CODECS:"@ + c + "\n"@,
        None => Seq::empty(),
    }
}

/// The init segment map that opens the playlist: the first segment's, unless
/// it starts with a discontinuity (which carries its own), or the current
/// one when no segment is finalized.
pub open spec fn first_map(v: SegmenterView) -> Seq<char> {
    if v.segments.len() > 0 {
        if !v.segments[0].discontinuity {
            map_line(v.segments[0].init_version)
        } else {
            Seq::empty()
        }
    } else {
        map_line(v.init_version)
    }
}

/// The playlist header, through the init segment map of the first segment.
pub open spec fn playlist_header(v: SegmenterView, codecs: Option<Seq<char>>) -> Seq<char> {
    "#EXTM3U\n"@ + "#EXT-X-VERSION:7\n"@ + codecs_line(codecs) + number_line(
        "#EXT-X-TARGETDURATION:"@,
        spec_target_duration(v) as nat,
    ) + number_line("#EXT-X-MEDIA-SEQUENCE:"@, v.first_segment_index as nat) + number_line(
        "#EXT-X-DISCONTINUITY-SEQUENCE:"@,
        v.discontinuity_sequence as nat,
    ) + first_map(v)
}

/// The media playlist of the window: header, one entry per segment with
/// its program date and time when given, and the end tag when the stream
/// is over.
pub open spec fn spec_playlist(
    v: SegmenterView,
    codecs: Option<Seq<char>>,
    times: Option<Seq<String>>,
    endlist: bool,
) -> Seq<char> {
    playlist_header(v, codecs) + segments_text(v, times, v.segments.len() as int) + if endlist {
        "#EXT-X-ENDLIST\n"@
    } else {
        Seq::empty()
    }
}

pub open spec fn opt_str_view(o: Option<&str>) -> Option<Seq<char>> {
    match o {
        Some(s) => Some(s@),
        None => None,
    }
}

pub open spec fn opt_times_view(o: Option<&[String]>) -> Option<Seq<String>> {
    match o {
        Some(t) => Some(t@),
        None => None,
    }
}

/// Appends the file name of a media segment.
pub fn push_segment_file_name(s: &mut String, index: u32)
    ensures
        final(s)@ == old(s)@ + spec_segment_file_name(index),
{
    let ghost start = s@;
    push_str(s, "segment");
    push_decimal_padded(s, index as u64, 5);
    push_str(s, ".m4s");
    assert(s@ =~= start + spec_segment_file_name(index));
}

/// The file name of a media segment.
pub fn segment_file_name(index: u32) -> (r: String)
    ensures
        r@ == spec_segment_file_name(index),
{
    let mut s = String::new();
    push_segment_file_name(&mut s, index);
    s
}

fn push_init_file_name(s: &mut String, version: u32)
    ensures
        final(s)@ == old(s)@ + spec_init_file_name(version),
{
    let ghost start = s@;
    if version == 0 {
        push_str(s, "init.mp4");
    } else {
        push_str(s, "init_v");
        push_decimal(s, version as u64);
        push_str(s, ".mp4");
    }
    assert(s@ =~= start + spec_init_file_name(version));
}

/// The file name of an init segment version.
pub fn init_file_name(version: u32) -> (r: String)
    ensures
        r@ == spec_init_file_name(version),
{
    let mut s = String::new();
    push_init_file_name(&mut s, version);
    s
}

fn push_map_line(s: &mut String, version: u32)
    ensures
        final(s)@ == old(s)@ + map_line(version),
{
    let ghost start = s@;
    push_str(s, "#EXT-X-MAP:URI=\"");
    push_init_file_name(s, version);
    push_str(s, "\"\n");
    assert(s@ =~= start + map_line(version));
}

/// The presentation time of a frame from its decode time and composition
/// offset.
pub fn frame_pts(dts: u64, cto: i32) -> (r: u64)
    requires
        i64::MIN <= pts_int(dts, cto) <= i64::MAX,
    ensures
        r == pts_int(dts, cto) as u64,
{
    (dts as i64 + cto as i64) as u64
}

/// Whether `frame_pts(dts, cto)` stays within signed 64-bit arithmetic.
pub fn frame_pts_in_range(dts: u64, cto: i32) -> (r: bool)
    ensures
        r == (i64::MIN <= pts_int(dts, cto) <= i64::MAX),
{
    let d = dts as i64;
    if cto >= 0 {
        d <= i64::MAX - cto as i64
    } else {
        d >= i64::MIN - cto as i64
    }
}

fn push_number_line(s: &mut String, tag: &str, n: u64)
    ensures
        final(s)@ == old(s)@ + number_line(tag@, n as nat),
{
    let ghost start = s@;
    push_str(s, tag);
    push_decimal(s, n);
    push_str(s, "\n");
    assert(s@ =~= start + number_line(tag@, n as nat));
}

fn push_codecs_line(s: &mut String, codecs: Option<&str>)
    ensures
        final(s)@ == old(s)@ + codecs_line(opt_str_view(codecs)),
{
    let ghost start = s@;
    match codecs {
        Some(c) => {
            push_str(s, "#EXT-X-CODECS:");
            push_str(s, c);
            push_str(s, "\n");
        },
        None => {},
    }
    assert(s@ =~= start + codecs_line(opt_str_view(codecs)));
}

impl HlsSegmenter {
    /// A track with no segment yet.
    pub fn new(is_audio_only: bool, segment_duration: u32, segments_keep: u32) -> (r: Self)
        ensures
            r@ == (SegmenterView {
                is_audio_only,
                segment_duration,
                segments_keep,
                current_segment_start: 0,
                segment_index: 0,
                file_open: false,
                has_video: false,
                has_audio: false,
                first_ts: None,
                timestamp_offset: 0,
                last_video_pts: 0,
                last_audio_pts: 0,
                pending_rotation: false,
                pending_rotation_pts: 0,
                first_segment_index: 0,
                discontinuity_sequence: 0,
                segments: Seq::empty(),
                init_version: 0,
                init_written: false,
                last_init_hash: None,
                max_segment_duration_ms: 0,
                total_duration_ms: 0,
            }),
    {
        HlsSegmenter {
            is_audio_only,
            segment_duration,
            segments_keep,
            current_segment_start: 0,
            segment_index: 0,
            file_open: false,
            has_video: false,
            has_audio: false,
            first_ts: None,
            timestamp_offset: 0,
            last_video_pts: 0,
            last_audio_pts: 0,
            pending_rotation: false,
            pending_rotation_pts: 0,
            first_segment_index: 0,
            discontinuity_sequence: 0,
            segments: Vec::new(),
            init_version: 0,
            init_written: false,
            last_init_hash: None,
            max_segment_duration_ms: 0,
            total_duration_ms: 0,
        }
    }

    pub fn is_audio_only(&self) -> (r: bool)
        ensures
            r == self@.is_audio_only,
    {
        self.is_audio_only
    }

    /// Clears the audio-only flag (video arrived on the track).
    pub fn set_not_audio_only(&mut self)
        ensures
            final(self)@ == (SegmenterView { is_audio_only: false, ..old(self)@ }),
    {
        self.is_audio_only = false;
    }

    pub fn segment_index(&self) -> (r: u32)
        ensures
            r == self@.segment_index,
    {
        self.segment_index
    }

    pub fn has_video(&self) -> (r: bool)
        ensures
            r == self@.has_video,
    {
        self.has_video
    }

    pub fn has_audio(&self) -> (r: bool)
        ensures
            r == self@.has_audio,
    {
        self.has_audio
    }

    pub fn file_open(&self) -> (r: bool)
        ensures
            r == self@.file_open,
    {
        self.file_open
    }

    pub fn pending_rotation(&self) -> (r: bool)
        ensures
            r == self@.pending_rotation,
    {
        self.pending_rotation
    }

    pub fn init_version(&self) -> (r: u32)
        ensures
            r == self@.init_version,
    {
        self.init_version
    }

    /// Total duration of all finalized segments, in milliseconds.
    pub fn total_duration_ms(&self) -> (r: u64)
        ensures
            r == self@.total_duration_ms,
    {
        self.total_duration_ms
    }

    /// The finalized segments of the window, oldest first.
    pub fn segments(&self) -> (r: &[SegmentRecord])
        ensures
            r@ == self@.segments,
    {
        self.segments.as_slice()
    }

    /// Index of the first segment of the window.
    pub fn first_segment_index(&self) -> (r: u32)
        ensures
            r == self@.first_segment_index,
    {
        self.first_segment_index
    }

    /// Whether `media_time(ts)` fits in 64 bits.
    pub fn media_time_in_range(&self, ts: u32) -> (r: bool)
        ensures
            r == (media_time_int(self@, ts) <= u64::MAX),
    {
        let base = match self.first_ts {
            Some(b) => b,
            None => ts,
        };
        let d: u64 = if ts >= base {
            (ts - base) as u64
        } else {
            0
        };
        d <= u64::MAX - self.timestamp_offset
    }

    /// The track time of an RTMP timestamp; the first timestamp seen
    /// becomes the base.
    pub fn media_time(&mut self, ts: u32) -> (r: u64)
        requires
            media_time_int(old(self)@, ts) <= u64::MAX,
        ensures
            r == media_time_int(old(self)@, ts),
            final(self)@ == (SegmenterView {
                first_ts: match old(self)@.first_ts {
                    Some(b) => Some(b),
                    None => Some(ts),
                },
                ..old(self)@
            }),
    {
        if self.first_ts.is_none() {
            self.first_ts = Some(ts);
        }
        let base = match self.first_ts {
            Some(b) => b,
            None => ts,
        };
        let d: u64 = if ts >= base {
            (ts - base) as u64
        } else {
            0
        };
        d + self.timestamp_offset
    }

    /// What to do with a video frame (keyframe or not) before queueing it.
    pub fn video_gate(&self, key: bool) -> (r: VideoGate)
        ensures
            r == video_gate_rule(self@, key),
    {
        if !self.has_video {
            if key {
                VideoGate::OpenFirst
            } else {
                VideoGate::Drop
            }
        } else if !self.file_open {
            if key {
                VideoGate::Reopen
            } else {
                VideoGate::Drop
            }
        } else {
            VideoGate::Continue
        }
    }

    /// Records that the first segment was opened on a keyframe at `dts`.
    pub fn start_first_segment(&mut self, dts: u64)
        ensures
            final(self)@ == (SegmenterView {
                has_video: true,
                current_segment_start: dts,
                ..old(self)@
            }),
    {
        self.has_video = true;
        self.current_segment_start = dts;
    }

    /// Moves to the next segment, starting at `t`, and clears a pending
    /// rotation.
    pub fn begin_next_segment(&mut self, t: u64)
        requires
            old(self)@.segment_index < u32::MAX,
        ensures
            final(self)@ == (SegmenterView {
                current_segment_start: t,
                segment_index: (old(self)@.segment_index + 1) as u32,
                pending_rotation: false,
                ..old(self)@
            }),
    {
        self.current_segment_start = t;
        self.segment_index = self.segment_index + 1;
        self.pending_rotation = false;
    }

    /// Moves to the next segment after the last one was closed, starting at
    /// `dts`.
    pub fn reopen_segment(&mut self, dts: u64)
        requires
            old(self)@.segment_index < u32::MAX,
        ensures
            final(self)@ == (SegmenterView {
                current_segment_start: dts,
                segment_index: (old(self)@.segment_index + 1) as u32,
                ..old(self)@
            }),
    {
        self.segment_index = self.segment_index + 1;
        self.current_segment_start = dts;
    }

    fn check_duration(&mut self, t: u64)
        ensures
            final(self)@ == after_duration_check(old(self)@, t),
    {
        let elapsed = t.saturating_sub(self.current_segment_start);
        let threshold = self.segment_duration as u64 * 1000;
        if elapsed >= threshold && self.file_open && !self.pending_rotation {
            self.pending_rotation = true;
            self.pending_rotation_pts = t;
        }
    }

    /// Checks a video frame at `dts` against the target duration; true when
    /// the segment must be closed and a new one opened before this frame,
    /// which happens only on a keyframe.
    pub fn check_video_rotation(&mut self, dts: u64, key: bool) -> (r: bool)
        ensures
            final(self)@ == after_duration_check(old(self)@, dts),
            r == (final(self)@.pending_rotation && key),
            r ==> key,
    {
        self.check_duration(dts);
        self.pending_rotation && key
    }

    /// Records the presentation time of a queued video frame.
    pub fn record_video_pts(&mut self, pts: u64)
        ensures
            final(self)@ == (SegmenterView {
                last_video_pts: max_u64(old(self)@.last_video_pts, pts),
                ..old(self)@
            }),
    {
        if pts > self.last_video_pts {
            self.last_video_pts = pts;
        }
    }

    /// What to do with an audio frame before queueing it; the flag tells
    /// whether the track's audio becomes active with it (the codec is then
    /// handed to the muxer).
    pub fn audio_gate(&mut self, codec_known: bool) -> (r: (bool, AudioGate))
        ensures
            r == spec_audio_gate(old(self)@, codec_known),
            final(self)@ == (SegmenterView {
                has_audio: old(self)@.has_audio || codec_known,
                ..old(self)@
            }),
    {
        if !self.has_audio && !codec_known {
            return (false, AudioGate::Drop);
        }
        let activated = !self.has_audio;
        self.has_audio = true;
        if !self.file_open {
            (activated, if self.is_audio_only {
                AudioGate::OpenFirst
            } else {
                AudioGate::Drop
            })
        } else {
            (activated, AudioGate::Continue)
        }
    }

    /// Records that an audio-only track's first segment starts at `pts`.
    pub fn start_audio_segment(&mut self, pts: u64)
        ensures
            final(self)@ == (SegmenterView { current_segment_start: pts, ..old(self)@ }),
    {
        self.current_segment_start = pts;
    }

    /// Records the presentation time of a queued audio frame.
    pub fn record_audio_pts(&mut self, pts: u64)
        ensures
            final(self)@ == (SegmenterView { last_audio_pts: pts, ..old(self)@ }),
    {
        self.last_audio_pts = pts;
    }

    /// Checks an audio frame at `pts` against the target duration; on an
    /// audio-only track true when the segment must rotate (audio has no
    /// keyframes), else always false with nothing changed.
    pub fn check_audio_rotation(&mut self, pts: u64) -> (r: bool)
        ensures
            old(self)@.is_audio_only ==> final(self)@ == after_duration_check(old(self)@, pts) && r
                == final(self)@.pending_rotation,
            !old(self)@.is_audio_only ==> final(self)@ == old(self)@ && !r,
    {
        if !self.is_audio_only {
            return false;
        }
        self.check_duration(pts);
        self.pending_rotation
    }

    /// Records that a segment file was opened.
    pub fn segment_opened(&mut self)
        ensures
            final(self)@ == (SegmenterView { file_open: true, ..old(self)@ }),
    {
        self.file_open = true;
    }

    /// Closes the open segment file, if any; returns whether one was open.
    pub fn close_segment(&mut self) -> (r: bool)
        ensures
            r == old(self)@.file_open,
            final(self)@ == (SegmenterView { file_open: false, ..old(self)@ }),
    {
        let was = self.file_open;
        self.file_open = false;
        was
    }

    /// Whether the video clock is at or past the audio clock; the last
    /// sample duration of a closing segment is then taken from video.
    pub fn video_clock_leads(&self) -> (r: bool)
        ensures
            r == (self@.last_video_pts >= self@.last_audio_pts),
    {
        self.last_video_pts >= self.last_audio_pts
    }

    /// Whether `record_segment(last_sample_duration)` keeps the segment end
    /// within 64 bits.
    pub fn record_is_in_range(&self, last_sample_duration: u64) -> (r: bool)
        ensures
            r == (max_u64(self@.last_video_pts, self@.last_audio_pts) + last_sample_duration
                <= u64::MAX),
    {
        let last = if self.last_video_pts >= self.last_audio_pts {
            self.last_video_pts
        } else {
            self.last_audio_pts
        };
        last_sample_duration <= u64::MAX - last
    }

    /// Records a finalized segment whose last sample lasts
    /// `last_sample_duration` milliseconds.
    pub fn record_segment(&mut self, last_sample_duration: u64)
        requires
            max_u64(old(self)@.last_video_pts, old(self)@.last_audio_pts) + last_sample_duration
                <= u64::MAX,
        ensures
            segment_recorded(old(self)@, final(self)@, last_sample_duration),
            final(self)@.segments.len() == old(self)@.segments.len() + 1,
            final(self)@.segments.last().discontinuity == (old(self)@.segments.len() > 0
                && old(self)@.segments.last().init_version != old(self)@.init_version),
    {
        let last = if self.last_video_pts >= self.last_audio_pts {
            self.last_video_pts
        } else {
            self.last_audio_pts
        };
        let end = last + last_sample_duration;
        let d = end.saturating_sub(self.current_segment_start);
        if d > self.max_segment_duration_ms {
            self.max_segment_duration_ms = d;
        }
        let dur: u64 = if d >= 1 {
            d
        } else {
            1
        };
        let n = self.segments.len();
        let discontinuity = n > 0 && self.segments[n - 1].init_version != self.init_version;
        self.segments.push(
            SegmentRecord {
                duration_ms: dur,
                init_version: self.init_version,
                discontinuity,
                start_ms: self.current_segment_start,
            },
        );
        self.total_duration_ms = self.total_duration_ms.saturating_add(dur);
    }

    /// Whether the window's counters can advance without overflow.
    pub fn window_is_in_range(&self) -> (r: bool)
        ensures
            r == window_in_range(self@),
    {
        let n = self.segments.len();
        n as u64 <= (u32::MAX - self.first_segment_index) as u64 && n as u64 <= (u32::MAX
            - self.discontinuity_sequence) as u64
    }

    /// Drops the oldest segments beyond the window; returns the index of
    /// the first dropped segment and how many were dropped (their files are
    /// to be removed).
    pub fn trim_window(&mut self) -> (r: (u32, usize))
        requires
            window_in_range(old(self)@),
        ensures
            window_trimmed(old(self)@, final(self)@),
            r.0 == old(self)@.first_segment_index,
            r.1 == spec_to_remove(old(self)@.segments.len() as int, old(self)@.segments_keep),
    {
        let n = self.segments.len();
        let keep: usize = if self.segments_keep >= 3 {
            self.segments_keep as usize
        } else {
            3
        };
        let mut to_remove: usize = if n > keep {
            n - keep
        } else {
            0
        };
        if n >= 3 && n - to_remove < 3 {
            to_remove = n - 3;
        }
        assert(to_remove == spec_to_remove(n as int, self.segments_keep));
        let first = self.first_segment_index;
        let mut disc = self.discontinuity_sequence;
        let mut i: usize = 0;
        while i < to_remove
            invariant
                to_remove <= n == self.segments@.len(),
                i <= to_remove,
                disc == self.discontinuity_sequence + count_discontinuities(
                    self.segments@,
                    i as int,
                ),
                self.discontinuity_sequence + n <= u32::MAX,
            decreases to_remove - i,
        {
            proof {
                lemma_count_discontinuities_bound(self.segments@, i as int + 1);
            }
            if self.segments[i].discontinuity {
                disc = disc + 1;
            }
            i += 1;
        }
        let mut kept: Vec<SegmentRecord> = Vec::new();
        let mut j: usize = to_remove;
        while j < n
            invariant
                to_remove <= j <= n == self.segments@.len(),
                kept@ == self.segments@.subrange(to_remove as int, j as int),
            decreases n - j,
        {
            kept.push(self.segments[j]);
            j += 1;
            assert(kept@ =~= self.segments@.subrange(to_remove as int, j as int));
        }
        self.segments = kept;
        self.discontinuity_sequence = disc;
        self.first_segment_index = first + to_remove as u32;
        (first, to_remove)
    }

    /// Start times of the window's segments on the media clock, oldest
    /// first.
    pub fn segment_start_offsets(&self) -> (r: Vec<u64>)
        ensures
            r@.len() == self@.segments.len(),
            forall|i: int| 0 <= i < r@.len() ==> r@[i] == self@.segments[i].start_ms,
    {
        let mut r: Vec<u64> = Vec::new();
        let mut i: usize = 0;
        while i < self.segments.len()
            invariant
                i <= self.segments@.len(),
                r@.len() == i,
                forall|k: int| 0 <= k < i ==> r@[k] == self.segments@[k].start_ms,
            decreases self.segments.len() - i,
        {
            r.push(self.segments[i].start_ms);
            i += 1;
        }
        r
    }

    fn target_duration(&self) -> (r: u32)
        ensures
            r == spec_target_duration(self@),
    {
        let m = self.max_segment_duration_ms;
        let up = (m / 1000 + if m % 1000 != 0 {
            1
        } else {
            0
        }) as u32;
        if self.segment_duration >= up {
            self.segment_duration
        } else {
            up
        }
    }

    fn push_segment_text(&self, s: &mut String, times: Option<&[String]>, i: usize)
        requires
            i < self@.segments.len(),
            self@.first_segment_index + self@.segments.len() <= u32::MAX,
            times matches Some(t) ==> t@.len() == self@.segments.len(),
        ensures
            final(s)@ == old(s)@ + segment_text(self@, opt_times_view(times), i as int),
    {
        let ghost start = s@;
        let r = self.segments[i];
        if r.discontinuity {
            push_str(s, "#EXT-X-DISCONTINUITY\n");
            push_map_line(s, r.init_version);
        }
        push_str(s, "#EXTINF:");
        push_millis(s, r.duration_ms);
        push_str(s, ",\n");
        match times {
            Some(t) => {
                push_str(s, "#EXT-X-PROGRAM-DATE-TIME:");
                push_str(s, t[i].as_str());
                push_str(s, "\n");
            },
            None => {},
        }
        push_segment_file_name(s, self.first_segment_index + i as u32);
        push_str(s, "\n");
        assert(s@ =~= start + segment_text(self@, opt_times_view(times), i as int));
    }

    fn push_header(&self, s: &mut String, codecs: Option<&str>)
        ensures
            final(s)@ == old(s)@ + playlist_header(self@, opt_str_view(codecs)),
    {
        let ghost start = s@;
        push_str(s, "#EXTM3U\n");
        push_str(s, "#EXT-X-VERSION:7\n");
        push_codecs_line(s, codecs);
        let ghost a = s@;
        let td = self.target_duration();
        push_number_line(s, "#EXT-X-TARGETDURATION:", td as u64);
        push_number_line(s, "#EXT-X-MEDIA-SEQUENCE:", self.first_segment_index as u64);
        push_number_line(s, "#EXT-X-DISCONTINUITY-SEQUENCE:", self.discontinuity_sequence as u64);
        let ghost b = s@;
        self.push_first_map(s);
        assert(a =~= start + "#EXTM3U\n"@ + "#EXT-X-VERSION:7\n"@ + codecs_line(opt_str_view(codecs)));
        assert(s@ =~= start + playlist_header(self@, opt_str_view(codecs)));
    }

    fn push_first_map(&self, s: &mut String)
        ensures
            final(s)@ == old(s)@ + first_map(self@),
    {
        let ghost start = s@;
        if self.segments.len() > 0 {
            if !self.segments[0].discontinuity {
                push_map_line(s, self.segments[0].init_version);
            }
        } else {
            push_map_line(s, self.init_version);
        }
        assert(s@ =~= start + first_map(self@));
    }

    /// The media playlist of the window, with the codecs tag when given,
    /// each segment's program date and time when given, and the end tag
    /// when `endlist`.
    pub fn render_playlist(&self, codecs: Option<&str>, times: Option<&[String]>, endlist: bool) -> (r: String)
        requires
            self@.first_segment_index + self@.segments.len() <= u32::MAX,
            times matches Some(t) ==> t@.len() == self@.segments.len(),
        ensures
            r@ == spec_playlist(self@, opt_str_view(codecs), opt_times_view(times), endlist),
    {
        let mut s = String::new();
        self.push_header(&mut s, codecs);
        let ghost h = s@;
        let mut i: usize = 0;
        while i < self.segments.len()
            invariant
                i <= self@.segments.len(),
                self@.first_segment_index + self@.segments.len() <= u32::MAX,
                times matches Some(t) ==> t@.len() == self@.segments.len(),
                s@ == h + segments_text(self@, opt_times_view(times), i as int),
            decreases self.segments.len() - i,
        {
            self.push_segment_text(&mut s, times, i);
            i += 1;
            assert(s@ =~= h + segments_text(self@, opt_times_view(times), i as int));
        }
        if endlist {
            push_str(&mut s, "#EXT-X-ENDLIST\n");
        }
        assert(s@ =~= spec_playlist(self@, opt_str_view(codecs), opt_times_view(times), endlist));
        s
    }

    /// Whether the written init segment must be checked on disk before it
    /// is trusted.
    pub fn init_written(&self) -> (r: bool)
        ensures
            r == self@.init_written,
    {
        self.init_written
    }

    /// Records that the init segment is to be written again (its file is
    /// gone, or the codec configuration changed).
    pub fn init_missing(&mut self)
        ensures
            final(self)@ == (SegmenterView {
                init_written: false,
                last_init_hash: None,
                ..old(self)@
            }),
    {
        self.init_written = false;
        self.last_init_hash = None;
    }

    /// Records a change of codec configuration: the init segment is to be
    /// built again.
    pub fn invalidate_init(&mut self)
        ensures
            final(self)@ == (SegmenterView { init_written: false, ..old(self)@ }),
    {
        self.init_written = false;
    }

    /// Decides on an init segment whose bytes hash to `hash`: unchanged
    /// when it matches the last one written; otherwise written as a new
    /// version, except that the first version may be overwritten until a
    /// segment has been finalized against it.
    pub fn plan_init(&mut self, hash: u64) -> (r: InitPlan)
        requires
            old(self)@.init_version < u32::MAX,
        ensures
            old(self)@.last_init_hash == Some(hash) ==> r == InitPlan::Unchanged && final(self)@
                == (SegmenterView { init_written: true, ..old(self)@ }),
            old(self)@.last_init_hash != Some(hash) ==> {
                let bump = old(self)@.last_init_hash is Some && !(old(self)@.init_version == 0
                    && old(self)@.segments.len() == 0);
                let v = if bump {
                    (old(self)@.init_version + 1) as u32
                } else {
                    old(self)@.init_version
                };
                &&& r == InitPlan::Write(v)
                &&& final(self)@ == (SegmenterView { init_version: v, ..old(self)@ })
            },
    {
        if self.last_init_hash == Some(hash) {
            self.init_written = true;
            return InitPlan::Unchanged;
        }
        let had = self.last_init_hash.is_some();
        let can_overwrite = had && self.init_version == 0 && self.segments.len() == 0;
        if had && !can_overwrite {
            self.init_version = self.init_version + 1;
        }
        InitPlan::Write(self.init_version)
    }

    /// Records that the init segment hashing to `hash` was written.
    pub fn init_stored(&mut self, hash: u64)
        ensures
            final(self)@ == (SegmenterView {
                init_written: true,
                last_init_hash: Some(hash),
                ..old(self)@
            }),
    {
        self.init_written = true;
        self.last_init_hash = Some(hash);
    }

    /// Prepares for a reconnect after the current segment was finalized:
    /// the media clock will continue 33 ms after the latest presentation
    /// time, from the next segment.
    pub fn enter_grace_period(&mut self)
        requires
            old(self)@.segment_index < u32::MAX,
        ensures
            grace_entered(old(self)@, final(self)@),
    {
        let last = if self.last_video_pts >= self.last_audio_pts {
            self.last_video_pts
        } else {
            self.last_audio_pts
        };
        self.timestamp_offset = last.saturating_add(33);
        self.first_ts = None;
        self.segment_index = self.segment_index + 1;
    }

    /// Records that the segment after a grace period starts at the
    /// carried-over offset.
    pub fn restart_after_grace(&mut self)
        ensures
            final(self)@ == (SegmenterView {
                current_segment_start: old(self)@.timestamp_offset,
                ..old(self)@
            }),
    {
        self.current_segment_start = self.timestamp_offset;
    }
}

proof fn lemma_count_discontinuities_bound(s: Seq<SegmentRecord>, k: int)
    ensures
        0 <= count_discontinuities(s, k),
        k >= 0 ==> count_discontinuities(s, k) <= k,
    decreases k,
{
    if k > 0 {
        lemma_count_discontinuities_bound(s, k - 1);
    }
}

// ── Laws ─────────────────────────────────────────────────────────

/// The sliding window: after trimming, at most `max(keep, 3)` segments
/// remain, never fewer than three once three existed; the newest segments
/// are kept in order, and the media sequence number advances by the number
/// dropped, so that the index one past the newest segment is unchanged.
pub proof fn lemma_window_bounds(before: SegmenterView, after: SegmenterView)
    requires
        window_in_range(before),
        window_trimmed(before, after),
    ensures
        after.segments.len() <= if before.segments_keep >= 3 {
            before.segments_keep as int
        } else {
            3
        },
        before.segments.len() >= 3 ==> after.segments.len() >= 3,
        before.segments.len() < 3 ==> after.segments == before.segments,
        after.segments == before.segments.subrange(
            before.segments.len() - after.segments.len(),
            before.segments.len() as int,
        ),
        after.first_segment_index + after.segments.len() == before.first_segment_index
            + before.segments.len(),
        after.discontinuity_sequence >= before.discontinuity_sequence,
{
    let r = spec_to_remove(before.segments.len() as int, before.segments_keep);
    lemma_count_discontinuities_bound(before.segments, r);
}

proof fn lemma_count_is_filter(s: Seq<SegmentRecord>, k: int)
    requires
        0 <= k <= s.len(),
    ensures
        count_discontinuities(s, k) == s.take(k).filter(|x: SegmentRecord| x.discontinuity).len(),
    decreases k,
{
    reveal(Seq::filter);
    if k > 0 {
        lemma_count_is_filter(s, k - 1);
        assert(s.take(k).drop_last() =~= s.take(k - 1));
        assert(s.take(k).last() == s[k - 1]);
    } else {
        assert(s.take(0).len() == 0);
    }
}

/// Trimming the window raises the discontinuity sequence by exactly the
/// number of removed segments that start a discontinuity; when none of
/// them does, it stays as it was.
pub proof fn lemma_trim_discontinuity_sequence(before: SegmenterView, after: SegmenterView)
    requires
        window_in_range(before),
        window_trimmed(before, after),
    ensures
        ({
            let r = before.segments.len() - after.segments.len();
            after.discontinuity_sequence == before.discontinuity_sequence + before.segments.take(
                r,
            ).filter(|x: SegmentRecord| x.discontinuity).len()
        }),
        (forall|i: int|
            0 <= i < before.segments.len() - after.segments.len()
                ==> !(#[trigger] before.segments[i]).discontinuity)
            ==> after.discontinuity_sequence == before.discontinuity_sequence,
{
    let r = spec_to_remove(before.segments.len() as int, before.segments_keep);
    lemma_count_discontinuities_bound(before.segments, r);
    assert(0 <= r <= before.segments.len());
    assert(before.segments.len() - after.segments.len() == r);
    lemma_count_is_filter(before.segments, r);
    if forall|i: int| 0 <= i < r ==> !(#[trigger] before.segments[i]).discontinuity {
        lemma_count_zero(before.segments, r);
    }
}

proof fn lemma_count_zero(s: Seq<SegmentRecord>, k: int)
    requires
        k <= s.len(),
        forall|i: int| 0 <= i < k ==> !(#[trigger] s[i]).discontinuity,
    ensures
        count_discontinuities(s, k) == 0,
    decreases k,
{
    if k > 0 {
        lemma_count_zero(s, k - 1);
    }
}

/// Continuity across a reconnect: after the grace period, the first
/// timestamp of the resumed stream maps to the carried-over offset, which
/// lies past every presentation time written before (short of the 64-bit
/// limit).
pub proof fn lemma_grace_time_continues(before: SegmenterView, after: SegmenterView, ts: u32)
    requires
        before.segment_index < u32::MAX,
        grace_entered(before, after),
        max_u64(before.last_video_pts, before.last_audio_pts) + 33 <= u64::MAX,
    ensures
        media_time_int(after, ts) == after.timestamp_offset,
        after.timestamp_offset > before.last_video_pts,
        after.timestamp_offset > before.last_audio_pts,
        after.segment_index == before.segment_index + 1,
{
}

/// A segment is marked as a discontinuity exactly when its init version
/// differs from that of the segment before it, so that a change of init
/// segment is announced in the playlist.
pub proof fn lemma_discontinuity_marks_init_change(
    before: SegmenterView,
    after: SegmenterView,
    last_sample_duration: u64,
)
    requires
        max_u64(before.last_video_pts, before.last_audio_pts) + last_sample_duration <= u64::MAX,
        segment_recorded(before, after, last_sample_duration),
    ensures
        after.segments.len() == before.segments.len() + 1,
        after.segments.last().init_version == before.init_version,
        after.segments.last().discontinuity <==> (before.segments.len() > 0
            && before.segments.last().init_version != before.init_version),
        after.segments.last().duration_ms >= 1,
{
}


/// Every segment of the window lasts no longer than the longest segment
/// recorded (or is the 1 ms floor of an empty one).
pub open spec fn durations_covered(v: SegmenterView) -> bool {
    forall|i: int|
        0 <= i < v.segments.len() ==> #[trigger] v.segments[i].duration_ms
            <= v.max_segment_duration_ms || v.segments[i].duration_ms == 1
}

/// Recording a segment keeps the longest-segment bound over the window.
pub proof fn lemma_record_keeps_durations_covered(
    before: SegmenterView,
    after: SegmenterView,
    last_sample_duration: u64,
)
    requires
        durations_covered(before),
        max_u64(before.last_video_pts, before.last_audio_pts) + last_sample_duration <= u64::MAX,
        segment_recorded(before, after, last_sample_duration),
    ensures
        durations_covered(after),
{
    assert forall|i: int| 0 <= i < after.segments.len() implies #[trigger] after.segments[i].duration_ms
        <= after.max_segment_duration_ms || after.segments[i].duration_ms == 1 by {
        if i < before.segments.len() {
            assert(after.segments[i] == before.segments[i]);
        }
    }
}

/// Trimming the window keeps the longest-segment bound.
pub proof fn lemma_trim_keeps_durations_covered(before: SegmenterView, after: SegmenterView)
    requires
        durations_covered(before),
        window_trimmed(before, after),
    ensures
        durations_covered(after),
{
    let r = spec_to_remove(before.segments.len() as int, before.segments_keep);
    assert forall|i: int| 0 <= i < after.segments.len() implies #[trigger] after.segments[i].duration_ms
        <= after.max_segment_duration_ms || after.segments[i].duration_ms == 1 by {
        assert(after.segments[i] == before.segments[i + r]);
    }
}

/// The playlist's target duration covers every segment it lists: with a
/// configured duration of at least one second, each segment's duration is at
/// most the target duration (in seconds), as HLS requires of EXTINF.
pub proof fn lemma_target_duration_covers_segments(v: SegmenterView)
    requires
        durations_covered(v),
        v.segment_duration >= 1,
        v.max_segment_duration_ms <= 1000 * (u32::MAX as int) - 1000,
    ensures
        forall|i: int|
            0 <= i < v.segments.len() ==> #[trigger] v.segments[i].duration_ms <= spec_target_duration(
                v,
            ) * 1000,
{
    let m = v.max_segment_duration_ms;
    let up = m / 1000 + if m % 1000 != 0 {
        1int
    } else {
        0
    };
    assert(up * 1000 >= m);
    assert(0 <= up <= u32::MAX);
    assert(spec_target_duration(v) >= up);
    assert(spec_target_duration(v) >= 1);
}

} // verus!
