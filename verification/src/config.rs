//! Server configuration and its range checks.
use crate::text::{chars_of, push_decimal, push_str};
use crate::thumbnail::{
    lemma_parse_uint_bound, parse_u32, parse_uint, same_text, spec_parse_u32, spec_parse_uint,
};
use vstd::prelude::*;

verus! {

#[derive(Clone)]
pub struct Config {
    pub rtmp_host: String,
    pub rtmp_port: u16,
    pub api_host: String,
    pub api_port: u16,
    pub media_dir: String,
    pub hls_segment_duration: u32,
    pub hls_segments_keep: u32,
    pub recording_enabled: bool,
    pub thumbnail_sizes: Vec<u32>,
    pub thumbnail_interval_seconds: u32,
    pub thumbnail_live_update: bool,
    pub recordings_base_url: String,
    pub stream_grace_period_seconds: u64,
    pub recording_remux_enabled: bool,
    pub recording_remux_concurrency: u32,
    pub thumbnail_ffmpeg_concurrency: u32,
    pub thumbnail_rate_limit_seconds: u32,
    pub cors_allowed_origins: String,
}

/// Why a configuration is rejected.
#[derive(Clone, Copy, PartialEq, Eq, Debug, Structural)]
pub enum ConfigError {
    NoThumbnailSizes,
    ZeroThumbnailSize,
    ThumbnailSizeTooLarge(u32),
    ZeroSegmentDuration,
    TooFewSegmentsKept,
    ZeroThumbnailInterval,
    ZeroFfmpegConcurrency,
    ZeroRemuxConcurrency,
}

/// The largest thumbnail width accepted (8K).
pub const MAX_THUMBNAIL_WIDTH: u32 = 7680;

/// The first problem with the thumbnail widths from position `i` on.
pub open spec fn size_error(sizes: Seq<u32>, i: int) -> Option<ConfigError>
    decreases sizes.len() - i,
{
    if i >= sizes.len() || i < 0 {
        None
    } else if sizes[i] == 0 {
        Some(ConfigError::ZeroThumbnailSize)
    } else if sizes[i] > MAX_THUMBNAIL_WIDTH {
        Some(ConfigError::ThumbnailSizeTooLarge(sizes[i]))
    } else {
        size_error(sizes, i + 1)
    }
}

/// The first rule a configuration breaks, checked in order: at least one
/// thumbnail width, each in 1..=7680, a nonzero segment duration, at least
/// three segments kept, and nonzero thumbnail interval and concurrencies.
pub open spec fn config_error(c: Config) -> Option<ConfigError> {
    if c.thumbnail_sizes@.len() == 0 {
        Some(ConfigError::NoThumbnailSizes)
    } else if size_error(c.thumbnail_sizes@, 0) is Some {
        size_error(c.thumbnail_sizes@, 0)
    } else if c.hls_segment_duration == 0 {
        Some(ConfigError::ZeroSegmentDuration)
    } else if c.hls_segments_keep < 3 {
        Some(ConfigError::TooFewSegmentsKept)
    } else if c.thumbnail_interval_seconds == 0 {
        Some(ConfigError::ZeroThumbnailInterval)
    } else if c.thumbnail_ffmpeg_concurrency == 0 {
        Some(ConfigError::ZeroFfmpegConcurrency)
    } else if c.recording_remux_concurrency == 0 {
        Some(ConfigError::ZeroRemuxConcurrency)
    } else {
        None
    }
}

impl Config {
    /// Checks that all values are in their accepted ranges; the error names
    /// the first rule broken.
    pub fn validate(&self) -> (r: Result<(), ConfigError>)
        ensures
            r matches Err(e) ==> config_error(*self) == Some(e),
            r is Ok <==> config_error(*self) is None,
    {
        if self.thumbnail_sizes.len() == 0 {
            return Err(ConfigError::NoThumbnailSizes);
        }
        let mut i: usize = 0;
        while i < self.thumbnail_sizes.len()
            invariant
                i <= self.thumbnail_sizes@.len(),
                size_error(self.thumbnail_sizes@, 0) == size_error(self.thumbnail_sizes@, i as int),
            decreases self.thumbnail_sizes.len() - i,
        {
            let size = self.thumbnail_sizes[i];
            if size == 0 {
                return Err(ConfigError::ZeroThumbnailSize);
            }
            if size > MAX_THUMBNAIL_WIDTH {
                return Err(ConfigError::ThumbnailSizeTooLarge(size));
            }
            i += 1;
        }
        if self.hls_segment_duration == 0 {
            return Err(ConfigError::ZeroSegmentDuration);
        }
        if self.hls_segments_keep < 3 {
            return Err(ConfigError::TooFewSegmentsKept);
        }
        if self.thumbnail_interval_seconds == 0 {
            return Err(ConfigError::ZeroThumbnailInterval);
        }
        if self.thumbnail_ffmpeg_concurrency == 0 {
            return Err(ConfigError::ZeroFfmpegConcurrency);
        }
        if self.recording_remux_concurrency == 0 {
            return Err(ConfigError::ZeroRemuxConcurrency);
        }
        Ok(())
    }
}

/// The message shown for a configuration error.
pub open spec fn spec_config_error_message(e: ConfigError) -> Seq<char> {
    match e {
        ConfigError::NoThumbnailSizes => "THUMBNAIL_SIZES must contain at least one width (e.g. \"320\")"@,
        ConfigError::ZeroThumbnailSize => "THUMBNAIL_SIZES contains zero-width entry — all sizes must be > 0"@,
        ConfigError::ThumbnailSizeTooLarge(w) => "THUMBNAIL_SIZES contains width "@
            + crate::text::spec_decimal(w as nat) + " which exceeds maximum 7680"@,
        ConfigError::ZeroSegmentDuration => "HLS_SEGMENT_DURATION must be > 0 (seconds)"@,
        ConfigError::TooFewSegmentsKept => "HLS_SEGMENTS_KEEP must be >= 3 to maintain a valid sliding window"@,
        ConfigError::ZeroThumbnailInterval => "THUMBNAIL_INTERVAL_SECONDS must be > 0"@,
        ConfigError::ZeroFfmpegConcurrency => "THUMBNAIL_FFMPEG_CONCURRENCY must be > 0"@,
        ConfigError::ZeroRemuxConcurrency => "RECORDING_REMUX_CONCURRENCY must be > 0"@,
    }
}

impl ConfigError {
    /// The message for this error.
    pub fn message(&self) -> (r: String)
        ensures
            r@ == spec_config_error_message(*self),
    {
        let mut s = String::new();
        match self {
            ConfigError::NoThumbnailSizes => push_str(
                &mut s,
                "THUMBNAIL_SIZES must contain at least one width (e.g. \"320\")",
            ),
            ConfigError::ZeroThumbnailSize => push_str(
                &mut s,
                "THUMBNAIL_SIZES contains zero-width entry — all sizes must be > 0",
            ),
            ConfigError::ThumbnailSizeTooLarge(w) => {
                push_str(&mut s, "THUMBNAIL_SIZES contains width ");
                push_decimal(&mut s, *w as u64);
                push_str(&mut s, " which exceeds maximum 7680");
            },
            ConfigError::ZeroSegmentDuration => push_str(
                &mut s,
                "HLS_SEGMENT_DURATION must be > 0 (seconds)",
            ),
            ConfigError::TooFewSegmentsKept => push_str(
                &mut s,
                "HLS_SEGMENTS_KEEP must be >= 3 to maintain a valid sliding window",
            ),
            ConfigError::ZeroThumbnailInterval => push_str(
                &mut s,
                "THUMBNAIL_INTERVAL_SECONDS must be > 0",
            ),
            ConfigError::ZeroFfmpegConcurrency => push_str(
                &mut s,
                "THUMBNAIL_FFMPEG_CONCURRENCY must be > 0",
            ),
            ConfigError::ZeroRemuxConcurrency => push_str(
                &mut s,
                "RECORDING_REMUX_CONCURRENCY must be > 0",
            ),
        }
        proof {
            assert(Seq::<char>::empty() + spec_config_error_message(*self) =~= spec_config_error_message(*self));
        }
        s
    }
}

// ── Reading the configuration from its variables ─────────────────

/// The configuration variables as read from the environment, each absent
/// or holding its text.
pub struct ConfigValues {
    pub rtmp_host: Option<String>,
    pub rtmp_port: Option<String>,
    pub api_host: Option<String>,
    pub api_port: Option<String>,
    pub media_dir: Option<String>,
    pub hls_segment_duration: Option<String>,
    pub hls_segments_keep: Option<String>,
    pub recording_enabled: Option<String>,
    pub thumbnail_sizes: Option<String>,
    pub thumbnail_interval_seconds: Option<String>,
    pub thumbnail_live_update: Option<String>,
    pub recordings_base_url: Option<String>,
    pub stream_grace_period_seconds: Option<String>,
    pub recording_remux_enabled: Option<String>,
    pub recording_remux_concurrency: Option<String>,
    pub thumbnail_ffmpeg_concurrency: Option<String>,
    pub thumbnail_rate_limit_seconds: Option<String>,
    pub cors_allowed_origins: Option<String>,
}

/// The variable whose value does not parse.
#[derive(Clone, Copy, PartialEq, Eq, Debug, Structural)]
pub enum ConfigParseError {
    ThumbnailSizes,
    RtmpPort,
    ApiPort,
    HlsSegmentDuration,
    HlsSegmentsKeep,
    RecordingEnabled,
    ThumbnailIntervalSeconds,
    ThumbnailLiveUpdate,
    StreamGracePeriodSeconds,
    RecordingRemuxEnabled,
    RecordingRemuxConcurrency,
    ThumbnailFfmpegConcurrency,
    ThumbnailRateLimitSeconds,
}

/// A configuration as values: its texts as characters, its widths as a
/// sequence.
pub struct ConfigView {
    pub rtmp_host: Seq<char>,
    pub rtmp_port: u16,
    pub api_host: Seq<char>,
    pub api_port: u16,
    pub media_dir: Seq<char>,
    pub hls_segment_duration: u32,
    pub hls_segments_keep: u32,
    pub recording_enabled: bool,
    pub thumbnail_sizes: Seq<u32>,
    pub thumbnail_interval_seconds: u32,
    pub thumbnail_live_update: bool,
    pub recordings_base_url: Seq<char>,
    pub stream_grace_period_seconds: u64,
    pub recording_remux_enabled: bool,
    pub recording_remux_concurrency: u32,
    pub thumbnail_ffmpeg_concurrency: u32,
    pub thumbnail_rate_limit_seconds: u32,
    pub cors_allowed_origins: Seq<char>,
}

impl View for Config {
    type V = ConfigView;

    open spec fn view(&self) -> ConfigView {
        ConfigView {
            rtmp_host: self.rtmp_host@,
            rtmp_port: self.rtmp_port,
            api_host: self.api_host@,
            api_port: self.api_port,
            media_dir: self.media_dir@,
            hls_segment_duration: self.hls_segment_duration,
            hls_segments_keep: self.hls_segments_keep,
            recording_enabled: self.recording_enabled,
            thumbnail_sizes: self.thumbnail_sizes@,
            thumbnail_interval_seconds: self.thumbnail_interval_seconds,
            thumbnail_live_update: self.thumbnail_live_update,
            recordings_base_url: self.recordings_base_url@,
            stream_grace_period_seconds: self.stream_grace_period_seconds,
            recording_remux_enabled: self.recording_remux_enabled,
            recording_remux_concurrency: self.recording_remux_concurrency,
            thumbnail_ffmpeg_concurrency: self.thumbnail_ffmpeg_concurrency,
            thumbnail_rate_limit_seconds: self.thumbnail_rate_limit_seconds,
            cors_allowed_origins: self.cors_allowed_origins@,
        }
    }
}

/// Whether `c` is white space as `char::is_whitespace` has it (the
/// Unicode White_Space property).
pub open spec fn is_white_space(c: char) -> bool {
    c == '\t' || c == '\n' || c == '\u{0B}' || c == '\u{0C}' || c == '\r' || c == ' ' || c
        == '\u{85}' || c == '\u{A0}' || c == '\u{1680}' || ('\u{2000}' <= c && c <= '\u{200A}')
        || c == '\u{2028}' || c == '\u{2029}' || c == '\u{202F}' || c == '\u{205F}' || c
        == '\u{3000}'
}

/// `s` without its leading white space.
pub open spec fn trim_start(s: Seq<char>) -> Seq<char>
    decreases s.len(),
{
    if s.len() > 0 && is_white_space(s[0]) {
        trim_start(s.drop_first())
    } else {
        s
    }
}

/// `s` without its trailing white space.
pub open spec fn trim_end(s: Seq<char>) -> Seq<char>
    decreases s.len(),
{
    if s.len() > 0 && is_white_space(s.last()) {
        trim_end(s.drop_last())
    } else {
        s
    }
}

/// `s` without leading and trailing white space, as `str::trim` gives it.
pub open spec fn trim(s: Seq<char>) -> Seq<char> {
    trim_end(trim_start(s))
}

/// The parts of `s` between commas, as `str::split(',')` gives them: one
/// more part than there are commas.
pub open spec fn split_commas(s: Seq<char>) -> Seq<Seq<char>>
    decreases s.len(),
{
    if s.len() == 0 {
        seq![Seq::<char>::empty()]
    } else {
        let parts = split_commas(s.drop_last());
        if s.last() == ',' {
            parts.push(Seq::<char>::empty())
        } else {
            parts.drop_last().push(parts.last().push(s.last()))
        }
    }
}

/// Thumbnail widths given as comma-separated numbers, each possibly
/// surrounded by white space; None when a part is not a `u32`.
pub open spec fn spec_parse_sizes(s: Seq<char>) -> Option<Seq<u32>> {
    let parts = split_commas(s);
    if forall|i: int| 0 <= i < parts.len() ==> (#[trigger] spec_parse_u32(trim(parts[i]))) is Some {
        Some(Seq::new(parts.len(), |i: int| spec_parse_u32(trim(parts[i]))->0))
    } else {
        None
    }
}

/// The text of a variable, or its default.
pub open spec fn text_or(o: Option<String>, default: Seq<char>) -> Seq<char> {
    match o {
        Some(s) => s@,
        None => default,
    }
}

/// The number a variable holds (at most `max`), or its default; None when
/// present and not such a number.
pub open spec fn uint_or(o: Option<String>, default: nat, max: nat) -> Option<nat> {
    match o {
        Some(s) => spec_parse_uint(s@, max),
        None => Some(default),
    }
}

/// The flag a variable holds (`true` or `false`), or its default; None when
/// present and neither.
pub open spec fn bool_or(o: Option<String>, default: bool) -> Option<bool> {
    match o {
        Some(s) => if s@ == "true"@ {
            Some(true)
        } else if s@ == "false"@ {
            Some(false)
        } else {
            None
        },
        None => Some(default),
    }
}

/// The thumbnail widths a variable holds, or the default 320 and 480.
pub open spec fn sizes_or(o: Option<String>) -> Option<Seq<u32>> {
    match o {
        Some(s) => spec_parse_sizes(s@),
        None => Some(seq![320u32, 480u32]),
    }
}

/// The first variable, in the order they are read, whose value does not
/// parse; the defaults are those of the documented variable table.
pub open spec fn config_parse_error(v: ConfigValues) -> Option<ConfigParseError> {
    if sizes_or(v.thumbnail_sizes) is None {
        Some(ConfigParseError::ThumbnailSizes)
    } else if uint_or(v.rtmp_port, 1935, u16::MAX as nat) is None {
        Some(ConfigParseError::RtmpPort)
    } else if uint_or(v.api_port, 8080, u16::MAX as nat) is None {
        Some(ConfigParseError::ApiPort)
    } else if uint_or(v.hls_segment_duration, 4, u32::MAX as nat) is None {
        Some(ConfigParseError::HlsSegmentDuration)
    } else if uint_or(v.hls_segments_keep, 10, u32::MAX as nat) is None {
        Some(ConfigParseError::HlsSegmentsKeep)
    } else if bool_or(v.recording_enabled, true) is None {
        Some(ConfigParseError::RecordingEnabled)
    } else if uint_or(v.thumbnail_interval_seconds, 10, u32::MAX as nat) is None {
        Some(ConfigParseError::ThumbnailIntervalSeconds)
    } else if bool_or(v.thumbnail_live_update, true) is None {
        Some(ConfigParseError::ThumbnailLiveUpdate)
    } else if uint_or(v.stream_grace_period_seconds, 30, u64::MAX as nat) is None {
        Some(ConfigParseError::StreamGracePeriodSeconds)
    } else if bool_or(v.recording_remux_enabled, true) is None {
        Some(ConfigParseError::RecordingRemuxEnabled)
    } else if uint_or(v.recording_remux_concurrency, 4, u32::MAX as nat) is None {
        Some(ConfigParseError::RecordingRemuxConcurrency)
    } else if uint_or(v.thumbnail_ffmpeg_concurrency, 4, u32::MAX as nat) is None {
        Some(ConfigParseError::ThumbnailFfmpegConcurrency)
    } else if uint_or(v.thumbnail_rate_limit_seconds, 5, u32::MAX as nat) is None {
        Some(ConfigParseError::ThumbnailRateLimitSeconds)
    } else {
        None
    }
}

/// The configuration the variables give when each parses.
pub open spec fn spec_config(v: ConfigValues) -> ConfigView {
    ConfigView {
        rtmp_host: text_or(v.rtmp_host, "0.0.0.0"@),
        rtmp_port: uint_or(v.rtmp_port, 1935, u16::MAX as nat)->0 as u16,
        api_host: text_or(v.api_host, "0.0.0.0"@),
        api_port: uint_or(v.api_port, 8080, u16::MAX as nat)->0 as u16,
        media_dir: text_or(v.media_dir, "./data"@),
        hls_segment_duration: uint_or(v.hls_segment_duration, 4, u32::MAX as nat)->0 as u32,
        hls_segments_keep: uint_or(v.hls_segments_keep, 10, u32::MAX as nat)->0 as u32,
        recording_enabled: bool_or(v.recording_enabled, true)->0,
        thumbnail_sizes: sizes_or(v.thumbnail_sizes)->0,
        thumbnail_interval_seconds: uint_or(v.thumbnail_interval_seconds, 10, u32::MAX as nat)->0 as u32,
        thumbnail_live_update: bool_or(v.thumbnail_live_update, true)->0,
        recordings_base_url: text_or(v.recordings_base_url, "/recordings"@),
        stream_grace_period_seconds: uint_or(v.stream_grace_period_seconds, 30, u64::MAX as nat)->0 as u64,
        recording_remux_enabled: bool_or(v.recording_remux_enabled, true)->0,
        recording_remux_concurrency: uint_or(v.recording_remux_concurrency, 4, u32::MAX as nat)->0 as u32,
        thumbnail_ffmpeg_concurrency: uint_or(v.thumbnail_ffmpeg_concurrency, 4, u32::MAX as nat)->0 as u32,
        thumbnail_rate_limit_seconds: uint_or(v.thumbnail_rate_limit_seconds, 5, u32::MAX as nat)->0 as u32,
        cors_allowed_origins: text_or(v.cors_allowed_origins, "*"@),
    }
}

proof fn lemma_split_nonempty(s: Seq<char>)
    ensures
        split_commas(s).len() >= 1,
    decreases s.len(),
{
    if s.len() > 0 {
        lemma_split_nonempty(s.drop_last());
    }
}

fn is_white_space_char(c: char) -> (r: bool)
    ensures
        r == is_white_space(c),
{
    c == '\t' || c == '\n' || c == '\u{0B}' || c == '\u{0C}' || c == '\r' || c == ' ' || c
        == '\u{85}' || c == '\u{A0}' || c == '\u{1680}' || ('\u{2000}' <= c && c <= '\u{200A}')
        || c == '\u{2028}' || c == '\u{2029}' || c == '\u{202F}' || c == '\u{205F}' || c
        == '\u{3000}'
}

/// `cs` without leading and trailing white space.
fn trim_chars(cs: &[char]) -> (r: &[char])
    ensures
        r@ == trim(cs@),
{
    let n = cs.len();
    let mut a: usize = 0;
    assert(cs@.subrange(0, n as int) =~= cs@);
    while a < n && is_white_space_char(cs[a])
        invariant
            a <= n == cs@.len(),
            trim_start(cs@) == trim_start(cs@.subrange(a as int, n as int)),
        decreases n - a,
    {
        assert(cs@.subrange(a as int, n as int).drop_first() =~= cs@.subrange(a + 1, n as int));
        a += 1;
    }
    assert(trim_start(cs@) == cs@.subrange(a as int, n as int));
    let mut b: usize = n;
    while b > a && is_white_space_char(cs[b - 1])
        invariant
            a <= b <= n == cs@.len(),
            trim_start(cs@) == cs@.subrange(a as int, n as int),
            trim(cs@) == trim_end(cs@.subrange(a as int, b as int)),
        decreases b - a,
    {
        assert(cs@.subrange(a as int, b as int).drop_last() =~= cs@.subrange(a as int, b - 1));
        b -= 1;
    }
    vstd::slice::slice_subrange(cs, a, b)
}

fn parse_part(cs: &[char]) -> (r: Option<u32>)
    ensures
        r == spec_parse_u32(trim(cs@)),
{
    parse_u32(trim_chars(cs))
}

/// Reads comma-separated thumbnail widths.
pub fn parse_sizes(s: &str) -> (r: Option<Vec<u32>>)
    ensures
        match spec_parse_sizes(s@) {
            Some(z) => r matches Some(x) && x@ == z,
            None => r is None,
        },
{
    let cs = chars_of(s);
    let n = cs.len();
    let mut cur: Vec<char> = Vec::new();
    let mut sizes: Vec<u32> = Vec::new();
    let mut ok = true;
    let ghost mut done: Seq<Seq<char>> = Seq::empty();
    let mut i: usize = 0;
    assert(cs@.subrange(0, 0) =~= Seq::<char>::empty());
    while i < n
        invariant
            i <= n == cs@.len(),
            cs@ == s@,
            split_commas(cs@.subrange(0, i as int)) == done.push(cur@),
            ok == (forall|k: int| 0 <= k < done.len() ==> (#[trigger] spec_parse_u32(trim(done[k]))) is Some),
            ok ==> sizes@.len() == done.len(),
            ok ==> forall|k: int| 0 <= k < done.len() ==> sizes@[k] == spec_parse_u32(trim(#[trigger] done[k]))->0,
        decreases n - i,
    {
        let c = cs[i];
        let ghost pre = cs@.subrange(0, i as int);
        assert(cs@.subrange(0, i + 1).drop_last() =~= pre);
        assert(cs@.subrange(0, i + 1).last() == c);
        if c == ',' {
            let p = parse_part(cur.as_slice());
            let ghost old_done = done;
            proof {
                done = done.push(cur@);
            }
            match p {
                Some(w) => {
                    if ok {
                        sizes.push(w);
                    }
                },
                None => {
                    ok = false;
                },
            }
            proof {
                assert(done[done.len() - 1] == cur@);
                assert forall|k: int| 0 <= k < old_done.len() implies done[k] == old_done[k] by {}
                if p is None {
                    assert(spec_parse_u32(trim(done[done.len() - 1])) is None);
                }
            }
            cur = Vec::new();
            assert(split_commas(cs@.subrange(0, i + 1)) =~= done.push(cur@));
        } else {
            cur.push(c);
            assert(split_commas(cs@.subrange(0, i + 1)) =~= done.push(cur@));
        }
        i += 1;
    }
    assert(cs@.subrange(0, n as int) =~= cs@);
    let p = parse_part(cur.as_slice());
    let ghost parts = done.push(cur@);
    assert(parts == split_commas(s@));
    match p {
        Some(w) => {
            if ok {
                sizes.push(w);
                assert(sizes@ =~= Seq::new(parts.len(), |k: int| spec_parse_u32(trim(parts[k]))->0));
                assert forall|k: int| 0 <= k < parts.len() implies (#[trigger] spec_parse_u32(trim(parts[k]))) is Some by {
                    if k < done.len() {
                        assert(parts[k] == done[k]);
                    }
                }
                Some(sizes)
            } else {
                proof {
                    let k = choose|k: int| 0 <= k < done.len() && (#[trigger] spec_parse_u32(trim(done[k]))) is None;
                    assert(parts[k] == done[k]);
                    assert(spec_parse_u32(trim(parts[k])) is None);
                }
                None
            }
        },
        None => {
            proof {
                assert(parts[parts.len() - 1] == cur@);
            }
            None
        },
    }
}

fn text_value(o: &Option<String>, default: &str) -> (r: String)
    ensures
        r@ == text_or(*o, default@),
{
    let mut r = String::new();
    match o {
        Some(s) => push_str(&mut r, s.as_str()),
        None => push_str(&mut r, default),
    }
    proof {
        assert(Seq::<char>::empty() + text_or(*o, default@) =~= text_or(*o, default@));
    }
    r
}

fn uint_value(o: &Option<String>, default: u64, max: u64) -> (r: Option<u64>)
    requires
        default <= max,
    ensures
        match uint_or(*o, default as nat, max as nat) {
            Some(x) => r == Some(x as u64),
            None => r is None,
        },
        r matches Some(y) ==> y <= max,
        uint_or(*o, default as nat, max as nat) matches Some(x) ==> x <= max,
{
    if let Some(s) = o {
        proof {
            lemma_parse_uint_bound(s@, max as nat);
        }
    }
    match o {
        Some(s) => {
            let cs = chars_of(s.as_str());
            parse_uint(cs.as_slice(), max)
        },
        None => Some(default),
    }
}

fn bool_value(o: &Option<String>, default: bool) -> (r: Option<bool>)
    ensures
        r == bool_or(*o, default),
{
    match o {
        Some(s) => if same_text(s.as_str(), "true") {
            Some(true)
        } else if same_text(s.as_str(), "false") {
            Some(false)
        } else {
            None
        },
        None => Some(default),
    }
}

fn sizes_value(o: &Option<String>) -> (r: Option<Vec<u32>>)
    ensures
        match sizes_or(*o) {
            Some(z) => r matches Some(x) && x@ == z,
            None => r is None,
        },
{
    match o {
        Some(s) => parse_sizes(s.as_str()),
        None => {
            let v = vec![320u32, 480u32];
            assert(v@ =~= seq![320u32, 480u32]);
            Some(v)
        },
    }
}

/// Builds the configuration from the variables' texts: each absent
/// variable takes its documented default; the first value that does not
/// parse is the error.
pub fn config_from_values(v: &ConfigValues) -> (r: Result<Config, ConfigParseError>)
    ensures
        match config_parse_error(*v) {
            Some(e) => r == Err::<Config, ConfigParseError>(e),
            None => r matches Ok(c) && c@ == spec_config(*v),
        },
{
    let thumbnail_sizes = match sizes_value(&v.thumbnail_sizes) {
        Some(x) => x,
        None => return Err(ConfigParseError::ThumbnailSizes),
    };
    let rtmp_port = match uint_value(&v.rtmp_port, 1935, 0xFFFF) {
        Some(x) => x as u16,
        None => return Err(ConfigParseError::RtmpPort),
    };
    let api_port = match uint_value(&v.api_port, 8080, 0xFFFF) {
        Some(x) => x as u16,
        None => return Err(ConfigParseError::ApiPort),
    };
    let hls_segment_duration = match uint_value(&v.hls_segment_duration, 4, 0xFFFF_FFFF) {
        Some(x) => x as u32,
        None => return Err(ConfigParseError::HlsSegmentDuration),
    };
    let hls_segments_keep = match uint_value(&v.hls_segments_keep, 10, 0xFFFF_FFFF) {
        Some(x) => x as u32,
        None => return Err(ConfigParseError::HlsSegmentsKeep),
    };
    let recording_enabled = match bool_value(&v.recording_enabled, true) {
        Some(x) => x,
        None => return Err(ConfigParseError::RecordingEnabled),
    };
    let thumbnail_interval_seconds = match uint_value(&v.thumbnail_interval_seconds, 10, 0xFFFF_FFFF) {
        Some(x) => x as u32,
        None => return Err(ConfigParseError::ThumbnailIntervalSeconds),
    };
    let thumbnail_live_update = match bool_value(&v.thumbnail_live_update, true) {
        Some(x) => x,
        None => return Err(ConfigParseError::ThumbnailLiveUpdate),
    };
    let stream_grace_period_seconds = match uint_value(
        &v.stream_grace_period_seconds,
        30,
        0xFFFF_FFFF_FFFF_FFFF,
    ) {
        Some(x) => x,
        None => return Err(ConfigParseError::StreamGracePeriodSeconds),
    };
    let recording_remux_enabled = match bool_value(&v.recording_remux_enabled, true) {
        Some(x) => x,
        None => return Err(ConfigParseError::RecordingRemuxEnabled),
    };
    let recording_remux_concurrency = match uint_value(&v.recording_remux_concurrency, 4, 0xFFFF_FFFF) {
        Some(x) => x as u32,
        None => return Err(ConfigParseError::RecordingRemuxConcurrency),
    };
    let thumbnail_ffmpeg_concurrency = match uint_value(&v.thumbnail_ffmpeg_concurrency, 4, 0xFFFF_FFFF) {
        Some(x) => x as u32,
        None => return Err(ConfigParseError::ThumbnailFfmpegConcurrency),
    };
    let thumbnail_rate_limit_seconds = match uint_value(&v.thumbnail_rate_limit_seconds, 5, 0xFFFF_FFFF) {
        Some(x) => x as u32,
        None => return Err(ConfigParseError::ThumbnailRateLimitSeconds),
    };
    let c = Config {
            rtmp_host: text_value(&v.rtmp_host, "0.0.0.0"),
            rtmp_port,
            api_host: text_value(&v.api_host, "0.0.0.0"),
            api_port,
            media_dir: text_value(&v.media_dir, "./data"),
            hls_segment_duration,
            hls_segments_keep,
            recording_enabled,
            thumbnail_sizes,
            thumbnail_interval_seconds,
            thumbnail_live_update,
            recordings_base_url: text_value(&v.recordings_base_url, "/recordings"),
            stream_grace_period_seconds,
            recording_remux_enabled,
            recording_remux_concurrency,
            thumbnail_ffmpeg_concurrency,
            thumbnail_rate_limit_seconds,
            cors_allowed_origins: text_value(&v.cors_allowed_origins, "*"),
        };
    assert(c@ == spec_config(*v));
    Ok(c)
}

/// The variable a parse error names.
pub open spec fn spec_variable_name(e: ConfigParseError) -> Seq<char> {
    match e {
        ConfigParseError::ThumbnailSizes => "THUMBNAIL_SIZES"@,
        ConfigParseError::RtmpPort => "RTMP_PORT"@,
        ConfigParseError::ApiPort => "API_PORT"@,
        ConfigParseError::HlsSegmentDuration => "HLS_SEGMENT_DURATION"@,
        ConfigParseError::HlsSegmentsKeep => "HLS_SEGMENTS_KEEP"@,
        ConfigParseError::RecordingEnabled => "RECORDING_ENABLED"@,
        ConfigParseError::ThumbnailIntervalSeconds => "THUMBNAIL_INTERVAL_SECONDS"@,
        ConfigParseError::ThumbnailLiveUpdate => "THUMBNAIL_LIVE_UPDATE"@,
        ConfigParseError::StreamGracePeriodSeconds => "STREAM_GRACE_PERIOD_SECONDS"@,
        ConfigParseError::RecordingRemuxEnabled => "RECORDING_REMUX_ENABLED"@,
        ConfigParseError::RecordingRemuxConcurrency => "RECORDING_REMUX_CONCURRENCY"@,
        ConfigParseError::ThumbnailFfmpegConcurrency => "THUMBNAIL_FFMPEG_CONCURRENCY"@,
        ConfigParseError::ThumbnailRateLimitSeconds => "THUMBNAIL_RATE_LIMIT_SECONDS"@,
    }
}

impl ConfigParseError {
    /// The name of the variable whose value does not parse.
    pub fn variable(&self) -> (r: &'static str)
        ensures
            r@ == spec_variable_name(*self),
    {
        match self {
            ConfigParseError::ThumbnailSizes => "THUMBNAIL_SIZES",
            ConfigParseError::RtmpPort => "RTMP_PORT",
            ConfigParseError::ApiPort => "API_PORT",
            ConfigParseError::HlsSegmentDuration => "HLS_SEGMENT_DURATION",
            ConfigParseError::HlsSegmentsKeep => "HLS_SEGMENTS_KEEP",
            ConfigParseError::RecordingEnabled => "RECORDING_ENABLED",
            ConfigParseError::ThumbnailIntervalSeconds => "THUMBNAIL_INTERVAL_SECONDS",
            ConfigParseError::ThumbnailLiveUpdate => "THUMBNAIL_LIVE_UPDATE",
            ConfigParseError::StreamGracePeriodSeconds => "STREAM_GRACE_PERIOD_SECONDS",
            ConfigParseError::RecordingRemuxEnabled => "RECORDING_REMUX_ENABLED",
            ConfigParseError::RecordingRemuxConcurrency => "RECORDING_REMUX_CONCURRENCY",
            ConfigParseError::ThumbnailFfmpegConcurrency => "THUMBNAIL_FFMPEG_CONCURRENCY",
            ConfigParseError::ThumbnailRateLimitSeconds => "THUMBNAIL_RATE_LIMIT_SECONDS",
        }
    }

    /// The message for this error: which variable holds a bad value.
    pub fn message(&self) -> (r: String)
        ensures
            r@ == "invalid value for "@ + spec_variable_name(*self),
    {
        let mut s = String::new();
        push_str(&mut s, "invalid value for ");
        push_str(&mut s, self.variable());
        proof {
            assert(Seq::<char>::empty() + "invalid value for "@ =~= "invalid value for "@);
        }
        s
    }
}

} // verus!
