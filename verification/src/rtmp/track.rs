//! The tracks of a published stream: what the API reports of each, and
//! which codecs, announcements and ends a session has seen per track.
use crate::hls::fmp4::{AudioCodec, VideoCodec};
use std::collections::{HashMap, HashSet};
use vstd::prelude::*;

verus! {

broadcast use vstd::std_specs::hash::group_hash_axioms;

/// One track of a published stream.
#[derive(Clone)]
pub struct TrackInfo {
    pub track_id: u32,
    pub hls_url: String,
    pub video_codec: Option<String>,
    pub audio_codec: Option<String>,
}

/// What to announce of a track: its known video and audio codecs.
#[derive(Clone, Copy, Debug)]
pub struct Announcement {
    pub video: Option<VideoCodec>,
    pub audio: Option<AudioCodec>,
}

/// The tracks a session has seen: each track's last video and audio codec,
/// the tracks already announced, and the tracks whose video or audio
/// sequence has ended.
pub struct TrackRegistry {
    video: HashMap<u32, VideoCodec>,
    audio: HashMap<u32, AudioCodec>,
    discovered: HashSet<u32>,
    closed_video: HashSet<u32>,
    closed_audio: HashSet<u32>,
}

pub struct RegistryView {
    pub video: Map<u32, VideoCodec>,
    pub audio: Map<u32, AudioCodec>,
    pub discovered: Set<u32>,
    pub closed_video: Set<u32>,
    pub closed_audio: Set<u32>,
}

impl View for TrackRegistry {
    type V = RegistryView;

    closed spec fn view(&self) -> RegistryView {
        RegistryView {
            video: self.video@,
            audio: self.audio@,
            discovered: self.discovered@,
            closed_video: self.closed_video@,
            closed_audio: self.closed_audio@,
        }
    }
}

pub open spec fn lookup<V>(m: Map<u32, V>, k: u32) -> Option<V> {
    if m.dom().contains(k) {
        Some(m[k])
    } else {
        None
    }
}

/// The announcement due when a track's video codec is recorded: on the
/// track's first sighting or when its codec changes.
pub open spec fn video_announcement(v: RegistryView, track: u32, codec: VideoCodec) -> Option<Announcement> {
    if v.discovered.contains(track) && lookup(v.video, track) == Some(codec) {
        None
    } else {
        Some(Announcement { video: Some(codec), audio: lookup(v.audio, track) })
    }
}

/// The announcement due when a track's audio codec is recorded.
pub open spec fn audio_announcement(v: RegistryView, track: u32, codec: AudioCodec) -> Option<Announcement> {
    if v.discovered.contains(track) && lookup(v.audio, track) == Some(codec) {
        None
    } else {
        Some(Announcement { video: lookup(v.video, track), audio: Some(codec) })
    }
}

fn video_of(m: &HashMap<u32, VideoCodec>, k: u32) -> (r: Option<VideoCodec>)
    ensures
        r == lookup(m@, k),
{
    match m.get(&k) {
        Some(c) => Some(*c),
        None => None,
    }
}

fn audio_of(m: &HashMap<u32, AudioCodec>, k: u32) -> (r: Option<AudioCodec>)
    ensures
        r == lookup(m@, k),
{
    match m.get(&k) {
        Some(c) => Some(*c),
        None => None,
    }
}

impl TrackRegistry {
    pub fn new() -> (r: Self)
        ensures
            r@.video == Map::<u32, VideoCodec>::empty(),
            r@.audio == Map::<u32, AudioCodec>::empty(),
            r@.discovered == Set::<u32>::empty(),
            r@.closed_video == Set::<u32>::empty(),
            r@.closed_audio == Set::<u32>::empty(),
    {
        TrackRegistry {
            video: HashMap::new(),
            audio: HashMap::new(),
            discovered: HashSet::new(),
            closed_video: HashSet::new(),
            closed_audio: HashSet::new(),
        }
    }

    /// Records a track's video codec; returns what to announce when the
    /// track is new or its video codec changed.
    pub fn register_video(&mut self, track: u32, codec: VideoCodec) -> (r: Option<Announcement>)
        ensures
            r == video_announcement(old(self)@, track, codec),
            final(self)@.video == old(self)@.video.insert(track, codec),
            final(self)@.discovered == old(self)@.discovered.insert(track),
            final(self)@.audio == old(self)@.audio,
            final(self)@.closed_video == old(self)@.closed_video,
            final(self)@.closed_audio == old(self)@.closed_audio,
    {
        let audio = audio_of(&self.audio, track);
        let old = self.video.insert(track, codec);
        let known = self.discovered.contains(&track);
        let same = match old {
            Some(c) => c == codec,
            None => false,
        };
        self.discovered.insert(track);
        if known && same {
            None
        } else {
            Some(Announcement { video: Some(codec), audio })
        }
    }

    /// Records a track's audio codec; returns what to announce when the
    /// track is new or its audio codec changed.
    pub fn register_audio(&mut self, track: u32, codec: AudioCodec) -> (r: Option<Announcement>)
        ensures
            r == audio_announcement(old(self)@, track, codec),
            final(self)@.audio == old(self)@.audio.insert(track, codec),
            final(self)@.discovered == old(self)@.discovered.insert(track),
            final(self)@.video == old(self)@.video,
            final(self)@.closed_video == old(self)@.closed_video,
            final(self)@.closed_audio == old(self)@.closed_audio,
    {
        let video = video_of(&self.video, track);
        let old = self.audio.insert(track, codec);
        let known = self.discovered.contains(&track);
        let same = match old {
            Some(c) => c == codec,
            None => false,
        };
        self.discovered.insert(track);
        if known && same {
            None
        } else {
            Some(Announcement { video, audio: Some(codec) })
        }
    }

    /// Marks a track as seen; returns its codecs to announce on its first
    /// sighting, None after.
    pub fn ensure_discovered(&mut self, track: u32) -> (r: Option<Announcement>)
        ensures
            old(self)@.discovered.contains(track) ==> r is None,
            !old(self)@.discovered.contains(track) ==> r == Some(
                Announcement {
                    video: lookup(old(self)@.video, track),
                    audio: lookup(old(self)@.audio, track),
                },
            ),
            final(self)@.discovered == old(self)@.discovered.insert(track),
            final(self)@.video == old(self)@.video,
            final(self)@.audio == old(self)@.audio,
            final(self)@.closed_video == old(self)@.closed_video,
            final(self)@.closed_audio == old(self)@.closed_audio,
    {
        if self.discovered.contains(&track) {
            assert(old(self)@.discovered.insert(track) =~= old(self)@.discovered);
            return None;
        }
        self.discovered.insert(track);
        Some(Announcement { video: video_of(&self.video, track), audio: audio_of(&self.audio, track) })
    }

    /// The last video codec recorded for a track.
    pub fn video_codec(&self, track: u32) -> (r: Option<VideoCodec>)
        ensures
            r == lookup(self@.video, track),
    {
        video_of(&self.video, track)
    }

    /// The last audio codec recorded for a track.
    pub fn audio_codec(&self, track: u32) -> (r: Option<AudioCodec>)
        ensures
            r == lookup(self@.audio, track),
    {
        audio_of(&self.audio, track)
    }

    /// Records that a track's video sequence ended.
    pub fn close_video(&mut self, track: u32)
        ensures
            final(self)@.closed_video == old(self)@.closed_video.insert(track),
            final(self)@.video == old(self)@.video,
            final(self)@.audio == old(self)@.audio,
            final(self)@.discovered == old(self)@.discovered,
            final(self)@.closed_audio == old(self)@.closed_audio,
    {
        self.closed_video.insert(track);
    }

    /// Records that a track's audio sequence ended.
    pub fn close_audio(&mut self, track: u32)
        ensures
            final(self)@.closed_audio == old(self)@.closed_audio.insert(track),
            final(self)@.video == old(self)@.video,
            final(self)@.audio == old(self)@.audio,
            final(self)@.discovered == old(self)@.discovered,
            final(self)@.closed_video == old(self)@.closed_video,
    {
        self.closed_audio.insert(track);
    }

    pub fn video_closed(&self, track: u32) -> (r: bool)
        ensures
            r == self@.closed_video.contains(track),
    {
        self.closed_video.contains(&track)
    }

    pub fn audio_closed(&self, track: u32) -> (r: bool)
        ensures
            r == self@.closed_audio.contains(track),
    {
        self.closed_audio.contains(&track)
    }
}

/// A track is announced when first seen and then only when a codec
/// changes: recording the codec a discovered track already has announces
/// nothing, and every announcement carries the codec just recorded.
pub proof fn lemma_announce_on_change(v: RegistryView, track: u32, codec: VideoCodec)
    ensures
        v.discovered.contains(track) && lookup(v.video, track) == Some(codec)
            ==> video_announcement(v, track, codec) is None,
        !v.discovered.contains(track) ==> video_announcement(v, track, codec) is Some,
        lookup(v.video, track) != Some(codec) ==> video_announcement(v, track, codec) is Some,
        video_announcement(v, track, codec) matches Some(a) ==> a.video == Some(codec),
{
}

} // verus!
