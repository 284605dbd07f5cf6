//! The timeline: tracks in compositing order, the playback clock, and the
//! edits addressed by track and clip id.
use vstd::prelude::*;

use crate::clip::{clashes, Clip, ClipEffect, TimelineError};
use crate::track::{
    add_effect_outcome, add_outcome, clip_index, covering, deref_all, has_clip, lemma_clip_index, lemma_covering,
    move_outcome, remove_effect_outcome, remove_outcome, right_part, same_header, split_outcome, trim_outcome,
    trimmed, moved, Track,
};
use crate::types::TrackType;

verus! {

pub open spec fn max(a: int, b: int) -> int {
    if a >= b { a } else { b }
}

/// The latest end among the clips, 0 where there is none.
pub open spec fn clips_max_end(s: Seq<Clip>) -> int
    decreases s.len(),
{
    if s.len() == 0 {
        0
    } else {
        max(clips_max_end(s.drop_last()), s.last().end())
    }
}

/// The latest end among the clips of all tracks, 0 where there is none.
pub open spec fn tracks_max_end(s: Seq<Track>) -> int
    decreases s.len(),
{
    if s.len() == 0 {
        0
    } else {
        max(tracks_max_end(s.drop_last()), clips_max_end(s.last().clips@))
    }
}

pub open spec fn has_track(s: Seq<Track>, id: u64) -> bool {
    exists|i: int| 0 <= i < s.len() && s[i].id == id
}

/// Where the track with this id stands (meaningful where `has_track`).
pub open spec fn track_index(s: Seq<Track>, id: u64) -> int {
    choose|i: int| 0 <= i < s.len() && s[i].id == id
}

/// Every track is well formed, track ids are distinct, no clip id is used
/// on two tracks, and every id is below `next_id`.
pub open spec fn tracks_wf(s: Seq<Track>, next_id: u64) -> bool {
    &&& forall|i: int| 0 <= i < s.len() ==> (#[trigger] s[i]).wf()
    &&& forall|i: int| 0 <= i < s.len() ==> (#[trigger] s[i]).id < next_id
    &&& forall|i: int, c: int| 0 <= i < s.len() && 0 <= c < s[i].clips@.len() ==> (#[trigger] s[i].clips@[c]).id < next_id
    &&& forall|i: int, j: int| 0 <= i < s.len() && 0 <= j < s.len() && i != j ==> (#[trigger] s[i]).id != (#[trigger] s[j]).id
    &&& forall|i: int, j: int, a: int, b: int|
        0 <= i < s.len() && 0 <= j < s.len() && i != j && 0 <= a < s[i].clips@.len() && 0 <= b < s[j].clips@.len()
            ==> (#[trigger] s[i].clips@[a]).id != (#[trigger] s[j].clips@[b]).id
}

/// Two states with the same clock: position, play state, speed and rate.
pub open spec fn same_clock(a: TimelineView, b: TimelineView) -> bool {
    &&& a.current_time == b.current_time
    &&& a.is_playing == b.is_playing
    &&& a.playback_speed == b.playback_speed
    &&& a.fps == b.fps
}

/// The position `elapsed` nanoseconds of wall time after `current`, at
/// `speed` thousandths of normal speed.
pub open spec fn advanced(current: u64, elapsed: u64, speed: u64) -> int {
    current + elapsed * speed / 1000
}

pub open spec fn unit_of<T>(r: Result<T, TimelineError>) -> Result<(), TimelineError> {
    match r {
        Ok(_) => Ok(()),
        Err(e) => Err(e),
    }
}

/// For each unmuted track of `s`, in order, its id and the clips covering
/// `t`, leaving out tracks with none.
pub open spec fn active_view(s: Seq<Track>, t: int) -> Seq<(u64, Seq<Clip>)>
    decreases s.len(),
{
    if s.len() == 0 {
        Seq::empty()
    } else {
        let p = active_view(s.drop_last(), t);
        let tr = s.last();
        let cs = covering(tr.clips@, t);
        if !tr.is_muted && cs.len() > 0 {
            p.push((tr.id, cs))
        } else {
            p
        }
    }
}

pub open spec fn active_deref(v: Seq<(u64, Vec<&Clip>)>) -> Seq<(u64, Seq<Clip>)> {
    v.map_values(|p: (u64, Vec<&Clip>)| (p.0, deref_all(p.1@)))
}

/// Clips `t` carry, index by index, the ids of clips `s`.
proof fn lemma_same_ids(s: Seq<Clip>, t: Seq<Clip>)
    requires
        t.len() == s.len(),
        forall|x: int| 0 <= x < s.len() ==> (#[trigger] t[x]).id == s[x].id,
    ensures
        forall|x: int| 0 <= x < t.len() ==> has_clip(s, (#[trigger] t[x]).id),
{
    assert forall|x: int| 0 <= x < t.len() implies has_clip(s, (#[trigger] t[x]).id) by {
        assert(0 <= x < s.len() && s[x].id == t[x].id);
    }
}

/// Settings fixed when a timeline is made.
pub struct TimelineConfig {
    /// Frames per second of the output, used to quantize frame times.
    pub fps: u32,
}

impl Default for TimelineConfig {
    fn default() -> (r: TimelineConfig)
        ensures
            r.fps == 30,
    {
        TimelineConfig { fps: 30 }
    }
}

/// What a timeline holds, as plain values.
pub struct TimelineView {
    pub tracks: Seq<Track>,
    pub current_time: u64,
    pub is_playing: bool,
    /// Playback speed in thousandths: 1000 is normal speed.
    pub playback_speed: u64,
    pub next_id: u64,
    pub fps: u32,
}

impl TimelineView {
    pub open spec fn wf(self) -> bool {
        &&& tracks_wf(self.tracks, self.next_id)
        &&& self.playback_speed > 0
    }

    /// The timeline's duration: the latest end of any clip.
    pub open spec fn duration(self) -> int {
        tracks_max_end(self.tracks)
    }
}

/// The edit state: tracks in compositing order (later tracks on top) and
/// the playback clock.
pub struct Timeline {
    config: TimelineConfig,
    tracks: Vec<Track>,
    current_time: u64,
    is_playing: bool,
    playback_speed: u64,
    next_id: u64,
}

impl View for Timeline {
    type V = TimelineView;

    closed spec fn view(&self) -> TimelineView {
        TimelineView {
            tracks: self.tracks@,
            current_time: self.current_time,
            is_playing: self.is_playing,
            playback_speed: self.playback_speed,
            next_id: self.next_id,
            fps: self.config.fps,
        }
    }
}

/// `t` is `s` with the track at `k` replaced by one with the same header.
pub open spec fn replaced_at(s: Seq<Track>, k: int, t: Seq<Track>) -> bool {
    &&& t.len() == s.len()
    &&& same_header(t[k], s[k])
    &&& forall|j: int| 0 <= j < s.len() && j != k ==> t[j] == s[j]
}

proof fn lemma_clips_max_end_bound(s: Seq<Clip>)
    requires
        forall|i: int| 0 <= i < s.len() ==> (#[trigger] s[i]).wf(),
    ensures
        0 <= clips_max_end(s) <= u64::MAX,
    decreases s.len(),
{
    if s.len() > 0 {
        let p = s.drop_last();
        assert forall|i: int| 0 <= i < p.len() implies (#[trigger] p[i]).wf() by {
            assert(p[i] == s[i]);
        }
        lemma_clips_max_end_bound(p);
        assert(s[s.len() - 1].wf());
    }
}

proof fn lemma_tracks_max_end_bound(s: Seq<Track>)
    requires
        forall|i: int| 0 <= i < s.len() ==> (#[trigger] s[i]).wf(),
    ensures
        0 <= tracks_max_end(s) <= u64::MAX,
    decreases s.len(),
{
    if s.len() > 0 {
        let p = s.drop_last();
        assert forall|i: int| 0 <= i < p.len() implies (#[trigger] p[i]).wf() by {
            assert(p[i] == s[i]);
        }
        lemma_tracks_max_end_bound(p);
        assert(s[s.len() - 1].wf());
        lemma_clips_max_end_bound(s.last().clips@);
    }
}

proof fn lemma_track_index(s: Seq<Track>, n: u64, i: int)
    requires
        tracks_wf(s, n),
        0 <= i < s.len(),
    ensures
        has_track(s, s[i].id),
        track_index(s, s[i].id) == i,
{
    let id = s[i].id;
    assert(0 <= i < s.len() && s[i].id == id);
    let k = track_index(s, id);
    if k != i {
        assert(s[k].id != s[i].id);
    }
}

/// Replacing the track at `k` by a well-formed one with the same header,
/// whose clip ids are old ids of that track or lie in `[n0, n)`, keeps the
/// tracks well formed below `n`.
proof fn lemma_replace_track(s: Seq<Track>, n0: u64, k: int, nt: Track, n: u64)
    requires
        tracks_wf(s, n0),
        0 <= k < s.len(),
        nt.wf(),
        nt.id == s[k].id,
        n0 <= n,
        forall|c: int| 0 <= c < nt.clips@.len() ==> has_clip(s[k].clips@, (#[trigger] nt.clips@[c]).id) || n0 <= nt.clips@[c].id < n,
    ensures
        tracks_wf(s.update(k, nt), n),
{
    let t = s.update(k, nt);
    assert forall|i: int, c: int| 0 <= i < t.len() && 0 <= c < t[i].clips@.len() implies (#[trigger] t[i].clips@[c]).id < n by {
        if i == k {
            let id = nt.clips@[c].id;
            if has_clip(s[k].clips@, id) {
                let w = choose|w: int| 0 <= w < s[k].clips@.len() && s[k].clips@[w].id == id;
                assert(s[k].clips@[w].id < n0);
            }
        } else {
            assert(s[i].clips@[c].id < n0);
        }
    }
    assert forall|i: int, j: int, a: int, b: int|
        0 <= i < t.len() && 0 <= j < t.len() && i != j && 0 <= a < t[i].clips@.len() && 0 <= b < t[j].clips@.len()
        implies (#[trigger] t[i].clips@[a]).id != (#[trigger] t[j].clips@[b]).id by {
        if i == k {
            let id = nt.clips@[a].id;
            assert(t[j].clips@[b] == s[j].clips@[b]);
            assert(s[j].clips@[b].id < n0);
            if has_clip(s[k].clips@, id) {
                let w = choose|w: int| 0 <= w < s[k].clips@.len() && s[k].clips@[w].id == id;
                assert(s[k].clips@[w].id != s[j].clips@[b].id);
            }
        } else if j == k {
            let id = nt.clips@[b].id;
            assert(t[i].clips@[a] == s[i].clips@[a]);
            assert(s[i].clips@[a].id < n0);
            if has_clip(s[k].clips@, id) {
                let w = choose|w: int| 0 <= w < s[k].clips@.len() && s[k].clips@[w].id == id;
                assert(s[k].clips@[w].id != s[i].clips@[a].id);
            }
        } else {
            assert(t[i] == s[i] && t[j] == s[j]);
        }
    }
    assert forall|i: int| 0 <= i < t.len() implies (#[trigger] t[i]).id < n by {
        if i != k {
            assert(s[i].id < n0);
        } else {
            assert(s[k].id < n0);
        }
    }
    assert forall|i: int, j: int| 0 <= i < t.len() && 0 <= j < t.len() && i != j implies (#[trigger] t[i]).id != (#[trigger] t[j]).id by {
        assert(s[i].id != s[j].id);
    }
}

impl Timeline {
    pub open spec fn wf(&self) -> bool {
        self@.wf()
    }

    /// An empty, paused timeline at time 0 and normal speed.
    pub fn new(config: TimelineConfig) -> (r: Timeline)
        ensures
            r.wf(),
            r@.tracks.len() == 0,
            r@.current_time == 0,
            !r@.is_playing,
            r@.playback_speed == 1000,
            r@.next_id == 0,
            r@.fps == config.fps,
    {
        Timeline { config, tracks: Vec::new(), current_time: 0, is_playing: false, playback_speed: 1000, next_id: 0 }
    }

    fn find_track(&self, track_id: u64) -> (r: Option<usize>)
        ensures
            match r {
                Some(i) => i < self@.tracks.len() && self@.tracks[i as int].id == track_id,
                None => !has_track(self@.tracks, track_id),
            },
    {
        let mut i: usize = 0;
        while i < self.tracks.len()
            invariant
                i <= self.tracks@.len(),
                self@.tracks == self.tracks@,
                forall|j: int| 0 <= j < i ==> self.tracks@[j].id != track_id,
            decreases self.tracks@.len() - i,
        {
            if self.tracks[i].id == track_id {
                return Some(i);
            }
            i = i + 1;
        }
        None
    }

    /// Adds an empty, unmuted track on top of the others and returns its id.
    pub fn add_track(&mut self, name: String, track_type: TrackType) -> (r: Result<u64, TimelineError>)
        requires
            old(self).wf(),
        ensures
            final(self).wf(),
            final(self)@.current_time == old(self)@.current_time,
            final(self)@.is_playing == old(self)@.is_playing,
            final(self)@.playback_speed == old(self)@.playback_speed,
            final(self)@.fps == old(self)@.fps,
            old(self)@.next_id == u64::MAX ==> r == Err::<u64, TimelineError>(TimelineError::OperationError)
                && final(self)@ == old(self)@,
            old(self)@.next_id < u64::MAX ==> {
                let t = final(self)@.tracks.last();
                &&& r == Ok::<u64, TimelineError>(old(self)@.next_id)
                &&& final(self)@.next_id == old(self)@.next_id + 1
                &&& final(self)@.tracks.drop_last() == old(self)@.tracks
                &&& final(self)@.tracks.len() == old(self)@.tracks.len() + 1
                &&& t.id == old(self)@.next_id && t.name == name && t.track_type == track_type
                &&& t.clips@.len() == 0 && !t.is_muted && !t.is_locked
            },
    {
        if self.next_id == u64::MAX {
            return Err(TimelineError::OperationError);
        }
        let id = self.next_id;
        let ghost s = self.tracks@;
        self.tracks.push(Track::new(id, name, track_type));
        self.next_id = id + 1;
        proof {
            let t = self.tracks@;
            assert(t.drop_last() =~= s);
            assert forall|i: int, j: int, a: int, b: int|
                0 <= i < t.len() && 0 <= j < t.len() && i != j && 0 <= a < t[i].clips@.len() && 0 <= b < t[j].clips@.len()
                implies (#[trigger] t[i].clips@[a]).id != (#[trigger] t[j].clips@[b]).id by {
                assert(t[i] == s[i] && t[j] == s[j]);
            }
            assert forall|i: int, c: int| 0 <= i < t.len() && 0 <= c < t[i].clips@.len() implies (#[trigger] t[i].clips@[c]).id < self.next_id by {
                assert(t[i] == s[i]);
            }
            assert forall|i: int, j: int| 0 <= i < t.len() && 0 <= j < t.len() && i != j implies (#[trigger] t[i]).id != (#[trigger] t[j]).id by {
                if i < s.len() { assert(s[i].id < id); }
                if j < s.len() { assert(s[j].id < id); }
            }
        }
        Ok(id)
    }

    /// Takes the track with this id off the timeline.
    pub fn remove_track(&mut self, track_id: u64) -> (r: Result<Track, TimelineError>)
        requires
            old(self).wf(),
        ensures
            final(self).wf(),
            same_clock(final(self)@, old(self)@),
            final(self)@.next_id == old(self)@.next_id,
            !has_track(old(self)@.tracks, track_id) ==> r == Err::<Track, TimelineError>(TimelineError::InvalidTrack(track_id))
                && final(self)@ == old(self)@,
            has_track(old(self)@.tracks, track_id) ==> {
                let k = track_index(old(self)@.tracks, track_id);
                r == Ok::<Track, TimelineError>(old(self)@.tracks[k]) && final(self)@.tracks == old(self)@.tracks.remove(k)
            },
    {
        match self.find_track(track_id) {
            None => Err(TimelineError::InvalidTrack(track_id)),
            Some(k) => {
                proof { lemma_track_index(self.tracks@, self.next_id, k as int); }
                let ghost s = self.tracks@;
                let t = self.tracks.remove(k);
                proof {
                    let u = self.tracks@;
                    assert forall|a: int| 0 <= a < u.len() implies #[trigger] u[a] == s[if a < k { a } else { a + 1 }] by {}
                    assert forall|a: int, b: int, x: int, y: int|
                        0 <= a < u.len() && 0 <= b < u.len() && a != b && 0 <= x < u[a].clips@.len() && 0 <= y < u[b].clips@.len()
                        implies (#[trigger] u[a].clips@[x]).id != (#[trigger] u[b].clips@[y]).id by {
                        let a2 = if a < k { a } else { a + 1 };
                        let b2 = if b < k { b } else { b + 1 };
                        assert(u[a] == s[a2] && u[b] == s[b2]);
                    }
                    assert forall|a: int, x: int| 0 <= a < u.len() && 0 <= x < u[a].clips@.len() implies (#[trigger] u[a].clips@[x]).id < self.next_id by {
                        let a2 = if a < k { a } else { a + 1 };
                        assert(u[a] == s[a2]);
                    }
                    assert forall|a: int, b: int| 0 <= a < u.len() && 0 <= b < u.len() && a != b implies (#[trigger] u[a]).id != (#[trigger] u[b]).id by {
                        let a2 = if a < k { a } else { a + 1 };
                        let b2 = if b < k { b } else { b + 1 };
                        assert(u[a] == s[a2] && u[b] == s[b2]);
                    }
                }
                Ok(t)
            },
        }
    }

    pub fn get_track(&self, track_id: u64) -> (r: Result<&Track, TimelineError>)
        requires
            self.wf(),
        ensures
            !has_track(self@.tracks, track_id) ==> r == Err::<&Track, TimelineError>(TimelineError::InvalidTrack(track_id)),
            has_track(self@.tracks, track_id) ==> r is Ok && *r.unwrap() == self@.tracks[track_index(self@.tracks, track_id)],
    {
        match self.find_track(track_id) {
            None => Err(TimelineError::InvalidTrack(track_id)),
            Some(k) => {
                proof { lemma_track_index(self.tracks@, self.next_id, k as int); }
                Ok(&self.tracks[k])
            },
        }
    }

    /// The tracks, lowest first.
    pub fn tracks(&self) -> (r: &Vec<Track>)
        ensures
            r@ == self@.tracks,
    {
        &self.tracks
    }

    pub fn current_time(&self) -> (r: u64)
        ensures
            r == self@.current_time,
    {
        self.current_time
    }

    pub fn is_playing(&self) -> (r: bool)
        ensures
            r == self@.is_playing,
    {
        self.is_playing
    }

    pub fn playback_speed(&self) -> (r: u64)
        ensures
            r == self@.playback_speed,
    {
        self.playback_speed
    }

    pub fn fps(&self) -> (r: u32)
        ensures
            r == self@.fps,
    {
        self.config.fps
    }

    /// The timeline's duration: the latest end of any clip, 0 when empty.
    pub fn duration(&self) -> (r: u64)
        requires
            self.wf(),
        ensures
            r == self@.duration(),
    {
        let mut m: u64 = 0;
        let mut i: usize = 0;
        while i < self.tracks.len()
            invariant
                self.wf(),
                self@.tracks == self.tracks@,
                i <= self.tracks@.len(),
                m == tracks_max_end(self.tracks@.subrange(0, i as int)),
            decreases self.tracks@.len() - i,
        {
            let t = &self.tracks[i];
            assert(t.wf());
            let mut cm: u64 = 0;
            let mut j: usize = 0;
            while j < t.clips.len()
                invariant
                    t.wf(),
                    j <= t.clips@.len(),
                    cm == clips_max_end(t.clips@.subrange(0, j as int)),
                decreases t.clips@.len() - j,
            {
                assert(t.clips@[j as int].wf());
                let e = t.clips[j].end_time();
                proof {
                    assert(t.clips@.subrange(0, j + 1).drop_last() =~= t.clips@.subrange(0, j as int));
                }
                if e > cm {
                    cm = e;
                }
                j = j + 1;
            }
            proof {
                assert(t.clips@.subrange(0, t.clips@.len() as int) =~= t.clips@);
                assert(self.tracks@.subrange(0, i + 1).drop_last() =~= self.tracks@.subrange(0, i as int));
            }
            if cm > m {
                m = cm;
            }
            i = i + 1;
        }
        proof {
            assert(self.tracks@.subrange(0, self.tracks@.len() as int) =~= self.tracks@);
        }
        m
    }

    /// Moves the play position to `time`, which must lie in `[0, duration]`.
    pub fn seek(&mut self, time: u64) -> (r: Result<(), TimelineError>)
        requires
            old(self).wf(),
        ensures
            final(self).wf(),
            time > old(self)@.duration() ==> r == Err::<(), TimelineError>(TimelineError::InvalidTime(time)) && final(self)@ == old(self)@,
            time <= old(self)@.duration() ==> r is Ok && final(self)@ == (TimelineView { current_time: time, ..old(self)@ }),
    {
        if time > self.duration() {
            return Err(TimelineError::InvalidTime(time));
        }
        self.current_time = time;
        Ok(())
    }

    pub fn play(&mut self)
        requires
            old(self).wf(),
        ensures
            final(self).wf(),
            final(self)@ == (TimelineView { is_playing: true, ..old(self)@ }),
    {
        self.is_playing = true;
    }

    pub fn pause(&mut self)
        requires
            old(self).wf(),
        ensures
            final(self).wf(),
            final(self)@ == (TimelineView { is_playing: false, ..old(self)@ }),
    {
        self.is_playing = false;
    }

    /// Sets the speed in thousandths (1000 is normal speed); it must be positive.
    pub fn set_playback_speed(&mut self, speed: u64) -> (r: Result<(), TimelineError>)
        requires
            old(self).wf(),
        ensures
            final(self).wf(),
            speed == 0 ==> r == Err::<(), TimelineError>(TimelineError::OperationError) && final(self)@ == old(self)@,
            speed > 0 ==> r is Ok && final(self)@ == (TimelineView { playback_speed: speed, ..old(self)@ }),
    {
        if speed == 0 {
            return Err(TimelineError::OperationError);
        }
        self.playback_speed = speed;
        Ok(())
    }

    /// Advances the clock by `elapsed` nanoseconds of wall time, scaled by
    /// the speed; on reaching the duration it stops there and pauses.
    /// Returns the new position.
    pub fn update(&mut self, elapsed: u64) -> (r: u64)
        requires
            old(self).wf(),
        ensures
            final(self).wf(),
            r == final(self)@.current_time,
            !old(self)@.is_playing ==> final(self)@ == old(self)@,
            old(self)@.is_playing ==> {
                let target = advanced(old(self)@.current_time, elapsed, old(self)@.playback_speed);
                if target >= old(self)@.duration() {
                    final(self)@ == (TimelineView { current_time: old(self)@.duration() as u64, is_playing: false, ..old(self)@ })
                } else {
                    final(self)@ == (TimelineView { current_time: target as u64, ..old(self)@ })
                }
            },
    {
        if self.is_playing {
            let d = self.duration();
            proof {
                assert((elapsed as u128) * (self.playback_speed as u128) <= u64::MAX * u64::MAX) by (nonlinear_arith)
                    requires elapsed <= u64::MAX, self.playback_speed <= u64::MAX;
            }
            let advance: u128 = (elapsed as u128) * (self.playback_speed as u128) / 1000;
            let target: u128 = self.current_time as u128 + advance;
            if target >= d as u128 {
                self.current_time = d;
                self.is_playing = false;
            } else {
                self.current_time = target as u64;
            }
        }
        self.current_time
    }

    /// Mutes or unmutes a track.
    pub fn set_track_muted(&mut self, track_id: u64, muted: bool) -> (r: Result<(), TimelineError>)
        requires
            old(self).wf(),
        ensures
            final(self).wf(),
            same_clock(final(self)@, old(self)@),
            final(self)@.next_id == old(self)@.next_id,
            !has_track(old(self)@.tracks, track_id) ==> r == Err::<(), TimelineError>(TimelineError::InvalidTrack(track_id))
                && final(self)@ == old(self)@,
            has_track(old(self)@.tracks, track_id) ==> {
                let k = track_index(old(self)@.tracks, track_id);
                let t = final(self)@.tracks[k];
                let o = old(self)@.tracks[k];
                &&& r is Ok
                &&& final(self)@.tracks.len() == old(self)@.tracks.len()
                &&& forall|j: int| 0 <= j < old(self)@.tracks.len() && j != k ==> final(self)@.tracks[j] == old(self)@.tracks[j]
                &&& t == (Track { is_muted: muted, ..o })
            },
    {
        let k = match self.find_track(track_id) {
            None => return Err(TimelineError::InvalidTrack(track_id)),
            Some(k) => k,
        };
        proof { lemma_track_index(self.tracks@, self.next_id, k as int); }
        let ghost s = self.tracks@;
        let mut t = self.tracks.remove(k);
        t.is_muted = muted;
        self.tracks.insert(k, t);
        proof {
            let u = self.tracks@;
            assert(u =~= s.update(k as int, u[k as int]));
            assert forall|c: int| 0 <= c < u[k as int].clips@.len() implies has_clip(s[k as int].clips@, (#[trigger] u[k as int].clips@[c]).id) by {
                assert(u[k as int].clips@[c] == s[k as int].clips@[c]);
            }
            lemma_replace_track(s, self.next_id, k as int, u[k as int], self.next_id);
        }
        Ok(())
    }


    /// Puts `clip` on the track under a fresh id, which it returns.
    pub fn add_clip_to_track(&mut self, track_id: u64, clip: Clip) -> (r: Result<u64, TimelineError>)
        requires
            old(self).wf(),
            clip.wf(),
        ensures
            final(self).wf(),
            same_clock(final(self)@, old(self)@),
            !has_track(old(self)@.tracks, track_id) ==> r == Err::<u64, TimelineError>(TimelineError::InvalidTrack(track_id))
                && final(self)@ == old(self)@,
            has_track(old(self)@.tracks, track_id) && old(self)@.next_id == u64::MAX
                ==> r == Err::<u64, TimelineError>(TimelineError::OperationError) && final(self)@ == old(self)@,
            has_track(old(self)@.tracks, track_id) && old(self)@.next_id < u64::MAX ==> {
                let k = track_index(old(self)@.tracks, track_id);
                &&& replaced_at(old(self)@.tracks, k, final(self)@.tracks)
                &&& add_outcome(old(self)@.tracks[k].clips@, Clip { id: old(self)@.next_id, ..clip }, unit_of(r), final(self)@.tracks[k].clips@)
                &&& r is Ok ==> r == Ok::<u64, TimelineError>(old(self)@.next_id) && final(self)@.next_id == old(self)@.next_id + 1
                &&& r is Err ==> final(self)@.next_id == old(self)@.next_id
            },
    {
        let k = match self.find_track(track_id) {
            None => return Err(TimelineError::InvalidTrack(track_id)),
            Some(k) => k,
        };
        if self.next_id == u64::MAX {
            return Err(TimelineError::OperationError);
        }
        proof { lemma_track_index(self.tracks@, self.next_id, k as int); }
        let ghost s = self.tracks@;
        let id = self.next_id;
        let c = Clip { id, ..clip };
        let mut t = self.tracks.remove(k);
        let res = t.add_clip(c);
        self.tracks.insert(k, t);
        proof {
            let u = self.tracks@;
            assert(u =~= s.update(k as int, u[k as int]));
            let old_clips = s[k as int].clips@;
            let nt = u[k as int];
            assert(!has_clip(old_clips, id)) by {
                if has_clip(old_clips, id) {
                    let w = choose|w: int| 0 <= w < old_clips.len() && old_clips[w].id == id;
                    assert(s[k as int].clips@[w].id < id);
                }
            }
            assert forall|x: int| 0 <= x < nt.clips@.len() implies has_clip(old_clips, (#[trigger] nt.clips@[x]).id) || id <= nt.clips@[x].id < id + 1 by {
                if x < old_clips.len() {
                    assert(nt.clips@[x] == old_clips[x]);
                    assert(0 <= x < old_clips.len() && old_clips[x].id == nt.clips@[x].id);
                }
            }
            lemma_replace_track(s, id, k as int, nt, (id + 1) as u64);
        }
        match res {
            Ok(()) => {
                self.next_id = id + 1;
                Ok(id)
            },
            Err(e) => Err(e),
        }
    }

    /// Takes a clip off a track.
    pub fn remove_clip_from_track(&mut self, track_id: u64, clip_id: u64) -> (r: Result<Clip, TimelineError>)
        requires
            old(self).wf(),
        ensures
            final(self).wf(),
            same_clock(final(self)@, old(self)@),
            final(self)@.next_id == old(self)@.next_id,
            !has_track(old(self)@.tracks, track_id) ==> r == Err::<Clip, TimelineError>(TimelineError::InvalidTrack(track_id))
                && final(self)@ == old(self)@,
            has_track(old(self)@.tracks, track_id) ==> {
                let k = track_index(old(self)@.tracks, track_id);
                &&& replaced_at(old(self)@.tracks, k, final(self)@.tracks)
                &&& remove_outcome(old(self)@.tracks[k].clips@, clip_id, r, final(self)@.tracks[k].clips@)
            },
    {
        let k = match self.find_track(track_id) {
            None => return Err(TimelineError::InvalidTrack(track_id)),
            Some(k) => k,
        };
        proof { lemma_track_index(self.tracks@, self.next_id, k as int); }
        let ghost s = self.tracks@;
        let mut t = self.tracks.remove(k);
        let res = t.remove_clip(clip_id);
        self.tracks.insert(k, t);
        proof {
            let u = self.tracks@;
            assert(u =~= s.update(k as int, u[k as int]));
            let old_clips = s[k as int].clips@;
            let nt = u[k as int];
            assert forall|x: int| 0 <= x < nt.clips@.len() implies has_clip(old_clips, (#[trigger] nt.clips@[x]).id) || self.next_id <= nt.clips@[x].id < self.next_id by {
                if has_clip(old_clips, clip_id) {
                    let i = clip_index(old_clips, clip_id);
                    let x2 = if x < i { x } else { x + 1 };
                    assert(nt.clips@[x] == old_clips[x2]);
                    assert(0 <= x2 < old_clips.len() && old_clips[x2].id == nt.clips@[x].id);
                } else {
                    assert(nt.clips@[x] == old_clips[x]);
                    assert(0 <= x < old_clips.len() && old_clips[x].id == nt.clips@[x].id);
                }
            }
            lemma_replace_track(s, self.next_id, k as int, nt, self.next_id);
        }
        res
    }

    /// Moves a clip to start at `new_start`; see `Track::move_clip`.
    pub fn move_clip(&mut self, track_id: u64, clip_id: u64, new_start: u64) -> (r: Result<(), TimelineError>)
        requires
            old(self).wf(),
        ensures
            final(self).wf(),
            same_clock(final(self)@, old(self)@),
            final(self)@.next_id == old(self)@.next_id,
            !has_track(old(self)@.tracks, track_id) ==> r == Err::<(), TimelineError>(TimelineError::InvalidTrack(track_id))
                && final(self)@ == old(self)@,
            has_track(old(self)@.tracks, track_id) ==> {
                let k = track_index(old(self)@.tracks, track_id);
                &&& replaced_at(old(self)@.tracks, k, final(self)@.tracks)
                &&& move_outcome(old(self)@.tracks[k].clips@, clip_id, new_start, r, final(self)@.tracks[k].clips@)
            },
    {
        let k = match self.find_track(track_id) {
            None => return Err(TimelineError::InvalidTrack(track_id)),
            Some(k) => k,
        };
        proof { lemma_track_index(self.tracks@, self.next_id, k as int); }
        let ghost s = self.tracks@;
        let mut t = self.tracks.remove(k);
        let res = t.move_clip(clip_id, new_start);
        self.tracks.insert(k, t);
        proof {
            let u = self.tracks@;
            assert(u =~= s.update(k as int, u[k as int]));
            lemma_same_ids(s[k as int].clips@, u[k as int].clips@);
            lemma_replace_track(s, self.next_id, k as int, u[k as int], self.next_id);
        }
        res
    }

    /// Gives a clip a new duration; see `Track::trim_clip`.
    pub fn trim_clip(&mut self, track_id: u64, clip_id: u64, new_duration: u64) -> (r: Result<(), TimelineError>)
        requires
            old(self).wf(),
        ensures
            final(self).wf(),
            same_clock(final(self)@, old(self)@),
            final(self)@.next_id == old(self)@.next_id,
            !has_track(old(self)@.tracks, track_id) ==> r == Err::<(), TimelineError>(TimelineError::InvalidTrack(track_id))
                && final(self)@ == old(self)@,
            has_track(old(self)@.tracks, track_id) ==> {
                let k = track_index(old(self)@.tracks, track_id);
                &&& replaced_at(old(self)@.tracks, k, final(self)@.tracks)
                &&& trim_outcome(old(self)@.tracks[k].clips@, clip_id, new_duration, r, final(self)@.tracks[k].clips@)
            },
    {
        let k = match self.find_track(track_id) {
            None => return Err(TimelineError::InvalidTrack(track_id)),
            Some(k) => k,
        };
        proof { lemma_track_index(self.tracks@, self.next_id, k as int); }
        let ghost s = self.tracks@;
        let mut t = self.tracks.remove(k);
        let res = t.trim_clip(clip_id, new_duration);
        self.tracks.insert(k, t);
        proof {
            let u = self.tracks@;
            assert(u =~= s.update(k as int, u[k as int]));
            lemma_same_ids(s[k as int].clips@, u[k as int].clips@);
            lemma_replace_track(s, self.next_id, k as int, u[k as int], self.next_id);
        }
        res
    }

    /// Cuts a clip at `position`; the right part becomes a new clip whose
    /// id is returned. See `Track::split_clip`.
    pub fn split_clip(&mut self, track_id: u64, clip_id: u64, position: u64) -> (r: Result<u64, TimelineError>)
        requires
            old(self).wf(),
        ensures
            final(self).wf(),
            same_clock(final(self)@, old(self)@),
            !has_track(old(self)@.tracks, track_id) ==> r == Err::<u64, TimelineError>(TimelineError::InvalidTrack(track_id))
                && final(self)@ == old(self)@,
            has_track(old(self)@.tracks, track_id) && old(self)@.next_id == u64::MAX
                ==> r == Err::<u64, TimelineError>(TimelineError::OperationError) && final(self)@ == old(self)@,
            has_track(old(self)@.tracks, track_id) && old(self)@.next_id < u64::MAX ==> {
                let k = track_index(old(self)@.tracks, track_id);
                &&& replaced_at(old(self)@.tracks, k, final(self)@.tracks)
                &&& split_outcome(old(self)@.tracks[k].clips@, clip_id, position, old(self)@.next_id, unit_of(r), final(self)@.tracks[k].clips@)
                &&& r is Ok ==> r == Ok::<u64, TimelineError>(old(self)@.next_id) && final(self)@.next_id == old(self)@.next_id + 1
                &&& r is Err ==> final(self)@.next_id == old(self)@.next_id
            },
    {
        let k = match self.find_track(track_id) {
            None => return Err(TimelineError::InvalidTrack(track_id)),
            Some(k) => k,
        };
        if self.next_id == u64::MAX {
            return Err(TimelineError::OperationError);
        }
        proof { lemma_track_index(self.tracks@, self.next_id, k as int); }
        let ghost s = self.tracks@;
        let id = self.next_id;
        let mut t = self.tracks.remove(k);
        let res = t.split_clip(clip_id, position, id);
        self.tracks.insert(k, t);
        proof {
            let u = self.tracks@;
            assert(u =~= s.update(k as int, u[k as int]));
            let old_clips = s[k as int].clips@;
            let nt = u[k as int];
            assert forall|x: int| 0 <= x < nt.clips@.len() implies has_clip(old_clips, (#[trigger] nt.clips@[x]).id) || id <= nt.clips@[x].id < id + 1 by {
                if x < old_clips.len() {
                    if res is Ok {
                        assert(nt.clips@.drop_last()[x] == nt.clips@[x]);
                    }
                    assert(0 <= x < old_clips.len() && old_clips[x].id == nt.clips@[x].id);
                }
            }
            lemma_replace_track(s, id, k as int, nt, (id + 1) as u64);
        }
        match res {
            Ok(()) => {
                self.next_id = id + 1;
                Ok(id)
            },
            Err(e) => Err(e),
        }
    }

    /// Attaches a new effect to a clip and returns the effect's id.
    pub fn add_effect(&mut self, track_id: u64, clip_id: u64, kind: String, parameters: Vec<(String, String)>) -> (r: Result<u64, TimelineError>)
        requires
            old(self).wf(),
        ensures
            final(self).wf(),
            same_clock(final(self)@, old(self)@),
            !has_track(old(self)@.tracks, track_id) ==> r == Err::<u64, TimelineError>(TimelineError::InvalidTrack(track_id))
                && final(self)@ == old(self)@,
            has_track(old(self)@.tracks, track_id) && old(self)@.next_id == u64::MAX
                ==> r == Err::<u64, TimelineError>(TimelineError::OperationError) && final(self)@ == old(self)@,
            has_track(old(self)@.tracks, track_id) && old(self)@.next_id < u64::MAX ==> {
                let k = track_index(old(self)@.tracks, track_id);
                &&& replaced_at(old(self)@.tracks, k, final(self)@.tracks)
                &&& add_effect_outcome(old(self)@.tracks[k].clips@, clip_id,
                    ClipEffect { id: old(self)@.next_id, kind, parameters }, unit_of(r), final(self)@.tracks[k].clips@)
                &&& r is Ok ==> r == Ok::<u64, TimelineError>(old(self)@.next_id) && final(self)@.next_id == old(self)@.next_id + 1
                &&& r is Err ==> final(self)@.next_id == old(self)@.next_id
            },
    {
        let k = match self.find_track(track_id) {
            None => return Err(TimelineError::InvalidTrack(track_id)),
            Some(k) => k,
        };
        if self.next_id == u64::MAX {
            return Err(TimelineError::OperationError);
        }
        proof { lemma_track_index(self.tracks@, self.next_id, k as int); }
        let ghost s = self.tracks@;
        let id = self.next_id;
        let mut t = self.tracks.remove(k);
        let res = t.add_effect(clip_id, ClipEffect { id, kind, parameters });
        self.tracks.insert(k, t);
        proof {
            let u = self.tracks@;
            assert(u =~= s.update(k as int, u[k as int]));
            lemma_same_ids(s[k as int].clips@, u[k as int].clips@);
            lemma_replace_track(s, id, k as int, u[k as int], (id + 1) as u64);
        }
        match res {
            Ok(()) => {
                self.next_id = id + 1;
                Ok(id)
            },
            Err(e) => Err(e),
        }
    }

    /// Detaches an effect from a clip and returns it.
    pub fn remove_effect(&mut self, track_id: u64, clip_id: u64, effect_id: u64) -> (r: Result<ClipEffect, TimelineError>)
        requires
            old(self).wf(),
        ensures
            final(self).wf(),
            same_clock(final(self)@, old(self)@),
            final(self)@.next_id == old(self)@.next_id,
            !has_track(old(self)@.tracks, track_id) ==> r == Err::<ClipEffect, TimelineError>(TimelineError::InvalidTrack(track_id))
                && final(self)@ == old(self)@,
            has_track(old(self)@.tracks, track_id) ==> {
                let k = track_index(old(self)@.tracks, track_id);
                &&& replaced_at(old(self)@.tracks, k, final(self)@.tracks)
                &&& remove_effect_outcome(old(self)@.tracks[k].clips@, clip_id, effect_id, r, final(self)@.tracks[k].clips@)
            },
    {
        let k = match self.find_track(track_id) {
            None => return Err(TimelineError::InvalidTrack(track_id)),
            Some(k) => k,
        };
        proof { lemma_track_index(self.tracks@, self.next_id, k as int); }
        let ghost s = self.tracks@;
        let mut t = self.tracks.remove(k);
        let res = t.remove_effect(clip_id, effect_id);
        self.tracks.insert(k, t);
        proof {
            let u = self.tracks@;
            assert(u =~= s.update(k as int, u[k as int]));
            lemma_same_ids(s[k as int].clips@, u[k as int].clips@);
            lemma_replace_track(s, self.next_id, k as int, u[k as int], self.next_id);
        }
        res
    }

    /// Where the clip lies on the timeline: `Some((start, end))`, or `None`
    /// when the track or the clip on it is unknown.
    pub fn clip_span(&self, track_id: u64, clip_id: u64) -> (r: Option<(u64, u64)>)
        requires
            self.wf(),
        ensures
            !has_track(self@.tracks, track_id) ==> r is None,
            has_track(self@.tracks, track_id) ==> {
                let s = self@.tracks[track_index(self@.tracks, track_id)].clips@;
                &&& !has_clip(s, clip_id) ==> r is None
                &&& has_clip(s, clip_id) ==> r == Some((s[clip_index(s, clip_id)].start_time, s[clip_index(s, clip_id)].end() as u64))
            },
    {
        let k = match self.find_track(track_id) {
            None => return None,
            Some(k) => k,
        };
        proof { lemma_track_index(self.tracks@, self.next_id, k as int); }
        let t = &self.tracks[k];
        assert(t.wf());
        match t.find_clip(clip_id) {
            None => None,
            Some(i) => {
                proof { lemma_clip_index(t.clips@, i as int); }
                assert(t.clips@[i as int].wf());
                Some((t.clips[i].start_time, t.clips[i].end_time()))
            },
        }
    }

    /// For each unmuted track, lowest first, the clips covering `time`,
    /// leaving out tracks with none.
    pub fn active_clips(&self, time: u64) -> (r: Vec<(u64, Vec<&Clip>)>)
        requires
            self.wf(),
        ensures
            active_deref(r@) == active_view(self@.tracks, time as int),
    {
        let mut r: Vec<(u64, Vec<&Clip>)> = Vec::new();
        let mut i: usize = 0;
        while i < self.tracks.len()
            invariant
                self.wf(),
                self@.tracks == self.tracks@,
                i <= self.tracks@.len(),
                active_deref(r@) == active_view(self.tracks@.subrange(0, i as int), time as int),
            decreases self.tracks@.len() - i,
        {
            let t = &self.tracks[i];
            assert(t.wf());
            proof {
                assert(self.tracks@.subrange(0, i + 1).drop_last() =~= self.tracks@.subrange(0, i as int));
            }
            if !t.is_muted {
                let clips = t.clips_at_time(time);
                if clips.len() > 0 {
                    let ghost r0 = r@;
                    r.push((t.id, clips));
                    proof {
                        assert(active_deref(r@) =~= active_deref(r0).push((t.id, covering(t.clips@, time as int))));
                    }
                }
            }
            i = i + 1;
        }
        proof {
            assert(self.tracks@.subrange(0, self.tracks@.len() as int) =~= self.tracks@);
        }
        r
    }

}

/// The timeline made with the default settings.
pub fn create_default_timeline() -> (r: Timeline)
    ensures
        r.wf(),
        r@.tracks.len() == 0,
        r@.current_time == 0,
        !r@.is_playing,
        r@.playback_speed == 1000,
        r@.next_id == 0,
        r@.fps == 30,
{
    Timeline::new(TimelineConfig::default())
}

/// On a well-formed timeline, which every operation keeps, two distinct
/// clips of one type on one track have disjoint intervals.
pub proof fn law_no_overlap(tl: TimelineView, k: int, a: int, b: int)
    requires
        tl.wf(),
        0 <= k < tl.tracks.len(),
        0 <= a < tl.tracks[k].clips@.len(),
        0 <= b < tl.tracks[k].clips@.len(),
        a != b,
        tl.tracks[k].clips@[a].clip_type == tl.tracks[k].clips@[b].clip_type,
    ensures
        ({
            let c1 = tl.tracks[k].clips@[a];
            let c2 = tl.tracks[k].clips@[b];
            c1.end() <= c2.start_time || c2.end() <= c1.start_time
        }),
{
    let s = tl.tracks[k].clips@;
    assert(tl.tracks[k].wf());
    assert(!clashes(s[a], s[b]));
}

/// Splitting `c` at `position` gives a left part `[start, position)` and a
/// right part `[position, end)` that partition the clip: their durations
/// add up to the clip's, and the right part shows the source from where
/// the left part stops.
pub proof fn law_split_partitions(c: Clip, r: Clip, new_id: u64, position: u64)
    requires
        c.wf(),
        c.start_time < position < c.end(),
        right_part(r, c, new_id, position),
    ensures
        ({
            let l = trimmed(c, (position - c.start_time) as u64);
            &&& l.start_time == c.start_time
            &&& l.end() == position
            &&& l.in_point == c.in_point
            &&& r.start_time == position
            &&& r.end() == c.end()
            &&& l.duration + r.duration == c.duration
            &&& r.in_point == l.in_point + l.duration
        }),
{
}

/// Trimming a clip to a positive duration keeps its start; its end follows
/// the new duration, and nothing else about it changes.
pub proof fn law_trim_keeps_start(c: Clip, d: u64)
    requires
        d > 0,
    ensures
        ({
            let m = trimmed(c, d);
            &&& m.start_time == c.start_time
            &&& m.duration == d
            &&& m.end() == c.start_time + d
            &&& m.id == c.id && m.clip_type == c.clip_type && m.in_point == c.in_point
            &&& m.source_path == c.source_path && m.properties == c.properties && m.effects == c.effects
        }),
{
}

/// Moving a clip changes its start and nothing else: its end follows its
/// start and its duration is kept.
pub proof fn law_move_changes_only_start(c: Clip, t: u64)
    ensures
        ({
            let m = moved(c, t);
            &&& m.start_time == t
            &&& m.end() == t + c.duration
            &&& m.id == c.id && m.clip_type == c.clip_type
            &&& m.duration == c.duration && m.in_point == c.in_point
            &&& m.source_path == c.source_path && m.properties == c.properties && m.effects == c.effects
        }),
{
}

proof fn lemma_clips_max_end(s: Seq<Clip>)
    ensures
        forall|i: int| 0 <= i < s.len() ==> (#[trigger] s[i]).end() <= clips_max_end(s),
        s.len() == 0 ==> clips_max_end(s) == 0,
        s.len() > 0 ==> exists|i: int| 0 <= i < s.len() && (#[trigger] s[i]).end() == clips_max_end(s),
    decreases s.len(),
{
    if s.len() > 0 {
        let p = s.drop_last();
        lemma_clips_max_end(p);
        assert forall|i: int| 0 <= i < s.len() implies (#[trigger] s[i]).end() <= clips_max_end(s) by {
            if i < p.len() {
                assert(s[i] == p[i]);
            }
        }
        if p.len() > 0 && clips_max_end(p) >= s.last().end() {
            let w = choose|i: int| 0 <= i < p.len() && (#[trigger] p[i]).end() == clips_max_end(p);
            assert(s[w] == p[w]);
        } else {
            assert(s[s.len() - 1].end() == clips_max_end(s));
        }
    }
}

/// The duration of a set of tracks is the latest end of their clips: no
/// clip ends after it, and where there is a clip one ends there; with no
/// clip it is 0.
pub proof fn law_duration_is_latest_end(s: Seq<Track>)
    ensures
        forall|k: int, i: int| 0 <= k < s.len() && 0 <= i < s[k].clips@.len() ==> (#[trigger] s[k].clips@[i]).end() <= tracks_max_end(s),
        (forall|k: int| 0 <= k < s.len() ==> (#[trigger] s[k]).clips@.len() == 0) ==> tracks_max_end(s) == 0,
        (exists|k: int| 0 <= k < s.len() && (#[trigger] s[k]).clips@.len() > 0) ==> exists|k: int, i: int|
            0 <= k < s.len() && 0 <= i < s[k].clips@.len() && (#[trigger] s[k].clips@[i]).end() == tracks_max_end(s),
    decreases s.len(),
{
    if s.len() > 0 {
        let p = s.drop_last();
        let lt = s.last();
        law_duration_is_latest_end(p);
        lemma_clips_max_end(lt.clips@);
        assert forall|k: int, i: int| 0 <= k < s.len() && 0 <= i < s[k].clips@.len() implies (#[trigger] s[k].clips@[i]).end() <= tracks_max_end(s) by {
            if k < p.len() {
                assert(s[k] == p[k]);
                assert(p[k].clips@[i].end() <= tracks_max_end(p));
            }
        }
        if forall|k: int| 0 <= k < s.len() ==> (#[trigger] s[k]).clips@.len() == 0 {
            assert forall|k: int| 0 <= k < p.len() implies (#[trigger] p[k]).clips@.len() == 0 by {
                assert(s[k] == p[k]);
            }
            assert(s[s.len() - 1].clips@.len() == 0);
        }
        if exists|k: int| 0 <= k < s.len() && (#[trigger] s[k]).clips@.len() > 0 {
            let kk = choose|k: int| 0 <= k < s.len() && (#[trigger] s[k]).clips@.len() > 0;
            let pm = tracks_max_end(p);
            let lm = clips_max_end(lt.clips@);
            if lt.clips@.len() > 0 && lm >= pm {
                let i = choose|i: int| 0 <= i < lt.clips@.len() && (#[trigger] lt.clips@[i]).end() == lm;
                assert(s[s.len() - 1].clips@[i].end() == tracks_max_end(s));
            } else if exists|k: int| 0 <= k < p.len() && (#[trigger] p[k]).clips@.len() > 0 {
                let (k, i) = choose|k: int, i: int| 0 <= k < p.len() && 0 <= i < p[k].clips@.len() && (#[trigger] p[k].clips@[i]).end() == pm;
                assert(s[k] == p[k]);
                if lt.clips@.len() == 0 {
                    assert(pm >= 0) by {
                        assert(p[k].clips@[i].end() >= 0);
                    }
                }
                assert(s[k].clips@[i].end() == tracks_max_end(s));
            } else {
                if kk < p.len() {
                    assert(p[kk] == s[kk]);
                }
                assert(kk == s.len() - 1);
                let i = choose|i: int| 0 <= i < lt.clips@.len() && (#[trigger] lt.clips@[i]).end() == lm;
                assert(forall|k: int| 0 <= k < p.len() ==> (#[trigger] p[k]).clips@.len() == 0);
                assert(s[s.len() - 1].clips@[i].end() == tracks_max_end(s));
            }
        }
    }
}

/// A clip is listed by `active_clips(t)` exactly when it stands on an
/// unmuted track and `start_time <= t < end_time`.
pub proof fn law_active_clips(s: Seq<Track>, t: int, c: Clip)
    ensures
        (exists|e: int| 0 <= e < active_view(s, t).len() && (#[trigger] active_view(s, t)[e]).1.contains(c))
            <==> (exists|k: int| 0 <= k < s.len() && !(#[trigger] s[k]).is_muted && s[k].clips@.contains(c) && c.covers(t)),
    decreases s.len(),
{
    if s.len() > 0 {
        let p = s.drop_last();
        let lt = s.last();
        law_active_clips(p, t, c);
        lemma_covering(lt.clips@, t, c);
        let a = active_view(s, t);
        let ap = active_view(p, t);
        let listed_last = !lt.is_muted && covering(lt.clips@, t).len() > 0;
        if exists|e: int| 0 <= e < a.len() && (#[trigger] a[e]).1.contains(c) {
            let e = choose|e: int| 0 <= e < a.len() && (#[trigger] a[e]).1.contains(c);
            if listed_last && e == a.len() - 1 {
                assert(s[s.len() - 1] == lt);
            } else {
                assert(a[e] == ap[e]);
                let k = choose|k: int| 0 <= k < p.len() && !(#[trigger] p[k]).is_muted && p[k].clips@.contains(c) && c.covers(t);
                assert(s[k] == p[k]);
            }
        }
        if exists|k: int| 0 <= k < s.len() && !(#[trigger] s[k]).is_muted && s[k].clips@.contains(c) && c.covers(t) {
            let k = choose|k: int| 0 <= k < s.len() && !(#[trigger] s[k]).is_muted && s[k].clips@.contains(c) && c.covers(t);
            if k == s.len() - 1 {
                assert(covering(lt.clips@, t).contains(c));
                assert(a[a.len() - 1].1.contains(c));
            } else {
                assert(s[k] == p[k]);
                let e = choose|e: int| 0 <= e < ap.len() && (#[trigger] ap[e]).1.contains(c);
                assert(a[e] == ap[e]);
            }
        }
    }
}

} // verus!
