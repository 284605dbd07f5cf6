//! Tracks: lanes of clips in which clips of one type never overlap, and
//! the edits that keep them so.
use vstd::prelude::*;

use crate::clip::{
    clashes, effect_view, effects_view, meets, replace_placement, same_payload, Clip, ClipEffect, ClipType,
    TimelineError,
};
use crate::types::TrackType;

verus! {

/// Some clip of `s` has this id.
pub open spec fn has_clip(s: Seq<Clip>, id: u64) -> bool {
    exists|i: int| 0 <= i < s.len() && s[i].id == id
}

/// Where the clip with this id stands (meaningful where `has_clip`).
pub open spec fn clip_index(s: Seq<Clip>, id: u64) -> int {
    choose|i: int| 0 <= i < s.len() && s[i].id == id
}

/// Some clip of `s` other than the one at `skip` meets `[start, end)` and has type `ty`.
pub open spec fn meets_other(s: Seq<Clip>, skip: int, ty: ClipType, start: int, end: int) -> bool {
    exists|j: int| 0 <= j < s.len() && j != skip && meets(#[trigger] s[j], ty, start, end)
}

/// Every clip fits, ids are distinct, and no two clips of one type overlap.
pub open spec fn clips_wf(s: Seq<Clip>) -> bool {
    &&& forall|i: int| 0 <= i < s.len() ==> (#[trigger] s[i]).wf()
    &&& forall|i: int, j: int|
        0 <= i < s.len() && 0 <= j < s.len() && i != j ==> (#[trigger] s[i]).id != (#[trigger] s[j]).id
    &&& forall|i: int, j: int|
        0 <= i < s.len() && 0 <= j < s.len() && i != j ==> !clashes(#[trigger] s[i], #[trigger] s[j])
}

/// `c` starting at `t` instead.
pub open spec fn moved(c: Clip, t: u64) -> Clip {
    Clip { start_time: t, ..c }
}

/// `c` lasting `d` instead.
pub open spec fn trimmed(c: Clip, d: u64) -> Clip {
    Clip { duration: d, ..c }
}

/// `r` is the part of `c` from `position` on, under the id `new_id`.
pub open spec fn right_part(r: Clip, c: Clip, new_id: u64, position: u64) -> bool {
    &&& r.id == new_id
    &&& r.clip_type == c.clip_type
    &&& r.start_time == position
    &&& r.duration == c.end() - position
    &&& r.in_point == c.in_point + (position - c.start_time)
    &&& same_payload(r, c)
}

/// The clips of `s` that cover `t`, in their order in `s`.
pub open spec fn covering(s: Seq<Clip>, t: int) -> Seq<Clip>
    decreases s.len(),
{
    if s.len() == 0 {
        Seq::empty()
    } else if s.last().covers(t) {
        covering(s.drop_last(), t).push(s.last())
    } else {
        covering(s.drop_last(), t)
    }
}

/// What `add_clip` does to the clips `s` of a track, giving `r` and `t`.
pub open spec fn add_outcome(s: Seq<Clip>, clip: Clip, r: Result<(), TimelineError>, t: Seq<Clip>) -> bool {
    if has_clip(s, clip.id) || meets_other(s, s.len() as int, clip.clip_type, clip.start_time as int, clip.end()) {
        r == Err::<(), TimelineError>(TimelineError::OperationError) && t == s
    } else {
        r is Ok && t == s.push(clip)
    }
}

/// What `remove_clip` does to the clips `s` of a track.
pub open spec fn remove_outcome(s: Seq<Clip>, clip_id: u64, r: Result<Clip, TimelineError>, t: Seq<Clip>) -> bool {
    if !has_clip(s, clip_id) {
        r == Err::<Clip, TimelineError>(TimelineError::InvalidClip(clip_id)) && t == s
    } else {
        let i = clip_index(s, clip_id);
        r == Ok::<Clip, TimelineError>(s[i]) && t == s.remove(i)
    }
}

/// What `move_clip` does to the clips `s` of a track.
pub open spec fn move_outcome(s: Seq<Clip>, clip_id: u64, new_start: u64, r: Result<(), TimelineError>, t: Seq<Clip>) -> bool {
    if !has_clip(s, clip_id) {
        r == Err::<(), TimelineError>(TimelineError::InvalidClip(clip_id)) && t == s
    } else {
        let i = clip_index(s, clip_id);
        let c = s[i];
        if new_start + c.duration > u64::MAX {
            r == Err::<(), TimelineError>(TimelineError::InvalidTime(new_start)) && t == s
        } else if meets_other(s, i, c.clip_type, new_start as int, new_start + c.duration) {
            r == Err::<(), TimelineError>(TimelineError::OperationError) && t == s
        } else {
            r is Ok && t == s.update(i, moved(c, new_start))
        }
    }
}

/// What `trim_clip` does to the clips `s` of a track.
pub open spec fn trim_outcome(s: Seq<Clip>, clip_id: u64, new_duration: u64, r: Result<(), TimelineError>, t: Seq<Clip>) -> bool {
    if !has_clip(s, clip_id) {
        r == Err::<(), TimelineError>(TimelineError::InvalidClip(clip_id)) && t == s
    } else {
        let i = clip_index(s, clip_id);
        let c = s[i];
        if new_duration == 0 || c.start_time + new_duration > u64::MAX || c.in_point + new_duration > u64::MAX {
            r == Err::<(), TimelineError>(TimelineError::InvalidTime(new_duration)) && t == s
        } else if meets_other(s, i, c.clip_type, c.start_time as int, c.start_time + new_duration) {
            r == Err::<(), TimelineError>(TimelineError::OperationError) && t == s
        } else {
            r is Ok && t == s.update(i, trimmed(c, new_duration))
        }
    }
}

/// What `split_clip` does to the clips `s` of a track.
pub open spec fn split_outcome(s: Seq<Clip>, clip_id: u64, position: u64, new_id: u64, r: Result<(), TimelineError>, t: Seq<Clip>) -> bool {
    if !has_clip(s, clip_id) {
        r == Err::<(), TimelineError>(TimelineError::InvalidClip(clip_id)) && t == s
    } else {
        let i = clip_index(s, clip_id);
        let c = s[i];
        if !(c.start_time < position < c.end()) {
            r == Err::<(), TimelineError>(TimelineError::InvalidTime(position)) && t == s
        } else if has_clip(s, new_id) {
            r == Err::<(), TimelineError>(TimelineError::OperationError) && t == s
        } else {
            &&& r is Ok
            &&& t.len() == s.len() + 1
            &&& t.drop_last() == s.update(i, trimmed(c, (position - c.start_time) as u64))
            &&& right_part(t.last(), c, new_id, position)
        }
    }
}

pub open spec fn has_effect(c: Clip, effect_id: u64) -> bool {
    exists|k: int| 0 <= k < c.effects@.len() && c.effects@[k].id == effect_id
}

/// `t` is `s` with the clip at `i` given the effects `effects`.
pub open spec fn effects_replaced(s: Seq<Clip>, i: int, effects: Seq<ClipEffect>, t: Seq<Clip>) -> bool {
    &&& t.len() == s.len()
    &&& forall|j: int| 0 <= j < s.len() && j != i ==> t[j] == s[j]
    &&& t[i] == (Clip { effects: t[i].effects, ..s[i] })
    &&& t[i].effects@ == effects
}

/// What `add_effect` does to the clips `s` of a track.
pub open spec fn add_effect_outcome(s: Seq<Clip>, clip_id: u64, e: ClipEffect, r: Result<(), TimelineError>, t: Seq<Clip>) -> bool {
    if !has_clip(s, clip_id) {
        r == Err::<(), TimelineError>(TimelineError::InvalidClip(clip_id)) && t == s
    } else {
        let i = clip_index(s, clip_id);
        if has_effect(s[i], e.id) {
            r == Err::<(), TimelineError>(TimelineError::OperationError) && t == s
        } else {
            r is Ok && effects_replaced(s, i, s[i].effects@.push(e), t)
        }
    }
}

/// Where the effect with this id stands on clip `c` (meaningful where `has_effect`).
pub open spec fn effect_index(c: Clip, effect_id: u64) -> int {
    choose|k: int| 0 <= k < c.effects@.len() && c.effects@[k].id == effect_id
}

/// What `remove_effect` does to the clips `s` of a track.
pub open spec fn remove_effect_outcome(s: Seq<Clip>, clip_id: u64, effect_id: u64, r: Result<ClipEffect, TimelineError>, t: Seq<Clip>) -> bool {
    if !has_clip(s, clip_id) {
        r == Err::<ClipEffect, TimelineError>(TimelineError::InvalidClip(clip_id)) && t == s
    } else {
        let i = clip_index(s, clip_id);
        if !has_effect(s[i], effect_id) {
            r == Err::<ClipEffect, TimelineError>(TimelineError::OperationError) && t == s
        } else {
            let k = effect_index(s[i], effect_id);
            r == Ok::<ClipEffect, TimelineError>(s[i].effects@[k]) && effects_replaced(s, i, s[i].effects@.remove(k), t)
        }
    }
}

pub proof fn lemma_clip_index(s: Seq<Clip>, i: int)
    requires
        clips_wf(s),
        0 <= i < s.len(),
    ensures
        has_clip(s, s[i].id),
        clip_index(s, s[i].id) == i,
{
    let id = s[i].id;
    assert(0 <= i < s.len() && s[i].id == id);
    let k = clip_index(s, id);
    if k != i {
        assert(s[k].id != s[i].id);
    }
}

/// Putting at `i` a clip with the same id that fits and meets no other
/// clip of its type keeps the clips well formed.
pub proof fn lemma_update_wf(s: Seq<Clip>, i: int, c: Clip)
    requires
        clips_wf(s),
        0 <= i < s.len(),
        c.wf(),
        c.id == s[i].id,
        !meets_other(s, i, c.clip_type, c.start_time as int, c.end()),
    ensures
        clips_wf(s.update(i, c)),
{
    let t = s.update(i, c);
    assert forall|a: int, b: int| 0 <= a < t.len() && 0 <= b < t.len() && a != b implies !clashes(#[trigger] t[a], #[trigger] t[b]) && t[a].id != t[b].id by {
        if a == i {
            assert(!meets(s[b], c.clip_type, c.start_time as int, c.end()));
        } else if b == i {
            assert(!meets(s[a], c.clip_type, c.start_time as int, c.end()));
        }
    }
}

/// A clip belongs to what `covering` returns exactly when it stands in
/// `s` and covers `t`.
pub proof fn lemma_covering(s: Seq<Clip>, t: int, c: Clip)
    ensures
        covering(s, t).contains(c) <==> (s.contains(c) && c.covers(t)),
    decreases s.len(),
{
    if s.len() > 0 {
        lemma_covering(s.drop_last(), t, c);
        let p = s.drop_last();
        assert(s =~= p.push(s.last()));
        if s.contains(c) && !p.contains(c) {
            let i = choose|i: int| 0 <= i < s.len() && s[i] == c;
            if i < s.len() - 1 {
                assert(p[i] == c);
            }
        }
        if p.contains(c) {
            let i = choose|i: int| 0 <= i < p.len() && p[i] == c;
            assert(s[i] == c);
        }
        if covering(s, t).contains(c) && !covering(p, t).contains(c) {
            let r = covering(p, t);
            let i = choose|i: int| 0 <= i < covering(s, t).len() && covering(s, t)[i] == c;
            if s.last().covers(t) && i < r.len() {
                assert(r[i] == c);
            }
        }
        if covering(p, t).contains(c) {
            let r = covering(p, t);
            let i = choose|i: int| 0 <= i < r.len() && r[i] == c;
            if s.last().covers(t) {
                assert(covering(s, t)[i] == c);
            }
        }
        if s.last() == c && c.covers(t) {
            assert(covering(s, t).last() == c);
        }
    }
}

pub open spec fn deref_all(s: Seq<&Clip>) -> Seq<Clip> {
    s.map_values(|c: &Clip| *c)
}

/// A lane of clips. Clips of one type do not overlap on a track.
#[derive(Debug)]
pub struct Track {
    pub id: u64,
    pub name: String,
    pub track_type: TrackType,
    pub clips: Vec<Clip>,
    pub is_muted: bool,
    pub is_locked: bool,
}

/// `a` and `b` agree on everything but their clips.
pub open spec fn same_header(a: Track, b: Track) -> bool {
    &&& a.id == b.id
    &&& a.name == b.name
    &&& a.track_type == b.track_type
    &&& a.is_muted == b.is_muted
    &&& a.is_locked == b.is_locked
}

impl Track {
    pub open spec fn wf(self) -> bool {
        clips_wf(self.clips@)
    }

    pub fn new(id: u64, name: String, track_type: TrackType) -> (r: Track)
        ensures
            r.wf(),
            r.id == id && r.name == name && r.track_type == track_type,
            r.clips@.len() == 0,
            !r.is_muted && !r.is_locked,
    {
        Track { id, name, track_type, clips: Vec::new(), is_muted: false, is_locked: false }
    }

    pub(crate) fn find_clip(&self, clip_id: u64) -> (r: Option<usize>)
        ensures
            match r {
                Some(i) => i < self.clips@.len() && self.clips@[i as int].id == clip_id,
                None => !has_clip(self.clips@, clip_id),
            },
    {
        let mut i: usize = 0;
        while i < self.clips.len()
            invariant
                i <= self.clips@.len(),
                forall|j: int| 0 <= j < i ==> self.clips@[j].id != clip_id,
            decreases self.clips@.len() - i,
        {
            if self.clips[i].id == clip_id {
                return Some(i);
            }
            i = i + 1;
        }
        None
    }

    /// Whether a clip other than the one at `skip` has type `ty` and meets
    /// `[start, end)`; `skip` past the end skips none.
    fn meets_any(&self, skip: usize, ty: ClipType, start: u64, end: u64) -> (r: bool)
        requires
            self.wf(),
        ensures
            r == meets_other(self.clips@, skip as int, ty, start as int, end as int),
    {
        let mut i: usize = 0;
        while i < self.clips.len()
            invariant
                self.wf(),
                i <= self.clips@.len(),
                forall|j: int| 0 <= j < i && j != skip ==> !meets(#[trigger] self.clips@[j], ty, start as int, end as int),
            decreases self.clips@.len() - i,
        {
            let c = &self.clips[i];
            assert(c.wf());
            if i != skip && c.clip_type == ty && c.start_time < end && start < c.end_time() {
                assert(meets(self.clips@[i as int], ty, start as int, end as int));
                return true;
            }
            i = i + 1;
        }
        false
    }

    /// Places `clip` on the track, unless it overlaps a clip of its type
    /// or its id is taken.
    pub fn add_clip(&mut self, clip: Clip) -> (r: Result<(), TimelineError>)
        requires
            old(self).wf(),
            clip.wf(),
        ensures
            final(self).wf(),
            same_header(*final(self), *old(self)),
            add_outcome(old(self).clips@, clip, r, final(self).clips@),
    {
        if self.find_clip(clip.id).is_some() {
            return Err(TimelineError::OperationError);
        }
        let n = self.clips.len();
        if self.meets_any(n, clip.clip_type, clip.start_time, clip.end_time()) {
            return Err(TimelineError::OperationError);
        }
        let ghost s = self.clips@;
        self.clips.push(clip);
        proof {
            let t = self.clips@;
            assert forall|i: int, j: int| 0 <= i < t.len() && 0 <= j < t.len() && i != j implies !clashes(#[trigger] t[i], #[trigger] t[j]) by {
                if i == n as int {
                    assert(!meets(s[j], clip.clip_type, clip.start_time as int, clip.end()));
                } else if j == n as int {
                    assert(!meets(s[i], clip.clip_type, clip.start_time as int, clip.end()));
                }
            }
            assert forall|i: int, j: int| 0 <= i < t.len() && 0 <= j < t.len() && i != j implies (#[trigger] t[i]).id != (#[trigger] t[j]).id by {
                if i == n as int {
                    assert(!(0 <= j < s.len() && s[j].id == clip.id));
                } else if j == n as int {
                    assert(!(0 <= i < s.len() && s[i].id == clip.id));
                }
            }
        }
        Ok(())
    }

    /// Takes the clip with this id off the track.
    pub fn remove_clip(&mut self, clip_id: u64) -> (r: Result<Clip, TimelineError>)
        requires
            old(self).wf(),
        ensures
            final(self).wf(),
            same_header(*final(self), *old(self)),
            remove_outcome(old(self).clips@, clip_id, r, final(self).clips@),
    {
        match self.find_clip(clip_id) {
            None => Err(TimelineError::InvalidClip(clip_id)),
            Some(i) => {
                proof { lemma_clip_index(self.clips@, i as int); }
                let ghost s = self.clips@;
                let c = self.clips.remove(i);
                proof {
                    let t = self.clips@;
                    assert forall|a: int| 0 <= a < t.len() implies #[trigger] t[a] == s[if a < i { a } else { a + 1 }] by {}
                    assert forall|a: int, b: int| 0 <= a < t.len() && 0 <= b < t.len() && a != b implies !clashes(#[trigger] t[a], #[trigger] t[b]) && t[a].id != t[b].id by {
                        let a2 = if a < i { a } else { a + 1 };
                        let b2 = if b < i { b } else { b + 1 };
                        assert(t[a] == s[a2] && t[b] == s[b2]);
                    }
                    assert forall|a: int| 0 <= a < t.len() implies (#[trigger] t[a]).wf() by {
                        let a2 = if a < i { a } else { a + 1 };
                        assert(t[a] == s[a2]);
                    }
                }
                Ok(c)
            },
        }
    }

    /// Moves the clip to start at `new_start`, keeping everything else.
    pub fn move_clip(&mut self, clip_id: u64, new_start: u64) -> (r: Result<(), TimelineError>)
        requires
            old(self).wf(),
        ensures
            final(self).wf(),
            same_header(*final(self), *old(self)),
            move_outcome(old(self).clips@, clip_id, new_start, r, final(self).clips@),
    {
        let i = match self.find_clip(clip_id) {
            None => return Err(TimelineError::InvalidClip(clip_id)),
            Some(i) => i,
        };
        proof { lemma_clip_index(self.clips@, i as int); }
        let ghost s = self.clips@;
        let duration = self.clips[i].duration;
        let clip_type = self.clips[i].clip_type;
        if new_start > u64::MAX - duration {
            return Err(TimelineError::InvalidTime(new_start));
        }
        if self.meets_any(i, clip_type, new_start, new_start + duration) {
            return Err(TimelineError::OperationError);
        }
        let mut c = self.clips.remove(i);
        c.start_time = new_start;
        self.clips.insert(i, c);
        proof {
            assert(self.clips@ =~= s.update(i as int, moved(s[i as int], new_start)));
            lemma_update_wf(s, i as int, moved(s[i as int], new_start));
        }
        Ok(())
    }

    /// Gives the clip a new duration, keeping its start.
    pub fn trim_clip(&mut self, clip_id: u64, new_duration: u64) -> (r: Result<(), TimelineError>)
        requires
            old(self).wf(),
        ensures
            final(self).wf(),
            same_header(*final(self), *old(self)),
            trim_outcome(old(self).clips@, clip_id, new_duration, r, final(self).clips@),
    {
        let i = match self.find_clip(clip_id) {
            None => return Err(TimelineError::InvalidClip(clip_id)),
            Some(i) => i,
        };
        proof { lemma_clip_index(self.clips@, i as int); }
        let ghost s = self.clips@;
        let start = self.clips[i].start_time;
        let in_point = self.clips[i].in_point;
        let clip_type = self.clips[i].clip_type;
        if new_duration == 0 || start > u64::MAX - new_duration || in_point > u64::MAX - new_duration {
            return Err(TimelineError::InvalidTime(new_duration));
        }
        if self.meets_any(i, clip_type, start, start + new_duration) {
            return Err(TimelineError::OperationError);
        }
        let mut c = self.clips.remove(i);
        c.duration = new_duration;
        self.clips.insert(i, c);
        proof {
            assert(self.clips@ =~= s.update(i as int, trimmed(s[i as int], new_duration)));
            lemma_update_wf(s, i as int, trimmed(s[i as int], new_duration));
        }
        Ok(())
    }

    /// Cuts the clip at `position`: the clip keeps `[start, position)` and a
    /// new clip with id `new_id` takes `[position, end)`, appended to the track.
    pub fn split_clip(&mut self, clip_id: u64, position: u64, new_id: u64) -> (r: Result<(), TimelineError>)
        requires
            old(self).wf(),
        ensures
            final(self).wf(),
            same_header(*final(self), *old(self)),
            split_outcome(old(self).clips@, clip_id, position, new_id, r, final(self).clips@),
    {
        let i = match self.find_clip(clip_id) {
            None => return Err(TimelineError::InvalidClip(clip_id)),
            Some(i) => i,
        };
        proof { lemma_clip_index(self.clips@, i as int); }
        let ghost s = self.clips@;
        let ghost c0 = s[i as int];
        let start = self.clips[i].start_time;
        assert(self.clips[i as int].wf());
        let end = self.clips[i].end_time();
        if !(start < position && position < end) {
            return Err(TimelineError::InvalidTime(position));
        }
        if self.find_clip(new_id).is_some() {
            return Err(TimelineError::OperationError);
        }
        let right = replace_placement(
            &self.clips[i],
            new_id,
            position,
            end - position,
            self.clips[i].in_point + (position - start),
        );
        let mut c = self.clips.remove(i);
        c.duration = position - start;
        self.clips.insert(i, c);
        let ghost left = trimmed(c0, (position - start) as u64);
        proof {
            assert(self.clips@ =~= s.update(i as int, left));
            lemma_update_wf(s, i as int, left);
        }
        let ghost u = self.clips@;
        proof {
            let re = right.effects@;
            let ce = c0.effects@;
            assert(c0.wf());
            assert forall|a: int, b: int| 0 <= a < b < re.len() implies (#[trigger] re[a]).id != (#[trigger] re[b]).id by {
                assert(effects_view(re).len() == re.len() && effects_view(ce).len() == ce.len());
                assert(effects_view(re)[a] == effect_view(re[a]) && effects_view(ce)[a] == effect_view(ce[a]));
                assert(effects_view(re)[b] == effect_view(re[b]) && effects_view(ce)[b] == effect_view(ce[b]));
                assert(effects_view(re)[a] == effects_view(ce)[a]);
                assert(effects_view(re)[b] == effects_view(ce)[b]);
            }
        }
        self.clips.push(right);
        proof {
            let t = self.clips@;
            let n = s.len() as int;
            assert(t.drop_last() =~= u);
            assert forall|a: int| 0 <= a < n && a != i implies !meets(#[trigger] u[a], right.clip_type, position as int, right.end()) by {
                assert(u[a] == s[a]);
                assert(!clashes(s[a], s[i as int]));
            }
            assert forall|a: int, b: int| 0 <= a < t.len() && 0 <= b < t.len() && a != b implies !clashes(#[trigger] t[a], #[trigger] t[b]) && t[a].id != t[b].id by {
                if a == n {
                    assert(t[b] == u[b]);
                    assert(!(0 <= b < s.len() && s[b].id == new_id));
                } else if b == n {
                    assert(t[a] == u[a]);
                    assert(!(0 <= a < s.len() && s[a].id == new_id));
                }
            }
        }
        Ok(())
    }

    /// Attaches `effect` to the clip, unless the clip already has an effect
    /// with its id.
    pub fn add_effect(&mut self, clip_id: u64, effect: ClipEffect) -> (r: Result<(), TimelineError>)
        requires
            old(self).wf(),
        ensures
            final(self).wf(),
            same_header(*final(self), *old(self)),
            add_effect_outcome(old(self).clips@, clip_id, effect, r, final(self).clips@),
    {
        let i = match self.find_clip(clip_id) {
            None => return Err(TimelineError::InvalidClip(clip_id)),
            Some(i) => i,
        };
        proof { lemma_clip_index(self.clips@, i as int); }
        let ghost s = self.clips@;
        if self.clips[i].find_effect(effect.id).is_some() {
            return Err(TimelineError::OperationError);
        }
        assert(s[i as int].wf());
        let mut c = self.clips.remove(i);
        c.effects.push(effect);
        self.clips.insert(i, c);
        proof {
            let t = self.clips@;
            assert(t =~= s.update(i as int, t[i as int]));
            lemma_update_wf(s, i as int, t[i as int]);
        }
        Ok(())
    }

    /// Detaches the effect with this id from the clip and returns it.
    pub fn remove_effect(&mut self, clip_id: u64, effect_id: u64) -> (r: Result<ClipEffect, TimelineError>)
        requires
            old(self).wf(),
        ensures
            final(self).wf(),
            same_header(*final(self), *old(self)),
            remove_effect_outcome(old(self).clips@, clip_id, effect_id, r, final(self).clips@),
    {
        let i = match self.find_clip(clip_id) {
            None => return Err(TimelineError::InvalidClip(clip_id)),
            Some(i) => i,
        };
        proof { lemma_clip_index(self.clips@, i as int); }
        let ghost s = self.clips@;
        let k = match self.clips[i].find_effect(effect_id) {
            None => return Err(TimelineError::OperationError),
            Some(k) => k,
        };
        proof {
            let c = s[i as int];
            assert(c.wf());
            let w = effect_index(c, effect_id);
            assert(0 <= k < c.effects@.len() && c.effects@[k as int].id == effect_id);
            if w < k {
                assert(c.effects@[w].id != c.effects@[k as int].id);
            } else if w > k {
                assert(c.effects@[k as int].id != c.effects@[w].id);
            }
        }
        let mut c = self.clips.remove(i);
        let e = c.effects.remove(k);
        self.clips.insert(i, c);
        proof {
            let t = self.clips@;
            let ce = t[i as int].effects@;
            assert forall|a: int, b: int| 0 <= a < b < ce.len() implies (#[trigger] ce[a]).id != (#[trigger] ce[b]).id by {
                let old_e = s[i as int].effects@;
                let a2 = if a < k { a } else { a + 1 };
                let b2 = if b < k { b } else { b + 1 };
                assert(ce[a] == old_e[a2] && ce[b] == old_e[b2]);
            }
            assert(t =~= s.update(i as int, t[i as int]));
            lemma_update_wf(s, i as int, t[i as int]);
        }
        Ok(e)
    }

    /// The clips that cover `time`, in track order.
    pub fn clips_at_time(&self, time: u64) -> (r: Vec<&Clip>)
        requires
            self.wf(),
        ensures
            deref_all(r@) == covering(self.clips@, time as int),
    {
        let mut r: Vec<&Clip> = Vec::new();
        let mut i: usize = 0;
        while i < self.clips.len()
            invariant
                self.wf(),
                i <= self.clips@.len(),
                deref_all(r@) == covering(self.clips@.subrange(0, i as int), time as int),
            decreases self.clips@.len() - i,
        {
            let c = &self.clips[i];
            assert(c.wf());
            let ghost p = self.clips@.subrange(0, i as int);
            let ghost q = self.clips@.subrange(0, i + 1);
            assert(q.drop_last() =~= p);
            let ghost r0 = r@;
            if c.contains_time(time) {
                r.push(c);
                assert(deref_all(r@) =~= deref_all(r0).push(*c));
            }
            i = i + 1;
        }
        assert(self.clips@.subrange(0, self.clips@.len() as int) =~= self.clips@);
        r
    }
}

} // verus!
