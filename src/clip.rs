//! Clips: placed, trimmed references to source media, with their
//! properties and effects. All times are nanoseconds on the timeline clock.
use vstd::prelude::*;

use crate::track::has_effect;
use crate::types::{ClipInfo, EffectInfo, TrackType};

verus! {

/// Why a timeline operation was refused. A refused operation changes nothing.
#[derive(Debug, Clone, Copy, PartialEq, Eq, Structural)]
pub enum TimelineError {
    /// No track with this id.
    InvalidTrack(u64),
    /// No clip with this id on the track addressed.
    InvalidClip(u64),
    /// A time or duration outside the range the operation accepts.
    InvalidTime(u64),
    /// The change would break a structural rule (two clips of one type
    /// overlapping, an id used twice, a non-positive speed).
    OperationError,
}

/// The medium of a clip. Clips of one type may not overlap on a track.
#[derive(Debug, Clone, Copy, PartialEq, Eq, Structural)]
pub enum ClipType {
    Video,
    Audio,
    Image,
    Text,
    Effect,
}

/// An effect applied to a clip over its whole interval.
#[derive(Debug)]
pub struct ClipEffect {
    pub id: u64,
    pub kind: String,
    pub parameters: Vec<(String, String)>,
}

/// A placed, trimmed reference to source media: it covers
/// `[start_time, start_time + duration)` on the timeline and shows the
/// source from `in_point` on.
#[derive(Debug)]
pub struct Clip {
    pub id: u64,
    pub clip_type: ClipType,
    pub start_time: u64,
    pub duration: u64,
    pub in_point: u64,
    pub source_path: Option<String>,
    pub properties: Vec<(String, String)>,
    pub effects: Vec<ClipEffect>,
}

pub open spec fn effect_view(e: ClipEffect) -> (u64, Seq<char>, Seq<(String, String)>) {
    (e.id, e.kind@, e.parameters@)
}

pub open spec fn effects_view(s: Seq<ClipEffect>) -> Seq<(u64, Seq<char>, Seq<(String, String)>)> {
    s.map_values(|e: ClipEffect| effect_view(e))
}

/// Two clips with the same source, properties and effects; they may differ
/// in id and placement.
pub open spec fn same_payload(a: Clip, b: Clip) -> bool {
    &&& a.source_path == b.source_path
    &&& a.properties@ == b.properties@
    &&& effects_view(a.effects@) == effects_view(b.effects@)
}

/// `c` is of type `ty` and its interval meets `[start, end)`.
pub open spec fn meets(c: Clip, ty: ClipType, start: int, end: int) -> bool {
    &&& c.clip_type == ty
    &&& c.start_time < end
    &&& start < c.end()
}

/// Half-open intervals of two clips of one type share a point.
pub open spec fn clashes(a: Clip, b: Clip) -> bool {
    meets(a, b.clip_type, b.start_time as int, b.end())
}

impl Clip {
    pub open spec fn end(self) -> int {
        self.start_time + self.duration
    }

    /// The clip's end, and the end of its source window, fit in a `u64`,
    /// and its effects have distinct ids.
    pub open spec fn wf(self) -> bool {
        &&& self.start_time + self.duration <= u64::MAX
        &&& self.in_point + self.duration <= u64::MAX
        &&& forall|a: int, b: int| 0 <= a < b < self.effects@.len() ==> (#[trigger] self.effects@[a]).id != (#[trigger] self.effects@[b]).id
    }

    /// Where the effect with this id stands, if any.
    pub(crate) fn find_effect(&self, effect_id: u64) -> (r: Option<usize>)
        ensures
            match r {
                Some(k) => k < self.effects@.len() && self.effects@[k as int].id == effect_id,
                None => !has_effect(*self, effect_id),
            },
    {
        let mut k: usize = 0;
        while k < self.effects.len()
            invariant
                k <= self.effects@.len(),
                forall|x: int| 0 <= x < k ==> self.effects@[x].id != effect_id,
            decreases self.effects@.len() - k,
        {
            if self.effects[k].id == effect_id {
                return Some(k);
            }
            k = k + 1;
        }
        None
    }

    pub open spec fn covers(self, t: int) -> bool {
        self.start_time <= t < self.end()
    }

    /// A clip with no source, properties or effects, showing its source from 0.
    pub fn new(id: u64, clip_type: ClipType, start_time: u64, duration: u64) -> (r: Clip)
        requires
            start_time + duration <= u64::MAX,
        ensures
            r.wf(),
            r.id == id,
            r.clip_type == clip_type,
            r.start_time == start_time,
            r.duration == duration,
            r.in_point == 0,
            r.source_path.is_none(),
            r.properties@.len() == 0,
            r.effects@.len() == 0,
    {
        Clip {
            id,
            clip_type,
            start_time,
            duration,
            in_point: 0,
            source_path: None,
            properties: Vec::new(),
            effects: Vec::new(),
        }
    }

    pub fn with_source(self, source_path: String) -> (r: Clip)
        ensures
            r == (Clip { source_path: Some(source_path), ..self }),
    {
        Clip { source_path: Some(source_path), ..self }
    }

    pub fn with_in_point(self, in_point: u64) -> (r: Clip)
        ensures
            r == (Clip { in_point, ..self }),
    {
        Clip { in_point, ..self }
    }

    /// Adds a property, replacing the value of an equal key.
    pub fn add_property(self, key: String, value: String) -> (r: Clip)
        ensures
            r.id == self.id && r.clip_type == self.clip_type,
            r.start_time == self.start_time && r.duration == self.duration,
            r.in_point == self.in_point && r.source_path == self.source_path,
            r.effects == self.effects,
            pairs_view(r.properties@) == set_pair(pairs_view(self.properties@), key@, value@),
    {
        let mut c = self;
        let mut props = c.properties;
        put_pair(&mut props, key, value);
        Clip { properties: props, ..c }
    }

    pub fn end_time(&self) -> (r: u64)
        requires
            self.wf(),
        ensures
            r == self.end(),
    {
        self.start_time + self.duration
    }

    pub fn contains_time(&self, time: u64) -> (r: bool)
        requires
            self.wf(),
        ensures
            r == self.covers(time as int),
    {
        time >= self.start_time && time < self.end_time()
    }
}

/// The pairs as pairs of character sequences.
pub open spec fn pairs_view(s: Seq<(String, String)>) -> Seq<(Seq<char>, Seq<char>)> {
    s.map_values(|p: (String, String)| (p.0@, p.1@))
}

/// The pairs with the value of `key` replaced by `value`, or `(key, value)`
/// appended where no pair has that key.
pub open spec fn set_pair(s: Seq<(Seq<char>, Seq<char>)>, key: Seq<char>, value: Seq<char>) -> Seq<(Seq<char>, Seq<char>)> {
    if exists|i: int| 0 <= i < s.len() && s[i].0 == key {
        s.map_values(|p: (Seq<char>, Seq<char>)| if p.0 == key { (key, value) } else { p })
    } else {
        s.push((key, value))
    }
}

pub(crate) fn put_pair(v: &mut Vec<(String, String)>, key: String, value: String)
    ensures
        pairs_view(final(v)@) == set_pair(pairs_view(old(v)@), key@, value@),
{
    let n = v.len();
    let mut found = false;
    let mut i: usize = 0;
    let ghost s = v@;
    let ghost sv = pairs_view(s);
    let ghost target = sv.map_values(|p: (Seq<char>, Seq<char>)| if p.0 == key@ { (key@, value@) } else { p });
    while i < n
        invariant
            n == s.len(),
            sv == pairs_view(s),
            i <= n,
            target.len() == n,
            forall|j: int| 0 <= j < n ==> #[trigger] target[j] == (if sv[j].0 == key@ { (key@, value@) } else { sv[j] }),
            v@.len() == n,
            found == exists|j: int| 0 <= j < i && sv[j].0 == key@,
            forall|j: int| 0 <= j < i ==> #[trigger] v@[j] == (if s[j].0@ == key@ { (key, value) } else { s[j] }),
            forall|j: int| i <= j < n ==> #[trigger] v@[j] == s[j],
        decreases n - i,
    {
        let ghost was_found = found;
        if v[i].0 == key {
            assert(sv[i as int].0 == key@);
            v.set(i, (key.clone(), value.clone()));
            found = true;
        } else {
            assert(sv[i as int].0 != key@);
        }
        i = i + 1;
        assert(found == exists|j: int| 0 <= j < i && sv[j].0 == key@) by {
            if was_found {
                let w = choose|j: int| 0 <= j < i - 1 && sv[j].0 == key@;
                assert(0 <= w < i && sv[w].0 == key@);
            }
        }
    }
    if found {
        assert forall|j: int| 0 <= j < n implies #[trigger] pairs_view(v@)[j] == target[j] by {
            assert(v@[j] == (if s[j].0@ == key@ { (key, value) } else { s[j] }));
        }
        assert(pairs_view(v@) =~= target);
    } else {
        assert forall|j: int| 0 <= j < n implies #[trigger] v@[j] == s[j] by {
            assert(sv[j].0 != key@);
        }
        assert(v@ =~= s);
        v.push((key, value));
        assert(pairs_view(v@) =~= sv.push((key@, value@)));
    }
}

fn clone_pairs(v: &Vec<(String, String)>) -> (r: Vec<(String, String)>)
    ensures
        r@ == v@,
{
    let mut r: Vec<(String, String)> = Vec::new();
    let mut i: usize = 0;
    while i < v.len()
        invariant
            i <= v@.len(),
            r@ == v@.subrange(0, i as int),
        decreases v@.len() - i,
    {
        let p = (v[i].0.clone(), v[i].1.clone());
        r.push(p);
        i = i + 1;
        assert(r@ =~= v@.subrange(0, i as int));
    }
    assert(v@.subrange(0, v@.len() as int) =~= v@);
    r
}

fn clone_effects(v: &Vec<ClipEffect>) -> (r: Vec<ClipEffect>)
    ensures
        effects_view(r@) == effects_view(v@),
{
    let mut r: Vec<ClipEffect> = Vec::new();
    let mut i: usize = 0;
    while i < v.len()
        invariant
            i <= v@.len(),
            r@.len() == i,
            forall|k: int| 0 <= k < i ==> effect_view(#[trigger] r@[k]) == effect_view(v@[k]),
        decreases v@.len() - i,
    {
        let e = ClipEffect { id: v[i].id, kind: v[i].kind.clone(), parameters: clone_pairs(&v[i].parameters) };
        r.push(e);
        i = i + 1;
    }
    assert(effects_view(r@) =~= effects_view(v@));
    r
}

/// A copy of `c` at another place: same payload, the given placement.
pub(crate) fn replace_placement(c: &Clip, id: u64, start_time: u64, duration: u64, in_point: u64) -> (r: Clip)
    ensures
        r.id == id && r.clip_type == c.clip_type,
        r.start_time == start_time && r.duration == duration && r.in_point == in_point,
        same_payload(r, *c),
{
    let source_path = match &c.source_path {
        Some(s) => Some(s.clone()),
        None => None,
    };
    Clip {
        id,
        clip_type: c.clip_type,
        start_time,
        duration,
        in_point,
        source_path,
        properties: clone_pairs(&c.properties),
        effects: clone_effects(&c.effects),
    }
}

/// The descriptor of effect `e` on a clip covering `[start, start + duration)`.
pub open spec fn effect_info_matches(i: EffectInfo, e: ClipEffect, start: u64, duration: u64) -> bool {
    &&& i.id == e.id
    &&& i.name@ == e.kind@
    &&& i.effect_type@ == e.kind@
    &&& i.parameters@ == e.parameters@
    &&& i.start_time == start
    &&& i.duration == duration
}

impl Clip {
    /// The clip as plain data for persistence and display; its effects span
    /// the whole clip.
    pub fn to_clip_info(&self, name: String, track_type: TrackType) -> (r: ClipInfo)
        requires
            self.wf(),
        ensures
            r.id == self.id && r.name == name && r.track_type == track_type,
            r.source_path == self.source_path,
            r.start_time == self.start_time && r.duration == self.duration,
            r.in_point == self.in_point && r.out_point == self.in_point + self.duration,
            r.effects@.len() == self.effects@.len(),
            forall|k: int| 0 <= k < r.effects@.len() ==> effect_info_matches(
                #[trigger] r.effects@[k], self.effects@[k], self.start_time, self.duration),
    {
        let mut effects: Vec<EffectInfo> = Vec::new();
        let mut k: usize = 0;
        while k < self.effects.len()
            invariant
                k <= self.effects@.len(),
                effects@.len() == k,
                forall|j: int| 0 <= j < k ==> effect_info_matches(
                    #[trigger] effects@[j], self.effects@[j], self.start_time, self.duration),
            decreases self.effects@.len() - k,
        {
            let e = &self.effects[k];
            effects.push(EffectInfo {
                id: e.id,
                name: e.kind.clone(),
                effect_type: e.kind.clone(),
                parameters: clone_pairs(&e.parameters),
                start_time: self.start_time,
                duration: self.duration,
            });
            k = k + 1;
        }
        let source_path = match &self.source_path {
            Some(s) => Some(s.clone()),
            None => None,
        };
        ClipInfo {
            id: self.id,
            name,
            source_path,
            start_time: self.start_time,
            duration: self.duration,
            in_point: self.in_point,
            out_point: self.in_point + self.duration,
            track_type,
            effects,
        }
    }
}

} // verus!
