//! A bounded store of composited frames keyed by frame index.
use vstd::prelude::*;

verus! {

/// A composited RGBA frame: `width * height` pixels of four bytes each.
#[derive(Debug)]
pub struct Frame {
    pub data: Vec<u8>,
    pub width: u32,
    pub height: u32,
    /// Where the frame stands on the timeline, in nanoseconds.
    pub timestamp: u64,
}

/// What a frame holds, as plain values.
pub struct FrameView {
    pub data: Seq<u8>,
    pub width: u32,
    pub height: u32,
    pub timestamp: u64,
}

impl View for Frame {
    type V = FrameView;

    open spec fn view(&self) -> FrameView {
        FrameView { data: self.data@, width: self.width, height: self.height, timestamp: self.timestamp }
    }
}

impl Frame {
    /// A copy of the frame.
    pub fn duplicate(&self) -> (r: Frame)
        ensures
            r@ == self@,
    {
        Frame { data: self.data.clone(), width: self.width, height: self.height, timestamp: self.timestamp }
    }
}

/// Keys strictly increase along the entries.
pub open spec fn sorted_keys(s: Seq<(u64, Frame)>) -> bool {
    forall|i: int, j: int| 0 <= i < j < s.len() ==> (#[trigger] s[i]).0 < (#[trigger] s[j]).0
}

pub open spec fn has_key(s: Seq<(u64, Frame)>, k: u64) -> bool {
    exists|i: int| 0 <= i < s.len() && s[i].0 == k
}

pub open spec fn key_index(s: Seq<(u64, Frame)>, k: u64) -> int {
    choose|i: int| 0 <= i < s.len() && s[i].0 == k
}

/// The entries as a map from key to frame.
pub open spec fn entries_map(s: Seq<(u64, Frame)>) -> Map<u64, FrameView> {
    Map::new(|k: u64| has_key(s, k), |k: u64| s[key_index(s, k)].1@)
}

/// The least key of a non-empty map with finite domain.
pub open spec fn min_key(m: Map<u64, FrameView>) -> u64 {
    choose|k: u64| m.dom().contains(k) && forall|j: u64| m.dom().contains(j) ==> k <= j
}

/// What the cache holds after `f` is stored under `key` in a cache holding
/// `m` with room for `capacity` entries: nothing changes when there is no
/// room at all; a new key in a full cache first pushes out the least key.
pub open spec fn stored(m: Map<u64, FrameView>, capacity: nat, key: u64, f: FrameView) -> Map<u64, FrameView> {
    if capacity == 0 {
        m
    } else if m.dom().contains(key) || m.dom().len() < capacity {
        m.insert(key, f)
    } else {
        m.remove(min_key(m)).insert(key, f)
    }
}

proof fn lemma_lookup(s: Seq<(u64, Frame)>, i: int)
    requires
        sorted_keys(s),
        0 <= i < s.len(),
    ensures
        has_key(s, s[i].0),
        key_index(s, s[i].0) == i,
        entries_map(s).dom().contains(s[i].0),
        entries_map(s)[s[i].0] == s[i].1@,
{
    let k = s[i].0;
    assert(0 <= i < s.len() && s[i].0 == k);
    let j = key_index(s, k);
    if j < i {
        assert(s[j].0 < s[i].0);
    } else if j > i {
        assert(s[i].0 < s[j].0);
    }
}

proof fn lemma_map_finite(s: Seq<(u64, Frame)>)
    requires
        sorted_keys(s),
    ensures
        entries_map(s).dom() == s.map_values(|e: (u64, Frame)| e.0).to_set(),
        entries_map(s).dom().finite(),
        entries_map(s).dom().len() == s.len(),
{
    let ks = s.map_values(|e: (u64, Frame)| e.0);
    assert forall|k: u64| entries_map(s).dom().contains(k) <==> ks.to_set().contains(k) by {
        if has_key(s, k) {
            let i = key_index(s, k);
            assert(ks[i] == k);
        }
        if ks.to_set().contains(k) {
            let i = choose|i: int| 0 <= i < ks.len() && ks[i] == k;
            assert(s[i].0 == k);
        }
    }
    assert(entries_map(s).dom() =~= ks.to_set());
    assert(ks.no_duplicates()) by {
        assert forall|i: int, j: int| 0 <= i < ks.len() && 0 <= j < ks.len() && i != j implies ks[i] != ks[j] by {
            if i < j { assert(s[i].0 < s[j].0); } else { assert(s[j].0 < s[i].0); }
        }
    }
    ks.unique_seq_to_set();
}

proof fn lemma_set_at(s0: Seq<(u64, Frame)>, i: int, key: u64, frame: Frame)
    requires
        sorted_keys(s0),
        0 <= i < s0.len(),
        s0[i].0 == key,
    ensures
        sorted_keys(s0.update(i, (key, frame))),
        entries_map(s0.update(i, (key, frame))) == entries_map(s0).insert(key, frame@),
{
    let s = s0.update(i, (key, frame));
    let m0 = entries_map(s0);
    assert(sorted_keys(s));
    assert forall|k: u64| #[trigger] entries_map(s).dom().contains(k) == m0.insert(key, frame@).dom().contains(k)
        && (entries_map(s).dom().contains(k) ==> entries_map(s)[k] == m0.insert(key, frame@)[k]) by {
        if has_key(s, k) {
            let j = key_index(s, k);
            lemma_lookup(s, j);
            lemma_lookup(s0, j);
        }
        if has_key(s0, k) {
            let j = key_index(s0, k);
            lemma_lookup(s0, j);
            lemma_lookup(s, j);
        }
    }
    assert(entries_map(s) =~= m0.insert(key, frame@));
}

proof fn lemma_insert_at(s0: Seq<(u64, Frame)>, i: int, key: u64, frame: Frame)
    requires
        sorted_keys(s0),
        0 <= i <= s0.len(),
        forall|j: int| 0 <= j < i ==> (#[trigger] s0[j]).0 < key,
        i < s0.len() ==> key < s0[i].0,
    ensures
        sorted_keys(s0.insert(i, (key, frame))),
        entries_map(s0.insert(i, (key, frame))) == entries_map(s0).insert(key, frame@),
{
    let s = s0.insert(i, (key, frame));
    let m0 = entries_map(s0);
    assert forall|a: int, b: int| 0 <= a < b < s.len() implies (#[trigger] s[a]).0 < (#[trigger] s[b]).0 by {
        if a < i && b > i {
            assert(s[b] == s0[b - 1]);
            if b - 1 > i {
                assert(s0[i].0 < s0[b - 1].0);
            }
        } else if a == i && b > i {
            assert(s[b] == s0[b - 1]);
            if b - 1 > i {
                assert(s0[i].0 < s0[b - 1].0);
            }
        } else if a > i {
            assert(s[a] == s0[a - 1] && s[b] == s0[b - 1]);
        }
    }
    assert forall|k: u64| #[trigger] entries_map(s).dom().contains(k) == m0.insert(key, frame@).dom().contains(k)
        && (entries_map(s).dom().contains(k) ==> entries_map(s)[k] == m0.insert(key, frame@)[k]) by {
        if has_key(s, k) {
            let j = key_index(s, k);
            lemma_lookup(s, j);
            if j < i {
                assert(s[j] == s0[j]);
                lemma_lookup(s0, j);
            } else if j > i {
                assert(s[j] == s0[j - 1]);
                lemma_lookup(s0, j - 1);
            }
        }
        if has_key(s0, k) {
            let j = key_index(s0, k);
            lemma_lookup(s0, j);
            if j < i {
                assert(s[j] == s0[j]);
                lemma_lookup(s, j);
            } else {
                assert(s[j + 1] == s0[j]);
                lemma_lookup(s, j + 1);
            }
        }
        if k == key {
            lemma_lookup(s, i);
        }
    }
    assert(entries_map(s) =~= m0.insert(key, frame@));
}

proof fn lemma_remove_first(s1: Seq<(u64, Frame)>)
    requires
        sorted_keys(s1),
        s1.len() > 0,
    ensures
        sorted_keys(s1.remove(0)),
        min_key(entries_map(s1)) == s1[0].0,
        entries_map(s1.remove(0)) == entries_map(s1).remove(s1[0].0),
{
    let s = s1.remove(0);
    let m1 = entries_map(s1);
    let k0 = s1[0].0;
    lemma_lookup(s1, 0);
    assert forall|j: u64| m1.dom().contains(j) implies k0 <= j by {
        let x = key_index(s1, j);
        if x > 0 {
            assert(s1[0].0 < s1[x].0);
        }
    }
    let mk = min_key(m1);
    assert(m1.dom().contains(k0) && forall|j: u64| m1.dom().contains(j) ==> k0 <= j);
    assert(m1.dom().contains(mk) && forall|j: u64| m1.dom().contains(j) ==> mk <= j);
    assert(mk == k0);
    assert forall|a: int, b: int| 0 <= a < b < s.len() implies (#[trigger] s[a]).0 < (#[trigger] s[b]).0 by {
        assert(s[a] == s1[a + 1] && s[b] == s1[b + 1]);
    }
    assert forall|k: u64| #[trigger] entries_map(s).dom().contains(k) == m1.remove(k0).dom().contains(k)
        && (entries_map(s).dom().contains(k) ==> entries_map(s)[k] == m1.remove(k0)[k]) by {
        if has_key(s, k) {
            let j = key_index(s, k);
            lemma_lookup(s, j);
            assert(s[j] == s1[j + 1]);
            lemma_lookup(s1, j + 1);
            assert(s1[0].0 < s1[j + 1].0);
        }
        if has_key(s1, k) && k != k0 {
            let j = key_index(s1, k);
            lemma_lookup(s1, j);
            assert(j > 0);
            assert(s[j - 1] == s1[j]);
            lemma_lookup(s, j - 1);
        }
    }
    assert(entries_map(s) =~= m1.remove(k0));
}

/// A bounded key-to-frame store. When full, the frame with the least key
/// leaves first: playback and export mostly move forward in time.
pub struct FrameCache {
    capacity: usize,
    entries: Vec<(u64, Frame)>,
}

impl View for FrameCache {
    type V = Map<u64, FrameView>;

    closed spec fn view(&self) -> Map<u64, FrameView> {
        entries_map(self.entries@)
    }
}

impl FrameCache {
    pub closed spec fn wf(&self) -> bool {
        &&& sorted_keys(self.entries@)
        &&& self.entries@.len() <= self.capacity
    }

    pub closed spec fn capacity_spec(&self) -> nat {
        self.capacity as nat
    }

    pub fn new(capacity: usize) -> (r: FrameCache)
        ensures
            r.wf(),
            r@ == Map::<u64, FrameView>::empty(),
            r.capacity_spec() == capacity,
    {
        let r = FrameCache { capacity, entries: Vec::new() };
        assert(r@ =~= Map::<u64, FrameView>::empty());
        r
    }

    pub fn capacity(&self) -> (r: usize)
        ensures
            r == self.capacity_spec(),
    {
        self.capacity
    }

    /// The number of frames held.
    pub fn len(&self) -> (r: usize)
        requires
            self.wf(),
        ensures
            r == self@.dom().len(),
            r <= self.capacity_spec(),
    {
        proof { lemma_map_finite(self.entries@); }
        self.entries.len()
    }

    /// Where the entry for `key` stands, or where it would be inserted.
    fn locate(&self, key: u64) -> (r: usize)
        requires
            self.wf(),
        ensures
            r <= self.entries@.len(),
            forall|j: int| 0 <= j < r ==> (#[trigger] self.entries@[j]).0 < key,
            r < self.entries@.len() ==> key <= self.entries@[r as int].0,
    {
        let mut i: usize = 0;
        while i < self.entries.len()
            invariant
                i <= self.entries@.len(),
                forall|j: int| 0 <= j < i ==> (#[trigger] self.entries@[j]).0 < key,
            decreases self.entries@.len() - i,
        {
            if self.entries[i].0 >= key {
                return i;
            }
            i = i + 1;
        }
        i
    }

    /// The frame stored under `key`, if any.
    pub fn get(&self, key: u64) -> (r: Option<&Frame>)
        requires
            self.wf(),
        ensures
            self@.dom().contains(key) ==> r is Some && r.unwrap()@ == self@[key],
            !self@.dom().contains(key) ==> r is None,
    {
        let i = self.locate(key);
        if i < self.entries.len() && self.entries[i].0 == key {
            proof { lemma_lookup(self.entries@, i as int); }
            Some(&self.entries[i].1)
        } else {
            proof {
                if has_key(self.entries@, key) {
                    let j = key_index(self.entries@, key);
                    if j >= i {
                        if j > i {
                            assert(self.entries@[i as int].0 < self.entries@[j].0);
                        }
                    }
                }
            }
            None
        }
    }

    /// Stores `frame` under `key`, replacing a frame stored there. When the
    /// key is new and the cache is full, the frame with the least key leaves
    /// first. A cache of capacity 0 stores nothing.
    pub fn insert(&mut self, key: u64, frame: Frame)
        requires
            old(self).wf(),
        ensures
            final(self).wf(),
            final(self).capacity_spec() == old(self).capacity_spec(),
            final(self)@ == stored(old(self)@, old(self).capacity_spec(), key, frame@),
    {
        proof { lemma_map_finite(self.entries@); }
        if self.capacity == 0 {
            return;
        }
        let ghost m0 = self@;
        let i = self.locate(key);
        if i < self.entries.len() && self.entries[i].0 == key {
            proof { lemma_lookup(self.entries@, i as int); }
            let ghost s0 = self.entries@;
            self.entries.set(i, (key, frame));
            proof { lemma_set_at(s0, i as int, key, frame); }
        } else {
            proof {
                if has_key(self.entries@, key) {
                    let j = key_index(self.entries@, key);
                    if j > i {
                        assert(self.entries@[i as int].0 < self.entries@[j].0);
                    }
                }
            }
            let mut at = i;
            if self.entries.len() >= self.capacity {
                let ghost s1 = self.entries@;
                let _evicted = self.entries.remove(0);
                proof { lemma_remove_first(s1); }
                if at > 0 {
                    at = at - 1;
                }
                proof {
                    let s = self.entries@;
                    assert forall|j: int| 0 <= j < at implies (#[trigger] s[j]).0 < key by {
                        assert(s[j] == s1[j + 1]);
                    }
                    if at < s.len() {
                        if i == 0 {
                            assert(s[0] == s1[1]);
                            assert(s1[0].0 < s1[1].0);
                        } else {
                            assert(s[at as int] == s1[at + 1]);
                        }
                    }
                }
            }
            let ghost s2 = self.entries@;
            self.entries.insert(at, (key, frame));
            proof {
                lemma_insert_at(s2, at as int, key, frame);
                lemma_map_finite(s2);
            }
        }
        proof { lemma_map_finite(self.entries@); }
    }

    /// Drops every frame whose key lies in `[first, last]`.
    pub fn invalidate_range(&mut self, first: u64, last: u64)
        requires
            old(self).wf(),
        ensures
            final(self).wf(),
            final(self).capacity_spec() == old(self).capacity_spec(),
            final(self)@ == old(self)@.restrict(old(self)@.dom().filter(|k: u64| !(first <= k <= last))),
    {
        let ghost m0 = self@;
        let ghost s0 = self.entries@;
        let mut i: usize = 0;
        assert(self.entries@.subrange(0, self.entries@.len() as int) =~= self.entries@);
        while i < self.entries.len()
            invariant
                self.capacity == old(self).capacity,
                self.entries@.len() <= self.capacity,
                sorted_keys(self.entries@),
                m0 == entries_map(s0),
                sorted_keys(s0),
                i <= self.entries@.len(),
                forall|j: int| 0 <= j < i ==> !(first <= (#[trigger] self.entries@[j]).0 <= last),
                forall|k: u64| #[trigger] has_key(self.entries@, k) <==> (m0.dom().contains(k) && (!(first <= k <= last)
                    || has_key(self.entries@.subrange(i as int, self.entries@.len() as int), k))),
                forall|k: u64| has_key(self.entries@, k) ==> #[trigger] entries_map(self.entries@)[k] == m0[k],
            decreases self.entries@.len() - i,
        {
            let k = self.entries[i].0;
            if first <= k && k <= last {
                let ghost s1 = self.entries@;
                let _dropped = self.entries.remove(i);
                proof {
                    let s = self.entries@;
                    assert forall|x: int, y: int| 0 <= x < y < s.len() implies (#[trigger] s[x]).0 < (#[trigger] s[y]).0 by {
                        let x2 = if x < i { x } else { x + 1 };
                        let y2 = if y < i { y } else { y + 1 };
                        assert(s[x] == s1[x2] && s[y] == s1[y2]);
                    }
                    assert forall|kk: u64| #[trigger] has_key(s, kk) <==> (m0.dom().contains(kk) && (!(first <= kk <= last)
                        || has_key(s.subrange(i as int, s.len() as int), kk))) by {
                        if has_key(s, kk) {
                            let j = choose|j: int| 0 <= j < s.len() && s[j].0 == kk;
                            let j2 = if j < i { j } else { j + 1 };
                            assert(s[j] == s1[j2]);
                            assert(has_key(s1, kk));
                            if j >= i {
                                let t = s.subrange(i as int, s.len() as int);
                                assert(t[j - i] == s[j]);
                            }
                            if j2 > i {
                                assert(s1[i as int].0 < s1[j2].0);
                            }
                        }
                        if m0.dom().contains(kk) && !(first <= kk <= last) {
                            assert(has_key(s1, kk));
                            let j = choose|j: int| 0 <= j < s1.len() && s1[j].0 == kk;
                            assert(j != i);
                            let j2 = if j < i { j } else { j - 1 };
                            assert(s[j2] == s1[j]);
                        }
                        if has_key(s.subrange(i as int, s.len() as int), kk) {
                            let t = s.subrange(i as int, s.len() as int);
                            let j = choose|j: int| 0 <= j < t.len() && t[j].0 == kk;
                            assert(s[j + i] == t[j]);
                            assert(s1[j + i + 1] == s[j + i]);
                            assert(has_key(s1, kk));
                            let t1 = s1.subrange(i as int, s1.len() as int);
                            assert(t1[j + 1] == s1[j + i + 1]);
                        }
                    }
                    assert forall|kk: u64| has_key(s, kk) implies #[trigger] entries_map(s)[kk] == m0[kk] by {
                        let j = key_index(s, kk);
                        lemma_lookup(s, j);
                        let j2 = if j < i { j } else { j + 1 };
                        assert(s[j] == s1[j2]);
                        lemma_lookup(s1, j2);
                    }
                }
            } else {
                proof {
                    let s = self.entries@;
                    assert forall|kk: u64| #[trigger] has_key(s, kk) <==> (m0.dom().contains(kk) && (!(first <= kk <= last)
                        || has_key(s.subrange(i + 1, s.len() as int), kk))) by {
                        let t = s.subrange(i as int, s.len() as int);
                        let t1 = s.subrange(i + 1, s.len() as int);
                        if has_key(t, kk) && (first <= kk <= last) {
                            let j = choose|j: int| 0 <= j < t.len() && t[j].0 == kk;
                            assert(j != 0);
                            assert(t1[j - 1] == t[j]);
                        }
                        if has_key(t1, kk) {
                            let j = choose|j: int| 0 <= j < t1.len() && t1[j].0 == kk;
                            assert(s[j + i + 1] == t1[j]);
                        }
                    }
                }
                i = i + 1;
            }
        }
        proof {
            let s = self.entries@;
            let target = m0.restrict(m0.dom().filter(|k: u64| !(first <= k <= last)));
            assert forall|kk: u64| #[trigger] entries_map(s).dom().contains(kk) == target.dom().contains(kk)
                && (entries_map(s).dom().contains(kk) ==> entries_map(s)[kk] == target[kk]) by {
                let t = s.subrange(i as int, s.len() as int);
                if has_key(t, kk) {
                    let j = choose|j: int| 0 <= j < t.len() && t[j].0 == kk;
                }
                if has_key(s, kk) {
                    let j = key_index(s, kk);
                }
            }
            assert(self@ =~= target);
        }
    }

    /// Drops every frame.
    pub fn clear(&mut self)
        requires
            old(self).wf(),
        ensures
            final(self).wf(),
            final(self).capacity_spec() == old(self).capacity_spec(),
            final(self)@ == Map::<u64, FrameView>::empty(),
    {
        self.entries = Vec::new();
        assert(self@ =~= Map::<u64, FrameView>::empty());
    }
}

} // verus!
