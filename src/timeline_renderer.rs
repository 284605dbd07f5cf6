//! Turning a timeline into frames. A frame request is served from the cache
//! or planned as layers to decode; the caller decodes them (with the timeline
//! lock released) and hands the pictures back to be composited and cached.
use vstd::prelude::*;
use vstd::arithmetic::div_mod::lemma_div_is_ordered;

use crate::cache::{stored, Frame, FrameCache, FrameView};
use crate::compositing::{background_frame, background_seq, composite_frame, composite_seq};
use crate::decoder::{VideoDecoderError, VideoFrame};
use crate::clip::{Clip, ClipType, TimelineError};
use crate::timeline::{active_deref, active_view, Timeline};
use crate::track::{covering, deref_all, lemma_covering, Track};
use crate::types::RendererError;

verus! {

/// Why a render request failed.
#[derive(Debug, Clone, Copy, PartialEq, Eq, Structural)]
pub enum TimelineRendererError {
    TimelineError(TimelineError),
    RendererError(RendererError),
    DecoderError(VideoDecoderError),
    CompositionError,
    /// The renderer is not ready, or its configuration cannot be met.
    ResourceError,
}

/// Output geometry and caching of a renderer.
#[derive(Debug, Clone, Copy)]
pub struct TimelineRendererConfig {
    pub width: u32,
    pub height: u32,
    /// Frames per second; requested times are quantized to frames of this rate.
    pub fps: u32,
    /// RGBA.
    pub background_color: [u8; 4],
    /// Number of frames to cache.
    pub cache_size: usize,
}

impl Default for TimelineRendererConfig {
    fn default() -> (r: TimelineRendererConfig)
        ensures
            r.width == 1920 && r.height == 1080 && r.fps == 30,
            r.background_color == [0u8, 0u8, 0u8, 255u8],
            r.cache_size == 30,
    {
        TimelineRendererConfig { width: 1920, height: 1080, fps: 30, background_color: [0, 0, 0, 255], cache_size: 30 }
    }
}

pub const NANOS_PER_SECOND: u64 = 1_000_000_000;

/// The index of the frame, at `fps` frames per second, that shows time `t`
/// (nanoseconds).
pub open spec fn frame_key(t: int, fps: int) -> int {
    t * fps / 1_000_000_000
}

/// Source time shown at timeline time `t` by a clip starting at `start`
/// whose window begins at `in_point`.
pub open spec fn source_time_of(in_point: int, t: int, start: int) -> int {
    in_point + (t - start)
}

/// Maps timeline time to source time for one clip, and guards its window
/// `[in_point, out_point)` of the source.
#[derive(Debug)]
pub struct ClipRenderer {
    pub clip_id: u64,
    pub source_path: String,
    pub in_point: u64,
    pub out_point: u64,
}

impl ClipRenderer {
    pub fn new(clip_id: u64, source_path: String, in_point: u64, out_point: u64) -> (r: ClipRenderer)
        ensures
            r == (ClipRenderer { clip_id, source_path, in_point, out_point }),
    {
        ClipRenderer { clip_id, source_path, in_point, out_point }
    }

    /// The renderer for a clip with a source: its window is the clip's
    /// trimmed part of the source.
    pub fn for_clip(clip: &Clip) -> (r: Option<ClipRenderer>)
        requires
            clip.wf(),
        ensures
            clip.source_path is None ==> r is None,
            clip.source_path is Some ==> r is Some && ({
                let cr = r.unwrap();
                &&& cr.clip_id == clip.id
                &&& cr.source_path == clip.source_path.unwrap()
                &&& cr.in_point == clip.in_point
                &&& cr.out_point == clip.in_point + clip.duration
            }),
    {
        match &clip.source_path {
            None => None,
            Some(p) => Some(ClipRenderer::new(clip.id, p.clone(), clip.in_point, clip.in_point + clip.duration)),
        }
    }

    /// The source time for `timeline_time` in a clip starting at
    /// `clip_start`; refused when it falls outside the clip's window.
    pub fn seek_to_time(&self, timeline_time: u64, clip_start: u64) -> (r: Result<u64, TimelineRendererError>)
        ensures
            (clip_start <= timeline_time && self.in_point <= source_time_of(self.in_point as int, timeline_time as int, clip_start as int) < self.out_point)
                ==> r == Ok::<u64, TimelineRendererError>(source_time_of(self.in_point as int, timeline_time as int, clip_start as int) as u64),
            !(clip_start <= timeline_time && source_time_of(self.in_point as int, timeline_time as int, clip_start as int) < self.out_point)
                ==> r == Err::<u64, TimelineRendererError>(TimelineRendererError::TimelineError(TimelineError::InvalidTime(timeline_time))),
    {
        if timeline_time < clip_start || timeline_time - clip_start >= self.out_point || self.in_point >= self.out_point - (timeline_time - clip_start) {
            return Err(TimelineRendererError::TimelineError(TimelineError::InvalidTime(timeline_time)));
        }
        Ok(self.in_point + (timeline_time - clip_start))
    }
}

/// One layer to decode: which clip, from which source, at which source time.
#[derive(Debug)]
pub struct LayerRequest {
    pub clip_id: u64,
    pub source_path: String,
    pub source_time: u64,
}

pub open spec fn request_view(r: LayerRequest) -> (u64, Seq<char>, int) {
    (r.clip_id, r.source_path@, r.source_time as int)
}

pub open spec fn requests_view(s: Seq<LayerRequest>) -> Seq<(u64, Seq<char>, int)> {
    s.map_values(|r: LayerRequest| request_view(r))
}

/// The layers that the clips `cs` give at time `t`: one for each video clip
/// with a source, in order.
pub open spec fn clip_layers(cs: Seq<Clip>, t: int) -> Seq<(u64, Seq<char>, int)>
    decreases cs.len(),
{
    if cs.len() == 0 {
        Seq::empty()
    } else {
        let p = clip_layers(cs.drop_last(), t);
        let c = cs.last();
        if c.clip_type == ClipType::Video && c.source_path is Some {
            p.push((c.id, c.source_path.unwrap()@, source_time_of(c.in_point as int, t, c.start_time as int)))
        } else {
            p
        }
    }
}

/// The layers of the active clips, track by track, lowest track first.
pub open spec fn layer_requests(a: Seq<(u64, Seq<Clip>)>, t: int) -> Seq<(u64, Seq<char>, int)>
    decreases a.len(),
{
    if a.len() == 0 {
        Seq::empty()
    } else {
        layer_requests(a.drop_last(), t) + clip_layers(a.last().1, t)
    }
}

/// The picture made by compositing `layers` in order over `out`; a missing
/// layer (its decode failed) is skipped.
pub open spec fn composite_layers(out: Seq<u8>, ow: int, oh: int, layers: Seq<Option<VideoFrame>>) -> Seq<u8>
    decreases layers.len(),
{
    if layers.len() == 0 {
        out
    } else {
        let below = composite_layers(out, ow, oh, layers.drop_last());
        match layers.last() {
            Some(f) => composite_seq(below, ow, oh, f),
            None => below,
        }
    }
}

/// The result of asking for a frame.
#[derive(Debug)]
pub enum RenderPlan {
    /// The frame was cached: no decoding is needed.
    Cached(Frame),
    /// Decode these layers, bottom first, and hand them to `finish_frame`.
    Layers(Vec<LayerRequest>),
}

/// Every clip listed in `active_view(s, t)` covers `t` and is well formed.
proof fn lemma_active_clips_cover(s: Seq<Track>, t: int)
    requires
        forall|k: int| 0 <= k < s.len() ==> (#[trigger] s[k]).wf(),
    ensures
        forall|e: int, j: int| 0 <= e < active_view(s, t).len() && 0 <= j < active_view(s, t)[e].1.len()
            ==> (#[trigger] active_view(s, t)[e].1[j]).covers(t) && active_view(s, t)[e].1[j].wf(),
    decreases s.len(),
{
    if s.len() > 0 {
        let p = s.drop_last();
        assert forall|k: int| 0 <= k < p.len() implies (#[trigger] p[k]).wf() by {
            assert(p[k] == s[k]);
        }
        lemma_active_clips_cover(p, t);
        let a = active_view(s, t);
        let ap = active_view(p, t);
        let lt = s.last();
        assert(s[s.len() - 1].wf());
        assert forall|e: int, j: int| 0 <= e < a.len() && 0 <= j < a[e].1.len()
            implies (#[trigger] a[e].1[j]).covers(t) && a[e].1[j].wf() by {
            if e < ap.len() {
                assert(a[e] == ap[e]);
            } else {
                let c = a[e].1[j];
                assert(covering(lt.clips@, t).contains(c));
                lemma_covering(lt.clips@, t, c);
                let x = choose|x: int| 0 <= x < lt.clips@.len() && lt.clips@[x] == c;
            }
        }
    }
}

/// Renders frames of a timeline, caching composited frames by frame index.
pub struct TimelineRenderer {
    config: TimelineRendererConfig,
    cache: FrameCache,
    is_initialized: bool,
}

/// A configuration a renderer can work with: a frame buffer that fits in
/// memory and a frame rate from 1 to 10^9 frames per second.
pub open spec fn config_ok(c: TimelineRendererConfig) -> bool {
    &&& c.width * c.height * 4 <= usize::MAX
    &&& 1 <= c.fps <= 1_000_000_000
}

impl TimelineRenderer {
    pub closed spec fn wf(&self) -> bool {
        &&& self.cache.wf()
        &&& config_ok(self.config)
        &&& self.cache.capacity_spec() == self.config.cache_size
    }

    /// A well-formed renderer's frame rate lies in `[1, 10^9]`.
    pub proof fn lemma_fps(&self)
        requires
            self.wf(),
        ensures
            1 <= self.config_spec().fps <= 1_000_000_000,
    {
    }

    pub closed spec fn config_spec(&self) -> TimelineRendererConfig {
        self.config
    }

    pub closed spec fn cache_spec(&self) -> Map<u64, FrameView> {
        self.cache@
    }

    pub closed spec fn initialized(&self) -> bool {
        self.is_initialized
    }

    /// A renderer with an empty cache; it renders once `initialize` is called.
    pub fn new(config: TimelineRendererConfig) -> (r: Result<TimelineRenderer, TimelineRendererError>)
        ensures
            !config_ok(config) ==> r == Err::<TimelineRenderer, TimelineRendererError>(TimelineRendererError::ResourceError),
            config_ok(config) ==> r is Ok && ({
                let tr = r.unwrap();
                &&& tr.wf()
                &&& tr.config_spec() == config
                &&& tr.cache_spec() == Map::<u64, FrameView>::empty()
                &&& !tr.initialized()
            }),
    {
        proof {
            assert((config.width as u128) * (config.height as u128) * 4 <= u32::MAX * u32::MAX * 4) by (nonlinear_arith)
                requires config.width <= u32::MAX, config.height <= u32::MAX;
        }
        if (config.width as u128) * (config.height as u128) * 4 > usize::MAX as u128 || config.fps == 0
            || config.fps as u64 > NANOS_PER_SECOND
        {
            return Err(TimelineRendererError::ResourceError);
        }
        let cache = FrameCache::new(config.cache_size);
        Ok(TimelineRenderer { config, cache, is_initialized: false })
    }

    pub fn initialize(&mut self)
        requires
            old(self).wf(),
        ensures
            final(self).wf(),
            final(self).initialized(),
            final(self).config_spec() == old(self).config_spec(),
            final(self).cache_spec() == old(self).cache_spec(),
    {
        self.is_initialized = true;
    }

    pub fn config(&self) -> (r: &TimelineRendererConfig)
        ensures
            *r == self.config_spec(),
    {
        &self.config
    }

    /// The frame index that time `t` falls in.
    pub fn frame_key(&self, t: u64) -> (r: u64)
        requires
            self.wf(),
        ensures
            r == frame_key(t as int, self.config_spec().fps as int),
    {
        let fps = self.config.fps as u64;
        proof {
            assert((t as int) * (fps as int) <= u64::MAX * 1_000_000_000) by (nonlinear_arith)
                requires t <= u64::MAX, fps <= 1_000_000_000;
            assert((t as int) * (fps as int) / 1_000_000_000 <= u64::MAX) by (nonlinear_arith)
                requires (t as int) * (fps as int) <= u64::MAX * 1_000_000_000;
        }
        ((t as u128) * (fps as u128) / (NANOS_PER_SECOND as u128)) as u64
    }

    /// Starts a request for the frame at time `t`: the cached frame, or the
    /// layers to decode, taken from the timeline's active clips.
    pub fn begin_frame(&self, timeline: &Timeline, t: u64) -> (r: Result<RenderPlan, TimelineRendererError>)
        requires
            self.wf(),
            timeline.wf(),
        ensures
            !self.initialized() ==> r == Err::<RenderPlan, TimelineRendererError>(TimelineRendererError::ResourceError),
            self.initialized() ==> r is Ok && ({
                let key = frame_key(t as int, self.config_spec().fps as int) as u64;
                match r.unwrap() {
                    RenderPlan::Cached(f) => self.cache_spec().dom().contains(key) && f@ == self.cache_spec()[key],
                    RenderPlan::Layers(v) => !self.cache_spec().dom().contains(key)
                        && requests_view(v@) == layer_requests(active_view(timeline@.tracks, t as int), t as int),
                }
            }),
    {
        if !self.is_initialized {
            return Err(TimelineRendererError::ResourceError);
        }
        let key = self.frame_key(t);
        match self.cache.get(key) {
            Some(f) => {
                return Ok(RenderPlan::Cached(f.duplicate()));
            },
            None => {},
        }
        let active = timeline.active_clips(t);
        let ghost av = active_view(timeline@.tracks, t as int);
        proof {
            lemma_active_clips_cover(timeline@.tracks, t as int);
        }
        let mut reqs: Vec<LayerRequest> = Vec::new();
        let mut i: usize = 0;
        while i < active.len()
            invariant
                active_deref(active@) == av,
                forall|e: int, j: int| 0 <= e < av.len() && 0 <= j < av[e].1.len()
                    ==> (#[trigger] av[e].1[j]).covers(t as int) && av[e].1[j].wf(),
                i <= active@.len(),
                requests_view(reqs@) == layer_requests(av.subrange(0, i as int), t as int),
            decreases active@.len() - i,
        {
            let clips = &active[i].1;
            let ghost cs = av[i as int].1;
            assert(active_deref(active@)[i as int] == av[i as int]);
            let ghost before = reqs@;
            let mut j: usize = 0;
            while j < clips.len()
                invariant
                    active_deref(active@) == av,
                    i < active@.len(),
                    *clips == active@[i as int].1,
                    cs == av[i as int].1,
                    cs == deref_all(clips@),
                    forall|x: int| 0 <= x < cs.len() ==> (#[trigger] cs[x]).covers(t as int) && cs[x].wf(),
                    j <= clips@.len(),
                    requests_view(reqs@) == requests_view(before) + clip_layers(cs.subrange(0, j as int), t as int),
                decreases clips@.len() - j,
            {
                let c: &Clip = clips[j];
                assert(*c == cs[j as int]);
                proof {
                    assert(cs.subrange(0, j + 1).drop_last() =~= cs.subrange(0, j as int));
                }
                let ghost r0 = reqs@;
                if c.clip_type == ClipType::Video {
                    match ClipRenderer::for_clip(c) {
                        Some(cr) => {
                            match cr.seek_to_time(t, c.start_time) {
                                Ok(st) => {
                                    reqs.push(LayerRequest { clip_id: cr.clip_id, source_path: cr.source_path, source_time: st });
                                    proof {
                                        assert(requests_view(reqs@) =~= requests_view(r0).push(request_view(reqs@.last())));
                                    }
                                },
                                Err(_) => {},
                            }
                        },
                        None => {},
                    }
                }
                j = j + 1;
            }
            proof {
                assert(cs.subrange(0, cs.len() as int) =~= cs);
                assert(av.subrange(0, i + 1).drop_last() =~= av.subrange(0, i as int));
                assert(av.subrange(0, i + 1).last() == av[i as int]);
            }
            i = i + 1;
        }
        proof {
            assert(av.subrange(0, av.len() as int) =~= av);
        }
        Ok(RenderPlan::Layers(reqs))
    }

    /// Completes the request for time `t`: composites the decoded layers in
    /// order over the background, caches the frame and returns it.
    pub fn finish_frame(&mut self, t: u64, layers: &Vec<Option<VideoFrame>>) -> (r: Result<Frame, TimelineRendererError>)
        requires
            old(self).wf(),
        ensures
            final(self).wf(),
            final(self).config_spec() == old(self).config_spec(),
            final(self).initialized() == old(self).initialized(),
            !old(self).initialized() ==> r == Err::<Frame, TimelineRendererError>(TimelineRendererError::ResourceError)
                && final(self).cache_spec() == old(self).cache_spec(),
            old(self).initialized() ==> r is Ok && ({
                let c = old(self).config_spec();
                let f = r.unwrap()@;
                &&& f.data == composite_layers(background_seq(c.width as int, c.height as int, c.background_color),
                    c.width as int, c.height as int, layers@)
                &&& f.width == c.width && f.height == c.height && f.timestamp == t
                &&& final(self).cache_spec() == stored(old(self).cache_spec(), c.cache_size as nat,
                    frame_key(t as int, c.fps as int) as u64, f)
            }),
    {
        if !self.is_initialized {
            return Err(TimelineRendererError::ResourceError);
        }
        let w = self.config.width;
        let h = self.config.height;
        let mut data = background_frame(w, h, self.config.background_color);
        let ghost bg = data@;
        let mut i: usize = 0;
        while i < layers.len()
            invariant
                config_ok(self.config),
                w == self.config.width && h == self.config.height,
                i <= layers@.len(),
                data@.len() == w * h * 4,
                data@ == composite_layers(bg, w as int, h as int, layers@.subrange(0, i as int)),
            decreases layers@.len() - i,
        {
            proof {
                assert(layers@.subrange(0, i + 1).drop_last() =~= layers@.subrange(0, i as int));
            }
            match &layers[i] {
                Some(f) => {
                    let _blended = composite_frame(&mut data, w, h, f);
                },
                None => {},
            }
            i = i + 1;
        }
        proof {
            assert(layers@.subrange(0, layers@.len() as int) =~= layers@);
        }
        let frame = Frame { data, width: w, height: h, timestamp: t };
        let key = self.frame_key(t);
        self.cache.insert(key, frame.duplicate());
        Ok(frame)
    }

    /// Drops the cached frames of every time in `[a, b)`: the frames with
    /// index from that of `a` to that of the last nanosecond before `b`.
    pub fn invalidate_range(&mut self, a: u64, b: u64)
        requires
            old(self).wf(),
        ensures
            final(self).wf(),
            final(self).config_spec() == old(self).config_spec(),
            final(self).initialized() == old(self).initialized(),
            a >= b ==> final(self).cache_spec() == old(self).cache_spec(),
            a < b ==> final(self).cache_spec() == old(self).cache_spec().restrict(old(self).cache_spec().dom().filter(
                |k: u64| !(frame_key(a as int, old(self).config_spec().fps as int) <= k
                    <= frame_key(b - 1, old(self).config_spec().fps as int)))),
    {
        if a >= b {
            return;
        }
        let lo = self.frame_key(a);
        let hi = self.frame_key(b - 1);
        self.cache.invalidate_range(lo, hi);
    }

    /// Drops every cached frame (the timeline changed as a whole, or a
    /// track's mute state did).
    pub fn clear_cache(&mut self)
        requires
            old(self).wf(),
        ensures
            final(self).wf(),
            final(self).config_spec() == old(self).config_spec(),
            final(self).initialized() == old(self).initialized(),
            final(self).cache_spec() == Map::<u64, FrameView>::empty(),
    {
        self.cache.clear();
    }

    /// Drops every cached frame and stops rendering until initialized again.
    pub fn cleanup(&mut self)
        requires
            old(self).wf(),
        ensures
            final(self).wf(),
            final(self).config_spec() == old(self).config_spec(),
            !final(self).initialized(),
            final(self).cache_spec() == Map::<u64, FrameView>::empty(),
    {
        self.cache.clear();
        self.is_initialized = false;
    }
}

/// A renderer with the default configuration, ready to render.
pub fn create_default_timeline_renderer() -> (r: TimelineRenderer)
    ensures
        r.wf(),
        r.initialized(),
        r.config_spec() == (TimelineRendererConfig { width: 1920, height: 1080, fps: 30, background_color: [0u8, 0u8, 0u8, 255u8], cache_size: 30 }),
        r.cache_spec() == Map::<u64, FrameView>::empty(),
{
    let config = TimelineRendererConfig::default();
    let cache = FrameCache::new(config.cache_size);
    TimelineRenderer { config, cache, is_initialized: true }
}

/// A frame just stored is found under its key, as stored, by the next
/// request for that time, provided the cache has room for a frame: with no
/// change in between, the second request is served from the cache.
pub proof fn law_second_request_is_cached(m: Map<u64, FrameView>, capacity: nat, key: u64, f: FrameView)
    requires
        capacity > 0,
    ensures
        stored(m, capacity, key, f).dom().contains(key),
        stored(m, capacity, key, f)[key] == f,
{
}

/// After the frames of `[a, b)` are dropped, no frame is cached for any
/// time `t` in `[a, b)`.
pub proof fn law_invalidation_covers_range(m: Map<u64, FrameView>, fps: int, a: u64, b: u64, t: u64)
    requires
        1 <= fps <= 1_000_000_000,
        a <= t < b,
    ensures
        !m.restrict(m.dom().filter(|k: u64| !(frame_key(a as int, fps) <= k <= frame_key(b - 1, fps)))).dom().contains(
            frame_key(t as int, fps) as u64),
{
    assert((a as int) * fps <= (t as int) * fps) by (nonlinear_arith) requires a <= t, fps >= 1;
    assert((t as int) * fps <= (b - 1) * fps) by (nonlinear_arith) requires t <= b - 1, fps >= 1;
    lemma_div_is_ordered((a as int) * fps, (t as int) * fps, 1_000_000_000);
    lemma_div_is_ordered((t as int) * fps, (b - 1) * fps, 1_000_000_000);
    assert(0 <= (t as int) * fps) by (nonlinear_arith) requires fps >= 1;
    assert((t as int) * fps <= u64::MAX * 1_000_000_000) by (nonlinear_arith) requires t <= u64::MAX, fps <= 1_000_000_000;
    assert((t as int) * fps / 1_000_000_000 <= u64::MAX) by (nonlinear_arith)
        requires (t as int) * fps <= u64::MAX * 1_000_000_000;
}

} // verus!
