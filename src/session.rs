//! Editing and rendering together: every edit drops the cached frames of the
//! time it touches, so a later request never sees a stale frame.
use vstd::prelude::*;

use crate::cache::{stored, Frame, FrameView};
use crate::compositing::background_seq;
use crate::decoder::VideoFrame;
use crate::clip::{Clip, ClipEffect, TimelineError};
use crate::timeline::{advanced, has_track, replaced_at, same_clock, track_index, unit_of, Timeline, TimelineView};
use crate::track::{
    add_effect_outcome, add_outcome, clip_index, has_clip, move_outcome, remove_effect_outcome, remove_outcome,
    split_outcome, trim_outcome, Track,
};
use crate::types::TrackType;
use crate::timeline_renderer::{
    composite_layers, frame_key, law_invalidation_covers_range, RenderPlan, TimelineRenderer, TimelineRendererConfig,
    TimelineRendererError,
};

verus! {

/// No frame is cached for any time in `[a, b)`.
pub open spec fn span_dropped(m: Map<u64, FrameView>, fps: int, a: int, b: int) -> bool {
    forall|t: u64| a <= t < b ==> !m.dom().contains(#[trigger] frame_key(t as int, fps) as u64)
}

/// Every frame of `m` was in `old`, unchanged.
pub open spec fn only_dropped(m: Map<u64, FrameView>, old: Map<u64, FrameView>) -> bool {
    forall|k: u64| #[trigger] m.dom().contains(k) ==> old.dom().contains(k) && m[k] == old[k]
}

/// The clip span `(start, end)` of `clip_id` on track `track_id`, if both exist.
pub open spec fn span_of(tl: TimelineView, track_id: u64, clip_id: u64) -> Option<(u64, u64)> {
    if has_track(tl.tracks, track_id) {
        let s = tl.tracks[track_index(tl.tracks, track_id)].clips@;
        if has_clip(s, clip_id) {
            let c = s[clip_index(s, clip_id)];
            Some((c.start_time, c.end() as u64))
        } else {
            None
        }
    } else {
        None
    }
}

/// A timeline with the renderer that shows it.
pub struct EditSession {
    timeline: Timeline,
    renderer: TimelineRenderer,
}

impl EditSession {
    pub closed spec fn wf(&self) -> bool {
        self.timeline.wf() && self.renderer.wf()
    }

    pub closed spec fn timeline_spec(&self) -> TimelineView {
        self.timeline@
    }

    pub closed spec fn cache_spec(&self) -> Map<u64, FrameView> {
        self.renderer.cache_spec()
    }

    pub closed spec fn config_spec(&self) -> TimelineRendererConfig {
        self.renderer.config_spec()
    }

    pub closed spec fn fps_spec(&self) -> int {
        self.renderer.config_spec().fps as int
    }

    pub closed spec fn initialized(&self) -> bool {
        self.renderer.initialized()
    }

    pub fn new(timeline: Timeline, renderer: TimelineRenderer) -> (r: EditSession)
        requires
            timeline.wf(),
            renderer.wf(),
        ensures
            r.wf(),
            r.timeline_spec() == timeline@,
            r.cache_spec() == renderer.cache_spec(),
            r.fps_spec() == renderer.config_spec().fps,
            r.initialized() == renderer.initialized(),
    {
        EditSession { timeline, renderer }
    }

    pub fn timeline(&self) -> (r: &Timeline)
        ensures
            r@ == self.timeline_spec(),
    {
        &self.timeline
    }

    /// Starts a request for the frame at `t`; see `TimelineRenderer::begin_frame`.
    pub fn begin_frame(&self, t: u64) -> (r: Result<RenderPlan, TimelineRendererError>)
        requires
            self.wf(),
        ensures
            !self.initialized() ==> r == Err::<RenderPlan, TimelineRendererError>(TimelineRendererError::ResourceError),
            self.initialized() ==> r is Ok && ({
                let key = frame_key(t as int, self.fps_spec()) as u64;
                match r.unwrap() {
                    RenderPlan::Cached(f) => self.cache_spec().dom().contains(key) && f@ == self.cache_spec()[key],
                    RenderPlan::Layers(v) => !self.cache_spec().dom().contains(key)
                        && crate::timeline_renderer::requests_view(v@) == crate::timeline_renderer::layer_requests(
                        crate::timeline::active_view(self.timeline_spec().tracks, t as int), t as int),
                }
            }),
    {
        self.renderer.begin_frame(&self.timeline, t)
    }

    /// Completes the request for `t`; see `TimelineRenderer::finish_frame`.
    pub fn finish_frame(&mut self, t: u64, layers: &Vec<Option<VideoFrame>>) -> (r: Result<Frame, TimelineRendererError>)
        requires
            old(self).wf(),
        ensures
            final(self).wf(),
            final(self).timeline_spec() == old(self).timeline_spec(),
            final(self).fps_spec() == old(self).fps_spec(),
            final(self).initialized() == old(self).initialized(),
            final(self).config_spec() == old(self).config_spec(),
            !old(self).initialized() ==> r == Err::<Frame, TimelineRendererError>(TimelineRendererError::ResourceError)
                && final(self).cache_spec() == old(self).cache_spec(),
            old(self).initialized() ==> r is Ok && ({
                let c = old(self).config_spec();
                let f = r.unwrap()@;
                &&& f.data == composite_layers(background_seq(c.width as int, c.height as int, c.background_color),
                    c.width as int, c.height as int, layers@)
                &&& f.width == c.width && f.height == c.height && f.timestamp == t
                &&& final(self).cache_spec() == stored(old(self).cache_spec(), c.cache_size as nat,
                    frame_key(t as int, c.fps as int) as u64, f)
            }),
    {
        let r = self.renderer.finish_frame(t, layers);
        r
    }

    /// Drops the cached frames of `[a, b)`.
    fn drop_span(&mut self, a: u64, b: u64)
        requires
            old(self).wf(),
        ensures
            final(self).wf(),
            final(self).timeline_spec() == old(self).timeline_spec(),
            final(self).fps_spec() == old(self).fps_spec(),
            final(self).initialized() == old(self).initialized(),
            span_dropped(final(self).cache_spec(), old(self).fps_spec(), a as int, b as int),
            only_dropped(final(self).cache_spec(), old(self).cache_spec()),
    {
        let ghost m0 = self.renderer.cache_spec();
        let ghost fps = self.renderer.config_spec().fps as int;
        proof { self.renderer.lemma_fps(); }
        self.renderer.invalidate_range(a, b);
        proof {
            let m = self.renderer.cache_spec();
            assert forall|t: u64| a <= t < b implies !m.dom().contains(#[trigger] frame_key(t as int, fps) as u64) by {
                law_invalidation_covers_range(m0, fps, a, b, t);
            }
        }
    }

    /// Moves a clip (see `Timeline::move_clip`); on success the frames of its
    /// old and new place are dropped.
    pub fn move_clip(&mut self, track_id: u64, clip_id: u64, new_start: u64) -> (r: Result<(), TimelineError>)
        requires
            old(self).wf(),
        ensures
            final(self).wf(),
            final(self).fps_spec() == old(self).fps_spec(),
            final(self).initialized() == old(self).initialized(),
            same_clock(final(self).timeline_spec(), old(self).timeline_spec()),
            final(self).timeline_spec().next_id == old(self).timeline_spec().next_id,
            !has_track(old(self).timeline_spec().tracks, track_id) ==> r == Err::<(), TimelineError>(TimelineError::InvalidTrack(track_id))
                && final(self).timeline_spec() == old(self).timeline_spec(),
            has_track(old(self).timeline_spec().tracks, track_id) ==> {
                let k = track_index(old(self).timeline_spec().tracks, track_id);
                &&& replaced_at(old(self).timeline_spec().tracks, k, final(self).timeline_spec().tracks)
                &&& move_outcome(old(self).timeline_spec().tracks[k].clips@, clip_id, new_start, r, final(self).timeline_spec().tracks[k].clips@)
            },
            only_dropped(final(self).cache_spec(), old(self).cache_spec()),
            r is Err ==> final(self).cache_spec() == old(self).cache_spec(),
            r is Ok ==> {
                let (a, b) = span_of(old(self).timeline_spec(), track_id, clip_id).unwrap();
                &&& span_dropped(final(self).cache_spec(), old(self).fps_spec(), a as int, b as int)
                &&& span_dropped(final(self).cache_spec(), old(self).fps_spec(), new_start as int, new_start + (b - a))
            },
    {
        let span = self.timeline.clip_span(track_id, clip_id);
        let r = self.timeline.move_clip(track_id, clip_id, new_start);
        if r.is_ok() {
            let (a, b) = span.unwrap();
            self.drop_span(a, b);
            let ghost m1 = self.renderer.cache_spec();
            self.drop_span(new_start, new_start + (b - a));
            proof {
                lemma_drop_keeps(m1, self.renderer.cache_spec(), self.renderer.config_spec().fps as int, a as int, b as int);
            }
        }
        r
    }

    /// Gives a clip a new duration (see `Timeline::trim_clip`); on success the
    /// frames of its old and new extent are dropped.
    pub fn trim_clip(&mut self, track_id: u64, clip_id: u64, new_duration: u64) -> (r: Result<(), TimelineError>)
        requires
            old(self).wf(),
        ensures
            final(self).wf(),
            final(self).fps_spec() == old(self).fps_spec(),
            final(self).initialized() == old(self).initialized(),
            same_clock(final(self).timeline_spec(), old(self).timeline_spec()),
            final(self).timeline_spec().next_id == old(self).timeline_spec().next_id,
            !has_track(old(self).timeline_spec().tracks, track_id) ==> r == Err::<(), TimelineError>(TimelineError::InvalidTrack(track_id))
                && final(self).timeline_spec() == old(self).timeline_spec(),
            has_track(old(self).timeline_spec().tracks, track_id) ==> {
                let k = track_index(old(self).timeline_spec().tracks, track_id);
                &&& replaced_at(old(self).timeline_spec().tracks, k, final(self).timeline_spec().tracks)
                &&& trim_outcome(old(self).timeline_spec().tracks[k].clips@, clip_id, new_duration, r, final(self).timeline_spec().tracks[k].clips@)
            },
            only_dropped(final(self).cache_spec(), old(self).cache_spec()),
            r is Err ==> final(self).cache_spec() == old(self).cache_spec(),
            r is Ok ==> {
                let (a, b) = span_of(old(self).timeline_spec(), track_id, clip_id).unwrap();
                &&& span_dropped(final(self).cache_spec(), old(self).fps_spec(), a as int, b as int)
                &&& span_dropped(final(self).cache_spec(), old(self).fps_spec(), a as int, a + new_duration)
            },
    {
        let span = self.timeline.clip_span(track_id, clip_id);
        let r = self.timeline.trim_clip(track_id, clip_id, new_duration);
        if r.is_ok() {
            let (a, b) = span.unwrap();
            self.drop_span(a, b);
            let ghost m1 = self.renderer.cache_spec();
            self.drop_span(a, a + new_duration);
            proof {
                lemma_drop_keeps(m1, self.renderer.cache_spec(), self.renderer.config_spec().fps as int, a as int, b as int);
            }
        }
        r
    }

    /// Takes a clip off its track (see `Timeline::remove_clip_from_track`);
    /// on success the frames of its place are dropped.
    pub fn remove_clip(&mut self, track_id: u64, clip_id: u64) -> (r: Result<Clip, TimelineError>)
        requires
            old(self).wf(),
        ensures
            final(self).wf(),
            final(self).fps_spec() == old(self).fps_spec(),
            final(self).initialized() == old(self).initialized(),
            same_clock(final(self).timeline_spec(), old(self).timeline_spec()),
            final(self).timeline_spec().next_id == old(self).timeline_spec().next_id,
            !has_track(old(self).timeline_spec().tracks, track_id) ==> r == Err::<Clip, TimelineError>(TimelineError::InvalidTrack(track_id))
                && final(self).timeline_spec() == old(self).timeline_spec(),
            has_track(old(self).timeline_spec().tracks, track_id) ==> {
                let k = track_index(old(self).timeline_spec().tracks, track_id);
                &&& replaced_at(old(self).timeline_spec().tracks, k, final(self).timeline_spec().tracks)
                &&& remove_outcome(old(self).timeline_spec().tracks[k].clips@, clip_id, r, final(self).timeline_spec().tracks[k].clips@)
            },
            only_dropped(final(self).cache_spec(), old(self).cache_spec()),
            r is Err ==> final(self).cache_spec() == old(self).cache_spec(),
            r is Ok ==> {
                let (a, b) = span_of(old(self).timeline_spec(), track_id, clip_id).unwrap();
                span_dropped(final(self).cache_spec(), old(self).fps_spec(), a as int, b as int)
            },
    {
        let span = self.timeline.clip_span(track_id, clip_id);
        let r = self.timeline.remove_clip_from_track(track_id, clip_id);
        if r.is_ok() {
            let (a, b) = span.unwrap();
            self.drop_span(a, b);
        }
        r
    }

    /// Puts a clip on a track (see `Timeline::add_clip_to_track`); on
    /// success the frames of its place are dropped.
    pub fn add_clip(&mut self, track_id: u64, clip: Clip) -> (r: Result<u64, TimelineError>)
        requires
            old(self).wf(),
            clip.wf(),
        ensures
            final(self).wf(),
            final(self).fps_spec() == old(self).fps_spec(),
            final(self).initialized() == old(self).initialized(),
            same_clock(final(self).timeline_spec(), old(self).timeline_spec()),
            !has_track(old(self).timeline_spec().tracks, track_id) ==> r == Err::<u64, TimelineError>(TimelineError::InvalidTrack(track_id))
                && final(self).timeline_spec() == old(self).timeline_spec(),
            has_track(old(self).timeline_spec().tracks, track_id) && old(self).timeline_spec().next_id == u64::MAX
                ==> r == Err::<u64, TimelineError>(TimelineError::OperationError) && final(self).timeline_spec() == old(self).timeline_spec(),
            has_track(old(self).timeline_spec().tracks, track_id) && old(self).timeline_spec().next_id < u64::MAX ==> {
                let k = track_index(old(self).timeline_spec().tracks, track_id);
                &&& replaced_at(old(self).timeline_spec().tracks, k, final(self).timeline_spec().tracks)
                &&& add_outcome(old(self).timeline_spec().tracks[k].clips@, Clip { id: old(self).timeline_spec().next_id, ..clip },
                    unit_of(r), final(self).timeline_spec().tracks[k].clips@)
                &&& r is Ok ==> r == Ok::<u64, TimelineError>(old(self).timeline_spec().next_id)
                    && final(self).timeline_spec().next_id == old(self).timeline_spec().next_id + 1
                &&& r is Err ==> final(self).timeline_spec().next_id == old(self).timeline_spec().next_id
            },
            only_dropped(final(self).cache_spec(), old(self).cache_spec()),
            r is Err ==> final(self).cache_spec() == old(self).cache_spec(),
            r is Ok ==> span_dropped(final(self).cache_spec(), old(self).fps_spec(), clip.start_time as int, clip.end()),
    {
        let a = clip.start_time;
        let b = clip.end_time();
        let r = self.timeline.add_clip_to_track(track_id, clip);
        if r.is_ok() {
            self.drop_span(a, b);
        }
        r
    }

    /// Cuts a clip (see `Timeline::split_clip`); on success the frames of
    /// its place are dropped.
    pub fn split_clip(&mut self, track_id: u64, clip_id: u64, position: u64) -> (r: Result<u64, TimelineError>)
        requires
            old(self).wf(),
        ensures
            final(self).wf(),
            final(self).fps_spec() == old(self).fps_spec(),
            final(self).initialized() == old(self).initialized(),
            same_clock(final(self).timeline_spec(), old(self).timeline_spec()),
            !has_track(old(self).timeline_spec().tracks, track_id) ==> r == Err::<u64, TimelineError>(TimelineError::InvalidTrack(track_id))
                && final(self).timeline_spec() == old(self).timeline_spec(),
            has_track(old(self).timeline_spec().tracks, track_id) && old(self).timeline_spec().next_id == u64::MAX
                ==> r == Err::<u64, TimelineError>(TimelineError::OperationError) && final(self).timeline_spec() == old(self).timeline_spec(),
            has_track(old(self).timeline_spec().tracks, track_id) && old(self).timeline_spec().next_id < u64::MAX ==> {
                let k = track_index(old(self).timeline_spec().tracks, track_id);
                &&& replaced_at(old(self).timeline_spec().tracks, k, final(self).timeline_spec().tracks)
                &&& split_outcome(old(self).timeline_spec().tracks[k].clips@, clip_id, position, old(self).timeline_spec().next_id,
                    unit_of(r), final(self).timeline_spec().tracks[k].clips@)
                &&& r is Ok ==> r == Ok::<u64, TimelineError>(old(self).timeline_spec().next_id)
                    && final(self).timeline_spec().next_id == old(self).timeline_spec().next_id + 1
                &&& r is Err ==> final(self).timeline_spec().next_id == old(self).timeline_spec().next_id
            },
            only_dropped(final(self).cache_spec(), old(self).cache_spec()),
            r is Err ==> final(self).cache_spec() == old(self).cache_spec(),
            r is Ok ==> {
                let (a, b) = span_of(old(self).timeline_spec(), track_id, clip_id).unwrap();
                span_dropped(final(self).cache_spec(), old(self).fps_spec(), a as int, b as int)
            },
    {
        let span = self.timeline.clip_span(track_id, clip_id);
        let r = self.timeline.split_clip(track_id, clip_id, position);
        if r.is_ok() {
            let (a, b) = span.unwrap();
            self.drop_span(a, b);
        }
        r
    }

    /// Attaches an effect to a clip (see `Timeline::add_effect`); on success
    /// the frames of the clip's place are dropped.
    pub fn add_effect(&mut self, track_id: u64, clip_id: u64, kind: String, parameters: Vec<(String, String)>) -> (r: Result<u64, TimelineError>)
        requires
            old(self).wf(),
        ensures
            final(self).wf(),
            final(self).fps_spec() == old(self).fps_spec(),
            final(self).initialized() == old(self).initialized(),
            same_clock(final(self).timeline_spec(), old(self).timeline_spec()),
            !has_track(old(self).timeline_spec().tracks, track_id) ==> r == Err::<u64, TimelineError>(TimelineError::InvalidTrack(track_id))
                && final(self).timeline_spec() == old(self).timeline_spec(),
            has_track(old(self).timeline_spec().tracks, track_id) && old(self).timeline_spec().next_id == u64::MAX
                ==> r == Err::<u64, TimelineError>(TimelineError::OperationError) && final(self).timeline_spec() == old(self).timeline_spec(),
            has_track(old(self).timeline_spec().tracks, track_id) && old(self).timeline_spec().next_id < u64::MAX ==> {
                let k = track_index(old(self).timeline_spec().tracks, track_id);
                &&& replaced_at(old(self).timeline_spec().tracks, k, final(self).timeline_spec().tracks)
                &&& add_effect_outcome(old(self).timeline_spec().tracks[k].clips@, clip_id,
                    ClipEffect { id: old(self).timeline_spec().next_id, kind, parameters }, unit_of(r),
                    final(self).timeline_spec().tracks[k].clips@)
                &&& r is Ok ==> r == Ok::<u64, TimelineError>(old(self).timeline_spec().next_id)
                    && final(self).timeline_spec().next_id == old(self).timeline_spec().next_id + 1
                &&& r is Err ==> final(self).timeline_spec().next_id == old(self).timeline_spec().next_id
            },
            only_dropped(final(self).cache_spec(), old(self).cache_spec()),
            r is Err ==> final(self).cache_spec() == old(self).cache_spec(),
            r is Ok ==> {
                let (a, b) = span_of(old(self).timeline_spec(), track_id, clip_id).unwrap();
                span_dropped(final(self).cache_spec(), old(self).fps_spec(), a as int, b as int)
            },
    {
        let span = self.timeline.clip_span(track_id, clip_id);
        let r = self.timeline.add_effect(track_id, clip_id, kind, parameters);
        if r.is_ok() {
            let (a, b) = span.unwrap();
            self.drop_span(a, b);
        }
        r
    }

    /// Detaches an effect from a clip (see `Timeline::remove_effect`); on
    /// success the frames of the clip's place are dropped.
    pub fn remove_effect(&mut self, track_id: u64, clip_id: u64, effect_id: u64) -> (r: Result<ClipEffect, TimelineError>)
        requires
            old(self).wf(),
        ensures
            final(self).wf(),
            final(self).fps_spec() == old(self).fps_spec(),
            final(self).initialized() == old(self).initialized(),
            same_clock(final(self).timeline_spec(), old(self).timeline_spec()),
            final(self).timeline_spec().next_id == old(self).timeline_spec().next_id,
            !has_track(old(self).timeline_spec().tracks, track_id) ==> r == Err::<ClipEffect, TimelineError>(TimelineError::InvalidTrack(track_id))
                && final(self).timeline_spec() == old(self).timeline_spec(),
            has_track(old(self).timeline_spec().tracks, track_id) ==> {
                let k = track_index(old(self).timeline_spec().tracks, track_id);
                &&& replaced_at(old(self).timeline_spec().tracks, k, final(self).timeline_spec().tracks)
                &&& remove_effect_outcome(old(self).timeline_spec().tracks[k].clips@, clip_id, effect_id, r,
                    final(self).timeline_spec().tracks[k].clips@)
            },
            only_dropped(final(self).cache_spec(), old(self).cache_spec()),
            r is Err ==> final(self).cache_spec() == old(self).cache_spec(),
            r is Ok ==> {
                let (a, b) = span_of(old(self).timeline_spec(), track_id, clip_id).unwrap();
                span_dropped(final(self).cache_spec(), old(self).fps_spec(), a as int, b as int)
            },
    {
        let span = self.timeline.clip_span(track_id, clip_id);
        let r = self.timeline.remove_effect(track_id, clip_id, effect_id);
        if r.is_ok() {
            let (a, b) = span.unwrap();
            self.drop_span(a, b);
        }
        r
    }

    /// Takes a track off the timeline; every cached frame is dropped.
    pub fn remove_track(&mut self, track_id: u64) -> (r: Result<Track, TimelineError>)
        requires
            old(self).wf(),
        ensures
            final(self).wf(),
            final(self).fps_spec() == old(self).fps_spec(),
            final(self).initialized() == old(self).initialized(),
            same_clock(final(self).timeline_spec(), old(self).timeline_spec()),
            !has_track(old(self).timeline_spec().tracks, track_id) ==> r == Err::<Track, TimelineError>(TimelineError::InvalidTrack(track_id))
                && final(self).timeline_spec() == old(self).timeline_spec() && final(self).cache_spec() == old(self).cache_spec(),
            has_track(old(self).timeline_spec().tracks, track_id) ==> {
                let k = track_index(old(self).timeline_spec().tracks, track_id);
                &&& r == Ok::<Track, TimelineError>(old(self).timeline_spec().tracks[k])
                &&& final(self).timeline_spec().tracks == old(self).timeline_spec().tracks.remove(k)
                &&& final(self).cache_spec() == Map::<u64, FrameView>::empty()
            },
    {
        let r = self.timeline.remove_track(track_id);
        if r.is_ok() {
            self.renderer.clear_cache();
        }
        r
    }

    /// Adds an empty track on top (see `Timeline::add_track`); no frame changes.
    pub fn add_track(&mut self, name: String, track_type: TrackType) -> (r: Result<u64, TimelineError>)
        requires
            old(self).wf(),
        ensures
            final(self).wf(),
            final(self).fps_spec() == old(self).fps_spec(),
            final(self).initialized() == old(self).initialized(),
            final(self).cache_spec() == old(self).cache_spec(),
            same_clock(final(self).timeline_spec(), old(self).timeline_spec()),
            old(self).timeline_spec().next_id == u64::MAX ==> r == Err::<u64, TimelineError>(TimelineError::OperationError)
                && final(self).timeline_spec() == old(self).timeline_spec(),
            old(self).timeline_spec().next_id < u64::MAX ==> {
                let t = final(self).timeline_spec().tracks.last();
                &&& r == Ok::<u64, TimelineError>(old(self).timeline_spec().next_id)
                &&& final(self).timeline_spec().next_id == old(self).timeline_spec().next_id + 1
                &&& final(self).timeline_spec().tracks.drop_last() == old(self).timeline_spec().tracks
                &&& final(self).timeline_spec().tracks.len() == old(self).timeline_spec().tracks.len() + 1
                &&& t.id == old(self).timeline_spec().next_id && t.name == name && t.track_type == track_type
                &&& t.clips@.len() == 0 && !t.is_muted && !t.is_locked
            },
    {
        self.timeline.add_track(name, track_type)
    }

    /// Moves the play position (see `Timeline::seek`).
    pub fn seek(&mut self, time: u64) -> (r: Result<(), TimelineError>)
        requires
            old(self).wf(),
        ensures
            final(self).wf(),
            final(self).fps_spec() == old(self).fps_spec(),
            final(self).initialized() == old(self).initialized(),
            final(self).cache_spec() == old(self).cache_spec(),
            time > old(self).timeline_spec().duration() ==> r == Err::<(), TimelineError>(TimelineError::InvalidTime(time))
                && final(self).timeline_spec() == old(self).timeline_spec(),
            time <= old(self).timeline_spec().duration() ==> r is Ok
                && final(self).timeline_spec() == (TimelineView { current_time: time, ..old(self).timeline_spec() }),
    {
        self.timeline.seek(time)
    }

    /// Starts or stops playback.
    pub fn set_playing(&mut self, playing: bool)
        requires
            old(self).wf(),
        ensures
            final(self).wf(),
            final(self).fps_spec() == old(self).fps_spec(),
            final(self).initialized() == old(self).initialized(),
            final(self).cache_spec() == old(self).cache_spec(),
            final(self).timeline_spec() == (TimelineView { is_playing: playing, ..old(self).timeline_spec() }),
    {
        if playing {
            self.timeline.play();
        } else {
            self.timeline.pause();
        }
    }

    /// Sets the playback speed in thousandths (see `Timeline::set_playback_speed`).
    pub fn set_playback_speed(&mut self, speed: u64) -> (r: Result<(), TimelineError>)
        requires
            old(self).wf(),
        ensures
            final(self).wf(),
            final(self).fps_spec() == old(self).fps_spec(),
            final(self).initialized() == old(self).initialized(),
            final(self).cache_spec() == old(self).cache_spec(),
            speed == 0 ==> r == Err::<(), TimelineError>(TimelineError::OperationError)
                && final(self).timeline_spec() == old(self).timeline_spec(),
            speed > 0 ==> r is Ok && final(self).timeline_spec() == (TimelineView { playback_speed: speed, ..old(self).timeline_spec() }),
    {
        self.timeline.set_playback_speed(speed)
    }

    /// Advances the playback clock by `elapsed` nanoseconds of wall time
    /// (see `Timeline::update`) and returns the new position.
    pub fn update(&mut self, elapsed: u64) -> (r: u64)
        requires
            old(self).wf(),
        ensures
            final(self).wf(),
            final(self).fps_spec() == old(self).fps_spec(),
            final(self).initialized() == old(self).initialized(),
            final(self).cache_spec() == old(self).cache_spec(),
            r == final(self).timeline_spec().current_time,
            !old(self).timeline_spec().is_playing ==> final(self).timeline_spec() == old(self).timeline_spec(),
            old(self).timeline_spec().is_playing ==> {
                let o = old(self).timeline_spec();
                let target = advanced(o.current_time, elapsed, o.playback_speed);
                if target >= o.duration() {
                    final(self).timeline_spec() == (TimelineView { current_time: o.duration() as u64, is_playing: false, ..o })
                } else {
                    final(self).timeline_spec() == (TimelineView { current_time: target as u64, ..o })
                }
            },
    {
        self.timeline.update(elapsed)
    }

    /// Mutes or unmutes a track; every cached frame is dropped.
    pub fn set_track_muted(&mut self, track_id: u64, muted: bool) -> (r: Result<(), TimelineError>)
        requires
            old(self).wf(),
        ensures
            final(self).wf(),
            final(self).fps_spec() == old(self).fps_spec(),
            final(self).initialized() == old(self).initialized(),
            same_clock(final(self).timeline_spec(), old(self).timeline_spec()),
            (r is Ok) == has_track(old(self).timeline_spec().tracks, track_id),
            r is Err ==> r == Err::<(), TimelineError>(TimelineError::InvalidTrack(track_id))
                && final(self).timeline_spec() == old(self).timeline_spec() && final(self).cache_spec() == old(self).cache_spec(),
            r is Ok ==> {
                let k = track_index(old(self).timeline_spec().tracks, track_id);
                &&& final(self).timeline_spec().tracks == old(self).timeline_spec().tracks.update(k,
                    final(self).timeline_spec().tracks[k])
                &&& final(self).timeline_spec().tracks[k].is_muted == muted
                &&& final(self).cache_spec() == Map::<u64, FrameView>::empty()
            },
    {
        let r = self.timeline.set_track_muted(track_id, muted);
        if r.is_ok() {
            self.renderer.clear_cache();
            proof {
                let s = old(self).timeline@.tracks;
                let u = self.timeline@.tracks;
                let k = track_index(s, track_id);
                assert(u =~= s.update(k, u[k]));
            }
        }
        r
    }
}

proof fn lemma_drop_keeps(m1: Map<u64, FrameView>, m2: Map<u64, FrameView>, fps: int, a: int, b: int)
    requires
        span_dropped(m1, fps, a, b),
        only_dropped(m2, m1),
    ensures
        span_dropped(m2, fps, a, b),
{
    assert forall|t: u64| a <= t < b implies !m2.dom().contains(#[trigger] frame_key(t as int, fps) as u64) by {
        if m2.dom().contains(frame_key(t as int, fps) as u64) {
            assert(m1.dom().contains(frame_key(t as int, fps) as u64));
        }
    }
}

} // verus!
