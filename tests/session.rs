use aether_core::session::EditSession;
use aether_core::clip::{Clip, ClipType, TimelineError};
use aether_core::timeline::create_default_timeline;
use aether_core::timeline_renderer::{RenderPlan, TimelineRenderer, TimelineRendererConfig};
use aether_core::types::TrackType;

const S: u64 = 1_000_000_000;

fn session() -> (EditSession, u64, u64) {
    let config = TimelineRendererConfig { width: 2, height: 2, fps: 10, background_color: [0, 0, 0, 255], cache_size: 64 };
    let mut r = TimelineRenderer::new(config).unwrap();
    r.initialize();
    let mut s = EditSession::new(create_default_timeline(), r);
    let track = s.add_track("V".to_string(), TrackType::Video).unwrap();
    let clip = s.add_clip(track, Clip::new(0, ClipType::Video, 2 * S, 2 * S)).unwrap();
    (s, track, clip)
}

fn cached(s: &EditSession, t: u64) -> bool {
    matches!(s.begin_frame(t).unwrap(), RenderPlan::Cached(_))
}

fn render_all(s: &mut EditSession) {
    for k in 0..10u64 {
        s.finish_frame(k * S, &vec![]).unwrap();
    }
}

#[test]
fn move_drops_old_and_new_place_only() {
    let (mut s, track, clip) = session();
    render_all(&mut s);
    s.move_clip(track, clip, 6 * S).unwrap();
    assert!(cached(&s, 0) && cached(&s, S) && cached(&s, 4 * S) && cached(&s, 5 * S) && cached(&s, 9 * S));
    assert!(!cached(&s, 2 * S) && !cached(&s, 3 * S));
    assert!(!cached(&s, 6 * S) && !cached(&s, 7 * S));
}

#[test]
fn refused_edit_keeps_the_cache() {
    let (mut s, track, clip) = session();
    render_all(&mut s);
    assert_eq!(s.trim_clip(track, clip, 0), Err(TimelineError::InvalidTime(0)));
    assert!(cached(&s, 2 * S));
}

#[test]
fn trim_remove_split_and_effects_drop_their_span() {
    let (mut s, track, clip) = session();
    render_all(&mut s);
    s.trim_clip(track, clip, 4 * S).unwrap();
    assert!(!cached(&s, 5 * S) && cached(&s, 6 * S));
    render_all(&mut s);
    let fx = s.add_effect(track, clip, "videobalance".to_string(), vec![]).unwrap();
    assert!(!cached(&s, 3 * S) && cached(&s, S));
    render_all(&mut s);
    assert_eq!(s.remove_effect(track, clip, fx).unwrap().id, fx);
    assert!(!cached(&s, 3 * S));
    render_all(&mut s);
    let right = s.split_clip(track, clip, 3 * S).unwrap();
    assert!(!cached(&s, 2 * S) && cached(&s, 6 * S));
    render_all(&mut s);
    s.remove_clip(track, right).unwrap();
    assert!(cached(&s, 2 * S) && !cached(&s, 4 * S));
}

#[test]
fn mute_and_remove_track_drop_everything() {
    let (mut s, track, _clip) = session();
    render_all(&mut s);
    s.set_track_muted(track, true).unwrap();
    assert!(!cached(&s, 0) && !cached(&s, 9 * S));
    render_all(&mut s);
    s.remove_track(track).unwrap();
    assert!(!cached(&s, 0));
    assert!(s.timeline().tracks().is_empty());
}

#[test]
fn playback_through_the_session() {
    let (mut s, _track, _clip) = session();
    s.seek(S).unwrap();
    s.set_playing(true);
    s.set_playback_speed(500).unwrap();
    assert_eq!(s.update(2 * S), 2 * S);
    assert_eq!(s.update(10 * S), 4 * S);
    assert!(!s.timeline().is_playing());
}
