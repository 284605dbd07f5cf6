use aether_core::clip::{Clip, ClipType, TimelineError};
use aether_core::timeline::{create_default_timeline, Timeline, TimelineConfig};
use aether_core::track::Track;
use aether_core::types::TrackType;

const S: u64 = 1_000_000_000;

fn timeline_with_video_track() -> (Timeline, u64) {
    let mut t = create_default_timeline();
    let track = t.add_track("V1".to_string(), TrackType::Video).unwrap();
    (t, track)
}

#[test]
fn test_timeline_track_management() {
    let mut timeline = Timeline::new(TimelineConfig::default());
    let video_track_id = timeline.add_track("video".to_string(), TrackType::Video).unwrap();
    let audio_track_id = timeline.add_track("audio".to_string(), TrackType::Audio).unwrap();
    assert_ne!(video_track_id, audio_track_id);
    assert_eq!(timeline.tracks().len(), 2);
    assert!(timeline.remove_track(video_track_id).is_ok());
    assert_eq!(timeline.tracks().len(), 1);
    assert_eq!(timeline.tracks()[0].id, audio_track_id);
    assert_eq!(timeline.remove_track(video_track_id).unwrap_err(), TimelineError::InvalidTrack(video_track_id));
}

#[test]
fn active_clips_half_open_interval() {
    let (mut t, track) = timeline_with_video_track();
    let id = t.add_clip_to_track(track, Clip::new(0, ClipType::Video, 0, 10 * S)).unwrap();
    let a = t.active_clips(5 * S);
    assert_eq!(a.len(), 1);
    assert_eq!(a[0].0, track);
    assert_eq!(a[0].1.len(), 1);
    assert_eq!(a[0].1[0].id, id);
    assert!(t.active_clips(10 * S).is_empty());
    assert_eq!(t.active_clips(0).len(), 1);
}

#[test]
fn add_clip_overlapping_same_type_is_refused() {
    let (mut t, track) = timeline_with_video_track();
    t.add_clip_to_track(track, Clip::new(0, ClipType::Video, 0, 5 * S)).unwrap();
    let r = t.add_clip_to_track(track, Clip::new(0, ClipType::Video, 2 * S, 2 * S));
    assert_eq!(r, Err(TimelineError::OperationError));
    assert_eq!(t.tracks()[0].clips.len(), 1);
    // An enclosing clip is refused too, and a clip of another type is not.
    assert_eq!(t.add_clip_to_track(track, Clip::new(0, ClipType::Video, 0, 20 * S)), Err(TimelineError::OperationError));
    assert!(t.add_clip_to_track(track, Clip::new(0, ClipType::Audio, 2 * S, 2 * S)).is_ok());
    // Touching intervals do not overlap.
    assert!(t.add_clip_to_track(track, Clip::new(0, ClipType::Video, 5 * S, S)).is_ok());
}

#[test]
fn split_partitions_the_clip() {
    let (mut t, track) = timeline_with_video_track();
    let id = t.add_clip_to_track(track, Clip::new(0, ClipType::Video, 0, 10 * S).with_source("a.mp4".to_string())).unwrap();
    let right = t.split_clip(track, id, 4 * S).unwrap();
    assert_ne!(right, id);
    let clips = &t.tracks()[0].clips;
    assert_eq!(clips.len(), 2);
    let l = clips.iter().find(|c| c.id == id).unwrap();
    let r = clips.iter().find(|c| c.id == right).unwrap();
    assert_eq!((l.start_time, l.duration, l.in_point), (0, 4 * S, 0));
    assert_eq!((r.start_time, r.duration, r.in_point), (4 * S, 6 * S, 4 * S));
    assert_eq!(l.duration + r.duration, 10 * S);
    assert_eq!(r.source_path.as_deref(), Some("a.mp4"));
    assert_eq!(t.duration(), 10 * S);
}

#[test]
fn split_outside_the_clip_is_invalid_time() {
    let (mut t, track) = timeline_with_video_track();
    let id = t.add_clip_to_track(track, Clip::new(0, ClipType::Video, 2 * S, 4 * S)).unwrap();
    assert_eq!(t.split_clip(track, id, 2 * S), Err(TimelineError::InvalidTime(2 * S)));
    assert_eq!(t.split_clip(track, id, 6 * S), Err(TimelineError::InvalidTime(6 * S)));
    assert_eq!(t.split_clip(track, id + 100, 3 * S), Err(TimelineError::InvalidClip(id + 100)));
    assert_eq!(t.split_clip(track + 100, id, 3 * S), Err(TimelineError::InvalidTrack(track + 100)));
    assert_eq!(t.tracks()[0].clips.len(), 1);
}

#[test]
fn trim_keeps_start_and_refuses_zero() {
    let (mut t, track) = timeline_with_video_track();
    let id = t.add_clip_to_track(track, Clip::new(0, ClipType::Video, 3 * S, 4 * S)).unwrap();
    assert_eq!(t.trim_clip(track, id, 0), Err(TimelineError::InvalidTime(0)));
    t.trim_clip(track, id, 2 * S).unwrap();
    let c = &t.tracks()[0].clips[0];
    assert_eq!((c.start_time, c.duration), (3 * S, 2 * S));
    assert_eq!(t.duration(), 5 * S);
}

#[test]
fn trim_into_a_neighbour_is_refused() {
    let (mut t, track) = timeline_with_video_track();
    let a = t.add_clip_to_track(track, Clip::new(0, ClipType::Video, 0, 2 * S)).unwrap();
    t.add_clip_to_track(track, Clip::new(0, ClipType::Video, 3 * S, 2 * S)).unwrap();
    assert_eq!(t.trim_clip(track, a, 4 * S), Err(TimelineError::OperationError));
    assert_eq!(t.tracks()[0].clips[0].duration, 2 * S);
}

#[test]
fn move_changes_only_start_and_duration_follows() {
    let (mut t, track) = timeline_with_video_track();
    let a = t.add_clip_to_track(track, Clip::new(0, ClipType::Video, 0, 2 * S).with_in_point(7)).unwrap();
    t.add_clip_to_track(track, Clip::new(0, ClipType::Video, 3 * S, 2 * S)).unwrap();
    assert_eq!(t.duration(), 5 * S);
    assert_eq!(t.move_clip(track, a, 4 * S), Err(TimelineError::OperationError));
    t.move_clip(track, a, 10 * S).unwrap();
    let c = &t.tracks()[0].clips[0];
    assert_eq!((c.id, c.start_time, c.duration, c.in_point), (a, 10 * S, 2 * S, 7));
    assert_eq!(t.duration(), 12 * S);
    assert_eq!(t.move_clip(track, a, u64::MAX), Err(TimelineError::InvalidTime(u64::MAX)));
}

#[test]
fn remove_clip_recomputes_duration() {
    let (mut t, track) = timeline_with_video_track();
    let a = t.add_clip_to_track(track, Clip::new(0, ClipType::Video, 0, 2 * S)).unwrap();
    let b = t.add_clip_to_track(track, Clip::new(0, ClipType::Video, 5 * S, 2 * S)).unwrap();
    assert_eq!(t.duration(), 7 * S);
    let removed = t.remove_clip_from_track(track, b).unwrap();
    assert_eq!(removed.id, b);
    assert_eq!(t.duration(), 2 * S);
    assert!(matches!(t.remove_clip_from_track(track, b), Err(TimelineError::InvalidClip(x)) if x == b));
    assert_eq!(t.tracks()[0].clips[0].id, a);
}

#[test]
fn muted_tracks_are_not_active() {
    let (mut t, track) = timeline_with_video_track();
    t.add_clip_to_track(track, Clip::new(0, ClipType::Video, 0, 10 * S)).unwrap();
    t.set_track_muted(track, true).unwrap();
    assert!(t.active_clips(S).is_empty());
    t.set_track_muted(track, false).unwrap();
    assert_eq!(t.active_clips(S).len(), 1);
}

#[test]
fn seek_and_playback_clock() {
    let (mut t, track) = timeline_with_video_track();
    t.add_clip_to_track(track, Clip::new(0, ClipType::Video, 0, 10 * S)).unwrap();
    assert_eq!(t.seek(11 * S), Err(TimelineError::InvalidTime(11 * S)));
    t.seek(10 * S).unwrap();
    t.seek(S).unwrap();
    assert_eq!(t.current_time(), S);
    // Paused: the clock does not move.
    assert_eq!(t.update(S), S);
    t.play();
    assert_eq!(t.set_playback_speed(0), Err(TimelineError::OperationError));
    t.set_playback_speed(2000).unwrap();
    assert_eq!(t.update(S), 3 * S);
    assert!(t.is_playing());
    // Reaching the end clamps and pauses.
    assert_eq!(t.update(10 * S), 10 * S);
    assert!(!t.is_playing());
}

#[test]
fn track_level_operations() {
    let mut tr = Track::new(1, "T".to_string(), TrackType::Video);
    tr.add_clip(Clip::new(5, ClipType::Video, 0, 10)).unwrap();
    assert_eq!(tr.add_clip(Clip::new(5, ClipType::Audio, 20, 10)), Err(TimelineError::OperationError));
    tr.split_clip(5, 4, 6).unwrap();
    assert_eq!(tr.clips_at_time(4).len(), 1);
    assert_eq!(tr.clips_at_time(4)[0].id, 6);
    assert_eq!(tr.clips_at_time(3)[0].id, 5);
    assert_eq!(tr.remove_clip(6).unwrap().start_time, 4);
    assert!(tr.remove_clip(6).is_err());
}

#[test]
fn properties_replace_equal_keys() {
    let c = Clip::new(1, ClipType::Text, 0, 1)
        .add_property("k".to_string(), "a".to_string())
        .add_property("j".to_string(), "b".to_string())
        .add_property("k".to_string(), "c".to_string());
    assert_eq!(c.properties, vec![("k".to_string(), "c".to_string()), ("j".to_string(), "b".to_string())]);
    assert_eq!(c.end_time(), 1);
    assert!(c.contains_time(0) && !c.contains_time(1));
}

#[test]
fn effects_attach_and_detach() {
    let (mut t, track) = timeline_with_video_track();
    let clip = t.add_clip_to_track(track, Clip::new(0, ClipType::Video, 0, 10 * S)).unwrap();
    let fx = t.add_effect(track, clip, "gaussianblur".to_string(), vec![("sigma".to_string(), "2".to_string())]).unwrap();
    assert_eq!(t.tracks()[0].clips[0].effects.len(), 1);
    assert_eq!(t.tracks()[0].clips[0].effects[0].kind, "gaussianblur");
    assert_eq!(t.add_effect(track, clip + 100, "x".to_string(), vec![]), Err(TimelineError::InvalidClip(clip + 100)));
    assert!(matches!(t.remove_effect(track, clip, fx + 100), Err(TimelineError::OperationError)));
    let removed = t.remove_effect(track, clip, fx).unwrap();
    assert_eq!(removed.id, fx);
    assert!(t.tracks()[0].clips[0].effects.is_empty());
    assert_eq!(t.clip_span(track, clip), Some((0, 10 * S)));
    assert_eq!(t.clip_span(track, clip + 1), None);
}

#[test]
fn clip_descriptor_carries_placement_and_effects() {
    let (mut t, track) = timeline_with_video_track();
    let clip = t.add_clip_to_track(track, Clip::new(0, ClipType::Video, 2 * S, 3 * S).with_source("s.mp4".to_string()).with_in_point(S)).unwrap();
    let fx = t.add_effect(track, clip, "videoflip".to_string(), vec![("method".to_string(), "1".to_string())]).unwrap();
    let info = t.tracks()[0].clips[0].to_clip_info("intro".to_string(), TrackType::Video);
    assert_eq!((info.id, info.start_time, info.duration, info.in_point, info.out_point), (clip, 2 * S, 3 * S, S, 4 * S));
    assert_eq!(info.name, "intro");
    assert_eq!(info.source_path.as_deref(), Some("s.mp4"));
    assert_eq!(info.effects.len(), 1);
    assert_eq!((info.effects[0].id, info.effects[0].effect_type.as_str(), info.effects[0].start_time, info.effects[0].duration), (fx, "videoflip", 2 * S, 3 * S));
    assert_eq!(info.effects[0].parameters, vec![("method".to_string(), "1".to_string())]);
}
