use aether_core::cache::{Frame, FrameCache};
use aether_core::compositing::{background_frame, blend_channel, composite_frame};
use aether_core::decoder::{
    DecodeAction, DecodeEvent, MediaInfo, VideoDecoder, VideoDecoderConfig, VideoDecoderError, VideoFormat,
    VideoFrame, VideoStreamInfo,
};
use aether_core::clip::{Clip, ClipType, TimelineError};
use aether_core::timeline::create_default_timeline;
use aether_core::timeline_renderer::{
    ClipRenderer, RenderPlan, TimelineRenderer, TimelineRendererConfig, TimelineRendererError,
};
use aether_core::types::TrackType;

const S: u64 = 1_000_000_000;

fn solid(width: u32, height: u32, rgba: [u8; 4]) -> VideoFrame {
    let mut buf = Vec::new();
    for _ in 0..(width * height) {
        buf.extend_from_slice(&rgba);
    }
    VideoFrame::new(width, height, VideoFormat::RGBA32, 0, 0).with_buffer(buf)
}

fn small_renderer(cache_size: usize) -> TimelineRenderer {
    let config = TimelineRendererConfig { width: 4, height: 4, fps: 25, background_color: [0, 0, 0, 255], cache_size };
    let mut r = TimelineRenderer::new(config).unwrap();
    r.initialize();
    r
}

fn pixel(f: &Frame, x: usize, y: usize) -> [u8; 4] {
    let p = (y * f.width as usize + x) * 4;
    [f.data[p], f.data[p + 1], f.data[p + 2], f.data[p + 3]]
}

#[test]
fn blend_formula_values() {
    assert_eq!(blend_channel(255, 0, 128), 127);
    assert_eq!(blend_channel(0, 255, 128), 128);
    assert_eq!(blend_channel(10, 200, 255), 200);
    assert_eq!(blend_channel(10, 200, 0), 10);
}

#[test]
fn background_is_filled_with_color() {
    let b = background_frame(2, 3, [1, 2, 3, 4]);
    assert_eq!(b.len(), 24);
    assert!(b.chunks(4).all(|p| p == [1, 2, 3, 4]));
}

#[test]
fn composite_centres_and_blends() {
    let mut out = background_frame(4, 4, [255, 0, 0, 255]);
    let layer = solid(2, 2, [0, 0, 255, 128]);
    assert!(composite_frame(&mut out, 4, 4, &layer));
    for y in 0..4 {
        for x in 0..4 {
            let p = (y * 4 + x) * 4;
            let px = &out[p..p + 4];
            if (1..3).contains(&x) && (1..3).contains(&y) {
                assert_eq!(px, [127, 0, 128, 255]);
            } else {
                assert_eq!(px, [255, 0, 0, 255]);
            }
        }
    }
    // A non-RGBA input is refused and leaves the picture alone.
    let before = out.clone();
    let yuv = VideoFrame::new(2, 2, VideoFormat::YUV420P, 0, 0);
    assert!(!composite_frame(&mut out, 4, 4, &yuv));
    assert_eq!(out, before);
}

#[test]
fn composite_crops_a_larger_input_around_its_centre() {
    let mut out = background_frame(2, 2, [0, 0, 0, 255]);
    let mut big = solid(4, 4, [10, 10, 10, 255]);
    // Mark the input's centre 2x2 block.
    for (x, y) in [(1usize, 1usize), (2, 1), (1, 2), (2, 2)] {
        let p = (y * 4 + x) * 4;
        big.buffer[p] = 99;
    }
    assert!(composite_frame(&mut out, 2, 2, &big));
    assert!(out.chunks(4).all(|p| p == [99, 10, 10, 255]));
}

#[test]
fn two_tracks_composite_in_track_order() {
    let mut t = create_default_timeline();
    let a = t.add_track("A".to_string(), TrackType::Video).unwrap();
    let b = t.add_track("B".to_string(), TrackType::Video).unwrap();
    let ca = t.add_clip_to_track(a, Clip::new(0, ClipType::Video, 0, 5 * S).with_source("red.mp4".to_string())).unwrap();
    let cb = t.add_clip_to_track(b, Clip::new(0, ClipType::Video, 0, 5 * S).with_source("blue.mp4".to_string())).unwrap();
    let mut r = small_renderer(8);
    let plan = r.begin_frame(&t, 2 * S).unwrap();
    let reqs = match plan {
        RenderPlan::Layers(v) => v,
        RenderPlan::Cached(_) => panic!("nothing is cached yet"),
    };
    assert_eq!(reqs.len(), 2);
    assert_eq!((reqs[0].clip_id, reqs[0].source_path.as_str(), reqs[0].source_time), (ca, "red.mp4", 2 * S));
    assert_eq!((reqs[1].clip_id, reqs[1].source_path.as_str(), reqs[1].source_time), (cb, "blue.mp4", 2 * S));
    let layers = vec![Some(solid(4, 4, [255, 0, 0, 255])), Some(solid(2, 2, [0, 0, 255, 128]))];
    let f = r.finish_frame(2 * S, &layers).unwrap();
    assert_eq!(pixel(&f, 0, 0), [255, 0, 0, 255]);
    assert_eq!(pixel(&f, 3, 3), [255, 0, 0, 255]);
    assert_eq!(pixel(&f, 1, 1), [127, 0, 128, 255]);
    assert_eq!(pixel(&f, 2, 2), [127, 0, 128, 255]);
}

#[test]
fn failed_layer_is_skipped() {
    let mut r = small_renderer(8);
    let layers = vec![None, Some(solid(4, 4, [0, 200, 0, 255]))];
    let f = r.finish_frame(0, &layers).unwrap();
    assert!(f.data.chunks(4).all(|p| p == [0, 200, 0, 255]));
}

#[test]
fn second_render_is_served_from_cache() {
    let mut t = create_default_timeline();
    let a = t.add_track("A".to_string(), TrackType::Video).unwrap();
    t.add_clip_to_track(a, Clip::new(0, ClipType::Video, 0, 5 * S).with_source("x.mp4".to_string())).unwrap();
    let mut r = small_renderer(8);
    let first = match r.begin_frame(&t, S).unwrap() {
        RenderPlan::Layers(v) => {
            assert_eq!(v.len(), 1);
            let layers = vec![Some(solid(4, 4, [9, 8, 7, 255]))];
            r.finish_frame(S, &layers).unwrap()
        },
        RenderPlan::Cached(_) => panic!("nothing is cached yet"),
    };
    match r.begin_frame(&t, S).unwrap() {
        RenderPlan::Cached(f) => {
            assert_eq!(f.data, first.data);
            assert_eq!(f.timestamp, S);
        },
        RenderPlan::Layers(_) => panic!("the second request must not decode"),
    }
    // A time in the same frame hits too.
    assert!(matches!(r.begin_frame(&t, S + 1).unwrap(), RenderPlan::Cached(_)));
}

#[test]
fn invalidation_drops_frames_in_range() {
    let t = create_default_timeline();
    let mut r = small_renderer(8);
    for k in 0..5u64 {
        r.finish_frame(k * S, &vec![]).unwrap();
    }
    r.invalidate_range(S, 3 * S);
    assert!(matches!(r.begin_frame(&t, 0).unwrap(), RenderPlan::Cached(_)));
    assert!(matches!(r.begin_frame(&t, S).unwrap(), RenderPlan::Layers(_)));
    assert!(matches!(r.begin_frame(&t, 2 * S + S / 2).unwrap(), RenderPlan::Layers(_)));
    assert!(matches!(r.begin_frame(&t, 3 * S).unwrap(), RenderPlan::Cached(_)));
    assert!(matches!(r.begin_frame(&t, 4 * S).unwrap(), RenderPlan::Cached(_)));
}

#[test]
fn renderer_refuses_before_initialize_and_bad_config() {
    let t = create_default_timeline();
    let config = TimelineRendererConfig { width: 4, height: 4, fps: 25, background_color: [0; 4], cache_size: 2 };
    let mut r = TimelineRenderer::new(config).unwrap();
    assert!(matches!(r.begin_frame(&t, 0), Err(TimelineRendererError::ResourceError)));
    assert!(matches!(r.finish_frame(0, &vec![]), Err(TimelineRendererError::ResourceError)));
    let bad = TimelineRendererConfig { fps: 0, ..config };
    assert!(matches!(TimelineRenderer::new(bad), Err(TimelineRendererError::ResourceError)));
}

#[test]
fn frame_cache_evicts_least_key() {
    let mut c = FrameCache::new(2);
    let f = |t: u64| Frame { data: vec![t as u8], width: 1, height: 1, timestamp: t };
    c.insert(5, f(5));
    c.insert(3, f(3));
    c.insert(9, f(9));
    assert_eq!(c.len(), 2);
    assert!(c.get(3).is_none());
    assert_eq!(c.get(5).unwrap().data, vec![5]);
    assert_eq!(c.get(9).unwrap().data, vec![9]);
    // Replacing an existing key evicts nothing.
    c.insert(5, f(6));
    assert_eq!(c.len(), 2);
    assert_eq!(c.get(5).unwrap().data, vec![6]);
    let mut none = FrameCache::new(0);
    none.insert(1, f(1));
    assert_eq!(none.len(), 0);
}

#[test]
fn clip_renderer_maps_timeline_to_source_time() {
    let cr = ClipRenderer::new(1, "a.mp4".to_string(), 2 * S, 5 * S);
    assert_eq!(cr.seek_to_time(11 * S, 10 * S).unwrap(), 3 * S);
    assert!(matches!(cr.seek_to_time(13 * S, 10 * S), Err(TimelineRendererError::TimelineError(TimelineError::InvalidTime(_)))));
    assert!(cr.seek_to_time(9 * S, 10 * S).is_err());
}

#[test]
fn decoder_session_decisions() {
    let mut d = VideoDecoder::new(VideoDecoderConfig::default());
    assert_eq!(d.seek(0), Err(VideoDecoderError::InitializationError));
    let stream = VideoStreamInfo {
        index: 0, width: 4, height: 4, format: VideoFormat::RGBA32, frame_rate_num: 25, frame_rate_den: 1,
        duration: 10 * S, bit_rate: 0, frames: -1,
    };
    d.open_with(MediaInfo {
        path: "a.mp4".to_string(), format_name: "mp4".to_string(), duration: 10 * S,
        video_streams: vec![stream, stream], audio_streams: vec![], metadata: vec![],
    });
    assert_eq!(d.current_video_stream, 0);
    assert_eq!(d.current_audio_stream, -1);
    assert_eq!(d.seek(11 * S), Err(VideoDecoderError::InvalidTime(11 * S)));
    assert!(d.seek(4 * S).is_ok());
    assert_eq!(d.get_position(), 4 * S);
    assert_eq!(d.select_video_stream(2), Err(VideoDecoderError::InvalidParameter(2)));
    assert_eq!(d.select_video_stream(1), Ok(true));
    assert_eq!(d.select_video_stream(1), Ok(false));
    assert_eq!(d.select_audio_stream(0), Err(VideoDecoderError::InvalidParameter(0)));
    assert_eq!(d.decode_step(DecodeEvent::Packet(0)), Ok(DecodeAction::ReadNext));
    assert_eq!(d.decode_step(DecodeEvent::Packet(1)), Ok(DecodeAction::SendPacket));
    assert_eq!(d.decode_step(DecodeEvent::Again), Ok(DecodeAction::ReadNext));
    assert_eq!(d.decode_step(DecodeEvent::Received(5 * S)), Ok(DecodeAction::Deliver));
    assert_eq!(d.get_position(), 5 * S);
    assert_eq!(d.decode_step(DecodeEvent::EndOfInput), Ok(DecodeAction::EndOfStream));
    assert_eq!(d.decode_step(DecodeEvent::CodecFailed), Err(VideoDecoderError::DecodingError));
    d.close();
    d.close();
    assert!(d.get_media_info().is_none());
    assert_eq!(d.decode_step(DecodeEvent::Again), Err(VideoDecoderError::InitializationError));
}
