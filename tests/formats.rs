use aether_core::encoder::{decimal_string, EncoderOptions, EncoderPreset};
use aether_core::formats::{get_available_formats, AudioFormat, ContainerFormat, VideoFormat};
use aether_core::effects::{get_available_effects, get_available_transitions, Effect, EffectType, TransitionType};
use aether_core::types::ExportStage;

#[test]
fn test_container_format_properties() {
    let mp4 = ContainerFormat::Mp4;
    assert_eq!(mp4.to_ffmpeg_name(), "mp4");
    assert_eq!(mp4.extension(), "mp4");
    assert_eq!(mp4.display_name(), "MP4");

    let mkv = ContainerFormat::Mkv;
    assert_eq!(mkv.to_ffmpeg_name(), "matroska");
    assert_eq!(mkv.extension(), "mkv");
    assert_eq!(mkv.display_name(), "Matroska (MKV)");
}

#[test]
fn test_video_format_properties() {
    let h264 = VideoFormat::H264;
    assert_eq!(h264.to_ffmpeg_name(), "libx264");
    assert_eq!(h264.display_name(), "H.264 / AVC");
    assert!(h264.is_compatible_with(ContainerFormat::Mp4));
    assert!(h264.is_compatible_with(ContainerFormat::Mkv));
    assert!(!h264.is_compatible_with(ContainerFormat::Webm));

    let vp9 = VideoFormat::Vp9;
    assert_eq!(vp9.to_ffmpeg_name(), "libvpx-vp9");
    assert_eq!(vp9.display_name(), "VP9");
    assert!(vp9.is_compatible_with(ContainerFormat::Webm));
    assert!(vp9.is_compatible_with(ContainerFormat::Mkv));
    assert!(!vp9.is_compatible_with(ContainerFormat::Mp4));
}

#[test]
fn test_audio_format_properties() {
    let aac = AudioFormat::Aac;
    assert_eq!(aac.to_ffmpeg_name(), "aac");
    assert_eq!(aac.display_name(), "AAC");
    assert!(aac.is_compatible_with(ContainerFormat::Mp4));
    assert!(aac.is_compatible_with(ContainerFormat::Mkv));
    assert!(!aac.is_compatible_with(ContainerFormat::Webm));

    let opus = AudioFormat::Opus;
    assert_eq!(opus.to_ffmpeg_name(), "libopus");
    assert_eq!(opus.display_name(), "Opus");
    assert!(opus.is_compatible_with(ContainerFormat::Webm));
    assert!(opus.is_compatible_with(ContainerFormat::Mkv));
    assert!(!opus.is_compatible_with(ContainerFormat::Mp4));
}

#[test]
fn test_encoder_options() {
    let default_options = EncoderOptions::default();
    assert_eq!(default_options.video_format, VideoFormat::H264);
    assert_eq!(default_options.audio_format, AudioFormat::Aac);
    assert_eq!(default_options.preset, EncoderPreset::Medium);

    let high_quality = EncoderOptions::high_quality();
    assert_eq!(high_quality.video_format, VideoFormat::H265);
    assert_eq!(high_quality.audio_format, AudioFormat::Flac);
    assert_eq!(high_quality.preset, EncoderPreset::Slow);
    assert_eq!(high_quality.crf, 18);
    assert!(high_quality.two_pass);

    let web_delivery = EncoderOptions::web_delivery();
    assert_eq!(web_delivery.video_format, VideoFormat::H264);
    assert_eq!(web_delivery.audio_format, AudioFormat::Aac);
    assert_eq!(web_delivery.preset, EncoderPreset::Medium);
    assert_eq!(web_delivery.crf, 23);
    assert!(!web_delivery.two_pass);

    let mut custom = EncoderOptions::default();
    custom
        .with_preset(EncoderPreset::Fast)
        .with_crf(20)
        .with_video_bitrate(5000000)
        .with_audio_bitrate(192000)
        .with_two_pass(true)
        .add_option("profile:v", "high");

    assert_eq!(custom.preset, EncoderPreset::Fast);
    assert_eq!(custom.crf, 20);
    assert_eq!(custom.video_bitrate, 5000000);
    assert_eq!(custom.audio_bitrate, 192000);
    assert!(custom.two_pass);
    assert_eq!(custom.option("profile:v").unwrap(), "high");
}

#[test]
fn test_encoder_preset_properties() {
    let medium = EncoderPreset::Medium;
    assert_eq!(medium.to_ffmpeg_name(), "medium");
    assert!(medium.description().contains("Balanced"));

    let veryslow = EncoderPreset::VerySlow;
    assert_eq!(veryslow.to_ffmpeg_name(), "veryslow");
    assert!(veryslow.description().contains("Extremely slow"));
}

#[test]
fn test_format_compatibility() {
    let formats = get_available_formats();
    assert!(!formats.is_empty());

    let mp4_format = formats.iter().find(|f| f.container == ContainerFormat::Mp4).unwrap();
    assert!(mp4_format.video_formats.contains(&VideoFormat::H264));
    assert!(mp4_format.audio_formats.contains(&AudioFormat::Aac));
    assert!(mp4_format.web_friendly);

    let mkv_format = formats.iter().find(|f| f.container == ContainerFormat::Mkv).unwrap();
    assert!(mkv_format.video_formats.contains(&VideoFormat::H264));
    assert!(mkv_format.video_formats.contains(&VideoFormat::H265));
    assert!(mkv_format.audio_formats.contains(&AudioFormat::Flac));
    assert!(!mkv_format.web_friendly);

    let webm_format = formats.iter().find(|f| f.container == ContainerFormat::Webm).unwrap();
    assert!(webm_format.video_formats.contains(&VideoFormat::Vp9));
    assert!(webm_format.audio_formats.contains(&AudioFormat::Opus));
    assert!(webm_format.web_friendly);
}

#[test]
fn gif_carries_no_audio_and_mjpeg_only() {
    let formats = get_available_formats();
    assert_eq!(formats.len(), 11);
    let gif = formats.iter().find(|f| f.container == ContainerFormat::Gif).unwrap();
    assert!(gif.audio_formats.is_empty());
    assert_eq!(gif.video_formats, vec![VideoFormat::Mjpeg]);
    assert_eq!(gif.use_case, "Short animations without audio");
}

#[test]
fn add_option_replaces_an_equal_key() {
    let mut o = EncoderOptions::professional();
    assert_eq!(o.option("profile:v").unwrap(), "3");
    o.add_option("profile:v", "4").add_option("tune", "film");
    assert_eq!(o.additional_options.len(), 2);
    assert_eq!(o.option("profile:v").unwrap(), "4");
    assert_eq!(o.option("tune").unwrap(), "film");
    assert!(o.option("missing").is_none());
}

#[test]
fn effect_names_and_defaults() {
    assert_eq!(EffectType::Blur.to_gst_name(), "gaussianblur");
    assert_eq!(EffectType::Custom("agingtv".to_string()).to_gst_name(), "agingtv");
    assert_eq!(TransitionType::AudioCrossfade.to_gst_name(), "audiomixer");
    let params = EffectType::ColorCorrection.default_parameters();
    assert_eq!(params.len(), 4);
    assert_eq!(params[1], ("contrast".to_string(), "1.0".to_string()));
    assert!(EffectType::Crop.default_parameters().is_empty());
    let mut e = Effect::new(EffectType::Blur);
    assert!(e.set_parameter("sigma", "2.5").is_ok());
    assert_eq!(e.parameters, vec![("sigma".to_string(), "2.5".to_string())]);
    assert_eq!(get_available_effects().len(), 15);
    assert_eq!(get_available_transitions().len(), 5);
    assert_eq!(ExportStage::FinalRendering.display_name(), "Rendering final output");
}

#[test]
fn test_encoder_ffmpeg_args() {
    let options = EncoderOptions::web_delivery();
    let args = options.to_ffmpeg_args();

    assert!(args.contains(&"-c:v".to_string()));
    assert!(args.contains(&"libx264".to_string()));
    assert!(args.contains(&"-c:a".to_string()));
    assert!(args.contains(&"aac".to_string()));
    assert!(args.contains(&"-preset".to_string()));
    assert!(args.contains(&"medium".to_string()));
    assert!(args.contains(&"-crf".to_string()));
    assert!(args.contains(&"23".to_string()));

    let mut custom = EncoderOptions::default();
    custom.video_format = VideoFormat::H265;
    custom.with_video_bitrate(5000000);

    let args = custom.to_ffmpeg_args();
    assert!(args.contains(&"-c:v".to_string()));
    assert!(args.contains(&"libx265".to_string()));
    assert!(args.contains(&"-b:v".to_string()));
    assert!(args.contains(&"5000k".to_string()));
}

#[test]
fn ffmpeg_args_in_order() {
    let mut o = EncoderOptions::new(VideoFormat::Vp8, AudioFormat::Opus);
    o.with_two_pass(true).with_audio_bitrate(96000).add_option("deadline", "good");
    let args = o.to_ffmpeg_args();
    let expected = ["-c:v", "libvpx", "-c:a", "libopus", "-b:a", "96k", "-pass", "1", "-deadline", "good"];
    assert_eq!(args, expected.iter().map(|s| s.to_string()).collect::<Vec<_>>());
    let mut hw = EncoderOptions::fast_preview();
    hw.with_crf(7);
    let args = hw.to_ffmpeg_args();
    assert_eq!(args[1], "h264_videotoolbox");
    assert_eq!(args[5], "ultrafast");
    assert_eq!(args[7], "7");
}

#[test]
fn decimal_strings() {
    assert_eq!(decimal_string(0), "0");
    assert_eq!(decimal_string(7), "7");
    assert_eq!(decimal_string(10), "10");
    assert_eq!(decimal_string(1536), "1536");
    assert_eq!(decimal_string(u64::MAX), u64::MAX.to_string());
}
