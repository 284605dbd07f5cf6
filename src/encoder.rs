//! Encoder presets and options for an export.
use vstd::prelude::*;
use vstd::string::StringExecFns;

use crate::formats::{audio_ffmpeg_name, video_ffmpeg_name, AudioFormat, VideoFormat};
use crate::clip::{pairs_view, put_pair, set_pair};

verus! {

/// Speed against compression of the encoder.
#[derive(Debug, Clone, Copy, PartialEq, Eq, Hash, Structural)]
pub enum EncoderPreset {
    UltraFast,
    SuperFast,
    VeryFast,
    Faster,
    Fast,
    Medium,
    Slow,
    Slower,
    VerySlow,
    Placebo,
}

pub open spec fn preset_ffmpeg_name(x: EncoderPreset) -> Seq<char> {
    match x {
        EncoderPreset::UltraFast => "ultrafast"@,
        EncoderPreset::SuperFast => "superfast"@,
        EncoderPreset::VeryFast => "veryfast"@,
        EncoderPreset::Faster => "faster"@,
        EncoderPreset::Fast => "fast"@,
        EncoderPreset::Medium => "medium"@,
        EncoderPreset::Slow => "slow"@,
        EncoderPreset::Slower => "slower"@,
        EncoderPreset::VerySlow => "veryslow"@,
        EncoderPreset::Placebo => "placebo"@,
    }
}

pub open spec fn preset_description(x: EncoderPreset) -> Seq<char> {
    match x {
        EncoderPreset::UltraFast => "Fastest encoding, lowest quality"@,
        EncoderPreset::SuperFast => "Very fast encoding, lower quality"@,
        EncoderPreset::VeryFast => "Fast encoding, low quality"@,
        EncoderPreset::Faster => "Fast encoding, decent quality"@,
        EncoderPreset::Fast => "Quick encoding, good quality"@,
        EncoderPreset::Medium => "Balanced speed and quality"@,
        EncoderPreset::Slow => "Slow encoding, high quality"@,
        EncoderPreset::Slower => "Very slow encoding, higher quality"@,
        EncoderPreset::VerySlow => "Extremely slow encoding, best quality"@,
        EncoderPreset::Placebo => "Painfully slow encoding, marginally better quality"@,
    }
}

impl EncoderPreset {
    /// The preset name the encoder takes.
    pub fn to_ffmpeg_name(&self) -> (r: &'static str)
        ensures
            r@ == preset_ffmpeg_name(*self),
    {
        match self {
            EncoderPreset::UltraFast => "ultrafast",
            EncoderPreset::SuperFast => "superfast",
            EncoderPreset::VeryFast => "veryfast",
            EncoderPreset::Faster => "faster",
            EncoderPreset::Fast => "fast",
            EncoderPreset::Medium => "medium",
            EncoderPreset::Slow => "slow",
            EncoderPreset::Slower => "slower",
            EncoderPreset::VerySlow => "veryslow",
            EncoderPreset::Placebo => "placebo",
        }
    }

    /// A short description of the speed and quality trade.
    pub fn description(&self) -> (r: &'static str)
        ensures
            r@ == preset_description(*self),
    {
        match self {
            EncoderPreset::UltraFast => "Fastest encoding, lowest quality",
            EncoderPreset::SuperFast => "Very fast encoding, lower quality",
            EncoderPreset::VeryFast => "Fast encoding, low quality",
            EncoderPreset::Faster => "Fast encoding, decent quality",
            EncoderPreset::Fast => "Quick encoding, good quality",
            EncoderPreset::Medium => "Balanced speed and quality",
            EncoderPreset::Slow => "Slow encoding, high quality",
            EncoderPreset::Slower => "Very slow encoding, higher quality",
            EncoderPreset::VerySlow => "Extremely slow encoding, best quality",
            EncoderPreset::Placebo => "Painfully slow encoding, marginally better quality",
        }
    }
}

pub open spec fn digit_char(d: nat) -> char {
    if d == 0 {
        '0'
    } else if d == 1 {
        '1'
    } else if d == 2 {
        '2'
    } else if d == 3 {
        '3'
    } else if d == 4 {
        '4'
    } else if d == 5 {
        '5'
    } else if d == 6 {
        '6'
    } else if d == 7 {
        '7'
    } else if d == 8 {
        '8'
    } else if d == 9 {
        '9'
    } else {
        '?'
    }
}

/// The decimal digits of `n`, most significant first.
pub open spec fn decimal(n: nat) -> Seq<char>
    decreases n,
{
    if n < 10 {
        seq![digit_char(n)]
    } else {
        decimal(n / 10) + seq![digit_char(n % 10)]
    }
}

fn digit_str(d: u64) -> (r: &'static str)
    requires
        d < 10,
    ensures
        r@ == seq![digit_char(d as nat)],
{
    match d {
        0 => {
            proof { reveal_strlit("0"); }
            "0"
        },
        1 => {
            proof { reveal_strlit("1"); }
            "1"
        },
        2 => {
            proof { reveal_strlit("2"); }
            "2"
        },
        3 => {
            proof { reveal_strlit("3"); }
            "3"
        },
        4 => {
            proof { reveal_strlit("4"); }
            "4"
        },
        5 => {
            proof { reveal_strlit("5"); }
            "5"
        },
        6 => {
            proof { reveal_strlit("6"); }
            "6"
        },
        7 => {
            proof { reveal_strlit("7"); }
            "7"
        },
        8 => {
            proof { reveal_strlit("8"); }
            "8"
        },
        _ => {
            proof { reveal_strlit("9"); }
            "9"
        },
    }
}

/// `n` written in decimal.
pub fn decimal_string(n: u64) -> (r: String)
    ensures
        r@ == decimal(n as nat),
    decreases n,
{
    if n < 10 {
        digit_str(n).to_owned()
    } else {
        let mut s = decimal_string(n / 10);
        s.append(digit_str(n % 10));
        s
    }
}

/// The encoder arguments for one extra option each: `-key value`.
pub open spec fn option_args(s: Seq<(Seq<char>, Seq<char>)>) -> Seq<Seq<char>>
    decreases s.len(),
{
    if s.len() == 0 {
        Seq::empty()
    } else {
        option_args(s.drop_last()) + seq!["-"@ + s.last().0, s.last().1]
    }
}

pub open spec fn strings_view(s: Seq<String>) -> Seq<Seq<char>> {
    s.map_values(|x: String| x@)
}

/// Whether the codec takes a speed preset.
pub open spec fn takes_preset(v: VideoFormat) -> bool {
    v == VideoFormat::H264 || v == VideoFormat::H265
}

/// Whether the codec takes a constant rate factor.
pub open spec fn takes_crf(v: VideoFormat) -> bool {
    v == VideoFormat::H264 || v == VideoFormat::H265 || v == VideoFormat::Vp9
}

/// The video encoder name, preferring the platform encoder when hardware
/// acceleration is asked for and one exists.
pub open spec fn video_codec_name(o: EncoderOptions) -> Seq<char> {
    if o.hardware_acceleration && o.video_format == VideoFormat::H264 {
        "h264_videotoolbox"@
    } else if o.hardware_acceleration && o.video_format == VideoFormat::H265 {
        "hevc_videotoolbox"@
    } else {
        video_ffmpeg_name(o.video_format)
    }
}

/// The encoder command-line arguments for options `o`.
pub open spec fn ffmpeg_args(o: EncoderOptions) -> Seq<Seq<char>> {
    let a = seq!["-c:v"@, video_codec_name(o), "-c:a"@, audio_ffmpeg_name(o.audio_format)];
    let b = if takes_preset(o.video_format) { a + seq!["-preset"@, preset_ffmpeg_name(o.preset)] } else { a };
    let c = if o.video_bitrate == 0 {
        if takes_crf(o.video_format) { b + seq!["-crf"@, decimal(o.crf as nat)] } else { b }
    } else {
        b + seq!["-b:v"@, decimal((o.video_bitrate / 1000) as nat) + "k"@]
    };
    let d = c + seq!["-b:a"@, decimal((o.audio_bitrate / 1000) as nat) + "k"@];
    let e = if o.two_pass { d + seq!["-pass"@, "1"@] } else { d };
    e + option_args(pairs_view(o.additional_options@))
}

/// How an export is encoded.
#[derive(Debug)]
pub struct EncoderOptions {
    pub video_format: VideoFormat,
    pub audio_format: AudioFormat,
    pub preset: EncoderPreset,
    /// Constant rate factor, used when `video_bitrate` is 0.
    pub crf: u8,
    /// Bits per second; 0 selects constant quality.
    pub video_bitrate: u32,
    /// Bits per second.
    pub audio_bitrate: u32,
    pub two_pass: bool,
    pub hardware_acceleration: bool,
    /// Extra encoder options, one value per key.
    pub additional_options: Vec<(String, String)>,
}

impl Default for EncoderOptions {
    fn default() -> (r: EncoderOptions)
        ensures
            r.video_format == VideoFormat::H264 && r.audio_format == AudioFormat::Aac,
            r.preset == EncoderPreset::Medium && r.crf == 23,
            r.video_bitrate == 0 && r.audio_bitrate == 128000,
            !r.two_pass && !r.hardware_acceleration,
            r.additional_options@.len() == 0,
    {
        EncoderOptions {
            video_format: VideoFormat::H264,
            audio_format: AudioFormat::Aac,
            preset: EncoderPreset::Medium,
            crf: 23,
            video_bitrate: 0,
            audio_bitrate: 128000,
            two_pass: false,
            hardware_acceleration: false,
            additional_options: Vec::new(),
        }
    }
}

impl EncoderOptions {
    /// The default options with the given codecs.
    pub fn new(video_format: VideoFormat, audio_format: AudioFormat) -> (r: EncoderOptions)
        ensures
            r.video_format == video_format && r.audio_format == audio_format,
            r.preset == EncoderPreset::Medium && r.crf == 23,
            r.video_bitrate == 0 && r.audio_bitrate == 128000,
            !r.two_pass && !r.hardware_acceleration,
            r.additional_options@.len() == 0,
    {
        let d = EncoderOptions::default();
        EncoderOptions { video_format, audio_format, ..d }
    }

    pub fn high_quality() -> (r: EncoderOptions)
        ensures
            r.video_format == VideoFormat::H265 && r.audio_format == AudioFormat::Flac,
            r.preset == EncoderPreset::Slow && r.crf == 18,
            r.video_bitrate == 0 && r.audio_bitrate == 320000,
            r.two_pass && !r.hardware_acceleration,
            r.additional_options@.len() == 0,
    {
        EncoderOptions {
            video_format: VideoFormat::H265,
            audio_format: AudioFormat::Flac,
            preset: EncoderPreset::Slow,
            crf: 18,
            video_bitrate: 0,
            audio_bitrate: 320000,
            two_pass: true,
            hardware_acceleration: false,
            additional_options: Vec::new(),
        }
    }

    pub fn web_delivery() -> (r: EncoderOptions)
        ensures
            r.video_format == VideoFormat::H264 && r.audio_format == AudioFormat::Aac,
            r.preset == EncoderPreset::Medium && r.crf == 23,
            r.video_bitrate == 0 && r.audio_bitrate == 128000,
            !r.two_pass && !r.hardware_acceleration,
            r.additional_options@.len() == 0,
    {
        EncoderOptions::default()
    }

    pub fn fast_preview() -> (r: EncoderOptions)
        ensures
            r.video_format == VideoFormat::H264 && r.audio_format == AudioFormat::Aac,
            r.preset == EncoderPreset::UltraFast && r.crf == 28,
            r.video_bitrate == 0 && r.audio_bitrate == 96000,
            !r.two_pass && r.hardware_acceleration,
            r.additional_options@.len() == 0,
    {
        EncoderOptions {
            video_format: VideoFormat::H264,
            audio_format: AudioFormat::Aac,
            preset: EncoderPreset::UltraFast,
            crf: 28,
            video_bitrate: 0,
            audio_bitrate: 96000,
            two_pass: false,
            hardware_acceleration: true,
            additional_options: Vec::new(),
        }
    }

    pub fn professional() -> (r: EncoderOptions)
        ensures
            r.video_format == VideoFormat::ProRes && r.audio_format == AudioFormat::Pcm,
            r.preset == EncoderPreset::Medium && r.crf == 0,
            r.video_bitrate == 100000000 && r.audio_bitrate == 1536000,
            !r.two_pass && !r.hardware_acceleration,
            r.additional_options@.len() == 1,
            r.additional_options@[0].0@ == "profile:v"@ && r.additional_options@[0].1@ == "3"@,
    {
        let mut options: Vec<(String, String)> = Vec::new();
        options.push(("profile:v".to_owned(), "3".to_owned()));
        EncoderOptions {
            video_format: VideoFormat::ProRes,
            audio_format: AudioFormat::Pcm,
            preset: EncoderPreset::Medium,
            crf: 0,
            video_bitrate: 100000000,
            audio_bitrate: 1536000,
            two_pass: false,
            hardware_acceleration: false,
            additional_options: options,
        }
    }

    /// The value of an extra option.
    pub fn option(&self, key: &str) -> (r: Option<&String>)
        ensures
            r is Some <==> exists|i: int| 0 <= i < self.additional_options@.len() && self.additional_options@[i].0@ == key@,
            r is Some ==> exists|i: int| 0 <= i < self.additional_options@.len() && self.additional_options@[i].0@ == key@
                && *r.unwrap() == self.additional_options@[i].1,
    {
        let wanted = key.to_owned();
        let mut i: usize = 0;
        while i < self.additional_options.len()
            invariant
                wanted@ == key@,
                i <= self.additional_options@.len(),
                forall|j: int| 0 <= j < i ==> self.additional_options@[j].0@ != key@,
            decreases self.additional_options@.len() - i,
        {
            if self.additional_options[i].0 == wanted {
                return Some(&self.additional_options[i].1);
            }
            i = i + 1;
        }
        None
    }

    /// Sets an extra option, replacing the value of an equal key.
    pub fn add_option(&mut self, key: &str, value: &str) -> (r: &mut EncoderOptions)
        ensures
            r.video_format == old(self).video_format && r.audio_format == old(self).audio_format,
            r.preset == old(self).preset && r.crf == old(self).crf,
            r.video_bitrate == old(self).video_bitrate && r.audio_bitrate == old(self).audio_bitrate,
            r.two_pass == old(self).two_pass && r.hardware_acceleration == old(self).hardware_acceleration,
            pairs_view(r.additional_options@) == set_pair(pairs_view(old(self).additional_options@), key@, value@),
            *final(self) == *final(r),
    {
        put_pair(&mut self.additional_options, key.to_owned(), value.to_owned());
        self
    }

    pub fn with_preset(&mut self, preset: EncoderPreset) -> (r: &mut EncoderOptions)
        ensures
            *r == (EncoderOptions { preset: preset, ..*old(self) }),
            *final(self) == *final(r),
    {
        self.preset = preset;
        self
    }

    pub fn with_crf(&mut self, crf: u8) -> (r: &mut EncoderOptions)
        ensures
            *r == (EncoderOptions { crf: crf, ..*old(self) }),
            *final(self) == *final(r),
    {
        self.crf = crf;
        self
    }

    pub fn with_video_bitrate(&mut self, bitrate: u32) -> (r: &mut EncoderOptions)
        ensures
            *r == (EncoderOptions { video_bitrate: bitrate, ..*old(self) }),
            *final(self) == *final(r),
    {
        self.video_bitrate = bitrate;
        self
    }

    pub fn with_audio_bitrate(&mut self, bitrate: u32) -> (r: &mut EncoderOptions)
        ensures
            *r == (EncoderOptions { audio_bitrate: bitrate, ..*old(self) }),
            *final(self) == *final(r),
    {
        self.audio_bitrate = bitrate;
        self
    }

    pub fn with_two_pass(&mut self, enabled: bool) -> (r: &mut EncoderOptions)
        ensures
            *r == (EncoderOptions { two_pass: enabled, ..*old(self) }),
            *final(self) == *final(r),
    {
        self.two_pass = enabled;
        self
    }

    pub fn with_hardware_acceleration(&mut self, enabled: bool) -> (r: &mut EncoderOptions)
        ensures
            *r == (EncoderOptions { hardware_acceleration: enabled, ..*old(self) }),
            *final(self) == *final(r),
    {
        self.hardware_acceleration = enabled;
        self
    }


    /// The encoder command-line arguments for these options.
    pub fn to_ffmpeg_args(&self) -> (r: Vec<String>)
        ensures
            strings_view(r@) == ffmpeg_args(*self),
    {
        let mut args: Vec<String> = Vec::new();
        let codec: &str = if self.hardware_acceleration && self.video_format == VideoFormat::H264 {
            "h264_videotoolbox"
        } else if self.hardware_acceleration && self.video_format == VideoFormat::H265 {
            "hevc_videotoolbox"
        } else {
            self.video_format.to_ffmpeg_name()
        };
        args.push("-c:v".to_owned());
        args.push(codec.to_owned());
        args.push("-c:a".to_owned());
        args.push(self.audio_format.to_ffmpeg_name().to_owned());
        let ghost a = strings_view(args@);
        if self.video_format == VideoFormat::H264 || self.video_format == VideoFormat::H265 {
            args.push("-preset".to_owned());
            args.push(self.preset.to_ffmpeg_name().to_owned());
        }
        let ghost b = strings_view(args@);
        if self.video_bitrate == 0 {
            if self.video_format == VideoFormat::H264 || self.video_format == VideoFormat::H265
                || self.video_format == VideoFormat::Vp9
            {
                args.push("-crf".to_owned());
                args.push(decimal_string(self.crf as u64));
            }
        } else {
            args.push("-b:v".to_owned());
            let mut v = decimal_string((self.video_bitrate / 1000) as u64);
            v.append("k");
            args.push(v);
        }
        args.push("-b:a".to_owned());
        let mut a_rate = decimal_string((self.audio_bitrate / 1000) as u64);
        a_rate.append("k");
        args.push(a_rate);
        if self.two_pass {
            args.push("-pass".to_owned());
            args.push("1".to_owned());
        }
        let ghost e = strings_view(args@);
        proof {
            let o = *self;
            let a2 = seq!["-c:v"@, video_codec_name(o), "-c:a"@, audio_ffmpeg_name(o.audio_format)];
            assert(a =~= a2);
        }
        let ghost opts = pairs_view(self.additional_options@);
        let mut i: usize = 0;
        while i < self.additional_options.len()
            invariant
                i <= self.additional_options@.len(),
                opts == pairs_view(self.additional_options@),
                strings_view(args@) == e + option_args(opts.subrange(0, i as int)),
            decreases self.additional_options@.len() - i,
        {
            let ghost before = strings_view(args@);
            let mut key = "-".to_owned();
            key.append(self.additional_options[i].0.as_str());
            args.push(key);
            args.push(self.additional_options[i].1.clone());
            proof {
                assert(opts.subrange(0, i + 1).drop_last() =~= opts.subrange(0, i as int));
                assert(strings_view(args@) =~= before + seq!["-"@ + opts[i as int].0, opts[i as int].1]);
            }
            i = i + 1;
        }
        proof {
            assert(opts.subrange(0, opts.len() as int) =~= opts);
        }
        args
    }
}

} // verus!
