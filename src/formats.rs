//! Export container and codec tables: names, extensions and which codecs
//! each container carries.
use vstd::prelude::*;

verus! {

/// A file container an export can be written in.
#[derive(Debug, Clone, Copy, PartialEq, Eq, Hash, Structural)]
pub enum ContainerFormat {
    Mp4,
    Mkv,
    Mov,
    Webm,
    Avi,
    Flv,
    Wmv,
    Mpg,
    Ts,
    Mxf,
    Gif,
}

pub open spec fn container_ffmpeg_name(x: ContainerFormat) -> Seq<char> {
    match x {
        ContainerFormat::Mp4 => "mp4"@,
        ContainerFormat::Mkv => "matroska"@,
        ContainerFormat::Mov => "mov"@,
        ContainerFormat::Webm => "webm"@,
        ContainerFormat::Avi => "avi"@,
        ContainerFormat::Flv => "flv"@,
        ContainerFormat::Wmv => "asf"@,
        ContainerFormat::Mpg => "mpegts"@,
        ContainerFormat::Ts => "mpegts"@,
        ContainerFormat::Mxf => "mxf"@,
        ContainerFormat::Gif => "gif"@,
    }
}

pub open spec fn container_extension(x: ContainerFormat) -> Seq<char> {
    match x {
        ContainerFormat::Mp4 => "mp4"@,
        ContainerFormat::Mkv => "mkv"@,
        ContainerFormat::Mov => "mov"@,
        ContainerFormat::Webm => "webm"@,
        ContainerFormat::Avi => "avi"@,
        ContainerFormat::Flv => "flv"@,
        ContainerFormat::Wmv => "wmv"@,
        ContainerFormat::Mpg => "mpg"@,
        ContainerFormat::Ts => "ts"@,
        ContainerFormat::Mxf => "mxf"@,
        ContainerFormat::Gif => "gif"@,
    }
}

pub open spec fn container_display_name(x: ContainerFormat) -> Seq<char> {
    match x {
        ContainerFormat::Mp4 => "MP4"@,
        ContainerFormat::Mkv => "Matroska (MKV)"@,
        ContainerFormat::Mov => "QuickTime (MOV)"@,
        ContainerFormat::Webm => "WebM"@,
        ContainerFormat::Avi => "AVI"@,
        ContainerFormat::Flv => "Flash Video (FLV)"@,
        ContainerFormat::Wmv => "Windows Media (WMV)"@,
        ContainerFormat::Mpg => "MPEG"@,
        ContainerFormat::Ts => "MPEG Transport Stream (TS)"@,
        ContainerFormat::Mxf => "Material Exchange Format (MXF)"@,
        ContainerFormat::Gif => "GIF Animation"@,
    }
}

impl ContainerFormat {
    /// The muxer name the encoder knows the container by.
    pub fn to_ffmpeg_name(&self) -> (r: &'static str)
        ensures
            r@ == container_ffmpeg_name(*self),
    {
        match self {
            ContainerFormat::Mp4 => "mp4",
            ContainerFormat::Mkv => "matroska",
            ContainerFormat::Mov => "mov",
            ContainerFormat::Webm => "webm",
            ContainerFormat::Avi => "avi",
            ContainerFormat::Flv => "flv",
            ContainerFormat::Wmv => "asf",
            ContainerFormat::Mpg => "mpegts",
            ContainerFormat::Ts => "mpegts",
            ContainerFormat::Mxf => "mxf",
            ContainerFormat::Gif => "gif",
        }
    }

    /// The usual file extension, without the dot.
    pub fn extension(&self) -> (r: &'static str)
        ensures
            r@ == container_extension(*self),
    {
        match self {
            ContainerFormat::Mp4 => "mp4",
            ContainerFormat::Mkv => "mkv",
            ContainerFormat::Mov => "mov",
            ContainerFormat::Webm => "webm",
            ContainerFormat::Avi => "avi",
            ContainerFormat::Flv => "flv",
            ContainerFormat::Wmv => "wmv",
            ContainerFormat::Mpg => "mpg",
            ContainerFormat::Ts => "ts",
            ContainerFormat::Mxf => "mxf",
            ContainerFormat::Gif => "gif",
        }
    }

    pub fn display_name(&self) -> (r: &'static str)
        ensures
            r@ == container_display_name(*self),
    {
        match self {
            ContainerFormat::Mp4 => "MP4",
            ContainerFormat::Mkv => "Matroska (MKV)",
            ContainerFormat::Mov => "QuickTime (MOV)",
            ContainerFormat::Webm => "WebM",
            ContainerFormat::Avi => "AVI",
            ContainerFormat::Flv => "Flash Video (FLV)",
            ContainerFormat::Wmv => "Windows Media (WMV)",
            ContainerFormat::Mpg => "MPEG",
            ContainerFormat::Ts => "MPEG Transport Stream (TS)",
            ContainerFormat::Mxf => "Material Exchange Format (MXF)",
            ContainerFormat::Gif => "GIF Animation",
        }
    }
}

/// A video codec an export can use.
#[derive(Debug, Clone, Copy, PartialEq, Eq, Hash, Structural)]
pub enum VideoFormat {
    H264,
    H265,
    Vp8,
    Vp9,
    Av1,
    ProRes,
    Dnxhd,
    Mjpeg,
    Mpeg2,
    Mpeg4,
    Theora,
    Raw,
}

pub open spec fn video_ffmpeg_name(x: VideoFormat) -> Seq<char> {
    match x {
        VideoFormat::H264 => "libx264"@,
        VideoFormat::H265 => "libx265"@,
        VideoFormat::Vp8 => "libvpx"@,
        VideoFormat::Vp9 => "libvpx-vp9"@,
        VideoFormat::Av1 => "libaom-av1"@,
        VideoFormat::ProRes => "prores_ks"@,
        VideoFormat::Dnxhd => "dnxhd"@,
        VideoFormat::Mjpeg => "mjpeg"@,
        VideoFormat::Mpeg2 => "mpeg2video"@,
        VideoFormat::Mpeg4 => "mpeg4"@,
        VideoFormat::Theora => "libtheora"@,
        VideoFormat::Raw => "rawvideo"@,
    }
}

pub open spec fn video_display_name(x: VideoFormat) -> Seq<char> {
    match x {
        VideoFormat::H264 => "H.264 / AVC"@,
        VideoFormat::H265 => "H.265 / HEVC"@,
        VideoFormat::Vp8 => "VP8"@,
        VideoFormat::Vp9 => "VP9"@,
        VideoFormat::Av1 => "AV1"@,
        VideoFormat::ProRes => "Apple ProRes"@,
        VideoFormat::Dnxhd => "Avid DNxHD"@,
        VideoFormat::Mjpeg => "Motion JPEG"@,
        VideoFormat::Mpeg2 => "MPEG-2"@,
        VideoFormat::Mpeg4 => "MPEG-4"@,
        VideoFormat::Theora => "Theora"@,
        VideoFormat::Raw => "Uncompressed"@,
    }
}

/// Whether container `c` can carry video codec `x`.
pub open spec fn video_fits(x: VideoFormat, c: ContainerFormat) -> bool {
    match c {
        ContainerFormat::Mp4 => x == VideoFormat::H264 || x == VideoFormat::H265 || x == VideoFormat::Mpeg4,
        ContainerFormat::Mkv => true,
        ContainerFormat::Mov => x == VideoFormat::H264 || x == VideoFormat::H265 || x == VideoFormat::ProRes || x == VideoFormat::Mjpeg,
        ContainerFormat::Webm => x == VideoFormat::Vp8 || x == VideoFormat::Vp9,
        ContainerFormat::Avi => x == VideoFormat::Mjpeg || x == VideoFormat::Mpeg4,
        ContainerFormat::Flv => x == VideoFormat::H264,
        ContainerFormat::Wmv => x == VideoFormat::Mpeg4,
        ContainerFormat::Mpg => x == VideoFormat::Mpeg2 || x == VideoFormat::H264,
        ContainerFormat::Ts => x == VideoFormat::Mpeg2 || x == VideoFormat::H264,
        ContainerFormat::Mxf => x == VideoFormat::Dnxhd || x == VideoFormat::Mpeg2,
        ContainerFormat::Gif => x == VideoFormat::Mjpeg,
    }
}

impl VideoFormat {
    /// The encoder name.
    pub fn to_ffmpeg_name(&self) -> (r: &'static str)
        ensures
            r@ == video_ffmpeg_name(*self),
    {
        match self {
            VideoFormat::H264 => "libx264",
            VideoFormat::H265 => "libx265",
            VideoFormat::Vp8 => "libvpx",
            VideoFormat::Vp9 => "libvpx-vp9",
            VideoFormat::Av1 => "libaom-av1",
            VideoFormat::ProRes => "prores_ks",
            VideoFormat::Dnxhd => "dnxhd",
            VideoFormat::Mjpeg => "mjpeg",
            VideoFormat::Mpeg2 => "mpeg2video",
            VideoFormat::Mpeg4 => "mpeg4",
            VideoFormat::Theora => "libtheora",
            VideoFormat::Raw => "rawvideo",
        }
    }

    pub fn display_name(&self) -> (r: &'static str)
        ensures
            r@ == video_display_name(*self),
    {
        match self {
            VideoFormat::H264 => "H.264 / AVC",
            VideoFormat::H265 => "H.265 / HEVC",
            VideoFormat::Vp8 => "VP8",
            VideoFormat::Vp9 => "VP9",
            VideoFormat::Av1 => "AV1",
            VideoFormat::ProRes => "Apple ProRes",
            VideoFormat::Dnxhd => "Avid DNxHD",
            VideoFormat::Mjpeg => "Motion JPEG",
            VideoFormat::Mpeg2 => "MPEG-2",
            VideoFormat::Mpeg4 => "MPEG-4",
            VideoFormat::Theora => "Theora",
            VideoFormat::Raw => "Uncompressed",
        }
    }

    pub fn is_compatible_with(&self, container: ContainerFormat) -> (r: bool)
        ensures
            r == video_fits(*self, container),
    {
        match container {
            ContainerFormat::Mp4 => match self {
                VideoFormat::H264 => true,
                VideoFormat::H265 => true,
                VideoFormat::Mpeg4 => true,
                _ => false,
            },
            ContainerFormat::Mkv => true,
            ContainerFormat::Mov => match self {
                VideoFormat::H264 => true,
                VideoFormat::H265 => true,
                VideoFormat::ProRes => true,
                VideoFormat::Mjpeg => true,
                _ => false,
            },
            ContainerFormat::Webm => match self {
                VideoFormat::Vp8 => true,
                VideoFormat::Vp9 => true,
                _ => false,
            },
            ContainerFormat::Avi => match self {
                VideoFormat::Mjpeg => true,
                VideoFormat::Mpeg4 => true,
                _ => false,
            },
            ContainerFormat::Flv => match self {
                VideoFormat::H264 => true,
                _ => false,
            },
            ContainerFormat::Wmv => match self {
                VideoFormat::Mpeg4 => true,
                _ => false,
            },
            ContainerFormat::Mpg => match self {
                VideoFormat::Mpeg2 => true,
                VideoFormat::H264 => true,
                _ => false,
            },
            ContainerFormat::Ts => match self {
                VideoFormat::Mpeg2 => true,
                VideoFormat::H264 => true,
                _ => false,
            },
            ContainerFormat::Mxf => match self {
                VideoFormat::Dnxhd => true,
                VideoFormat::Mpeg2 => true,
                _ => false,
            },
            ContainerFormat::Gif => match self {
                VideoFormat::Mjpeg => true,
                _ => false,
            },
        }
    }
}

/// An audio codec an export can use.
#[derive(Debug, Clone, Copy, PartialEq, Eq, Hash, Structural)]
pub enum AudioFormat {
    Aac,
    Mp3,
    Opus,
    Vorbis,
    Flac,
    Pcm,
    Ac3,
    Eac3,
    Wma,
}

pub open spec fn audio_ffmpeg_name(x: AudioFormat) -> Seq<char> {
    match x {
        AudioFormat::Aac => "aac"@,
        AudioFormat::Mp3 => "libmp3lame"@,
        AudioFormat::Opus => "libopus"@,
        AudioFormat::Vorbis => "libvorbis"@,
        AudioFormat::Flac => "flac"@,
        AudioFormat::Pcm => "pcm_s16le"@,
        AudioFormat::Ac3 => "ac3"@,
        AudioFormat::Eac3 => "eac3"@,
        AudioFormat::Wma => "wmav2"@,
    }
}

pub open spec fn audio_display_name(x: AudioFormat) -> Seq<char> {
    match x {
        AudioFormat::Aac => "AAC"@,
        AudioFormat::Mp3 => "MP3"@,
        AudioFormat::Opus => "Opus"@,
        AudioFormat::Vorbis => "Vorbis"@,
        AudioFormat::Flac => "FLAC"@,
        AudioFormat::Pcm => "PCM (Uncompressed)"@,
        AudioFormat::Ac3 => "Dolby Digital (AC-3)"@,
        AudioFormat::Eac3 => "Dolby Digital Plus (E-AC-3)"@,
        AudioFormat::Wma => "Windows Media Audio"@,
    }
}

/// Whether container `c` can carry audio codec `x`.
pub open spec fn audio_fits(x: AudioFormat, c: ContainerFormat) -> bool {
    match c {
        ContainerFormat::Mp4 => x == AudioFormat::Aac || x == AudioFormat::Ac3 || x == AudioFormat::Eac3,
        ContainerFormat::Mkv => true,
        ContainerFormat::Mov => x == AudioFormat::Aac || x == AudioFormat::Pcm,
        ContainerFormat::Webm => x == AudioFormat::Opus || x == AudioFormat::Vorbis,
        ContainerFormat::Avi => x == AudioFormat::Mp3 || x == AudioFormat::Pcm,
        ContainerFormat::Flv => x == AudioFormat::Aac || x == AudioFormat::Mp3,
        ContainerFormat::Wmv => x == AudioFormat::Wma,
        ContainerFormat::Mpg => x == AudioFormat::Mp3 || x == AudioFormat::Ac3,
        ContainerFormat::Ts => x == AudioFormat::Mp3 || x == AudioFormat::Ac3,
        ContainerFormat::Mxf => x == AudioFormat::Pcm,
        ContainerFormat::Gif => false,
    }
}

impl AudioFormat {
    /// The encoder name.
    pub fn to_ffmpeg_name(&self) -> (r: &'static str)
        ensures
            r@ == audio_ffmpeg_name(*self),
    {
        match self {
            AudioFormat::Aac => "aac",
            AudioFormat::Mp3 => "libmp3lame",
            AudioFormat::Opus => "libopus",
            AudioFormat::Vorbis => "libvorbis",
            AudioFormat::Flac => "flac",
            AudioFormat::Pcm => "pcm_s16le",
            AudioFormat::Ac3 => "ac3",
            AudioFormat::Eac3 => "eac3",
            AudioFormat::Wma => "wmav2",
        }
    }

    pub fn display_name(&self) -> (r: &'static str)
        ensures
            r@ == audio_display_name(*self),
    {
        match self {
            AudioFormat::Aac => "AAC",
            AudioFormat::Mp3 => "MP3",
            AudioFormat::Opus => "Opus",
            AudioFormat::Vorbis => "Vorbis",
            AudioFormat::Flac => "FLAC",
            AudioFormat::Pcm => "PCM (Uncompressed)",
            AudioFormat::Ac3 => "Dolby Digital (AC-3)",
            AudioFormat::Eac3 => "Dolby Digital Plus (E-AC-3)",
            AudioFormat::Wma => "Windows Media Audio",
        }
    }

    pub fn is_compatible_with(&self, container: ContainerFormat) -> (r: bool)
        ensures
            r == audio_fits(*self, container),
    {
        match container {
            ContainerFormat::Mp4 => match self {
                AudioFormat::Aac => true,
                AudioFormat::Ac3 => true,
                AudioFormat::Eac3 => true,
                _ => false,
            },
            ContainerFormat::Mkv => true,
            ContainerFormat::Mov => match self {
                AudioFormat::Aac => true,
                AudioFormat::Pcm => true,
                _ => false,
            },
            ContainerFormat::Webm => match self {
                AudioFormat::Opus => true,
                AudioFormat::Vorbis => true,
                _ => false,
            },
            ContainerFormat::Avi => match self {
                AudioFormat::Mp3 => true,
                AudioFormat::Pcm => true,
                _ => false,
            },
            ContainerFormat::Flv => match self {
                AudioFormat::Aac => true,
                AudioFormat::Mp3 => true,
                _ => false,
            },
            ContainerFormat::Wmv => match self {
                AudioFormat::Wma => true,
                _ => false,
            },
            ContainerFormat::Mpg => match self {
                AudioFormat::Mp3 => true,
                AudioFormat::Ac3 => true,
                _ => false,
            },
            ContainerFormat::Ts => match self {
                AudioFormat::Mp3 => true,
                AudioFormat::Ac3 => true,
                _ => false,
            },
            ContainerFormat::Mxf => match self {
                AudioFormat::Pcm => true,
                _ => false,
            },
            ContainerFormat::Gif => false,
        }
    }
}

pub open spec fn container_use_case(x: ContainerFormat) -> Seq<char> {
    match x {
        ContainerFormat::Mp4 => "Web, mobile, and general purpose"@,
        ContainerFormat::Mkv => "High quality archival and storage"@,
        ContainerFormat::Mov => "Professional video editing and Apple devices"@,
        ContainerFormat::Webm => "Web video optimized for browsers"@,
        ContainerFormat::Avi => "Legacy format with wide compatibility"@,
        ContainerFormat::Flv => "Legacy web streaming format"@,
        ContainerFormat::Wmv => "Windows-specific playback"@,
        ContainerFormat::Mpg => "DVD and broadcast compatibility"@,
        ContainerFormat::Ts => "Broadcast and streaming"@,
        ContainerFormat::Mxf => "Professional broadcast and archival"@,
        ContainerFormat::Gif => "Short animations without audio"@,
    }
}

impl ContainerFormat {
    /// What the container is chosen for.
    pub fn use_case(&self) -> (r: &'static str)
        ensures
            r@ == container_use_case(*self),
    {
        match self {
            ContainerFormat::Mp4 => "Web, mobile, and general purpose",
            ContainerFormat::Mkv => "High quality archival and storage",
            ContainerFormat::Mov => "Professional video editing and Apple devices",
            ContainerFormat::Webm => "Web video optimized for browsers",
            ContainerFormat::Avi => "Legacy format with wide compatibility",
            ContainerFormat::Flv => "Legacy web streaming format",
            ContainerFormat::Wmv => "Windows-specific playback",
            ContainerFormat::Mpg => "DVD and broadcast compatibility",
            ContainerFormat::Ts => "Broadcast and streaming",
            ContainerFormat::Mxf => "Professional broadcast and archival",
            ContainerFormat::Gif => "Short animations without audio",
        }
    }
}

pub open spec fn all_containers() -> Seq<ContainerFormat> {
    seq![ContainerFormat::Mp4, ContainerFormat::Mkv, ContainerFormat::Mov, ContainerFormat::Webm, ContainerFormat::Avi, ContainerFormat::Flv, ContainerFormat::Wmv, ContainerFormat::Mpg, ContainerFormat::Ts, ContainerFormat::Mxf, ContainerFormat::Gif]
}

pub open spec fn all_video_formats() -> Seq<VideoFormat> {
    seq![VideoFormat::H264, VideoFormat::H265, VideoFormat::Vp8, VideoFormat::Vp9, VideoFormat::Av1, VideoFormat::ProRes, VideoFormat::Dnxhd, VideoFormat::Mjpeg, VideoFormat::Mpeg2, VideoFormat::Mpeg4, VideoFormat::Theora, VideoFormat::Raw]
}

pub open spec fn all_audio_formats() -> Seq<AudioFormat> {
    seq![AudioFormat::Aac, AudioFormat::Mp3, AudioFormat::Opus, AudioFormat::Vorbis, AudioFormat::Flac, AudioFormat::Pcm, AudioFormat::Ac3, AudioFormat::Eac3, AudioFormat::Wma]
}

/// Containers that browsers play directly.
pub open spec fn web_friendly(c: ContainerFormat) -> bool {
    c == ContainerFormat::Mp4 || c == ContainerFormat::Webm || c == ContainerFormat::Gif
}

/// A container with the codecs it can carry.
#[derive(Debug)]
pub struct FormatInfo {
    pub container: ContainerFormat,
    pub video_formats: Vec<VideoFormat>,
    pub audio_formats: Vec<AudioFormat>,
    pub use_case: String,
    pub web_friendly: bool,
}

/// The video codecs, in table order, that `c` can carry.
fn compatible_video(c: ContainerFormat) -> (r: Vec<VideoFormat>)
    ensures
        r@ == all_video_formats().filter(|v: VideoFormat| video_fits(v, c)),
{
    let all = vec![VideoFormat::H264, VideoFormat::H265, VideoFormat::Vp8, VideoFormat::Vp9, VideoFormat::Av1, VideoFormat::ProRes, VideoFormat::Dnxhd, VideoFormat::Mjpeg, VideoFormat::Mpeg2, VideoFormat::Mpeg4, VideoFormat::Theora, VideoFormat::Raw];
    assert(all@ == all_video_formats());
    let mut r: Vec<VideoFormat> = Vec::new();
    let mut i: usize = 0;
    while i < all.len()
        invariant
            all@ == all_video_formats(),
            i <= all@.len(),
            r@ == all@.subrange(0, i as int).filter(|v: VideoFormat| video_fits(v, c)),
        decreases all@.len() - i,
    {
        proof {
            reveal(Seq::filter);
            assert(all@.subrange(0, i + 1).drop_last() =~= all@.subrange(0, i as int));
        }
        if all[i].is_compatible_with(c) {
            r.push(all[i]);
        }
        i = i + 1;
    }
    assert(all@.subrange(0, all@.len() as int) =~= all@);
    r
}

/// The audio codecs, in table order, that `c` can carry.
fn compatible_audio(c: ContainerFormat) -> (r: Vec<AudioFormat>)
    ensures
        r@ == all_audio_formats().filter(|a: AudioFormat| audio_fits(a, c)),
{
    let all = vec![AudioFormat::Aac, AudioFormat::Mp3, AudioFormat::Opus, AudioFormat::Vorbis, AudioFormat::Flac, AudioFormat::Pcm, AudioFormat::Ac3, AudioFormat::Eac3, AudioFormat::Wma];
    assert(all@ == all_audio_formats());
    let mut r: Vec<AudioFormat> = Vec::new();
    let mut i: usize = 0;
    while i < all.len()
        invariant
            all@ == all_audio_formats(),
            i <= all@.len(),
            r@ == all@.subrange(0, i as int).filter(|a: AudioFormat| audio_fits(a, c)),
        decreases all@.len() - i,
    {
        proof {
            reveal(Seq::filter);
            assert(all@.subrange(0, i + 1).drop_last() =~= all@.subrange(0, i as int));
        }
        if all[i].is_compatible_with(c) {
            r.push(all[i]);
        }
        i = i + 1;
    }
    assert(all@.subrange(0, all@.len() as int) =~= all@);
    r
}

/// Every container, in table order, with the codecs it carries.
pub fn get_available_formats() -> (r: Vec<FormatInfo>)
    ensures
        r@.len() == all_containers().len(),
        forall|i: int| 0 <= i < r@.len() ==> {
            let f = #[trigger] r@[i];
            let c = all_containers()[i];
            &&& f.container == c
            &&& f.video_formats@ == all_video_formats().filter(|v: VideoFormat| video_fits(v, c))
            &&& f.audio_formats@ == all_audio_formats().filter(|a: AudioFormat| audio_fits(a, c))
            &&& f.use_case@ == container_use_case(c)
            &&& f.web_friendly == web_friendly(c)
        },
{
    let containers = vec![ContainerFormat::Mp4, ContainerFormat::Mkv, ContainerFormat::Mov, ContainerFormat::Webm, ContainerFormat::Avi, ContainerFormat::Flv, ContainerFormat::Wmv, ContainerFormat::Mpg, ContainerFormat::Ts, ContainerFormat::Mxf, ContainerFormat::Gif];
    assert(containers@ == all_containers());
    let mut r: Vec<FormatInfo> = Vec::new();
    let mut i: usize = 0;
    while i < containers.len()
        invariant
            containers@ == all_containers(),
            i <= containers@.len(),
            r@.len() == i,
            forall|j: int| 0 <= j < i ==> {
                let f = #[trigger] r@[j];
                let c = all_containers()[j];
                &&& f.container == c
                &&& f.video_formats@ == all_video_formats().filter(|v: VideoFormat| video_fits(v, c))
                &&& f.audio_formats@ == all_audio_formats().filter(|a: AudioFormat| audio_fits(a, c))
                &&& f.use_case@ == container_use_case(c)
                &&& f.web_friendly == web_friendly(c)
            },
        decreases containers@.len() - i,
    {
        let c = containers[i];
        let web = match c {
            ContainerFormat::Mp4 | ContainerFormat::Webm | ContainerFormat::Gif => true,
            _ => false,
        };
        let info = FormatInfo {
            container: c,
            video_formats: compatible_video(c),
            audio_formats: compatible_audio(c),
            use_case: c.use_case().to_owned(),
            web_friendly: web,
        };
        r.push(info);
        i = i + 1;
    }
    r
}

} // verus!
