//! Decoded frames and the state of one source's decode session.
use vstd::prelude::*;

verus! {

/// Pixel layout of a decoded frame.
#[derive(Debug, Clone, Copy, PartialEq, Eq, Structural)]
pub enum VideoFormat {
    RGB24,
    RGBA32,
    YUV420P,
    YUV422P,
    YUV444P,
    NV12,
    /// Another layout, by the decoding library's own pixel format number.
    Custom(i32),
}

impl VideoFormat {
    /// Bytes per pixel of the first plane (approximate for planar layouts).
    pub fn bytes_per_pixel(&self) -> (r: usize)
        ensures
            r == bytes_per_pixel_of(*self),
    {
        match self {
            VideoFormat::RGB24 => 3,
            VideoFormat::RGBA32 => 4,
            VideoFormat::YUV420P => 1,
            VideoFormat::YUV422P => 2,
            VideoFormat::YUV444P => 3,
            VideoFormat::NV12 => 1,
            VideoFormat::Custom(_) => 1,
        }
    }
}

pub open spec fn bytes_per_pixel_of(f: VideoFormat) -> int {
    match f {
        VideoFormat::RGB24 => 3,
        VideoFormat::RGBA32 => 4,
        VideoFormat::YUV420P => 1,
        VideoFormat::YUV422P => 2,
        VideoFormat::YUV444P => 3,
        VideoFormat::NV12 => 1,
        VideoFormat::Custom(_) => 1,
    }
}

/// One decoded picture: `height` rows of `stride` bytes each.
#[derive(Debug)]
pub struct VideoFrame {
    pub buffer: Vec<u8>,
    pub width: u32,
    pub height: u32,
    pub format: VideoFormat,
    /// Bytes per row.
    pub stride: u32,
    /// Presentation time in the source, in nanoseconds; informational only.
    pub timestamp: u64,
    /// Frame duration in nanoseconds.
    pub duration: u64,
    pub key_frame: bool,
}

impl VideoFrame {
    /// A zero-filled frame with rows packed without padding.
    pub fn new(width: u32, height: u32, format: VideoFormat, timestamp: u64, duration: u64) -> (r: VideoFrame)
        requires
            width * bytes_per_pixel_of(format) * height <= usize::MAX,
            width * bytes_per_pixel_of(format) <= u32::MAX,
        ensures
            r.width == width && r.height == height && r.format == format,
            r.timestamp == timestamp && r.duration == duration && !r.key_frame,
            r.stride == width * bytes_per_pixel_of(format),
            r.buffer@ == Seq::new((r.stride * height) as nat, |i: int| 0u8),
    {
        let bpp = format.bytes_per_pixel();
        let stride = width * (bpp as u32);
        proof {
            assert(stride as int * height as int <= usize::MAX);
        }
        let size = (stride as usize) * (height as usize);
        let buffer = vec![0u8; size];
        proof { assert(buffer@ =~= Seq::new(size as nat, |i: int| 0u8)); }
        VideoFrame { buffer, width, height, format, stride, timestamp, duration, key_frame: false }
    }

    pub fn with_buffer(self, buffer: Vec<u8>) -> (r: VideoFrame)
        ensures
            r == (VideoFrame { buffer, ..self }),
    {
        VideoFrame { buffer, ..self }
    }

    pub fn is_key_frame(&self) -> (r: bool)
        ensures
            r == self.key_frame,
    {
        self.key_frame
    }
}

/// Why a decode session refused or failed a step.
#[derive(Debug, Clone, Copy, PartialEq, Eq, Structural)]
pub enum VideoDecoderError {
    /// The session has no open source.
    InitializationError,
    /// The codec failed, or no video stream is selected.
    DecodingError,
    /// The source could not be parsed.
    FormatError,
    /// The source could not be read.
    IOError,
    /// A seek target outside `[0, duration]`, in nanoseconds.
    InvalidTime(u64),
    /// A stream index out of range.
    InvalidParameter(i32),
}

/// A video stream of a source.
#[derive(Debug, Clone, Copy)]
pub struct VideoStreamInfo {
    pub index: i32,
    pub width: u32,
    pub height: u32,
    pub format: VideoFormat,
    /// Frame rate as a fraction `frame_rate_num / frame_rate_den`.
    pub frame_rate_num: u32,
    pub frame_rate_den: u32,
    /// Nanoseconds.
    pub duration: u64,
    pub bit_rate: u64,
    /// Total frames if known, -1 otherwise.
    pub frames: i64,
}

/// An audio stream of a source.
#[derive(Debug, Clone, Copy)]
pub struct AudioStreamInfo {
    pub index: i32,
    pub sample_rate: u32,
    pub channels: u32,
    /// Nanoseconds.
    pub duration: u64,
    pub bit_rate: u64,
}

/// What opening a source reports.
#[derive(Debug)]
pub struct MediaInfo {
    pub path: String,
    pub format_name: String,
    /// Nanoseconds.
    pub duration: u64,
    pub video_streams: Vec<VideoStreamInfo>,
    pub audio_streams: Vec<AudioStreamInfo>,
    pub metadata: Vec<(String, String)>,
}

/// How a session converts decoded pictures.
#[derive(Debug, Clone, Copy)]
pub struct VideoDecoderConfig {
    pub hardware_acceleration: bool,
    pub output_format: VideoFormat,
    pub thread_count: u32,
}

impl Default for VideoDecoderConfig {
    fn default() -> (r: VideoDecoderConfig)
        ensures
            r.hardware_acceleration,
            r.output_format == VideoFormat::RGB24,
            r.thread_count == 2,
    {
        VideoDecoderConfig { hardware_acceleration: true, output_format: VideoFormat::RGB24, thread_count: 2 }
    }
}

/// What the decode loop observed in its last step.
#[derive(Debug, Clone, Copy, PartialEq, Eq, Structural)]
pub enum DecodeEvent {
    /// A packet of the given stream was read.
    Packet(usize),
    /// The source has no more packets.
    EndOfInput,
    /// The codec gave a picture presented at this source time (nanoseconds).
    Received(u64),
    /// The codec needs more input before it can give a picture.
    Again,
    /// The codec failed.
    CodecFailed,
}

/// What the decode loop does next.
#[derive(Debug, Clone, Copy, PartialEq, Eq, Structural)]
pub enum DecodeAction {
    /// Feed the packet just read to the codec, then try to take a picture.
    SendPacket,
    /// Read the next packet.
    ReadNext,
    /// Hand the picture out.
    Deliver,
    /// Stop: the stream is exhausted (a signal, not an error).
    EndOfStream,
}

/// The state of one source's decode session. The library decides; the
/// caller owns the decoding library's handles and does what it is told.
#[derive(Debug)]
pub struct VideoDecoder {
    pub config: VideoDecoderConfig,
    pub media_info: Option<MediaInfo>,
    /// Index into `video_streams` of the active stream, -1 for none.
    pub current_video_stream: i32,
    /// Index into `audio_streams` of the active stream, -1 for none.
    pub current_audio_stream: i32,
    /// Nanoseconds in the source.
    pub current_position: u64,
}

impl VideoDecoder {
    pub open spec fn is_open(&self) -> bool {
        self.media_info is Some
    }

    /// Each active stream index is -1 or names a stream of the open source.
    pub open spec fn wf(&self) -> bool {
        &&& (self.current_video_stream == -1 || (self.is_open()
            && 0 <= self.current_video_stream < self.media_info.unwrap().video_streams@.len()))
        &&& (self.current_audio_stream == -1 || (self.is_open()
            && 0 <= self.current_audio_stream < self.media_info.unwrap().audio_streams@.len()))
    }

    pub open spec fn duration_spec(&self) -> u64 {
        self.media_info.unwrap().duration
    }

    /// A session with nothing open.
    pub fn new(config: VideoDecoderConfig) -> (r: VideoDecoder)
        ensures
            r.wf(),
            !r.is_open(),
            r.config == config,
            r.current_video_stream == -1 && r.current_audio_stream == -1,
            r.current_position == 0,
    {
        VideoDecoder { config, media_info: None, current_video_stream: -1, current_audio_stream: -1, current_position: 0 }
    }

    /// Records a newly opened source: the first video and audio streams
    /// become active and the position is 0.
    pub fn open_with(&mut self, info: MediaInfo)
        ensures
            final(self).wf(),
            final(self).is_open(),
            final(self).config == old(self).config,
            final(self).media_info == Some(info),
            final(self).current_video_stream == (if info.video_streams@.len() > 0 { 0i32 } else { -1i32 }),
            final(self).current_audio_stream == (if info.audio_streams@.len() > 0 { 0i32 } else { -1i32 }),
            final(self).current_position == 0,
    {
        let v: i32 = if info.video_streams.len() > 0 { 0 } else { -1 };
        let a: i32 = if info.audio_streams.len() > 0 { 0 } else { -1 };
        self.media_info = Some(info);
        self.current_video_stream = v;
        self.current_audio_stream = a;
        self.current_position = 0;
    }

    /// Moves the read position to `time`, which must lie in `[0, duration]`.
    /// On success the caller repositions the source and flushes the codecs.
    pub fn seek(&mut self, time: u64) -> (r: Result<(), VideoDecoderError>)
        ensures
            old(self).wf() ==> final(self).wf(),
            !old(self).is_open() ==> r == Err::<(), VideoDecoderError>(VideoDecoderError::InitializationError) && *final(self) == *old(self),
            old(self).is_open() && time > old(self).duration_spec()
                ==> r == Err::<(), VideoDecoderError>(VideoDecoderError::InvalidTime(time)) && *final(self) == *old(self),
            old(self).is_open() && time <= old(self).duration_spec()
                ==> r is Ok && *final(self) == (VideoDecoder { current_position: time, ..*old(self) }),
    {
        let duration = match &self.media_info {
            None => return Err(VideoDecoderError::InitializationError),
            Some(info) => info.duration,
        };
        if time > duration {
            return Err(VideoDecoderError::InvalidTime(time));
        }
        self.current_position = time;
        Ok(())
    }

    /// Makes video stream `index` active. Returns whether it changed, in
    /// which case the caller opens a codec for the new stream.
    pub fn select_video_stream(&mut self, index: i32) -> (r: Result<bool, VideoDecoderError>)
        ensures
            old(self).wf() ==> final(self).wf(),
            !old(self).is_open() ==> r == Err::<bool, VideoDecoderError>(VideoDecoderError::InitializationError) && *final(self) == *old(self),
            old(self).is_open() && !(0 <= index < old(self).media_info.unwrap().video_streams@.len())
                ==> r == Err::<bool, VideoDecoderError>(VideoDecoderError::InvalidParameter(index)) && *final(self) == *old(self),
            old(self).is_open() && 0 <= index < old(self).media_info.unwrap().video_streams@.len()
                ==> r == Ok::<bool, VideoDecoderError>(index != old(self).current_video_stream)
                && *final(self) == (VideoDecoder { current_video_stream: index, ..*old(self) }),
    {
        let n = match &self.media_info {
            None => return Err(VideoDecoderError::InitializationError),
            Some(info) => info.video_streams.len(),
        };
        if index < 0 || index as usize >= n {
            return Err(VideoDecoderError::InvalidParameter(index));
        }
        let changed = index != self.current_video_stream;
        self.current_video_stream = index;
        Ok(changed)
    }

    /// Makes audio stream `index` active. Returns whether it changed.
    pub fn select_audio_stream(&mut self, index: i32) -> (r: Result<bool, VideoDecoderError>)
        ensures
            old(self).wf() ==> final(self).wf(),
            !old(self).is_open() ==> r == Err::<bool, VideoDecoderError>(VideoDecoderError::InitializationError) && *final(self) == *old(self),
            old(self).is_open() && !(0 <= index < old(self).media_info.unwrap().audio_streams@.len())
                ==> r == Err::<bool, VideoDecoderError>(VideoDecoderError::InvalidParameter(index)) && *final(self) == *old(self),
            old(self).is_open() && 0 <= index < old(self).media_info.unwrap().audio_streams@.len()
                ==> r == Ok::<bool, VideoDecoderError>(index != old(self).current_audio_stream)
                && *final(self) == (VideoDecoder { current_audio_stream: index, ..*old(self) }),
    {
        let n = match &self.media_info {
            None => return Err(VideoDecoderError::InitializationError),
            Some(info) => info.audio_streams.len(),
        };
        if index < 0 || index as usize >= n {
            return Err(VideoDecoderError::InvalidParameter(index));
        }
        let changed = index != self.current_audio_stream;
        self.current_audio_stream = index;
        Ok(changed)
    }

    /// One step of the decode loop: read a packet, feed it to the active
    /// stream's codec, take a picture; repeat until a picture comes or the
    /// source is exhausted.
    pub fn decode_step(&mut self, event: DecodeEvent) -> (r: Result<DecodeAction, VideoDecoderError>)
        ensures
            old(self).wf() ==> final(self).wf(),
            !old(self).is_open() ==> r == Err::<DecodeAction, VideoDecoderError>(VideoDecoderError::InitializationError)
                && *final(self) == *old(self),
            old(self).is_open() && old(self).current_video_stream < 0
                ==> r == Err::<DecodeAction, VideoDecoderError>(VideoDecoderError::DecodingError) && *final(self) == *old(self),
            old(self).is_open() && old(self).current_video_stream >= 0 ==> match event {
                DecodeEvent::Packet(i) => *final(self) == *old(self) && r == Ok::<DecodeAction, VideoDecoderError>(
                    if i == old(self).current_video_stream { DecodeAction::SendPacket } else { DecodeAction::ReadNext }),
                DecodeEvent::EndOfInput => *final(self) == *old(self) && r == Ok::<DecodeAction, VideoDecoderError>(DecodeAction::EndOfStream),
                DecodeEvent::Received(pts) => *final(self) == (VideoDecoder { current_position: pts, ..*old(self) })
                    && r == Ok::<DecodeAction, VideoDecoderError>(DecodeAction::Deliver),
                DecodeEvent::Again => *final(self) == *old(self) && r == Ok::<DecodeAction, VideoDecoderError>(DecodeAction::ReadNext),
                DecodeEvent::CodecFailed => *final(self) == *old(self) && r == Err::<DecodeAction, VideoDecoderError>(VideoDecoderError::DecodingError),
            },
    {
        if self.media_info.is_none() {
            return Err(VideoDecoderError::InitializationError);
        }
        if self.current_video_stream < 0 {
            return Err(VideoDecoderError::DecodingError);
        }
        match event {
            DecodeEvent::Packet(i) => {
                if i == self.current_video_stream as usize {
                    Ok(DecodeAction::SendPacket)
                } else {
                    Ok(DecodeAction::ReadNext)
                }
            },
            DecodeEvent::EndOfInput => Ok(DecodeAction::EndOfStream),
            DecodeEvent::Received(pts) => {
                self.current_position = pts;
                Ok(DecodeAction::Deliver)
            },
            DecodeEvent::Again => Ok(DecodeAction::ReadNext),
            DecodeEvent::CodecFailed => Err(VideoDecoderError::DecodingError),
        }
    }

    /// Releases the source. Closing a closed session changes nothing.
    pub fn close(&mut self)
        ensures
            final(self).wf(),
            !final(self).is_open(),
            final(self).config == old(self).config,
            final(self).current_video_stream == -1 && final(self).current_audio_stream == -1,
            final(self).current_position == 0,
    {
        self.media_info = None;
        self.current_video_stream = -1;
        self.current_audio_stream = -1;
        self.current_position = 0;
    }

    pub fn get_position(&self) -> (r: u64)
        ensures
            r == self.current_position,
    {
        self.current_position
    }

    pub fn get_media_info(&self) -> (r: Option<&MediaInfo>)
        ensures
            r is Some <==> self.media_info is Some,
            r is Some ==> *r.unwrap() == self.media_info.unwrap(),
    {
        self.media_info.as_ref()
    }
}

} // verus!
