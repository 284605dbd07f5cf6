//! Plain descriptors shared by the editing and export layers.
use vstd::prelude::*;

verus! {

/// The medium a track carries.
#[derive(Debug, Clone, Copy, PartialEq, Eq, Structural)]
pub enum TrackType {
    Video,
    Audio,
}

/// Why the output stage refused a frame.
#[derive(Debug, Clone, Copy, PartialEq, Eq, Structural)]
pub enum RendererError {
    InitializationError,
    RenderError,
    ResourceError,
}

/// Why an editing or export request failed.
#[derive(Debug, Clone, PartialEq, Eq)]
pub enum EditingError {
    GstreamerInitError(String),
    GesInitError(String),
    ImportError(String),
    TimelineError(String),
    PreviewError(String),
    ExportError(String),
    EffectError(String),
    NotInitialized,
    InvalidParameter(String),
    NotSupported(String),
    IoError(String),
    GstreamerError(String),
}

/// What kind of media a file holds.
#[derive(Debug, Clone, Copy, PartialEq, Eq, Structural)]
pub enum MediaType {
    Video,
    Audio,
    Image,
    Unknown,
}

/// An effect as shown to persistence and the UI.
#[derive(Debug)]
pub struct EffectInfo {
    pub id: u64,
    pub name: String,
    pub effect_type: String,
    pub parameters: Vec<(String, String)>,
    /// Nanoseconds.
    pub start_time: u64,
    /// Nanoseconds.
    pub duration: u64,
}

/// A clip as shown to persistence and the UI. Times are nanoseconds.
#[derive(Debug)]
pub struct ClipInfo {
    pub id: u64,
    pub name: String,
    pub source_path: Option<String>,
    pub start_time: u64,
    pub duration: u64,
    pub in_point: u64,
    pub out_point: u64,
    pub track_type: TrackType,
    pub effects: Vec<EffectInfo>,
}

/// A picture handed to a preview surface.
#[derive(Debug)]
pub struct PreviewFrame {
    pub data: Vec<u8>,
    pub width: u32,
    pub height: u32,
    /// Nanoseconds.
    pub timestamp: u64,
}

/// The stages of an export.
#[derive(Debug, Clone, Copy, PartialEq, Eq, Structural)]
pub enum ExportStage {
    Preparing,
    IntermediateExport,
    FinalRendering,
    Cleanup,
}

pub open spec fn export_stage_name(s: ExportStage) -> Seq<char> {
    match s {
        ExportStage::Preparing => "Preparing for export"@,
        ExportStage::IntermediateExport => "Creating intermediate export"@,
        ExportStage::FinalRendering => "Rendering final output"@,
        ExportStage::Cleanup => "Cleaning up temporary files"@,
    }
}

impl ExportStage {
    /// A human-readable name for the stage.
    pub fn display_name(&self) -> (r: &'static str)
        ensures
            r@ == export_stage_name(*self),
    {
        match self {
            ExportStage::Preparing => "Preparing for export",
            ExportStage::IntermediateExport => "Creating intermediate export",
            ExportStage::FinalRendering => "Rendering final output",
            ExportStage::Cleanup => "Cleaning up temporary files",
        }
    }
}

/// Which encoding backend an export uses.
#[derive(Debug, Clone, Copy, PartialEq, Eq, Structural)]
pub enum ExporterType {
    FFmpeg,
    GStreamer,
}

/// Where a batch operation stands.
#[derive(Debug, Clone, Copy, PartialEq, Eq, Structural)]
pub enum BatchStatus {
    Queued,
    InProgress,
    Completed,
    Failed,
    Cancelled,
}

/// The outcome of one item of a batch operation.
#[derive(Debug, Clone)]
pub struct BatchResult<T> {
    pub status: BatchStatus,
    pub result: Option<T>,
    pub error: Option<String>,
    /// Percent, 0 to 100.
    pub progress: u8,
}

impl<T> Default for BatchResult<T> {
    fn default() -> (r: BatchResult<T>)
        ensures
            r.status == BatchStatus::Queued,
            r.result is None && r.error is None,
            r.progress == 0,
    {
        BatchResult { status: BatchStatus::Queued, result: None, error: None, progress: 0 }
    }
}

/// What a batch operation does to each file.
#[derive(Debug, Clone, Copy, PartialEq, Eq, Structural)]
pub enum BatchOperationType {
    Analyze,
    Thumbnail,
    ExtractFrames,
    Convert,
}

} // verus!
