//! Backend of a non-linear video editor: an editable timeline of tracks and
//! clips, the mapping of timeline time to source time, compositing of decoded
//! layers into output frames, and a bounded cache of composited frames.

pub mod cache;
pub mod clip;
pub mod compositing;
pub mod decoder;
pub mod effects;
pub mod encoder;
pub mod formats;
pub mod session;
pub mod timeline;
pub mod timeline_renderer;
pub mod track;
pub mod types;
