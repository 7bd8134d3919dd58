//! Timeline, selection and export planning for assembling still images into
//! animated WebP or MP4 files with ffmpeg.
pub mod text;
pub mod types;
pub mod selection;
pub mod timeline;
pub mod timeline_laws;
pub mod mp4;
pub mod export;
pub mod runtime;
pub mod ui;
pub mod paths;
pub mod render;
pub mod editor;
pub mod coherence;
pub mod probe;
pub mod preview;
