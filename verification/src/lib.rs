//! Core logic of a desktop image-compression utility: collision-safe file
//! naming, the optimize-or-convert decision pipeline, archive entry naming,
//! directory-scan filtering, window-geometry restoration and debounced
//! persistence of settings. Encoding and archiving themselves are delegated
//! to outside codec libraries behind narrow trusted wrappers.
pub mod archive;
pub mod codec;
pub mod config;
pub mod debounce;
pub mod geometry;
pub mod names;
pub mod pipeline;
pub mod scan;
