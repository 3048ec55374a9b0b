//! Verified building blocks for recovering archives with tampered names:
//! normalization of file-name extensions, content-based file-type detection,
//! and the interpretation of what the 7-zip engine reports.

pub mod bit7z;
pub mod extension_detector;
pub mod normalize;
pub mod segments;
pub mod text;

pub use normalize::normalize_extension;
