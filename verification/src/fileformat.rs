//! Audio file formats, under the module name the track code first used.
pub use crate::file_format::{FileFormat, UnsupportedFormat};
