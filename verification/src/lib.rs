//! Verified core of an RGBA image processing library: image buffers, size
//! validation, geometric transforms, histograms and SVG sniffing.

pub mod error;
pub mod limits;
pub mod image_data;
pub mod crop;
pub mod rotate;
pub mod resize;
pub mod processor;
pub mod histogram;
pub mod codec;
pub mod svg;
pub mod noise;
pub mod presets;
