use vstd::prelude::*;

use fast_image_resize::ImageBufferError;

verus! {

/// Every failure that the library can report.
#[derive(Debug, Clone, PartialEq, Eq)]
pub enum ImageError {
    /// A width or a height is zero.
    ZeroDimensions,
    /// A width or a height is above the per-side limit.
    DimensionsTooLarge,
    /// The number of pixels is above the pixel-count limit.
    TooManyPixels,
    /// A raw RGBA buffer does not hold `width * height * 4` bytes.
    InvalidDataLength { expected: usize, actual: usize },
    /// A pixel coordinate lies outside the image.
    PixelOutOfBounds,
    /// An RGBA value does not have exactly four components.
    InvalidRgbaLength,
    /// The top-left corner of a crop lies outside the image.
    CropStartOutOfBounds,
    /// A crop would keep no pixel.
    InvalidCropDimensions,
    /// The requested crop is wider or taller than the image.
    CropLargerThanImage,
    /// A thumbnail side is above the thumbnail limit.
    ThumbnailTooLarge,
    /// A background colour does not have exactly four components.
    InvalidBackgroundColor,
    /// The bytes could not be decoded as a raster image; the decoder's message.
    DecodeFailed(String),
    /// The bytes do not look like SVG content.
    NotSvg,
    /// The bytes are not valid UTF-8.
    InvalidUtf8,
    /// No `<svg` element, in any letter case.
    MissingSvgElement,
    /// No lower-case `<svg` opening tag.
    NoOpeningSvgTag,
    /// The resizing crate could not take the pixel buffers; its error.
    ResizeFailed(ImageBufferError),
    /// The image could not be encoded in the asked format; the encoder's message.
    EncodeFailed(String),
}

} // verus!
