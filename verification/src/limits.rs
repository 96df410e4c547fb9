use vstd::prelude::*;

use crate::error::ImageError;

verus! {

/// Largest accepted width or height, in pixels.
pub const MAX_DIMENSION: u32 = 8192;

/// Largest accepted number of pixels.
pub const MAX_PIXELS: u64 = 64_000_000;

/// The size rule: both sides positive, neither above `MAX_DIMENSION`,
/// and at most `MAX_PIXELS` pixels in all.
pub open spec fn valid_size(width: int, height: int) -> bool {
    &&& 0 < width && 0 < height
    &&& width <= MAX_DIMENSION && height <= MAX_DIMENSION
    &&& width * height <= MAX_PIXELS
}

/// The error that `validate_image_size` reports for a size that breaks the rule.
pub open spec fn size_error(width: int, height: int) -> ImageError {
    if width == 0 || height == 0 {
        ImageError::ZeroDimensions
    } else if width > MAX_DIMENSION || height > MAX_DIMENSION {
        ImageError::DimensionsTooLarge
    } else {
        ImageError::TooManyPixels
    }
}

/// Checks a size against the size rule.
pub fn validate_image_size(width: u32, height: u32) -> (r: Result<(), ImageError>)
    ensures
        r is Ok <==> valid_size(width as int, height as int),
        r matches Err(e) ==> e == size_error(width as int, height as int),
{
    if width == 0 || height == 0 {
        return Err(ImageError::ZeroDimensions);
    }
    if width > MAX_DIMENSION || height > MAX_DIMENSION {
        return Err(ImageError::DimensionsTooLarge);
    }
    assert(width as int * height as int <= 8192 * 8192) by (nonlinear_arith)
        requires
            width <= 8192,
            height <= 8192,
    ;
    let total_pixels: u64 = width as u64 * height as u64;
    if total_pixels > MAX_PIXELS {
        return Err(ImageError::TooManyPixels);
    }
    Ok(())
}

/// Clamps an integer into the byte range.
pub fn clamp_u8(value: i32) -> (r: u8)
    ensures
        r as int == if value < 0 { 0 } else if value > 255 { 255 } else { value as int },
{
    let lower = if value < 0 { 0 } else { value };
    let upper = if lower > 255 { 255 } else { lower };
    upper as u8
}

} // verus!
