use vstd::prelude::*;

use fast_image_resize::ResizeAlg::Convolution;
use fast_image_resize::{FilterType, Image, ImageBufferError, PixelType, ResizeAlg, Resizer};
use std::num::NonZeroU32;

use crate::crop::{is_crop_of, min_int, CropFilter};
use crate::error::ImageError;
use crate::image_data::ImageData;
use crate::resize::ResizeAlgorithm::{Bilinear, CatmullRom, Lanczos3, Mitchell, Nearest};
use crate::limits::{size_error, valid_size, validate_image_size};

verus! {

/// Resampling method of a resize.
#[derive(Clone, Copy, Debug, PartialEq, Eq)]
pub enum ResizeAlgorithm {
    Nearest,
    Bilinear,
    CatmullRom,
    Mitchell,
    Lanczos3,
}

/// The RGBA bytes that `fast_image_resize` produces when it resizes the
/// `src_width` by `src_height` RGBA image `src` to `dst_width` by `dst_height`
/// with the given method.
pub uninterp spec fn resized_rgba(
    src: Seq<u8>,
    src_width: u32,
    src_height: u32,
    dst_width: u32,
    dst_height: u32,
    algorithm: ResizeAlgorithm,
) -> Seq<u8>;

/// Declares the resizing crate's buffer error, which the resize reports.
#[verifier::external_type_specification]
#[verifier::external_body]
pub struct ExImageBufferError(ImageBufferError);

/// `Clone` of the resizing crate's buffer error, which derives `Clone` and
/// `Copy` on a field-less enum: the clone is the same value.
pub assume_specification[ <ImageBufferError as Clone>::clone ](e: &ImageBufferError) -> (r: ImageBufferError)
    ensures
        r == *e,
;

/// Resizes RGBA pixels with `fast_image_resize` (`Image::from_vec_u8` for both
/// buffers, `Resizer::resize`, `Image::into_vec`), writing into `dst`.
///
/// Claimed: on success, the result is the named resize of the arguments and
/// holds four bytes per destination pixel (the destination buffer is handed
/// back whole). The crate's `u8` paths use fixed-point integer arithmetic, and
/// its tests expect the same result whatever CPU extension runs. It fails,
/// with the crate's buffer error, when a buffer is not aligned for four-byte
/// pixels, which the allocator does not promise. The requirements rule out
/// its panics: zero sides and pixel counts that overflow `u32`; `resize`
/// itself fails only on differing pixel types, which both buffers share.
#[verifier::external_body]
fn fir_resize(
    src: &Vec<u8>,
    src_width: u32,
    src_height: u32,
    dst: Vec<u8>,
    dst_width: u32,
    dst_height: u32,
    algorithm: ResizeAlgorithm,
) -> (r: Result<Vec<u8>, ImageBufferError>)
    requires
        0 < src_width && 0 < src_height && 0 < dst_width && 0 < dst_height,
        src_width * src_height <= u32::MAX,
        dst_width * dst_height <= u32::MAX,
        src@.len() == src_width * src_height * 4,
        dst@.len() == dst_width * dst_height * 4,
    ensures
        r matches Ok(v) ==> v@ == resized_rgba(src@, src_width, src_height, dst_width, dst_height, algorithm)
            && v@.len() == dst_width * dst_height * 4,
{
    let alg = match algorithm {
        Nearest => ResizeAlg::Nearest,
        Bilinear => Convolution(FilterType::Bilinear),
        CatmullRom => Convolution(FilterType::CatmullRom),
        Mitchell => Convolution(FilterType::Mitchell),
        Lanczos3 => Convolution(FilterType::Lanczos3),
    };
    let (sw, sh) = (NonZeroU32::new(src_width).unwrap(), NonZeroU32::new(src_height).unwrap());
    let (dw, dh) = (NonZeroU32::new(dst_width).unwrap(), NonZeroU32::new(dst_height).unwrap());
    let src_image = Image::from_vec_u8(sw, sh, src.clone(), PixelType::U8x4)?;
    let mut dst_image = Image::from_vec_u8(dw, dh, dst, PixelType::U8x4)?;
    Resizer::new(alg).resize(&src_image.view(), &mut dst_image.view_mut()).unwrap();
    Ok(dst_image.into_vec())
}

/// Resizes images to a target size.
pub struct ResizeFilter {
    width: u32,
    height: u32,
    algorithm: ResizeAlgorithm,
    maintain_aspect_ratio: bool,
}

impl ResizeFilter {
    /// Target (or, keeping the aspect ratio, bounding) width.
    pub closed spec fn target_width(&self) -> nat {
        self.width as nat
    }

    /// Target (or, keeping the aspect ratio, bounding) height.
    pub closed spec fn target_height(&self) -> nat {
        self.height as nat
    }

    /// Resampling method.
    pub closed spec fn method(&self) -> ResizeAlgorithm {
        self.algorithm
    }

    /// Whether the image is fitted inside the target box, keeping its aspect ratio.
    pub closed spec fn keeps_aspect_ratio(&self) -> bool {
        self.maintain_aspect_ratio
    }

    #[verifier::type_invariant]
    closed spec fn size_ok(&self) -> bool {
        valid_size(self.width as int, self.height as int)
    }

    /// A resize to `width` by `height` (Lanczos3 unless another method is given;
    /// stretching unless keeping the aspect ratio is asked for); the size must
    /// pass the size rule.
    pub fn new(
        width: u32,
        height: u32,
        algorithm: Option<ResizeAlgorithm>,
        maintain_aspect_ratio: Option<bool>,
    ) -> (r: Result<ResizeFilter, ImageError>)
        ensures
            r is Ok <==> valid_size(width as int, height as int),
            r matches Err(e) ==> e == size_error(width as int, height as int),
            r matches Ok(f) ==> f.target_width() == width && f.target_height() == height
                && f.method() == (match algorithm {
                Some(a) => a,
                None => ResizeAlgorithm::Lanczos3,
            }) && f.keeps_aspect_ratio() == (match maintain_aspect_ratio {
                Some(b) => b,
                None => false,
            }),
    {
        validate_image_size(width, height)?;
        let algorithm = match algorithm {
            Some(a) => a,
            None => ResizeAlgorithm::Lanczos3,
        };
        let maintain_aspect_ratio = match maintain_aspect_ratio {
            Some(b) => b,
            None => false,
        };
        Ok(ResizeFilter { width, height, algorithm, maintain_aspect_ratio })
    }

    /// A resize that fits the image inside `max_width` by `max_height`, keeping
    /// its aspect ratio (Lanczos3 unless another method is given); the box must
    /// pass the size rule.
    pub fn fit(max_width: u32, max_height: u32, algorithm: Option<ResizeAlgorithm>) -> (r: Result<
        ResizeFilter,
        ImageError,
    >)
        ensures
            r is Ok <==> valid_size(max_width as int, max_height as int),
            r matches Err(e) ==> e == size_error(max_width as int, max_height as int),
            r matches Ok(f) ==> f.target_width() == max_width && f.target_height() == max_height
                && f.method() == (match algorithm {
                Some(a) => a,
                None => ResizeAlgorithm::Lanczos3,
            }) && f.keeps_aspect_ratio(),
    {
        validate_image_size(max_width, max_height)?;
        let algorithm = match algorithm {
            Some(a) => a,
            None => ResizeAlgorithm::Lanczos3,
        };
        Ok(ResizeFilter { width: max_width, height: max_height, algorithm, maintain_aspect_ratio: true })
    }

    pub fn width(&self) -> (r: u32)
        ensures
            r == self.target_width(),
            valid_size(self.target_width() as int, self.target_height() as int),
    {
        proof {
            use_type_invariant(self);
        }
        self.width
    }

    pub fn height(&self) -> (r: u32)
        ensures
            r == self.target_height(),
            valid_size(self.target_width() as int, self.target_height() as int),
    {
        proof {
            use_type_invariant(self);
        }
        self.height
    }

    pub fn algorithm(&self) -> (r: ResizeAlgorithm)
        ensures
            r == self.method(),
    {
        self.algorithm
    }

    pub fn maintain_aspect_ratio(&self) -> (r: bool)
        ensures
            r == self.keeps_aspect_ratio(),
    {
        self.maintain_aspect_ratio
    }

    /// Resizes the image to `target_width` by `target_height` with the filter's
    /// method; an image that already has that size is left as it is.
    ///
    /// Fails, leaving the image as it was, when the resizing crate cannot take
    /// the pixel buffers.
    pub fn apply_with_dimensions(&self, image: &mut ImageData, target_width: u32, target_height: u32)
        -> (r: Result<(), ImageError>)
        requires
            0 < target_width && 0 < target_height,
            target_width * target_height <= u32::MAX,
            (target_width != old(image).w() || target_height != old(image).h()) ==> (0 < old(
                image,
            ).w() && 0 < old(image).h() && old(image).w() * old(image).h() <= u32::MAX
                && target_width * target_height * 4 <= usize::MAX),
        ensures
            (target_width == old(image).w() && target_height == old(image).h()) ==> r is Ok
                && *final(image) == *old(image),
            r is Ok && (target_width != old(image).w() || target_height != old(image).h())
                ==> is_resize_of(*final(image), *old(image), target_width, target_height, self.method()),
            r is Err ==> (r matches Err(ImageError::ResizeFailed(_)) && *final(image) == *old(image)),
    {
        resize_image(image, target_width, target_height, self.algorithm)
    }

    /// The name under which the filter is listed.
    pub fn name(&self) -> (r: &'static str)
        ensures
            r@ == "Resize"@,
    {
        "Resize"
    }
}

/// `out` is `src` resized by `fast_image_resize` to `width` by `height` with `algorithm`.
pub open spec fn is_resize_of(
    out: ImageData,
    src: ImageData,
    width: u32,
    height: u32,
    algorithm: ResizeAlgorithm,
) -> bool {
    &&& out.w() == width
    &&& out.h() == height
    &&& out.bytes() == resized_rgba(
        src.bytes(),
        src.w() as u32,
        src.h() as u32,
        width,
        height,
        algorithm,
    )
}

/// Resizes an image to `target_width` by `target_height`; an image that
/// already has that size is left as it is, and so is one the resizing crate
/// cannot take.
fn resize_image(
    image: &mut ImageData,
    target_width: u32,
    target_height: u32,
    algorithm: ResizeAlgorithm,
) -> (r: Result<(), ImageError>)
    requires
        0 < target_width && 0 < target_height,
        target_width * target_height <= u32::MAX,
        (target_width != old(image).w() || target_height != old(image).h()) ==> (0 < old(image).w()
            && 0 < old(image).h() && old(image).w() * old(image).h() <= u32::MAX
            && target_width * target_height * 4 <= usize::MAX),
    ensures
        (target_width == old(image).w() && target_height == old(image).h()) ==> r is Ok
            && *final(image) == *old(image),
        r is Ok && (target_width != old(image).w() || target_height != old(image).h()) ==> is_resize_of(
            *final(image),
            *old(image),
            target_width,
            target_height,
            algorithm,
        ),
        r is Err ==> (r matches Err(ImageError::ResizeFailed(_)) && *final(image) == *old(image)),
{
    let original_width = image.width();
    let original_height = image.height();
    if target_width == original_width && target_height == original_height {
        return Ok(());
    }
    let byte_count: usize = target_width as usize * target_height as usize * 4;
    let dst: Vec<u8> = vec![0u8; byte_count];
    let resized = match fir_resize(
        image.as_raw(),
        original_width,
        original_height,
        dst,
        target_width,
        target_height,
        algorithm,
    ) {
        Ok(v) => v,
        Err(e) => {
            return Err(ImageError::ResizeFailed(e));
        },
    };
    match ImageData::from_raw(target_width, target_height, resized) {
        Some(out) => {
            *image = out;
            Ok(())
        },
        None => {
            // The resize hands back four bytes per destination pixel.
            proof {
                assert(false);
            }
            Ok(())
        },
    }
}

/// Makes square or fitted thumbnails of at most 1024 pixels a side.
pub struct ThumbnailFilter {
    size: u32,
    algorithm: ResizeAlgorithm,
    crop_to_square: bool,
}

impl ThumbnailFilter {
    /// Side of the thumbnail (or of the box it is fitted in).
    pub closed spec fn side(&self) -> nat {
        self.size as nat
    }

    /// Resampling method.
    pub closed spec fn method(&self) -> ResizeAlgorithm {
        self.algorithm
    }

    /// Whether the image is first cropped to a centred square.
    pub closed spec fn squares(&self) -> bool {
        self.crop_to_square
    }

    #[verifier::type_invariant]
    closed spec fn side_ok(&self) -> bool {
        valid_size(self.size as int, self.size as int) && self.size <= Self::max_side()
    }

    /// Largest accepted thumbnail side.
    pub open spec fn max_side() -> int {
        1024
    }

    /// A thumbnail filter of side `size` (Lanczos3 unless another method is given;
    /// cropping to a square unless told otherwise). The square of side `size`
    /// must pass the size rule, and `size` must be at most 1024.
    pub fn new(size: u32, algorithm: Option<ResizeAlgorithm>, crop_to_square: Option<bool>) -> (r:
        Result<ThumbnailFilter, ImageError>)
        ensures
            r is Ok <==> (valid_size(size as int, size as int) && size <= Self::max_side()),
            !valid_size(size as int, size as int) ==> r == Err::<ThumbnailFilter, ImageError>(
                size_error(size as int, size as int),
            ),
            (valid_size(size as int, size as int) && size > Self::max_side()) ==> r == Err::<
                ThumbnailFilter,
                ImageError,
            >(ImageError::ThumbnailTooLarge),
            r matches Ok(f) ==> f.side() == size && f.method() == (match algorithm {
                Some(a) => a,
                None => ResizeAlgorithm::Lanczos3,
            }) && f.squares() == (match crop_to_square {
                Some(b) => b,
                None => true,
            }),
    {
        validate_image_size(size, size)?;
        if size > 1024 {
            return Err(ImageError::ThumbnailTooLarge);
        }
        let algorithm = match algorithm {
            Some(a) => a,
            None => ResizeAlgorithm::Lanczos3,
        };
        let crop_to_square = match crop_to_square {
            Some(b) => b,
            None => true,
        };
        Ok(ThumbnailFilter { size, algorithm, crop_to_square })
    }

    pub fn size(&self) -> (r: u32)
        ensures
            r == self.side(),
    {
        self.size
    }

    pub fn algorithm(&self) -> (r: ResizeAlgorithm)
        ensures
            r == self.method(),
    {
        self.algorithm
    }

    pub fn crop_to_square(&self) -> (r: bool)
        ensures
            r == self.squares(),
    {
        self.crop_to_square
    }

    /// First step of making the thumbnail: crops the image to its centred
    /// square when the filter squares, and returns the resize that finishes
    /// the thumbnail, to exactly `size` by `size` after squaring, else fitting
    /// the image inside a `size` by `size` box.
    ///
    /// Fails, leaving the image as it was, when the square does not pass the
    /// size rule.
    pub fn prepare(&self, image: &mut ImageData) -> (r: Result<ResizeFilter, ImageError>)
        ensures
            !self.squares() ==> *final(image) == *old(image),
            !self.squares() ==> (r matches Ok(f) && f.target_width() == self.side()
                && f.target_height() == self.side() && f.method() == self.method()
                && f.keeps_aspect_ratio()),
            self.squares() ==> ({
                let side = min_int(old(image).w() as int, old(image).h() as int);
                &&& r is Ok <==> valid_size(side, side)
                &&& r matches Err(e) ==> e == size_error(side, side) && *final(image) == *old(image)
                &&& r matches Ok(f) ==> is_crop_of(
                    *final(image),
                    *old(image),
                    (old(image).w() - side) / 2,
                    (old(image).h() - side) / 2,
                    side,
                    side,
                ) && f.target_width() == self.side() && f.target_height() == self.side()
                    && f.method() == self.method() && !f.keeps_aspect_ratio()
                &&& r is Ok ==> final(image).w() == side && final(image).h() == side
            }),
    {
        proof {
            use_type_invariant(self);
        }
        if self.crop_to_square {
            let crop = CropFilter::center_square(image.width(), image.height())?;
            match crop.apply(image) {
                Ok(()) => {},
                Err(e) => {
                    return Err(e);
                },
            }
            ResizeFilter::new(self.size, self.size, Some(self.algorithm), Some(false))
        } else {
            ResizeFilter::fit(self.size, self.size, Some(self.algorithm))
        }
    }

    /// The name under which the filter is listed.
    pub fn name(&self) -> (r: &'static str)
        ensures
            r@ == "Thumbnail"@,
    {
        "Thumbnail"
    }
}

} // verus!
