use vstd::prelude::*;

use crate::error::ImageError;
use crate::image_data::{in_image, is_pixel_write_of, ImageData};
use crate::limits::{size_error, valid_size, validate_image_size};

verus! {

/// An image being worked on, with pixel access that reports errors instead of panicking.
pub struct ImageProcessor {
    image: ImageData,
}

impl ImageProcessor {
    /// The image held.
    pub closed spec fn image(&self) -> ImageData {
        self.image
    }

    /// A processor over the `width` by `height` RGBA bytes `data`.
    ///
    /// The size must pass the size rule, then `data` must hold exactly
    /// `width * height * 4` bytes.
    pub fn new(width: u32, height: u32, data: Vec<u8>) -> (r: Result<ImageProcessor, ImageError>)
        ensures
            !valid_size(width as int, height as int) ==> r == Err::<ImageProcessor, ImageError>(
                size_error(width as int, height as int),
            ),
            (valid_size(width as int, height as int) && data@.len() != width * height * 4) ==> r
                == Err::<ImageProcessor, ImageError>(
                ImageError::InvalidDataLength {
                    expected: (width * height * 4) as usize,
                    actual: data@.len() as usize,
                },
            ),
            r is Ok <==> (valid_size(width as int, height as int) && data@.len() == width * height
                * 4),
            r matches Ok(p) ==> p.image().w() == width && p.image().h() == height
                && p.image().bytes() == data@,
    {
        validate_image_size(width, height)?;
        assert(width as int * height as int * 4 <= 256_000_000) by (nonlinear_arith)
            requires
                width as int * height as int <= 64_000_000,
        ;
        let expected_len = (width * height * 4) as usize;
        let actual_len = data.len();
        match ImageData::from_raw(width, height, data) {
            Some(image) => Ok(ImageProcessor { image }),
            None => Err(ImageError::InvalidDataLength { expected: expected_len, actual: actual_len }),
        }
    }

    pub fn width(&self) -> (r: u32)
        ensures
            r == self.image().w(),
    {
        self.image.width()
    }

    pub fn height(&self) -> (r: u32)
        ensures
            r == self.image().h(),
    {
        self.image.height()
    }

    /// A copy of the raw RGBA bytes.
    pub fn data(&self) -> (r: Vec<u8>)
        ensures
            r@ == self.image().bytes(),
    {
        let r = self.image.as_raw().clone();
        assert(r@ =~= self.image().bytes());
        r
    }

    /// The four channels of pixel `(x, y)`, or an error when it lies outside the image.
    pub fn get_pixel(&self, x: u32, y: u32) -> (r: Result<Vec<u8>, ImageError>)
        ensures
            r is Err <==> (x >= self.image().w() || y >= self.image().h()),
            r is Err ==> r == Err::<Vec<u8>, ImageError>(ImageError::PixelOutOfBounds),
            r matches Ok(v) ==> v@ == self.image().pixel_of(x as int, y as int),
    {
        if x >= self.image.width() || y >= self.image.height() {
            return Err(ImageError::PixelOutOfBounds);
        }
        let p = self.image.get_pixel(x, y);
        let v = vec![p[0], p[1], p[2], p[3]];
        assert(v@ =~= self.image().pixel_of(x as int, y as int));
        Ok(v)
    }

    /// Overwrites pixel `(x, y)` with `rgba`.
    ///
    /// Fails, leaving the image as it was, when the pixel lies outside the image,
    /// and otherwise when `rgba` does not have exactly four components.
    pub fn set_pixel(&mut self, x: u32, y: u32, rgba: Vec<u8>) -> (r: Result<(), ImageError>)
        ensures
            (x >= old(self).image().w() || y >= old(self).image().h()) ==> r == Err::<(), ImageError>(
                ImageError::PixelOutOfBounds,
            ),
            (x < old(self).image().w() && y < old(self).image().h() && rgba@.len() != 4) ==> r
                == Err::<(), ImageError>(ImageError::InvalidRgbaLength),
            r is Ok <==> (x < old(self).image().w() && y < old(self).image().h() && rgba@.len()
                == 4),
            r is Err ==> final(self).image() == old(self).image(),
            r is Ok ==> is_pixel_write_of(
                final(self).image(),
                old(self).image(),
                x as int,
                y as int,
                rgba@,
            ),
    {
        if x >= self.image.width() || y >= self.image.height() {
            return Err(ImageError::PixelOutOfBounds);
        }
        if rgba.len() != 4 {
            return Err(ImageError::InvalidRgbaLength);
        }
        let value = [rgba[0], rgba[1], rgba[2], rgba[3]];
        assert(value@ =~= rgba@);
        self.image.put_pixel(x, y, value);
        Ok(())
    }

    /// A copy of the image.
    pub fn to_image_buffer(&self) -> (r: ImageData)
        ensures
            r.w() == self.image().w() && r.h() == self.image().h() && r.bytes()
                == self.image().bytes(),
    {
        self.image.clone()
    }

    /// A processor over a copy of `image`.
    pub fn from_image_buffer(image: &ImageData) -> (r: ImageProcessor)
        ensures
            r.image().w() == image.w() && r.image().h() == image.h() && r.image().bytes()
                == image.bytes(),
    {
        ImageProcessor { image: image.clone() }
    }

    /// Replaces the image held by a copy of `image`.
    pub fn update_from_image_buffer(&mut self, image: &ImageData)
        ensures
            final(self).image().w() == image.w(),
            final(self).image().h() == image.h(),
            final(self).image().bytes() == image.bytes(),
    {
        self.image = image.clone();
    }
}

/// After a pixel write, reading that pixel gives back what was written, and
/// every other pixel reads as before.
pub proof fn lemma_pixel_reads_back_write(after: ImageData, before: ImageData, x: int, y: int, rgba: Seq<u8>)
    requires
        is_pixel_write_of(after, before, x, y, rgba),
        0 <= x < before.w(),
        0 <= y < before.h(),
        rgba.len() == 4,
    ensures
        after.pixel_of(x, y) == rgba,
        forall|x2: int, y2: int|
            0 <= x2 < after.w() && 0 <= y2 < after.h() && (x2 != x || y2 != y) ==> #[trigger] after.pixel_of(
                x2,
                y2,
            ) == before.pixel_of(x2, y2),
{
    assert(after.at(x, y, 0) == rgba[0]);
    assert(after.at(x, y, 1) == rgba[1]);
    assert(after.at(x, y, 2) == rgba[2]);
    assert(after.at(x, y, 3) == rgba[3]);
    assert(after.pixel_of(x, y) =~= rgba);
    assert forall|x2: int, y2: int|
        0 <= x2 < after.w() && 0 <= y2 < after.h() && (x2 != x || y2 != y) implies #[trigger] after.pixel_of(
        x2,
        y2,
    ) == before.pixel_of(x2, y2) by {
        assert(after.at(x2, y2, 0) == before.at(x2, y2, 0));
        assert(after.at(x2, y2, 1) == before.at(x2, y2, 1));
        assert(after.at(x2, y2, 2) == before.at(x2, y2, 2));
        assert(after.at(x2, y2, 3) == before.at(x2, y2, 3));
        assert(after.pixel_of(x2, y2) =~= before.pixel_of(x2, y2));
    }
}

/// Writing back the value a pixel already holds changes no pixel.
pub proof fn lemma_writing_read_value_changes_nothing(after: ImageData, before: ImageData, x: int, y: int)
    requires
        is_pixel_write_of(after, before, x, y, before.pixel_of(x, y)),
    ensures
        forall|x2: int, y2: int, c: int|
            in_image(before.w() as int, before.h() as int, x2, y2, c) ==> #[trigger] after.at(
                x2,
                y2,
                c,
            ) == before.at(x2, y2, c),
        after.sized() && before.sized() ==> after.bytes() == before.bytes(),
{
    assert forall|x2: int, y2: int, c: int|
        in_image(before.w() as int, before.h() as int, x2, y2, c) implies #[trigger] after.at(
        x2,
        y2,
        c,
    ) == before.at(x2, y2, c) by {
        if x2 == x && y2 == y {
            assert(c == 0 || c == 1 || c == 2 || c == 3);
        }
    }
    if after.sized() && before.sized() {
        ImageData::lemma_same_pixels_same_bytes(after, before);
    }
}

/// Of two writes to the same pixel, the second one wins.
pub proof fn lemma_second_write_wins(
    first: ImageData,
    second: ImageData,
    start: ImageData,
    x: int,
    y: int,
    a: Seq<u8>,
    b: Seq<u8>,
)
    requires
        is_pixel_write_of(first, start, x, y, a),
        is_pixel_write_of(second, first, x, y, b),
    ensures
        is_pixel_write_of(second, start, x, y, b),
{
}

} // verus!
