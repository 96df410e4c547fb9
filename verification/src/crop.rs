use vstd::prelude::*;

use crate::error::ImageError;
use crate::image_data::{in_image, remap, remap_source, ImageData, Remap};
use crate::limits::{size_error, valid_size, validate_image_size};

verus! {

/// The smaller of two integers.
pub open spec fn min_int(a: int, b: int) -> int {
    if a <= b {
        a
    } else {
        b
    }
}

/// Cuts a rectangle out of an image.
pub struct CropFilter {
    x: u32,
    y: u32,
    width: u32,
    height: u32,
}

impl CropFilter {
    /// Left edge of the rectangle.
    pub closed spec fn left(&self) -> nat {
        self.x as nat
    }

    /// Top edge of the rectangle.
    pub closed spec fn top(&self) -> nat {
        self.y as nat
    }

    /// Requested width of the rectangle.
    pub closed spec fn crop_width(&self) -> nat {
        self.width as nat
    }

    /// Requested height of the rectangle.
    pub closed spec fn crop_height(&self) -> nat {
        self.height as nat
    }

    #[verifier::type_invariant]
    closed spec fn size_ok(&self) -> bool {
        valid_size(self.width as int, self.height as int)
    }

    /// A crop of a `width` by `height` rectangle whose top-left corner is `(x, y)`;
    /// the rectangle's size must pass the size rule.
    pub fn new(x: u32, y: u32, width: u32, height: u32) -> (r: Result<CropFilter, ImageError>)
        ensures
            r is Ok <==> valid_size(width as int, height as int),
            r matches Err(e) ==> e == size_error(width as int, height as int),
            r matches Ok(f) ==> f.left() == x && f.top() == y && f.crop_width() == width
                && f.crop_height() == height,
    {
        validate_image_size(width, height)?;
        Ok(CropFilter { x, y, width, height })
    }

    pub fn x(&self) -> (r: u32)
        ensures
            r == self.left(),
    {
        self.x
    }

    pub fn y(&self) -> (r: u32)
        ensures
            r == self.top(),
    {
        self.y
    }

    pub fn width(&self) -> (r: u32)
        ensures
            r == self.crop_width(),
            valid_size(self.crop_width() as int, self.crop_height() as int),
    {
        proof {
            use_type_invariant(self);
        }
        self.width
    }

    pub fn height(&self) -> (r: u32)
        ensures
            r == self.crop_height(),
            valid_size(self.crop_width() as int, self.crop_height() as int),
    {
        proof {
            use_type_invariant(self);
        }
        self.height
    }

    /// The largest centred square crop of an `image_width` by `image_height` image.
    ///
    /// The side is the smaller of the two sides, and the square is centred,
    /// rounding its offset down; the square must pass the size rule. (This is the
    /// one-to-one case of a centred crop to an aspect ratio: for every side up to
    /// the size limit the ratio comparison and the scaled side are exact.)
    pub fn center_square(image_width: u32, image_height: u32) -> (r: Result<CropFilter, ImageError>)
        ensures
            ({
                let side = min_int(image_width as int, image_height as int);
                &&& r is Ok <==> valid_size(side, side)
                &&& r matches Err(e) ==> e == size_error(side, side)
                &&& r matches Ok(f) ==> f.crop_width() == side && f.crop_height() == side
                    && f.left() == (image_width - side) / 2 && f.top() == (image_height - side) / 2
            }),
    {
        let side = if image_width <= image_height {
            image_width
        } else {
            image_height
        };
        let x = (image_width - side) / 2;
        let y = (image_height - side) / 2;
        Self::new(x, y, side, side)
    }

    /// Replaces the image by the part of it inside the rectangle, clipped at
    /// the image's right and bottom edges.
    ///
    /// Fails, leaving the image as it was, when the rectangle's top-left corner
    /// lies outside the image.
    pub fn apply(&self, image: &mut ImageData) -> (r: Result<(), ImageError>)
        ensures
            r is Err <==> (self.left() >= old(image).w() || self.top() >= old(image).h()),
            r is Err ==> r == Err::<(), ImageError>(ImageError::CropStartOutOfBounds),
            r is Err ==> *final(image) == *old(image),
            r is Ok ==> is_crop_of(
                *final(image),
                *old(image),
                self.left() as int,
                self.top() as int,
                self.crop_width() as int,
                self.crop_height() as int,
            ),
    {
        proof {
            use_type_invariant(self);
        }
        let img_width = image.width();
        let img_height = image.height();
        if self.x >= img_width || self.y >= img_height {
            return Err(ImageError::CropStartOutOfBounds);
        }
        let rest_w = img_width - self.x;
        let rest_h = img_height - self.y;
        let actual_width = if self.width <= rest_w {
            self.width
        } else {
            rest_w
        };
        let actual_height = if self.height <= rest_h {
            self.height
        } else {
            rest_h
        };
        if actual_width == 0 || actual_height == 0 {
            return Err(ImageError::InvalidCropDimensions);
        }
        let m = Remap::Window { x0: self.x, y0: self.y };
        let cropped = remap(image, m, actual_width, actual_height);
        *image = cropped;
        Ok(())
    }

    /// The name under which the filter is listed.
    pub fn name(&self) -> (r: &'static str)
        ensures
            r@ == "Crop"@,
    {
        "Crop"
    }
}

/// `out` is the part of `src` inside the `width` by `height` rectangle whose
/// top-left corner is `(x, y)`, clipped at the right and bottom edges of `src`.
pub open spec fn is_crop_of(out: ImageData, src: ImageData, x: int, y: int, width: int, height: int) -> bool {
    &&& out.w() == min_int(width, src.w() - x)
    &&& out.h() == min_int(height, src.h() - y)
    &&& forall|cx: int, cy: int, c: int|
        in_image(out.w() as int, out.h() as int, cx, cy, c) ==> #[trigger] out.at(cx, cy, c)
            == src.at(x + cx, y + cy, c)
}

/// Cropping from the top-left corner with a rectangle at least as large as the
/// image keeps every pixel where it was.
pub proof fn lemma_crop_whole_image_is_identity(out: ImageData, src: ImageData, width: int, height: int)
    requires
        width >= src.w(),
        height >= src.h(),
        is_crop_of(out, src, 0, 0, width, height),
    ensures
        out.w() == src.w(),
        out.h() == src.h(),
        forall|x: int, y: int, c: int|
            in_image(src.w() as int, src.h() as int, x, y, c) ==> #[trigger] out.at(x, y, c)
                == src.at(x, y, c),
        out.sized() && src.sized() ==> out.bytes() == src.bytes(),
{
    assert forall|x: int, y: int, c: int|
        in_image(src.w() as int, src.h() as int, x, y, c) implies #[trigger] out.at(x, y, c)
        == src.at(x, y, c) by {
        assert(out.at(x, y, c) == src.at(0 + x, 0 + y, c));
    }
    if out.sized() && src.sized() {
        ImageData::lemma_same_pixels_same_bytes(out, src);
    }
}

/// Absolute difference of two channel values.
pub open spec fn channel_diff(a: u8, b: u8) -> int {
    if a >= b {
        a - b
    } else {
        b - a
    }
}

/// How sharply pixel `(x, y)` changes towards its right and its lower
/// neighbour: the absolute differences of the red, green and blue channels,
/// added up over both neighbours.
pub open spec fn pixel_gradient(img: ImageData, x: int, y: int) -> int {
    channel_diff(img.at(x + 1, y, 0), img.at(x, y, 0)) + channel_diff(img.at(x + 1, y, 1), img.at(x, y, 1))
        + channel_diff(img.at(x + 1, y, 2), img.at(x, y, 2)) + channel_diff(
        img.at(x, y + 1, 0),
        img.at(x, y, 0),
    ) + channel_diff(img.at(x, y + 1, 1), img.at(x, y, 1)) + channel_diff(
        img.at(x, y + 1, 2),
        img.at(x, y, 2),
    )
}

/// The gradients of the first `cols` sampled pixels of row `y`, sampled every
/// fourth column from `x`, keeping only pixels that have both neighbours.
pub open spec fn sampled_row(img: ImageData, x: int, y: int, cols: int) -> Seq<u32>
    decreases cols,
{
    if cols <= 0 {
        seq![]
    } else {
        let px = x + 4 * (cols - 1);
        sampled_row(img, x, y, cols - 1) + if px + 1 < img.w() && y + 1 < img.h() {
            seq![pixel_gradient(img, px, y) as u32]
        } else {
            seq![]
        }
    }
}

/// The gradients of the sampled pixels of the first `rows` sampled rows,
/// sampled every fourth row from `y`, in reading order.
pub open spec fn sampled_window(img: ImageData, x: int, y: int, cols: int, rows: int) -> Seq<u32>
    decreases rows,
{
    if rows <= 0 {
        seq![]
    } else {
        sampled_window(img, x, y, cols, rows - 1) + sampled_row(img, x, y + 4 * (rows - 1), cols)
    }
}

/// The gradients of the first `cols` samples of row `y` read only the red,
/// green and blue channels: two images of the same size that agree on those
/// channels everywhere give the same samples.
proof fn lemma_sampled_row_reads_rgb_only(a: ImageData, b: ImageData, x: int, y: int, cols: int)
    requires
        x >= 0,
        y >= 0,
        a.w() == b.w(),
        a.h() == b.h(),
        forall|px: int, py: int, c: int|
            0 <= px < a.w() && 0 <= py < a.h() && 0 <= c < 3 ==> #[trigger] a.at(px, py, c) == b.at(
                px,
                py,
                c,
            ),
    ensures
        sampled_row(a, x, y, cols) == sampled_row(b, x, y, cols),
    decreases cols,
{
    if cols > 0 {
        lemma_sampled_row_reads_rgb_only(a, b, x, y, cols - 1);
        let px = x + 4 * (cols - 1);
        if px + 1 < a.w() && y + 1 < a.h() {
            assert(a.at(px, y, 0) == b.at(px, y, 0));
            assert(a.at(px, y, 1) == b.at(px, y, 1));
            assert(a.at(px, y, 2) == b.at(px, y, 2));
            assert(a.at(px + 1, y, 0) == b.at(px + 1, y, 0));
            assert(a.at(px + 1, y, 1) == b.at(px + 1, y, 1));
            assert(a.at(px + 1, y, 2) == b.at(px + 1, y, 2));
            assert(a.at(px, y + 1, 0) == b.at(px, y + 1, 0));
            assert(a.at(px, y + 1, 1) == b.at(px, y + 1, 1));
            assert(a.at(px, y + 1, 2) == b.at(px, y + 1, 2));
        }
    }
}

/// The detail samples of a window read only the red, green and blue
/// channels: two images of the same size that agree on those channels
/// everywhere (whatever their alpha) give the same samples for every window.
pub proof fn lemma_window_gradients_read_rgb_only(
    a: ImageData,
    b: ImageData,
    x: int,
    y: int,
    cols: int,
    rows: int,
)
    requires
        x >= 0,
        y >= 0,
        a.w() == b.w(),
        a.h() == b.h(),
        forall|px: int, py: int, c: int|
            0 <= px < a.w() && 0 <= py < a.h() && 0 <= c < 3 ==> #[trigger] a.at(px, py, c) == b.at(
                px,
                py,
                c,
            ),
    ensures
        sampled_window(a, x, y, cols, rows) == sampled_window(b, x, y, cols, rows),
    decreases rows,
{
    if rows > 0 {
        lemma_window_gradients_read_rgb_only(a, b, x, y, cols, rows - 1);
        lemma_sampled_row_reads_rgb_only(a, b, x, y + 4 * (rows - 1), cols);
    }
}

proof fn lemma_sampled_row_flat(img: ImageData, x: int, y: int, cols: int)
    requires
        x >= 0,
        y >= 0,
        forall|px: int, py: int, c: int|
            0 <= px < img.w() && 0 <= py < img.h() && 0 <= c < 3 ==> #[trigger] img.at(px, py, c)
                == img.at(0, 0, c),
    ensures
        forall|i: int| 0 <= i < sampled_row(img, x, y, cols).len() ==> #[trigger] sampled_row(img, x, y, cols)[i] == 0,
    decreases cols,
{
    if cols > 0 {
        lemma_sampled_row_flat(img, x, y, cols - 1);
        let px = x + 4 * (cols - 1);
        if px + 1 < img.w() && y + 1 < img.h() {
            assert(img.at(px, y, 0) == img.at(0, 0, 0));
            assert(img.at(px, y, 1) == img.at(0, 0, 1));
            assert(img.at(px, y, 2) == img.at(0, 0, 2));
            assert(img.at(px + 1, y, 0) == img.at(0, 0, 0));
            assert(img.at(px + 1, y, 1) == img.at(0, 0, 1));
            assert(img.at(px + 1, y, 2) == img.at(0, 0, 2));
            assert(img.at(px, y + 1, 0) == img.at(0, 0, 0));
            assert(img.at(px, y + 1, 1) == img.at(0, 0, 1));
            assert(img.at(px, y + 1, 2) == img.at(0, 0, 2));
            assert(pixel_gradient(img, px, y) == 0);
        }
        let head = sampled_row(img, x, y, cols - 1);
        assert forall|i: int| 0 <= i < sampled_row(img, x, y, cols).len() implies #[trigger] sampled_row(
            img,
            x,
            y,
            cols,
        )[i] == 0 by {
            if i < head.len() {
                assert(sampled_row(img, x, y, cols)[i] == head[i]);
            }
        }
    }
}

/// An image whose pixels all have the same red, green and blue values (any
/// alpha) shows no detail: every sample of every window is zero.
pub proof fn lemma_flat_image_has_no_detail(img: ImageData, x: int, y: int, cols: int, rows: int)
    requires
        x >= 0,
        y >= 0,
        forall|px: int, py: int, c: int|
            0 <= px < img.w() && 0 <= py < img.h() && 0 <= c < 3 ==> #[trigger] img.at(px, py, c)
                == img.at(0, 0, c),
    ensures
        forall|i: int|
            0 <= i < sampled_window(img, x, y, cols, rows).len() ==> #[trigger] sampled_window(
                img,
                x,
                y,
                cols,
                rows,
            )[i] == 0,
    decreases rows,
{
    if rows > 0 {
        lemma_flat_image_has_no_detail(img, x, y, cols, rows - 1);
        lemma_sampled_row_flat(img, x, y + 4 * (rows - 1), cols);
        let head = sampled_window(img, x, y, cols, rows - 1);
        let row = sampled_row(img, x, y + 4 * (rows - 1), cols);
        assert forall|i: int| 0 <= i < sampled_window(img, x, y, cols, rows).len() implies #[trigger] sampled_window(
            img,
            x,
            y,
            cols,
            rows,
        )[i] == 0 by {
            if i < head.len() {
                assert(sampled_window(img, x, y, cols, rows)[i] == head[i]);
            } else {
                assert(sampled_window(img, x, y, cols, rows)[i] == row[i - head.len()]);
            }
        }
    }
}

/// Number of samples taken every fourth step along `len` steps.
pub open spec fn sample_count(len: int) -> int {
    (len + 3) / 4
}

fn abs_diff(a: u8, b: u8) -> (r: u32)
    ensures
        r == channel_diff(a, b),
{
    if a >= b {
        (a - b) as u32
    } else {
        (b - a) as u32
    }
}

/// Gradient of pixel `(px, py)`, which has a right and a lower neighbour.
fn gradient_at(image: &ImageData, px: u32, py: u32) -> (r: u32)
    requires
        px + 1 < image.w(),
        py + 1 < image.h(),
    ensures
        r == pixel_gradient(*image, px as int, py as int),
{
    let w = image.width();
    let h = image.height();
    assert(px + 1 < w && py + 1 < h);
    let cur = image.get_pixel(px, py);
    let right = image.get_pixel(px + 1, py);
    let below = image.get_pixel(px, py + 1);
    assert(cur@[0] == image.at(px as int, py as int, 0));
    assert(right@[0] == image.at(px + 1, py as int, 0));
    assert(below@[0] == image.at(px as int, py + 1, 0));
    let grad_x = abs_diff(right[0], cur[0]) + abs_diff(right[1], cur[1]) + abs_diff(right[2], cur[2]);
    let grad_y = abs_diff(below[0], cur[0]) + abs_diff(below[1], cur[1]) + abs_diff(below[2], cur[2]);
    grad_x + grad_y
}

/// One step of `sampled_row`: the sample at column index `j` is appended
/// exactly when its pixel has both neighbours.
proof fn lemma_sampled_row_step(img: ImageData, x: int, y: int, j: int)
    requires
        j >= 0,
    ensures
        sampled_row(img, x, y, j + 1) == sampled_row(img, x, y, j) + if x + 4 * j + 1 < img.w()
            && y + 1 < img.h() {
            seq![pixel_gradient(img, x + 4 * j, y) as u32]
        } else {
            seq![]
        },
{
}

/// The gradients that rate how detailed the `width` by `height` window whose
/// top-left corner is `(x, y)` is: every fourth pixel of every fourth row,
/// in reading order, skipping pixels in the image's last column or last row.
pub fn crop_window_gradients(image: &ImageData, x: u32, y: u32, width: u32, height: u32) -> (r: Vec<u32>)
    requires
        x + width <= u32::MAX,
        y + height <= u32::MAX,
    ensures
        r@ == sampled_window(
            *image,
            x as int,
            y as int,
            sample_count(width as int),
            sample_count(height as int),
        ),
{
    let iw = image.width() as u64;
    let ih = image.height() as u64;
    let cols: u64 = (width as u64 + 3) / 4;
    let rows: u64 = (height as u64 + 3) / 4;
    let mut out: Vec<u32> = Vec::new();
    let mut k: u64 = 0;
    while k < rows
        invariant
            k <= rows,
            rows == sample_count(height as int),
            cols == sample_count(width as int),
            iw == image.w(),
            ih == image.h(),
            iw <= u32::MAX,
            ih <= u32::MAX,
            y + height <= u32::MAX,
            x + width <= u32::MAX,
            out@ == sampled_window(*image, x as int, y as int, cols as int, k as int),
        decreases rows - k,
    {
        let py: u64 = y as u64 + 4 * k;
        let ghost row_start = out@;
        let mut j: u64 = 0;
        while j < cols
            invariant
                j <= cols,
                k < rows,
                py == y + 4 * k,
                rows == sample_count(height as int),
                cols == sample_count(width as int),
                iw == image.w(),
                ih == image.h(),
                iw <= u32::MAX,
                ih <= u32::MAX,
                x + width <= u32::MAX,
                row_start == sampled_window(*image, x as int, y as int, cols as int, k as int),
                out@ == row_start + sampled_row(*image, x as int, py as int, j as int),
            decreases cols - j,
        {
            proof {
                lemma_sampled_row_step(*image, x as int, py as int, j as int);
            }
            let px: u64 = x as u64 + 4 * j;
            if px + 1 < iw && py + 1 < ih {
                let g = gradient_at(image, px as u32, py as u32);
                out.push(g);
            }
            assert(out@ =~= row_start + sampled_row(*image, x as int, py as int, j + 1));
            j = j + 1;
        }
        assert(out@ =~= sampled_window(*image, x as int, y as int, cols as int, k + 1));
        k = k + 1;
    }
    out
}

/// Row `y` of the smart crop's candidate corners: `cols` corners, every
/// eighth column from the left edge.
pub open spec fn candidate_row(cols: int, y: int) -> Seq<(u32, u32)> {
    Seq::new(cols as nat, |j: int| ((8 * j) as u32, y as u32))
}

/// The first `rows` rows of candidate corners, every eighth row from the top,
/// in reading order.
pub open spec fn candidate_rows(cols: int, rows: int) -> Seq<(u32, u32)>
    decreases rows,
{
    if rows <= 0 {
        seq![]
    } else {
        candidate_rows(cols, rows - 1) + candidate_row(cols, 8 * (rows - 1))
    }
}

/// Every candidate corner of `candidate_rows(cols, rows)` lies at most
/// `limit_x` from the left and `limit_y` from the top, at multiples of eight,
/// and there is at least one corner when there is at least one row.
proof fn lemma_candidate_rows_bounded(cols: int, rows: int, limit_x: int, limit_y: int)
    requires
        cols >= 1,
        8 * (cols - 1) <= limit_x <= u32::MAX,
        8 * (rows - 1) <= limit_y <= u32::MAX,
    ensures
        rows >= 1 ==> candidate_rows(cols, rows).len() >= 1,
        forall|i: int|
            0 <= i < candidate_rows(cols, rows).len() ==> #[trigger] candidate_rows(cols, rows)[i].0
                <= limit_x && candidate_rows(cols, rows)[i].1 <= limit_y && candidate_rows(
                cols,
                rows,
            )[i].0 % 8 == 0 && candidate_rows(cols, rows)[i].1 % 8 == 0,
    decreases rows,
{
    if rows > 0 {
        lemma_candidate_rows_bounded(cols, rows - 1, limit_x, limit_y);
        let head = candidate_rows(cols, rows - 1);
        let row = candidate_row(cols, 8 * (rows - 1));
        assert(row.len() == cols);
        assert forall|i: int| 0 <= i < candidate_rows(cols, rows).len() implies #[trigger] candidate_rows(
            cols,
            rows,
        )[i].0 <= limit_x && candidate_rows(cols, rows)[i].1 <= limit_y && candidate_rows(
            cols,
            rows,
        )[i].0 % 8 == 0 && candidate_rows(cols, rows)[i].1 % 8 == 0 by {
            if i >= head.len() {
                let j = i - head.len();
                assert(candidate_rows(cols, rows)[i] == row[j]);
                assert(0 <= 8 * j <= limit_x);
                assert(((8 * j) as u32) as int == 8 * j);
                assert((8 * (rows - 1)) as u32 as int == 8 * (rows - 1));
            } else {
                assert(candidate_rows(cols, rows)[i] == head[i]);
            }
        }
    }
}

/// Number of candidate positions along an axis on which the window can move
/// `slack` pixels: every eighth position from 0 up to `slack`.
pub open spec fn candidate_count(slack: int) -> int {
    slack / 8 + 1
}

/// Picks the crop window later; here only the target size is fixed and checked.
pub struct SmartCropFilter {
    target_width: u32,
    target_height: u32,
}

impl SmartCropFilter {
    #[verifier::type_invariant]
    closed spec fn size_ok(&self) -> bool {
        valid_size(self.target_width as int, self.target_height as int)
    }

    /// Requested width of the crop.
    pub closed spec fn spec_target_width(&self) -> nat {
        self.target_width as nat
    }

    /// Requested height of the crop.
    pub closed spec fn spec_target_height(&self) -> nat {
        self.target_height as nat
    }

    /// A smart crop to `target_width` by `target_height`; the size must pass the size rule.
    pub fn new(target_width: u32, target_height: u32) -> (r: Result<SmartCropFilter, ImageError>)
        ensures
            r is Ok <==> valid_size(target_width as int, target_height as int),
            r matches Err(e) ==> e == size_error(target_width as int, target_height as int),
            r matches Ok(f) ==> f.spec_target_width() == target_width && f.spec_target_height()
                == target_height,
    {
        validate_image_size(target_width, target_height)?;
        Ok(SmartCropFilter { target_width, target_height })
    }

    pub fn target_width(&self) -> (r: u32)
        ensures
            r == self.spec_target_width(),
    {
        self.target_width
    }

    pub fn target_height(&self) -> (r: u32)
        ensures
            r == self.spec_target_height(),
    {
        self.target_height
    }

    /// The top-left corners at which the smart crop rates a window of the
    /// target size inside `image`, in the order it rates them: every eighth
    /// position along each axis, from 0 to the largest that keeps the window
    /// inside the image, row after row.
    ///
    /// Fails when the target is wider or taller than the image.
    pub fn candidate_positions(&self, image: &ImageData) -> (r: Result<Vec<(u32, u32)>, ImageError>)
        ensures
            r is Err <==> (self.spec_target_width() > image.w() || self.spec_target_height()
                > image.h()),
            r is Err ==> r == Err::<Vec<(u32, u32)>, ImageError>(ImageError::CropLargerThanImage),
            r matches Ok(v) ==> v@ == candidate_rows(
                candidate_count(image.w() - self.spec_target_width()),
                candidate_count(image.h() - self.spec_target_height()),
            ),
            r matches Ok(v) ==> v@.len() >= 1,
            r matches Ok(v) ==> forall|i: int|
                0 <= i < v@.len() ==> #[trigger] v@[i].0 + self.spec_target_width() <= image.w()
                    && v@[i].1 + self.spec_target_height() <= image.h() && v@[i].0 % 8 == 0
                    && v@[i].1 % 8 == 0,
    {
        let img_width = image.width();
        let img_height = image.height();
        if self.target_width > img_width || self.target_height > img_height {
            return Err(ImageError::CropLargerThanImage);
        }
        let max_x = img_width - self.target_width;
        let max_y = img_height - self.target_height;
        let cols: u32 = max_x / 8 + 1;
        let rows: u32 = max_y / 8 + 1;
        let mut out: Vec<(u32, u32)> = Vec::new();
        let mut k: u32 = 0;
        while k < rows
            invariant
                k <= rows,
                rows == candidate_count(max_y as int),
                cols == candidate_count(max_x as int),
                out@ == candidate_rows(cols as int, k as int),
            decreases rows - k,
        {
            let ghost row_start = out@;
            let y: u32 = 8 * k;
            let mut j: u32 = 0;
            while j < cols
                invariant
                    j <= cols,
                    k < rows,
                    y == 8 * k,
                    rows == candidate_count(max_y as int),
                    cols == candidate_count(max_x as int),
                    row_start == candidate_rows(cols as int, k as int),
                    out@ == row_start + candidate_row(j as int, y as int),
                decreases cols - j,
            {
                out.push((8 * j, y));
                assert(candidate_row(j + 1, y as int) =~= candidate_row(j as int, y as int).push(
                    ((8 * j) as u32, y),
                ));
                assert(out@ =~= row_start + candidate_row(j + 1, y as int));
                j = j + 1;
            }
            assert(out@ =~= candidate_rows(cols as int, k + 1));
            k = k + 1;
        }
        proof {
            lemma_candidate_rows_bounded(cols as int, rows as int, max_x as int, max_y as int);
        }
        Ok(out)
    }

    /// Crops the image to the window at candidate number `choice`, in the
    /// order of `candidate_positions` (the first candidate when `choice` is out
    /// of range): a window of exactly the target size, at a corner on
    /// multiples of eight, inside the image. Which candidate is the most
    /// detailed is decided by the caller from the windows' gradients.
    ///
    /// Fails, leaving the image as it was, when the target is wider or taller
    /// than the image.
    pub fn apply(&self, image: &mut ImageData, choice: usize) -> (r: Result<(), ImageError>)
        ensures
            r is Err <==> (self.spec_target_width() > old(image).w() || self.spec_target_height()
                > old(image).h()),
            r is Err ==> (r == Err::<(), ImageError>(ImageError::CropLargerThanImage) && *final(image)
                == *old(image)),
            r is Ok ==> ({
                let cands = candidate_rows(
                    candidate_count(old(image).w() - self.spec_target_width()),
                    candidate_count(old(image).h() - self.spec_target_height()),
                );
                let k = if choice < cands.len() {
                    choice as int
                } else {
                    0
                };
                &&& 0 <= k < cands.len()
                &&& cands[k].0 % 8 == 0 && cands[k].1 % 8 == 0
                &&& cands[k].0 + self.spec_target_width() <= old(image).w()
                &&& cands[k].1 + self.spec_target_height() <= old(image).h()
                &&& final(image).w() == self.spec_target_width()
                &&& final(image).h() == self.spec_target_height()
                &&& is_crop_of(
                    *final(image),
                    *old(image),
                    cands[k].0 as int,
                    cands[k].1 as int,
                    self.spec_target_width() as int,
                    self.spec_target_height() as int,
                )
            }),
    {
        proof {
            use_type_invariant(self);
        }
        let cands = match self.candidate_positions(image) {
            Ok(v) => v,
            Err(e) => {
                return Err(e);
            },
        };
        let k = if choice < cands.len() {
            choice
        } else {
            0
        };
        let (x, y) = cands[k];
        let crop = match CropFilter::new(x, y, self.target_width, self.target_height) {
            Ok(c) => c,
            Err(e) => {
                return Err(e);
            },
        };
        crop.apply(image)
    }

    /// The name under which the filter is listed.
    pub fn name(&self) -> (r: &'static str)
        ensures
            r@ == "Smart Crop"@,
    {
        "Smart Crop"
    }
}

} // verus!
