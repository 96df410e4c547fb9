use vstd::prelude::*;

use crate::error::ImageError;
use crate::image_data::{in_image, remap, remap_source, ImageData, Remap};

verus! {

/// `out` has the size of `src` and holds its pixels mirrored left to right
/// when `mirror_x` holds and top to bottom when `mirror_y` holds.
pub open spec fn is_flip_of(out: ImageData, src: ImageData, mirror_x: bool, mirror_y: bool) -> bool {
    &&& out.w() == src.w()
    &&& out.h() == src.h()
    &&& forall|x: int, y: int, c: int|
        in_image(out.w() as int, out.h() as int, x, y, c) ==> #[trigger] out.at(x, y, c) == src.at(
            if mirror_x {
                src.w() - 1 - x
            } else {
                x
            },
            if mirror_y {
                src.h() - 1 - y
            } else {
                y
            },
            c,
        )
}

/// `out` is `src` turned a quarter turn clockwise: its width is the height of
/// `src`, and its first row is the first column of `src` read bottom to top.
pub open spec fn is_quarter_turn_cw_of(out: ImageData, src: ImageData) -> bool {
    &&& out.w() == src.h()
    &&& out.h() == src.w()
    &&& forall|x: int, y: int, c: int|
        in_image(out.w() as int, out.h() as int, x, y, c) ==> #[trigger] out.at(x, y, c) == src.at(
            y,
            src.h() - 1 - x,
            c,
        )
}

/// `out` is `src` turned a quarter turn counter-clockwise: its width is the
/// height of `src`, and its first row is the last column of `src` read top to bottom.
pub open spec fn is_quarter_turn_ccw_of(out: ImageData, src: ImageData) -> bool {
    &&& out.w() == src.h()
    &&& out.h() == src.w()
    &&& forall|x: int, y: int, c: int|
        in_image(out.w() as int, out.h() as int, x, y, c) ==> #[trigger] out.at(x, y, c) == src.at(
            src.w() - 1 - y,
            x,
            c,
        )
}

/// `out` is `src` turned half a turn: same size, pixel order reversed.
pub open spec fn is_half_turn_of(out: ImageData, src: ImageData) -> bool {
    &&& out.w() == src.w()
    &&& out.h() == src.h()
    &&& forall|x: int, y: int, c: int|
        in_image(out.w() as int, out.h() as int, x, y, c) ==> #[trigger] out.at(x, y, c) == src.at(
            src.w() - 1 - x,
            src.h() - 1 - y,
            c,
        )
}

/// Two images of the same size with the same channel values everywhere.
pub open spec fn same_pixels(a: ImageData, b: ImageData) -> bool {
    &&& a.w() == b.w()
    &&& a.h() == b.h()
    &&& forall|x: int, y: int, c: int|
        in_image(a.w() as int, a.h() as int, x, y, c) ==> #[trigger] a.at(x, y, c) == b.at(x, y, c)
}

/// Mirrors an image left to right and/or top to bottom.
pub struct FlipFilter {
    horizontal: bool,
    vertical: bool,
}

impl FlipFilter {
    /// Whether the filter mirrors left to right.
    pub closed spec fn mirror_x(&self) -> bool {
        self.horizontal
    }

    /// Whether the filter mirrors top to bottom.
    pub closed spec fn mirror_y(&self) -> bool {
        self.vertical
    }

    pub fn new(horizontal: bool, vertical: bool) -> (r: FlipFilter)
        ensures
            r.mirror_x() == horizontal,
            r.mirror_y() == vertical,
    {
        FlipFilter { horizontal, vertical }
    }

    pub fn horizontal() -> (r: FlipFilter)
        ensures
            r.mirror_x() && !r.mirror_y(),
    {
        Self::new(true, false)
    }

    pub fn vertical() -> (r: FlipFilter)
        ensures
            !r.mirror_x() && r.mirror_y(),
    {
        Self::new(false, true)
    }

    pub fn both() -> (r: FlipFilter)
        ensures
            r.mirror_x() && r.mirror_y(),
    {
        Self::new(true, true)
    }

    pub fn is_horizontal(&self) -> (r: bool)
        ensures
            r == self.mirror_x(),
    {
        self.horizontal
    }

    pub fn is_vertical(&self) -> (r: bool)
        ensures
            r == self.mirror_y(),
    {
        self.vertical
    }

    /// Mirrors the image; it never fails.
    pub fn apply(&self, image: &mut ImageData) -> (r: Result<(), ImageError>)
        ensures
            r is Ok,
            is_flip_of(*final(image), *old(image), self.mirror_x(), self.mirror_y()),
    {
        let width = image.width();
        let height = image.height();
        let m = if self.horizontal && self.vertical {
            Remap::MirrorXY
        } else if self.horizontal {
            Remap::MirrorX
        } else if self.vertical {
            Remap::MirrorY
        } else {
            Remap::Window { x0: 0, y0: 0 }
        };
        let flipped = remap(image, m, width, height);
        *image = flipped;
        Ok(())
    }

    /// The name under which the filter is listed, which says which mirrors it applies.
    pub fn name(&self) -> (r: &'static str)
        ensures
            r@ == (if self.mirror_x() && self.mirror_y() {
                "Flip Both"@
            } else if self.mirror_x() {
                "Flip Horizontal"@
            } else if self.mirror_y() {
                "Flip Vertical"@
            } else {
                "No Flip"@
            }),
    {
        if self.horizontal && self.vertical {
            "Flip Both"
        } else if self.horizontal {
            "Flip Horizontal"
        } else if self.vertical {
            "Flip Vertical"
        } else {
            "No Flip"
        }
    }
}

/// Turns an image a quarter turn clockwise.
pub fn rotate_90_cw(image: &mut ImageData)
    ensures
        is_quarter_turn_cw_of(*final(image), *old(image)),
{
    let width = image.width();
    let height = image.height();
    let turned = remap(image, Remap::TurnCw, height, width);
    *image = turned;
}

/// Turns an image a quarter turn counter-clockwise.
pub fn rotate_90_ccw(image: &mut ImageData)
    ensures
        is_quarter_turn_ccw_of(*final(image), *old(image)),
{
    let width = image.width();
    let height = image.height();
    let turned = remap(image, Remap::TurnCcw, height, width);
    *image = turned;
}

/// Turns an image half a turn.
pub fn rotate_180(image: &mut ImageData)
    ensures
        is_half_turn_of(*final(image), *old(image)),
{
    let width = image.width();
    let height = image.height();
    let turned = remap(image, Remap::MirrorXY, width, height);
    *image = turned;
}

/// The rotation angles, in whole degrees, that are right angles handled by
/// exact pixel re-arrangement: 0, 90, 180 and 270, and their negatives but 0.
pub open spec fn is_right_angle(whole_degrees: i32) -> bool {
    whole_degrees == 0 || whole_degrees == 90 || whole_degrees == -270 || whole_degrees == 180
        || whole_degrees == -180 || whole_degrees == 270 || whole_degrees == -90
}

/// `out` is `src` turned by `degrees` (clockwise for positive angles) when
/// that is one of the right angles of `is_right_angle`: unchanged for 0, a
/// quarter turn for 90 and -270, a half turn for 180 and -180, a quarter turn
/// back for 270 and -90. Any other angle leaves `src` as it is.
pub open spec fn is_right_angle_rotation_of(out: ImageData, src: ImageData, degrees: int) -> bool {
    if degrees == 90 || degrees == -270 {
        is_quarter_turn_cw_of(out, src)
    } else if degrees == 180 || degrees == -180 {
        is_half_turn_of(out, src)
    } else if degrees == 270 || degrees == -90 {
        is_quarter_turn_ccw_of(out, src)
    } else {
        out == src
    }
}

/// Rotates by `whole_degrees` (clockwise for positive angles) when that is a
/// right angle, and tells whether it did; other angles leave the image as it is.
pub fn rotate_right_angle(image: &mut ImageData, whole_degrees: i32) -> (r: bool)
    ensures
        r == is_right_angle(whole_degrees),
        is_right_angle_rotation_of(*final(image), *old(image), whole_degrees as int),
{
    if whole_degrees == 0 {
        true
    } else if whole_degrees == 90 || whole_degrees == -270 {
        rotate_90_cw(image);
        true
    } else if whole_degrees == 180 || whole_degrees == -180 {
        rotate_180(image);
        true
    } else if whole_degrees == 270 || whole_degrees == -90 {
        rotate_90_ccw(image);
        true
    } else {
        false
    }
}

/// The background colour for areas that a rotation uncovers: transparent black
/// when none is given, else the given RGBA value, which must have four components.
pub fn background_color_from(color: Option<Vec<u8>>) -> (r: Result<[u8; 4], ImageError>)
    ensures
        match color {
            None => r == Ok::<[u8; 4], ImageError>([0u8, 0u8, 0u8, 0u8]),
            Some(v) => if v@.len() == 4 {
                r matches Ok(a) && a@ == v@
            } else {
                r == Err::<[u8; 4], ImageError>(ImageError::InvalidBackgroundColor)
            },
        },
{
    match color {
        Some(v) => {
            if v.len() != 4 {
                return Err(ImageError::InvalidBackgroundColor);
            }
            let a = [v[0], v[1], v[2], v[3]];
            assert(a@ =~= v@);
            Ok(a)
        },
        None => Ok([0u8, 0u8, 0u8, 0u8]),
    }
}

/// Mirroring twice the same way gives back the original pixels.
pub proof fn lemma_flip_twice_is_identity(a: ImageData, b: ImageData, c: ImageData, mirror_x: bool, mirror_y: bool)
    requires
        is_flip_of(b, a, mirror_x, mirror_y),
        is_flip_of(c, b, mirror_x, mirror_y),
    ensures
        same_pixels(c, a),
        c.sized() && a.sized() ==> c.bytes() == a.bytes(),
{
    assert forall|x: int, y: int, c0: int|
        in_image(c.w() as int, c.h() as int, x, y, c0) implies #[trigger] c.at(x, y, c0) == a.at(
        x,
        y,
        c0,
    ) by {
        let bx = if mirror_x {
            b.w() - 1 - x
        } else {
            x
        };
        let by = if mirror_y {
            b.h() - 1 - y
        } else {
            y
        };
        assert(c.at(x, y, c0) == b.at(bx, by, c0));
        assert(b.at(bx, by, c0) == a.at(
            if mirror_x {
                a.w() - 1 - bx
            } else {
                bx
            },
            if mirror_y {
                a.h() - 1 - by
            } else {
                by
            },
            c0,
        ));
    }
    if c.sized() && a.sized() {
        ImageData::lemma_same_pixels_same_bytes(c, a);
    }
}

/// A quarter turn clockwise followed by a quarter turn counter-clockwise gives
/// back the original pixels, and so does the other order.
pub proof fn lemma_quarter_turns_cancel(a: ImageData, b: ImageData, c: ImageData)
    requires
        (is_quarter_turn_cw_of(b, a) && is_quarter_turn_ccw_of(c, b)) || (is_quarter_turn_ccw_of(
            b,
            a,
        ) && is_quarter_turn_cw_of(c, b)),
    ensures
        same_pixels(c, a),
        c.sized() && a.sized() ==> c.bytes() == a.bytes(),
{
    if is_quarter_turn_cw_of(b, a) && is_quarter_turn_ccw_of(c, b) {
        assert forall|x: int, y: int, c0: int|
            in_image(c.w() as int, c.h() as int, x, y, c0) implies #[trigger] c.at(x, y, c0)
            == a.at(x, y, c0) by {
            assert(c.at(x, y, c0) == b.at(b.w() - 1 - y, x, c0));
            assert(b.at(b.w() - 1 - y, x, c0) == a.at(x, a.h() - 1 - (b.w() - 1 - y), c0));
        }
    } else {
        assert forall|x: int, y: int, c0: int|
            in_image(c.w() as int, c.h() as int, x, y, c0) implies #[trigger] c.at(x, y, c0)
            == a.at(x, y, c0) by {
            assert(c.at(x, y, c0) == b.at(y, b.h() - 1 - x, c0));
            assert(b.at(y, b.h() - 1 - x, c0) == a.at(a.w() - 1 - (b.h() - 1 - x), y, c0));
        }
    }
    if c.sized() && a.sized() {
        ImageData::lemma_same_pixels_same_bytes(c, a);
    }
}

/// Two quarter turns clockwise make a half turn.
pub proof fn lemma_two_quarter_turns_make_half_turn(a: ImageData, b: ImageData, c: ImageData)
    requires
        is_quarter_turn_cw_of(b, a),
        is_quarter_turn_cw_of(c, b),
    ensures
        is_half_turn_of(c, a),
{
    assert forall|x: int, y: int, c0: int|
        in_image(c.w() as int, c.h() as int, x, y, c0) implies #[trigger] c.at(x, y, c0) == a.at(
        a.w() - 1 - x,
        a.h() - 1 - y,
        c0,
    ) by {
        assert(c.at(x, y, c0) == b.at(y, b.h() - 1 - x, c0));
        assert(b.at(y, b.h() - 1 - x, c0) == a.at(b.h() - 1 - x, a.h() - 1 - y, c0));
    }
}

/// A half turn is the same as mirroring both ways.
pub proof fn lemma_half_turn_is_flip_both(out: ImageData, src: ImageData)
    ensures
        is_half_turn_of(out, src) <==> is_flip_of(out, src, true, true),
{
}

/// Turning by a right angle and then by its opposite gives back the original
/// pixels: 90 then -90, 180 then -180, 270 then -270 (and each the other way
/// round), and 0 then 0.
pub proof fn lemma_opposite_right_angles_cancel(a: ImageData, b: ImageData, c: ImageData, degrees: i32)
    requires
        is_right_angle(degrees),
        is_right_angle_rotation_of(b, a, degrees as int),
        is_right_angle_rotation_of(c, b, -degrees),
    ensures
        same_pixels(c, a),
        c.sized() && a.sized() ==> c.bytes() == a.bytes(),
{
    if degrees == 0 {
        assert(c == a);
    } else if degrees == 180 || degrees == -180 {
        lemma_half_turn_is_flip_both(b, a);
        lemma_half_turn_is_flip_both(c, b);
        lemma_flip_twice_is_identity(a, b, c, true, true);
    } else {
        lemma_quarter_turns_cancel(a, b, c);
    }
}

/// Turning by a half turn twice gives back the original pixels.
pub proof fn lemma_two_half_turns_cancel(a: ImageData, b: ImageData, c: ImageData)
    requires
        is_right_angle_rotation_of(b, a, 180),
        is_right_angle_rotation_of(c, b, 180),
    ensures
        same_pixels(c, a),
        c.sized() && a.sized() ==> c.bytes() == a.bytes(),
{
    lemma_half_turn_is_flip_both(b, a);
    lemma_half_turn_is_flip_both(c, b);
    lemma_flip_twice_is_identity(a, b, c, true, true);
}

} // verus!
