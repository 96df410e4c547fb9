use vstd::prelude::*;

verus! {

/// Byte offset of the first channel of pixel `(x, y)` in a row-major RGBA
/// buffer whose rows are `width` pixels long.
pub open spec fn pixel_offset(width: int, x: int, y: int) -> int {
    (y * width + x) * 4
}

/// Channel `c` of pixel `(x, y)` in a row-major RGBA buffer of the given width.
pub open spec fn byte_at(bytes: Seq<u8>, width: int, x: int, y: int, c: int) -> u8 {
    bytes[pixel_offset(width, x, y) + c]
}

/// A pixel with coordinates inside a `width` by `height` image, with a channel index.
pub open spec fn in_image(width: int, height: int, x: int, y: int, c: int) -> bool {
    0 <= x < width && 0 <= y < height && 0 <= c < 4
}

/// The four channels of a pixel end before the end of the buffer.
pub proof fn lemma_offset_bound(width: int, height: int, x: int, y: int)
    requires
        0 <= x < width,
        0 <= y < height,
    ensures
        0 <= y * width <= pixel_offset(width, x, y),
        pixel_offset(width, x, y) + 4 <= width * height * 4,
{
    assert(0 <= y * width) by (nonlinear_arith)
        requires
            0 <= y,
            0 <= width,
    ;
    assert(y * width + x < width * height) by (nonlinear_arith)
        requires
            0 <= x < width,
            0 <= y < height,
    ;
}

/// Pixels of earlier rows come before the start of a later row.
pub proof fn lemma_offset_before_row(width: int, x: int, y: int, row: int, c: int)
    requires
        0 <= x < width,
        0 <= y < row,
        0 <= c < 4,
    ensures
        pixel_offset(width, x, y) + c < pixel_offset(width, 0, row),
{
    assert(y * width + x < row * width) by (nonlinear_arith)
        requires
            0 <= x < width,
            0 <= y < row,
    ;
}

/// The end of one row is the start of the next.
pub proof fn lemma_offset_next_row(width: int, y: int)
    ensures
        pixel_offset(width, width, y) == pixel_offset(width, 0, y + 1),
        pixel_offset(width, 0, 0) == 0,
{
    assert(y * width + width == (y + 1) * width) by (nonlinear_arith);
}

/// Two distinct pixels of an image occupy disjoint byte ranges.
pub proof fn lemma_offset_distinct(width: int, x1: int, y1: int, x2: int, y2: int, c1: int, c2: int)
    requires
        0 <= x1 < width,
        0 <= x2 < width,
        0 <= y1,
        0 <= y2,
        0 <= c1 < 4,
        0 <= c2 < 4,
        x1 != x2 || y1 != y2,
    ensures
        pixel_offset(width, x1, y1) + c1 != pixel_offset(width, x2, y2) + c2,
{
    if y1 < y2 {
        lemma_offset_before_row(width, x1, y1, y2, c1);
        assert(0 <= y2 * width + x2) by (nonlinear_arith)
            requires
                0 <= y2,
                0 <= width,
                0 <= x2,
        ;
        assert(pixel_offset(width, 0, y2) <= pixel_offset(width, x2, y2));
    } else if y2 < y1 {
        lemma_offset_before_row(width, x2, y2, y1, c2);
        assert(pixel_offset(width, 0, y1) <= pixel_offset(width, x1, y1));
    }
}

/// Every byte index of a `width` by `height` buffer is a channel of one pixel.
pub proof fn lemma_index_decomposes(width: int, height: int, i: int) -> (p: (int, int, int))
    requires
        0 < width,
        0 <= i < width * height * 4,
    ensures
        in_image(width, height, p.0, p.1, p.2),
        i == pixel_offset(width, p.0, p.1) + p.2,
{
    let pixel = i / 4;
    let c = i % 4;
    let x = pixel % width;
    let y = pixel / width;
    assert(i == pixel * 4 + c && 0 <= c < 4);
    vstd::arithmetic::div_mod::lemma_fundamental_div_mod(pixel, width);
    vstd::arithmetic::div_mod::lemma_mod_bound(pixel, width);
    assert(pixel < width * height) by (nonlinear_arith)
        requires
            i == pixel * 4 + c,
            0 <= c < 4,
            i < width * height * 4,
    ;
    assert(0 <= pixel);
    assert(pixel == width * y + x);
    assert(0 <= y < height) by (nonlinear_arith)
        requires
            pixel == width * y + x,
            0 <= x < width,
            0 <= pixel < width * height,
    ;
    assert(pixel == y * width + x) by (nonlinear_arith)
        requires
            pixel == width * y + x,
    ;
    (x, y, c)
}

/// An RGBA image with 8 bits per channel, stored row by row without padding.
pub struct ImageData {
    width: u32,
    height: u32,
    data: Vec<u8>,
}

impl ImageData {
    /// Width in pixels.
    pub closed spec fn w(&self) -> nat {
        self.width as nat
    }

    /// Height in pixels.
    pub closed spec fn h(&self) -> nat {
        self.height as nat
    }

    /// The raw bytes: four channels (R, G, B, A) per pixel, row by row.
    pub closed spec fn bytes(&self) -> Seq<u8> {
        self.data@
    }

    #[verifier::type_invariant]
    closed spec fn well_formed(&self) -> bool {
        self.data@.len() == self.width * self.height * 4
    }

    /// The buffer holds exactly four bytes per pixel.
    pub open spec fn sized(&self) -> bool {
        self.bytes().len() == self.w() * self.h() * 4
    }

    /// Channel `c` of pixel `(x, y)`.
    pub open spec fn at(&self, x: int, y: int, c: int) -> u8 {
        byte_at(self.bytes(), self.w() as int, x, y, c)
    }

    /// Builds an image from raw RGBA bytes; `None` unless the buffer holds
    /// exactly `width * height * 4` bytes.
    pub fn from_raw(width: u32, height: u32, data: Vec<u8>) -> (r: Option<ImageData>)
        ensures
            r is Some <==> data@.len() == width * height * 4,
            r matches Some(img) ==> img.w() == width && img.h() == height && img.bytes()
                == data@,
    {
        assert(width as int * height as int * 4 <= 0x4_0000_0000_0000_0000) by (nonlinear_arith)
            requires
                width <= 0xffff_ffff,
                height <= 0xffff_ffff,
        ;
        let needed: u128 = width as u128 * height as u128 * 4;
        if data.len() as u128 == needed {
            Some(ImageData { width, height, data })
        } else {
            None
        }
    }

    /// Width in pixels.
    pub fn width(&self) -> (r: u32)
        ensures
            r == self.w(),
            self.sized(),
    {
        proof {
            use_type_invariant(self);
        }
        self.width
    }

    /// Height in pixels.
    pub fn height(&self) -> (r: u32)
        ensures
            r == self.h(),
            self.sized(),
    {
        proof {
            use_type_invariant(self);
        }
        self.height
    }

    /// The raw RGBA bytes.
    pub fn as_raw(&self) -> (r: &Vec<u8>)
        ensures
            r@ == self.bytes(),
            self.sized(),
    {
        proof {
            use_type_invariant(self);
        }
        &self.data
    }

    /// Consumes the image and hands back its raw RGBA bytes.
    pub fn into_raw(self) -> (r: Vec<u8>)
        ensures
            r@ == self.bytes(),
            self.sized(),
    {
        proof {
            use_type_invariant(&self);
        }
        self.data
    }

    /// The four channels of pixel `(x, y)`.
    pub open spec fn pixel_of(&self, x: int, y: int) -> Seq<u8> {
        seq![self.at(x, y, 0), self.at(x, y, 1), self.at(x, y, 2), self.at(x, y, 3)]
    }

    /// The four channels of pixel `(x, y)`.
    pub fn get_pixel(&self, x: u32, y: u32) -> (r: [u8; 4])
        requires
            x < self.w(),
            y < self.h(),
        ensures
            r@ == self.pixel_of(x as int, y as int),
    {
        proof {
            use_type_invariant(self);
            lemma_offset_bound(self.width as int, self.height as int, x as int, y as int);
        }
        let n = self.data.len();
        assert(n == self.width * self.height * 4);
        let off: usize = (y as usize * self.width as usize + x as usize) * 4;
        let r = [self.data[off], self.data[off + 1], self.data[off + 2], self.data[off + 3]];
        assert(r@ =~= self.pixel_of(x as int, y as int));
        r
    }

    /// Overwrites the four channels of pixel `(x, y)`.
    pub fn put_pixel(&mut self, x: u32, y: u32, rgba: [u8; 4])
        requires
            x < old(self).w(),
            y < old(self).h(),
        ensures
            is_pixel_write_of(*final(self), *old(self), x as int, y as int, rgba@),
    {
        proof {
            use_type_invariant(&*self);
            lemma_offset_bound(self.width as int, self.height as int, x as int, y as int);
        }
        let n = self.data.len();
        assert(n == self.width * self.height * 4);
        let off: usize = (y as usize * self.width as usize + x as usize) * 4;
        let ghost old_data = self.data@;
        let mut taken = ImageData { width: 0, height: 0, data: Vec::new() };
        std::mem::swap(self, &mut taken);
        let ImageData { width, height, mut data } = taken;
        data.set(off, rgba[0]);
        data.set(off + 1, rgba[1]);
        data.set(off + 2, rgba[2]);
        data.set(off + 3, rgba[3]);
        *self = ImageData { width, height, data };
        proof {
            let w = self.width as int;
            assert(self.data@ == old_data.update(off as int, rgba[0]).update(off + 1, rgba[1]).update(
                off + 2,
                rgba[2],
            ).update(off + 3, rgba[3]));
            assert(off == pixel_offset(w, x as int, y as int));
            assert forall|x2: int, y2: int, c: int|
                in_image(w, self.height as int, x2, y2, c) implies #[trigger] self.at(x2, y2, c)
                == if x2 == x && y2 == y {
                rgba@[c]
            } else {
                old(self).at(x2, y2, c)
            } by {
                lemma_offset_bound(w, self.height as int, x2, y2);
                if x2 == x && y2 == y {
                    assert(self.at(x2, y2, c) == self.data@[off + c]);
                    assert(c == 0 || c == 1 || c == 2 || c == 3);
                } else {
                    lemma_offset_distinct(w, x2, y2, x as int, y as int, c, 0);
                    lemma_offset_distinct(w, x2, y2, x as int, y as int, c, 1);
                    lemma_offset_distinct(w, x2, y2, x as int, y as int, c, 2);
                    lemma_offset_distinct(w, x2, y2, x as int, y as int, c, 3);
                }
            }
        }
    }

    /// Two images with the same size and the same channel values have the same bytes.
    pub proof fn lemma_same_pixels_same_bytes(a: ImageData, b: ImageData)
        requires
            a.sized(),
            b.sized(),
            a.w() == b.w(),
            a.h() == b.h(),
            forall|x: int, y: int, c: int|
                in_image(a.w() as int, a.h() as int, x, y, c) ==> #[trigger] a.at(x, y, c) == b.at(
                    x,
                    y,
                    c,
                ),
        ensures
            a.bytes() == b.bytes(),
    {
        assert forall|i: int| 0 <= i < a.bytes().len() implies a.bytes()[i] == b.bytes()[i] by {
            let p = lemma_index_decomposes(a.w() as int, a.h() as int, i);
            assert(a.at(p.0, p.1, p.2) == b.at(p.0, p.1, p.2));
        }
        assert(a.bytes() =~= b.bytes());
    }
}

impl Clone for ImageData {
    fn clone(&self) -> (r: Self)
        ensures
            r.w() == self.w(),
            r.h() == self.h(),
            r.bytes() == self.bytes(),
    {
        proof {
            use_type_invariant(self);
        }
        let data = self.data.clone();
        assert(data@ =~= self.data@);
        ImageData { width: self.width, height: self.height, data }
    }
}

/// `after` is `before` with pixel `(x, y)` overwritten by `rgba`, every other
/// pixel kept.
pub open spec fn is_pixel_write_of(after: ImageData, before: ImageData, x: int, y: int, rgba: Seq<u8>) -> bool {
    &&& after.w() == before.w()
    &&& after.h() == before.h()
    &&& forall|x2: int, y2: int, c: int|
        in_image(after.w() as int, after.h() as int, x2, y2, c) ==> #[trigger] after.at(x2, y2, c)
            == if x2 == x && y2 == y {
            rgba[c]
        } else {
            before.at(x2, y2, c)
        }
}

/// How an output pixel picks its source pixel in a pure re-arrangement of pixels.
#[derive(Clone, Copy)]
pub(crate) enum Remap {
    /// A window whose top-left corner is `(x0, y0)`.
    Window { x0: u32, y0: u32 },
    /// Mirror left to right.
    MirrorX,
    /// Mirror top to bottom.
    MirrorY,
    /// Mirror both ways (a half turn).
    MirrorXY,
    /// Quarter turn clockwise.
    TurnCw,
    /// Quarter turn counter-clockwise.
    TurnCcw,
}

/// Source coordinates of output pixel `(x, y)` in an `iw` by `ih` source image.
pub(crate) open spec fn remap_source(m: Remap, iw: int, ih: int, x: int, y: int) -> (int, int) {
    match m {
        Remap::Window { x0, y0 } => (x0 + x, y0 + y),
        Remap::MirrorX => (iw - 1 - x, y),
        Remap::MirrorY => (x, ih - 1 - y),
        Remap::MirrorXY => (iw - 1 - x, ih - 1 - y),
        Remap::TurnCw => (y, ih - 1 - x),
        Remap::TurnCcw => (iw - 1 - y, x),
    }
}

/// The source pixel of every output pixel lies inside the source image.
pub(crate) open spec fn remap_in_bounds(m: Remap, iw: int, ih: int, ow: int, oh: int) -> bool {
    forall|x: int, y: int|
        0 <= x < ow && 0 <= y < oh ==> {
            let s = #[trigger] remap_source(m, iw, ih, x, y);
            0 <= s.0 < iw && 0 <= s.1 < ih
        }
}

/// Builds an `out_w` by `out_h` image whose pixels are copied from `src`
/// as `m` prescribes.
pub(crate) fn remap(src: &ImageData, m: Remap, out_w: u32, out_h: u32) -> (out: ImageData)
    requires
        remap_in_bounds(m, src.w() as int, src.h() as int, out_w as int, out_h as int),
    ensures
        out.w() == out_w,
        out.h() == out_h,
        forall|x: int, y: int, c: int|
            in_image(out_w as int, out_h as int, x, y, c) ==> #[trigger] out.at(x, y, c) == src.at(
                remap_source(m, src.w() as int, src.h() as int, x, y).0,
                remap_source(m, src.w() as int, src.h() as int, x, y).1,
                c,
            ),
{
    proof {
        use_type_invariant(src);
    }
    let iw = src.width;
    let ih = src.height;
    let ghost sw = iw as int;
    let ghost sh = ih as int;
    let ghost ow = out_w as int;
    let n = src.data.len();
    let mut out: Vec<u8> = Vec::new();
    let mut y: u32 = 0;
    proof {
        lemma_offset_next_row(ow, 0);
    }
    while y < out_h
        invariant
            y <= out_h,
            ow == out_w,
            sw == iw,
            sh == ih,
            iw == src.w(),
            ih == src.h(),
            src.data@.len() == iw * ih * 4,
            n == src.data@.len(),
            remap_in_bounds(m, sw, sh, ow, out_h as int),
            out@.len() == pixel_offset(ow, 0, y as int),
            forall|px: int, py: int, c: int|
                in_image(ow, y as int, px, py, c) ==> #[trigger] byte_at(out@, ow, px, py, c)
                    == byte_at(
                    src.data@,
                    sw,
                    remap_source(m, sw, sh, px, py).0,
                    remap_source(m, sw, sh, px, py).1,
                    c,
                ),
        decreases out_h - y,
    {
        let mut x: u32 = 0;
        while x < out_w
            invariant
                x <= out_w,
                y < out_h,
                ow == out_w,
                sw == iw,
                sh == ih,
                iw == src.w(),
                ih == src.h(),
                src.data@.len() == iw * ih * 4,
                n == src.data@.len(),
                remap_in_bounds(m, sw, sh, ow, out_h as int),
                out@.len() == pixel_offset(ow, x as int, y as int),
                forall|px: int, py: int, c: int|
                    (in_image(ow, y as int, px, py, c) || (py == y && 0 <= px < x && 0 <= c < 4))
                        ==> #[trigger] byte_at(out@, ow, px, py, c) == byte_at(
                        src.data@,
                        sw,
                        remap_source(m, sw, sh, px, py).0,
                        remap_source(m, sw, sh, px, py).1,
                        c,
                    ),
            decreases out_w - x,
        {
            let ghost s = remap_source(m, sw, sh, x as int, y as int);
            assert(0 <= s.0 < sw && 0 <= s.1 < sh);
            let (sx, sy): (u32, u32) = match m {
                Remap::Window { x0, y0 } => (x0 + x, y0 + y),
                Remap::MirrorX => (iw - 1 - x, y),
                Remap::MirrorY => (x, ih - 1 - y),
                Remap::MirrorXY => (iw - 1 - x, ih - 1 - y),
                Remap::TurnCw => (y, ih - 1 - x),
                Remap::TurnCcw => (iw - 1 - y, x),
            };
            assert(sx == s.0 && sy == s.1);
            proof {
                lemma_offset_bound(sw, sh, sx as int, sy as int);
            }
            let off: usize = (sy as usize * iw as usize + sx as usize) * 4;
            let ghost before = out@;
            out.push(src.data[off]);
            out.push(src.data[off + 1]);
            out.push(src.data[off + 2]);
            out.push(src.data[off + 3]);
            proof {
                assert forall|px: int, py: int, c: int|
                    (in_image(ow, y as int, px, py, c) || (py == y && 0 <= px < x + 1 && 0 <= c
                        < 4)) implies #[trigger] byte_at(out@, ow, px, py, c) == byte_at(
                    src.data@,
                    sw,
                    remap_source(m, sw, sh, px, py).0,
                    remap_source(m, sw, sh, px, py).1,
                    c,
                ) by {
                    if py == y && px == x {
                        assert(pixel_offset(ow, px, py) == before.len());
                    } else {
                        if py < y {
                            lemma_offset_before_row(ow, px, py, y as int, c);
                            assert(pixel_offset(ow, 0, y as int) <= pixel_offset(
                                ow,
                                x as int,
                                y as int,
                            ));
                        }
                        assert(pixel_offset(ow, px, py) + c < before.len());
                        assert(byte_at(out@, ow, px, py, c) == byte_at(before, ow, px, py, c));
                    }
                }
            }
            x = x + 1;
        }
        proof {
            lemma_offset_next_row(ow, y as int);
        }
        y = y + 1;
    }
    proof {
        assert(pixel_offset(ow, 0, out_h as int) == out_w * out_h * 4) by (nonlinear_arith)
            requires
                ow == out_w,
        ;
    }
    let out_img = ImageData { width: out_w, height: out_h, data: out };
    proof {
        assert forall|x: int, y: int, c: int|
            in_image(out_w as int, out_h as int, x, y, c) implies #[trigger] out_img.at(x, y, c)
            == src.at(
            remap_source(m, src.w() as int, src.h() as int, x, y).0,
            remap_source(m, src.w() as int, src.h() as int, x, y).1,
            c,
        ) by {
            assert(byte_at(out_img.data@, ow, x, y, c) == byte_at(
                src.data@,
                sw,
                remap_source(m, sw, sh, x, y).0,
                remap_source(m, sw, sh, x, y).1,
                c,
            ));
        }
    }
    out_img
}

} // verus!
