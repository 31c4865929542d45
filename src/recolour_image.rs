//! A packed one-bit-per-pixel raster drawn in two chosen colours.
//!
//! Rows are stored one after another, each rounded up to a whole number of
//! bytes; within a byte the leftmost pixel is the most significant bit. A
//! clear bit is drawn in the first colour of the pair, a set bit in the second.
use vstd::prelude::*;
use vstd::arithmetic::div_mod::*;
use vstd::arithmetic::mul::*;

use crate::geometry::{Point, Rectangle, Size};

verus! {

/// The number of bytes that one row of `width` pixels at `bits_per_pixel` takes.
pub open spec fn row_len(width: int, bits_per_pixel: int) -> int {
    (width * bits_per_pixel + 7) / 8
}

/// Whether the pixel at column `x` of row `y` is set, for rows of `bpr` bytes.
pub open spec fn bit_at(data: Seq<u8>, bpr: int, x: int, y: int) -> bool {
    (data[y * bpr + x / 8] >> ((7 - x % 8) as u8)) & 1u8 != 0
}

/// The colour that a pixel is drawn in.
pub open spec fn colour_for<C>(recolor_to: (C, C), set: bool) -> C {
    if set {
        recolor_to.1
    } else {
        recolor_to.0
    }
}

/// The pixels of the `w` by `h` block whose top-left pixel is `(x0, y0)`, row by row.
pub open spec fn block_pixels<C>(
    data: Seq<u8>,
    bpr: int,
    recolor_to: (C, C),
    x0: int,
    y0: int,
    w: int,
    h: int,
) -> Seq<C> {
    Seq::new(
        (w * h) as nat,
        |k: int| colour_for(recolor_to, bit_at(data, bpr, x0 + k % w, y0 + k / w)),
    )
}

/// Returns the length of each row in bytes.
pub fn bytes_per_row(width: u32, bits_per_pixel: usize) -> (r: usize)
    requires
        width * bits_per_pixel <= usize::MAX,
    ensures
        r == row_len(width as int, bits_per_pixel as int),
{
    let bits: usize = width as usize * bits_per_pixel;
    if bits % 8 == 0 {
        bits / 8
    } else {
        bits / 8 + 1
    }
}


/// A raster of one bit per pixel, drawn in two colours of the caller's choice.
pub struct RecolouredImageRaw<'a, C> {
    /// Packed rows, each `bytes_per_row(width, 1)` bytes long.
    data: &'a [u8],
    /// Image size in pixels.
    size: Size,
    /// The colours for a clear bit and for a set bit.
    recolor_to: (C, C),
}

/// The pixels of one rectangle of an image, handed out one at a time, row by row.
pub struct ContiguousPixels<'a, C> {
    data: &'a [u8],
    /// Bytes per row of the image.
    bpr: usize,
    /// Top-left pixel of the rectangle.
    x0: usize,
    y0: usize,
    /// Size of the rectangle.
    width: usize,
    height: usize,
    /// Position of the next pixel within the rectangle.
    row: usize,
    col: usize,
    recolor_to: (C, C),
}

/// What drawing an image asks of a pixel sink: fill `area` with `pixels`, row by row.
pub struct ImageFill<'a, C> {
    pub area: Rectangle,
    pub pixels: ContiguousPixels<'a, C>,
}

impl<'a, C> RecolouredImageRaw<'a, C> {
    #[verifier::type_invariant]
    spec fn inv(self) -> bool {
        &&& self.data@.len() <= usize::MAX
        &&& if self.size.width == 0 {
            self.size.height == 0 && self.data@.len() == 0
        } else {
            self.size.height == self.data@.len() as int / row_len(self.size.width as int, 1)
        }
    }
}

impl<'a, C: Copy> RecolouredImageRaw<'a, C> {

    /// The packed rows of the image.
    pub closed spec fn spec_data(self) -> Seq<u8> {
        self.data@
    }

    pub closed spec fn spec_size(self) -> Size {
        self.size
    }

    pub closed spec fn spec_recolor_to(self) -> (C, C) {
        self.recolor_to
    }

    /// Bytes per row.
    pub open spec fn spec_bpr(self) -> int {
        row_len(self.spec_size().width as int, 1)
    }

    /// Every pixel of the image, row by row.
    pub open spec fn image_pixels(self) -> Seq<C> {
        block_pixels(
            self.spec_data(),
            self.spec_bpr(),
            self.spec_recolor_to(),
            0,
            0,
            self.spec_size().width as int,
            self.spec_size().height as int,
        )
    }

    /// Whether `area` covers at least one pixel and lies entirely inside the image.
    pub open spec fn area_within(self, area: Rectangle) -> bool {
        &&& !area.spec_is_zero_sized()
        &&& area.top_left.x >= 0
        &&& area.top_left.y >= 0
        &&& area.top_left.x + area.size.width <= self.spec_size().width
        &&& area.top_left.y + area.size.height <= self.spec_size().height
    }

    /// The pixels that drawing the part `area` of the image yields, row by row.
    pub open spec fn sub_image_pixels(self, area: Rectangle) -> Seq<C> {
        if self.area_within(area) {
            block_pixels(
                self.spec_data(),
                self.spec_bpr(),
                self.spec_recolor_to(),
                area.top_left.x as int,
                area.top_left.y as int,
                area.size.width as int,
                area.size.height as int,
            )
        } else {
            Seq::empty()
        }
    }

    /// The colour of the pixel at `p`, if `p` lies inside the image.
    pub open spec fn pixel_at(self, p: Point) -> Option<C> {
        if 0 <= p.x < self.spec_size().width && 0 <= p.y < self.spec_size().height {
            Some(
                colour_for(
                    self.spec_recolor_to(),
                    bit_at(self.spec_data(), self.spec_bpr(), p.x as int, p.y as int),
                ),
            )
        } else {
            None
        }
    }

    /// An image of `width` pixels per row over `data`; a zero width gives an empty image.
    pub fn new(data: &'a [u8], width: u32, recolor_to: (C, C)) -> (r: Self)
        requires
            width > 0 ==> data@.len() as int / row_len(width as int, 1) <= u32::MAX,
        ensures
            r.spec_recolor_to() == recolor_to,
            r.spec_size().width == width,
            width == 0 ==> r.spec_size().height == 0 && r.spec_data().len() == 0,
            width > 0 ==> r.spec_data() == data@ && r.spec_size().height == data@.len() as int
                / row_len(width as int, 1),
    {
        if width == 0 {
            let empty: &'a [u8] = &[];
            return RecolouredImageRaw { data: empty, size: Size::zero(), recolor_to };
        }
        let len = data.len();
        let height: usize = len / bytes_per_row(width, 1);
        RecolouredImageRaw { data, size: Size::new(width, height as u32), recolor_to }
    }

    /// The image size in pixels.
    pub fn size(&self) -> (r: Size)
        ensures
            r == self.spec_size(),
    {
        self.size
    }

    /// The colour of the pixel at `p`, or `None` outside the image.
    pub fn pixel(&self, p: Point) -> (r: Option<C>)
        ensures
            r == self.pixel_at(p),
    {
        proof {
            use_type_invariant(self);
        }
        if p.x < 0 || p.y < 0 || p.x as u32 >= self.size.width || p.y as u32 >= self.size.height {
            return None;
        }
        let bpr = bytes_per_row(self.size.width, 1);
        let x = p.x as usize;
        let y = p.y as usize;
        proof {
            lemma_image_rows_fit(self.data@.len() as int, self.size.width as int, self.size.height as int);
            assert(x as int / 8 < bpr);
            lemma_index_in_bounds(y as int, self.size.height as int, bpr as int, x as int / 8);
        }
        Some(colour_for_exec(self.recolor_to, self.data[y * bpr + x / 8], x))
    }

    /// The pixels of the whole image, for a sink to fill its bounding box with.
    pub fn draw(&self) -> (r: ImageFill<'a, C>)
        ensures
            r.area == (Rectangle { top_left: Point { x: 0, y: 0 }, size: self.spec_size() }),
            r.pixels.remaining() == self.image_pixels(),
    {
        proof {
            use_type_invariant(self);
        }
        ImageFill {
            area: Rectangle::new(Point::zero(), self.size),
            pixels: ContiguousPixels::new(self, 0, 0, self.size),
        }
    }

    /// The pixels of the part `area` of the image, for a sink to fill the
    /// rectangle of `area`'s size at the origin with. `None` when `area` covers
    /// no pixel or reaches outside the image: nothing is to be drawn then.
    pub fn draw_sub_image(&self, area: &Rectangle) -> (r: Option<ImageFill<'a, C>>)
        ensures
            r is None <==> !self.area_within(*area),
            r is None ==> self.sub_image_pixels(*area).len() == 0,
            r matches Some(f) ==> f.area == (Rectangle { top_left: Point { x: 0, y: 0 }, size: area.size })
                && f.pixels.remaining() == self.sub_image_pixels(*area),
    {
        proof {
            use_type_invariant(self);
        }
        if area.is_zero_sized() || area.top_left.x < 0 || area.top_left.y < 0 {
            return None;
        }
        let x = area.top_left.x as u32;
        let y = area.top_left.y as u32;
        if x as u64 + area.size.width as u64 > self.size.width as u64 || y as u64
            + area.size.height as u64 > self.size.height as u64 {
            return None;
        }
        Some(
            ImageFill {
                area: Rectangle::new(Point::zero(), area.size),
                pixels: ContiguousPixels::new(self, x, y, area.size),
            },
        )
    }
}

/// Facts about the row layout of a well-formed image.
proof fn lemma_image_rows_fit(len: int, width: int, height: int)
    requires
        len >= 0,
        width > 0,
        height == len / row_len(width as int, 1),
    ensures
        row_len(width as int, 1) >= 1,
        height * row_len(width as int, 1) <= len,
        width <= 8 * row_len(width as int, 1),
{
    let bpr = row_len(width, 1);
    lemma_fundamental_div_mod(len, bpr);
    assert(height * bpr <= len) by (nonlinear_arith)
        requires
            len == bpr * (len / bpr) + len % bpr,
            len % bpr >= 0,
            height == len / bpr,
    ;
}

/// The byte that holds column `8 * xb ..` of row `y` lies inside the first `h` rows.
proof fn lemma_index_in_bounds(y: int, h: int, bpr: int, xb: int)
    requires
        0 <= y < h,
        0 <= xb < bpr,
    ensures
        y * bpr + xb < h * bpr,
        (y + 1) * bpr <= h * bpr,
{
    assert((y + 1) * bpr <= h * bpr) by (nonlinear_arith)
        requires
            0 <= y < h,
            0 <= bpr,
    ;
    assert(y * bpr + xb < (y + 1) * bpr) by (nonlinear_arith)
        requires
            xb < bpr,
    ;
}

/// The colour of the pixel in column `x`, given the byte of its row that holds it.
fn colour_for_exec<C: Copy>(recolor_to: (C, C), byte: u8, x: usize) -> (r: C)
    ensures
        r == colour_for(recolor_to, (byte >> ((7 - x % 8) as u8)) & 1u8 != 0),
{
    let shift: u8 = (7 - x % 8) as u8;
    if (byte >> shift) & 1u8 != 0 {
        recolor_to.1
    } else {
        recolor_to.0
    }
}


impl<'a, C> ContiguousPixels<'a, C> {
    #[verifier::type_invariant]
    spec fn inv(self) -> bool {
        &&& self.width > 0 && self.height > 0 ==> {
            &&& (self.y0 + self.height) * self.bpr <= self.data@.len()
            &&& self.x0 + self.width <= 8 * self.bpr
            &&& self.x0 + self.width <= u32::MAX
            &&& self.y0 + self.height <= u32::MAX
        }
        &&& self.data@.len() <= usize::MAX
        &&& self.row <= self.height
        &&& self.width == 0 ==> self.row == self.height
        &&& self.row < self.height ==> self.col < self.width
        &&& self.row == self.height ==> self.col == 0
    }
}

impl<'a, C: Copy> ContiguousPixels<'a, C> {
    /// Every pixel of the rectangle, row by row, whether handed out yet or not.
    pub closed spec fn spec_block(self) -> Seq<C> {
        block_pixels(
            self.data@,
            self.bpr as int,
            self.recolor_to,
            self.x0 as int,
            self.y0 as int,
            self.width as int,
            self.height as int,
        )
    }

    /// How many pixels have been handed out.
    pub closed spec fn spec_emitted(self) -> int {
        self.row * self.width + self.col
    }

    /// The pixels still to come, in order.
    pub open spec fn remaining(self) -> Seq<C> {
        self.spec_block().skip(self.spec_emitted())
    }

    /// The pixels of the `size` rectangle of `image` whose top-left pixel is `(x, y)`.
    fn new(image: &RecolouredImageRaw<'a, C>, x: u32, y: u32, size: Size) -> (r: Self)
        requires
            size.width > 0 && size.height > 0 ==> x + size.width <= image.spec_size().width && y
                + size.height <= image.spec_size().height,
        ensures
            r.remaining() == block_pixels(
                image.spec_data(),
                image.spec_bpr(),
                image.spec_recolor_to(),
                x as int,
                y as int,
                size.width as int,
                size.height as int,
            ),
    {
        proof {
            use_type_invariant(image);
        }
        let bpr = bytes_per_row(image.size.width, 1);
        let empty = size.width == 0 || size.height == 0;
        proof {
            if !empty {
                lemma_image_rows_fit(
                    image.data@.len() as int,
                    image.size.width as int,
                    image.size.height as int,
                );
                assert((y + size.height) * bpr <= image.size.height * bpr) by (nonlinear_arith)
                    requires
                        y + size.height <= image.size.height,
                        bpr >= 0,
                ;
            }
        }
        let r = ContiguousPixels {
            data: image.data,
            bpr,
            x0: x as usize,
            y0: y as usize,
            width: size.width as usize,
            height: if empty {
                0
            } else {
                size.height as usize
            },
            row: 0,
            col: 0,
            recolor_to: image.recolor_to,
        };
        proof {
            assert(r.spec_emitted() == 0);
            assert(r.remaining() =~= r.spec_block());
            if empty {
                assert(size.width * size.height == 0) by (nonlinear_arith)
                    requires
                        size.width == 0 || size.height == 0,
                ;
                assert(r.spec_block().len() == 0) by (nonlinear_arith)
                    requires
                        r.width == 0 || r.height == 0,
                        r.spec_block().len() == r.width * r.height,
                ;
            }
        }
        r
    }

    /// Hands out the next pixel, or `None` once every pixel has been handed out.
    pub fn next(&mut self) -> (r: Option<C>)
        ensures
            old(self).remaining().len() == 0 ==> r is None && final(self).remaining()
                == old(self).remaining(),
            old(self).remaining().len() > 0 ==> r == Some(old(self).remaining()[0])
                && final(self).remaining() == old(self).remaining().drop_first(),
    {
        proof {
            use_type_invariant(&*self);
        }
        let ghost w = self.width as int;
        let ghost h = self.height as int;
        let ghost k = self.spec_emitted();
        proof {
            lemma_emitted_bounds(self.row as int, self.col as int, w, h);
        }
        if self.row >= self.height {
            return None;
        }
        let x = self.x0 + self.col;
        let y = self.y0 + self.row;
        proof {
            assert(x as int / 8 < self.bpr);
            lemma_index_in_bounds(y as int, self.y0 + h, self.bpr as int, x as int / 8);
            lemma_fundamental_div_mod_converse(k, w, self.row as int, self.col as int);
        }
        let c = colour_for_exec(self.recolor_to, self.data[y * self.bpr + x / 8], x);
        let ghost row = self.row as int;
        if self.col + 1 == self.width {
            self.col = 0;
            self.row = self.row + 1;
            proof {
                assert((row + 1) * w == row * w + w) by (nonlinear_arith);
            }
        } else {
            self.col = self.col + 1;
        }
        proof {
            assert(self.spec_emitted() == k + 1);
            assert(self.remaining() =~= old(self).remaining().drop_first());
        }
        Some(c)
    }
}

/// Where the next pixel stands among all `w * h` of a rectangle.
proof fn lemma_emitted_bounds(row: int, col: int, w: int, h: int)
    requires
        0 <= row <= h,
        0 <= col,
        0 <= w,
        w == 0 ==> row == h,
        row < h ==> col < w,
        row == h ==> col == 0,
    ensures
        0 <= row * w + col <= w * h,
        row < h <==> row * w + col < w * h,
{
    assert(0 <= row * w + col <= w * h && (row < h <==> row * w + col < w * h)) by (nonlinear_arith)
        requires
            0 <= row <= h,
            0 <= col,
            0 <= w,
            w == 0 ==> row == h,
            row < h ==> col < w,
            row == h ==> col == 0,
    ;
}


/// Drawing the part of an image that its whole bounding box covers yields
/// the same pixels, in the same order, as drawing the whole image.
pub proof fn lemma_whole_area_matches_full_draw<'a, C: Copy>(image: RecolouredImageRaw<'a, C>)
    ensures
        image.sub_image_pixels(
            (Rectangle { top_left: Point { x: 0, y: 0 }, size: image.spec_size() }),
        ) == image.image_pixels(),
{
    let area = Rectangle { top_left: Point { x: 0, y: 0 }, size: image.spec_size() };
    if !image.area_within(area) {
        let w = image.spec_size().width as int;
        let h = image.spec_size().height as int;
        assert(w * h == 0) by (nonlinear_arith)
            requires
                w == 0 || h == 0,
        ;
        assert(image.image_pixels() =~= Seq::empty());
    }
}

} // verus!
