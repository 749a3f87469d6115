//! A raster of 8-bit pixels held in the order the image format emits them:
//! rows from the top of the picture down, each row from left to right.
//! Positions are given as a column from the left and a row from the bottom,
//! the way the camera's image-plane coordinates run.

use vstd::prelude::*;
use crate::ppm::{header_text, pixel_text, push_header, push_pixel};

verus! {

/// A display-ready pixel: red, green and blue levels in `0..=255`.
#[derive(Clone, Copy, Debug, PartialEq, Eq, Structural)]
pub struct Rgb {
    pub r: u8,
    pub g: u8,
    pub b: u8,
}

impl Rgb {
    /// The line this pixel is emitted as.
    pub open spec fn text(self) -> Seq<u8> {
        pixel_text(self.r, self.g, self.b)
    }
}

/// Place in emission order of the pixel at `column` (from the left) and
/// `row` (from the bottom) of an image `width` pixels wide and `height` high.
pub open spec fn emission_index(width: nat, height: nat, column: nat, row: nat) -> int {
    (height - 1 - row) * width + column
}

/// Distinct positions of an image are emitted at distinct places, each
/// before the end of the pixel lines.
pub proof fn lemma_emission_index_distinct(
    width: nat,
    height: nat,
    c1: nat,
    r1: nat,
    c2: nat,
    r2: nat,
)
    requires
        c1 < width,
        c2 < width,
        r1 < height,
        r2 < height,
    ensures
        0 <= emission_index(width, height, c1, r1) < width * height,
        (c1 != c2 || r1 != r2) ==> emission_index(width, height, c1, r1) != emission_index(
            width,
            height,
            c2,
            r2,
        ),
{
    let l1 = height - 1 - r1;
    let l2 = height - 1 - r2;
    assert(0 <= l1 * width + c1 < width * height) by (nonlinear_arith)
        requires
            0 <= l1 < height,
            c1 < width,
    ;
    if l1 != l2 {
        if l1 < l2 {
            assert(l1 * width + c1 < l2 * width + c2) by (nonlinear_arith)
                requires
                    l1 + 1 <= l2,
                    c1 < width,
            ;
        } else {
            assert(l2 * width + c2 < l1 * width + c1) by (nonlinear_arith)
                requires
                    l2 + 1 <= l1,
                    c2 < width,
            ;
        }
    }
}

/// Column (from the left) and row (from the bottom) of the pixel emitted at
/// place `index` of an image `width` pixels wide and `height` high.
pub fn pixel_position(width: u64, height: u64, index: u64) -> (r: (u64, u64))
    requires
        index < width * height,
    ensures
        r.0 < width,
        r.1 < height,
        emission_index(width as nat, height as nat, r.0 as nat, r.1 as nat) == index,
{
    proof {
        assert(width > 0) by (nonlinear_arith)
            requires
                index < width * height,
        ;
        assert(index / width < height) by (nonlinear_arith)
            requires
                index < width * height,
                width > 0,
        ;
    }
    let line = index / width;
    let column = index % width;
    let row = height - 1 - line;
    proof {
        assert(line * width + column == index) by (nonlinear_arith)
            requires
                line == index / width,
                column == index % width,
                width > 0,
        ;
    }
    (column, row)
}

/// The pixel lines of `pixels`, one after another.
pub open spec fn body_text(pixels: Seq<Rgb>) -> Seq<u8>
    decreases pixels.len(),
{
    if pixels.len() == 0 {
        Seq::empty()
    } else {
        body_text(pixels.drop_last()) + pixels.last().text()
    }
}

pub struct Image {
    width: u64,
    height: u64,
    pixels: Vec<Rgb>,
}

impl Image {
    pub closed spec fn spec_width(&self) -> nat {
        self.width as nat
    }

    pub closed spec fn spec_height(&self) -> nat {
        self.height as nat
    }

    /// The pixels in emission order.
    pub closed spec fn view(&self) -> Seq<Rgb> {
        self.pixels@
    }

    pub closed spec fn wf(&self) -> bool {
        &&& self.width * self.height <= usize::MAX
        &&& self.pixels@.len() == self.width * self.height
    }

    /// The pixel at `column` from the left and `row` from the bottom.
    pub open spec fn pixel(&self, column: nat, row: nat) -> Rgb {
        self@[emission_index(self.spec_width(), self.spec_height(), column, row)]
    }

    /// The whole image in the plain-text format.
    pub open spec fn text(&self) -> Seq<u8> {
        header_text(self.spec_width(), self.spec_height()) + body_text(self@)
    }

    /// An all-black image of `width` by `height` pixels.
    pub fn new(width: u64, height: u64) -> (r: Image)
        requires
            width * height <= usize::MAX,
        ensures
            r.wf(),
            r.spec_width() == width,
            r.spec_height() == height,
            r@ == Seq::new((width * height) as nat, |i: int| Rgb { r: 0, g: 0, b: 0 }),
    {
        let n: usize = (width * height) as usize;
        let mut pixels: Vec<Rgb> = Vec::new();
        let mut i: usize = 0;
        while i < n
            invariant
                i <= n,
                pixels@ == Seq::new(i as nat, |k: int| Rgb { r: 0, g: 0, b: 0 }),
            decreases n - i,
        {
            pixels.push(Rgb { r: 0, g: 0, b: 0 });
            i = i + 1;
            assert(pixels@ =~= Seq::new(i as nat, |k: int| Rgb { r: 0, g: 0, b: 0 }));
        }
        Image { width, height, pixels }
    }

    pub fn width(&self) -> (r: u64)
        ensures
            r == self.spec_width(),
    {
        self.width
    }

    pub fn height(&self) -> (r: u64)
        ensures
            r == self.spec_height(),
    {
        self.height
    }

    /// The pixel at `column` from the left and `row` from the bottom.
    pub fn get(&self, column: u64, row: u64) -> (r: Rgb)
        requires
            self.wf(),
            column < self.spec_width(),
            row < self.spec_height(),
        ensures
            r == self.pixel(column as nat, row as nat),
    {
        let index = self.index_of(column, row);
        self.pixels[index]
    }

    /// Sets the pixel at `column` from the left and `row` from the bottom,
    /// leaving every other pixel as it was.
    pub fn set(&mut self, column: u64, row: u64, value: Rgb)
        requires
            old(self).wf(),
            column < old(self).spec_width(),
            row < old(self).spec_height(),
        ensures
            final(self).wf(),
            final(self).spec_width() == old(self).spec_width(),
            final(self).spec_height() == old(self).spec_height(),
            final(self)@ == old(self)@.update(
                emission_index(
                    old(self).spec_width(),
                    old(self).spec_height(),
                    column as nat,
                    row as nat,
                ),
                value,
            ),
            final(self).pixel(column as nat, row as nat) == value,
    {
        let index = self.index_of(column, row);
        self.pixels.set(index, value);
    }

    fn index_of(&self, column: u64, row: u64) -> (r: usize)
        requires
            self.wf(),
            column < self.spec_width(),
            row < self.spec_height(),
        ensures
            r == emission_index(self.spec_width(), self.spec_height(), column as nat, row as nat),
            r < self@.len(),
    {
        let w = self.width;
        let h = self.height;
        let line = h - 1 - row;
        proof {
            assert(line * w + column < h * w) by (nonlinear_arith)
                requires
                    line < h,
                    column < w,
            ;
            assert(line * w <= line * w + column);
            assert(h * w == w * h) by (nonlinear_arith);
        }
        (line * w + column) as usize
    }

    /// The whole image in the plain-text format: the header line, then one
    /// line per pixel in emission order.
    pub fn to_ppm(&self) -> (r: Vec<u8>)
        requires
            self.wf(),
        ensures
            r@ == self.text(),
    {
        let mut out: Vec<u8> = Vec::new();
        push_header(&mut out, self.width, self.height);
        let mut i: usize = 0;
        while i < self.pixels.len()
            invariant
                i <= self@.len(),
                out@ == header_text(self.spec_width(), self.spec_height()) + body_text(
                    self@.take(i as int),
                ),
            decreases self@.len() - i,
        {
            let p = self.pixels[i];
            push_pixel(&mut out, p.r, p.g, p.b);
            proof {
                assert(self@.take(i + 1).drop_last() =~= self@.take(i as int));
            }
            i = i + 1;
        }
        assert(self@.take(i as int) =~= self@);
        out
    }
}

} // verus!
