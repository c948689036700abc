use vstd::prelude::*;

use crate::color::Color;
use crate::color::blank;

verus! {

/// Index of the logical pixel `(x, y)` in a row-major grid whose rows are
/// stored top first, while logical `y = 0` is the bottom row.
pub open spec fn cell_index(width: int, height: int, x: int, y: int) -> int {
    (height - 1 - y) * width + x
}

/// Whether `(x, y)` is a pixel of a `width` by `height` grid.
pub open spec fn in_bounds(width: int, height: int, x: int, y: int) -> bool {
    0 <= x < width && 0 <= y < height
}

pub proof fn lemma_cell_index_range(width: int, height: int, x: int, y: int)
    requires
        in_bounds(width, height, x, y),
    ensures
        0 <= cell_index(width, height, x, y) < width * height,
{
    let row = height - 1 - y;
    assert(0 <= row * width + x < width * height) by (nonlinear_arith)
        requires
            0 <= row < height,
            0 <= x < width,
    ;
}

pub proof fn lemma_cell_index_injective(width: int, height: int, x: int, y: int, x2: int, y2: int)
    requires
        in_bounds(width, height, x, y),
        in_bounds(width, height, x2, y2),
        (x, y) != (x2, y2),
    ensures
        cell_index(width, height, x, y) != cell_index(width, height, x2, y2),
{
    let row = height - 1 - y;
    let row2 = height - 1 - y2;
    assert(row * width + x != row2 * width + x2) by (nonlinear_arith)
        requires
            0 <= x < width,
            0 <= x2 < width,
            row != row2 || x != x2,
    {
        if row < row2 {
            assert(row * width + width <= row2 * width);
        } else if row2 < row {
            assert(row2 * width + width <= row * width);
        }
    }
}

/// The color held by the four bytes `r, g, b, a` at offset `o` of `bytes`.
pub open spec fn pixel_at_offset(bytes: Seq<u8>, o: int) -> Color {
    Color { r: bytes[o], g: bytes[o + 1], b: bytes[o + 2], a: bytes[o + 3] }
}

/// A `width` by `height` RGBA pixel buffer, four bytes per pixel, rows
/// stored top first; logical coordinates have their origin bottom left.
pub struct Image {
    buf: Vec<u8>,
    width: usize,
    height: usize,
}

impl Image {
    pub closed spec fn spec_width(&self) -> int {
        self.width as int
    }

    pub closed spec fn spec_height(&self) -> int {
        self.height as int
    }

    /// The buffer holds four bytes for each pixel of the grid.
    pub closed spec fn wf(&self) -> bool {
        &&& self.buf@.len() == self.width * self.height * 4
        &&& self.width * self.height * 4 <= usize::MAX
    }

    /// A well-formed image's pixel count, four bytes each, fits in memory.
    pub proof fn lemma_wf_size(&self)
        requires
            self.wf(),
        ensures
            self.spec_width() * self.spec_height() * 4 <= usize::MAX,
            self.spec_width() >= 0,
            self.spec_height() >= 0,
    {
    }

    /// Byte offset of the logical pixel `(x, y)`.
    fn offset_of(&self, x: usize, y: usize) -> (o: usize)
        requires
            self.wf(),
            in_bounds(self.spec_width(), self.spec_height(), x as int, y as int),
        ensures
            o == cell_index(self.spec_width(), self.spec_height(), x as int, y as int) * 4,
            o + 3 < self.buf@.len(),
    {
        let ghost w = self.width as int;
        let ghost h = self.height as int;
        proof {
            lemma_cell_index_range(w, h, x as int, y as int);
            let row = h - 1 - y;
            assert(row * w <= row * w + x);
            assert(0 <= row * w) by (nonlinear_arith)
                requires
                    0 <= row,
                    0 <= w,
            ;
        }
        let row: usize = self.height - 1 - y;
        let cell: usize = row * self.width + x;
        cell * 4
    }

    /// The color of the logical pixel `(x, y)`.
    pub closed spec fn pixel(&self, x: int, y: int) -> Color {
        pixel_at_offset(self.buf@, cell_index(self.width as int, self.height as int, x, y) * 4)
    }

    /// The stored bytes, rows top first, four bytes (r, g, b, a) per pixel.
    pub closed spec fn bytes(&self) -> Seq<u8> {
        self.buf@
    }

    pub fn new(width: usize, height: usize) -> (img: Image)
        requires
            width * height * 4 <= usize::MAX,
        ensures
            img.wf(),
            img.spec_width() == width,
            img.spec_height() == height,
            forall|x: int, y: int| in_bounds(width as int, height as int, x, y)
                ==> #[trigger] img.pixel(x, y) == blank(),
            img.bytes() == Seq::new((width * height * 4) as nat, |i: int| 0u8),
    {
        let n: usize = width * height * 4;
        let buf: Vec<u8> = vec![0u8; n];
        let img = Image { buf, width, height };
        assert(img.bytes() =~= Seq::new((width * height * 4) as nat, |i: int| 0u8));
        assert forall|x: int, y: int| in_bounds(width as int, height as int, x, y)
            implies #[trigger] img.pixel(x, y) == blank() by {
            lemma_cell_index_range(width as int, height as int, x, y);
        }
        img
    }

    pub fn width(&self) -> (w: usize)
        ensures
            w == self.spec_width(),
    {
        self.width
    }

    pub fn height(&self) -> (h: usize)
        ensures
            h == self.spec_height(),
    {
        self.height
    }

    /// The stored bytes, as handed to an image encoder.
    pub fn as_bytes(&self) -> (b: &[u8])
        requires
            self.wf(),
        ensures
            b@ == self.bytes(),
            b@.len() == self.spec_width() * self.spec_height() * 4,
            forall|x: int, y: int|
                in_bounds(self.spec_width(), self.spec_height(), x, y) ==> #[trigger] self.pixel(x, y)
                    == pixel_at_offset(b@, cell_index(self.spec_width(), self.spec_height(), x, y) * 4),
    {
        self.buf.as_slice()
    }

    /// Writes `color` at the logical pixel `(x, y)`; the row is flipped so
    /// that `y = 0` lands in the last stored row.
    pub fn set(&mut self, x: usize, y: usize, color: &Color)
        requires
            old(self).wf(),
            in_bounds(old(self).spec_width(), old(self).spec_height(), x as int, y as int),
        ensures
            final(self).wf(),
            final(self).spec_width() == old(self).spec_width(),
            final(self).spec_height() == old(self).spec_height(),
            final(self).pixel(x as int, y as int) == *color,
            ({
                let o = cell_index(old(self).spec_width(), old(self).spec_height(), x as int, y as int) * 4;
                final(self).bytes() == old(self).bytes().update(o, color.r).update(o + 1, color.g).update(
                    o + 2,
                    color.b,
                ).update(o + 3, color.a)
            }),
            forall|x2: int, y2: int|
                in_bounds(old(self).spec_width(), old(self).spec_height(), x2, y2) && (x2, y2) != (
                x as int,
                y as int,
            ) ==> #[trigger] final(self).pixel(x2, y2) == old(self).pixel(x2, y2),
    {
        let ghost w = self.width as int;
        let ghost h = self.height as int;
        let offset: usize = self.offset_of(x, y);
        self.buf.set(offset, color.r);
        self.buf.set(offset + 1, color.g);
        self.buf.set(offset + 2, color.b);
        self.buf.set(offset + 3, color.a);
        proof {
            assert forall|x2: int, y2: int|
                in_bounds(w, h, x2, y2) && (x2, y2) != (x as int, y as int)
                implies #[trigger] self.pixel(x2, y2) == old(self).pixel(x2, y2) by {
                lemma_cell_index_range(w, h, x2, y2);
                lemma_cell_index_injective(w, h, x as int, y as int, x2, y2);
            }
        }
    }

    /// The color of the logical pixel `(x, y)`.
    pub fn get(&self, x: usize, y: usize) -> (c: Color)
        requires
            self.wf(),
            in_bounds(self.spec_width(), self.spec_height(), x as int, y as int),
        ensures
            c == self.pixel(x as int, y as int),
    {
        let offset: usize = self.offset_of(x, y);
        Color { r: self.buf[offset], g: self.buf[offset + 1], b: self.buf[offset + 2], a: self.buf[offset + 3] }
    }
}

} // verus!
