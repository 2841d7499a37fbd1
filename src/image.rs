use vstd::prelude::*;

use crate::color::{lemma_unpack_pack, Color, PixelData};
use crate::grid::{lemma_index_in_grid, lemma_index_injective, lemma_row_major, pixel_index};

verus! {

/// A width by height grid of packed colors, stored row by row, top row first.
pub struct Image {
    width: usize,
    height: usize,
    data: Vec<PixelData>,
}

impl Image {
    /// Well-formed: one pixel for each column of each row.
    pub open spec fn wf(&self) -> bool {
        self.pixels().len() == self.spec_width() * self.spec_height()
    }

    pub closed spec fn spec_width(&self) -> nat {
        self.width as nat
    }

    pub closed spec fn spec_height(&self) -> nat {
        self.height as nat
    }

    /// The packed pixels, row by row.
    pub closed spec fn pixels(&self) -> Seq<PixelData> {
        self.data@
    }

    /// The packed pixel at column `x`, row `y`.
    pub open spec fn pixel_at(&self, x: nat, y: nat) -> PixelData {
        self.pixels()[pixel_index(self.spec_width(), x, y) as int]
    }

    /// An image of the given size with every pixel zero (transparent black).
    pub fn new(width: usize, height: usize) -> (img: Image)
        requires
            width * height <= usize::MAX,
        ensures
            img.wf(),
            img.spec_width() == width,
            img.spec_height() == height,
            img.pixels() == Seq::new((width * height) as nat, |i: int| 0u32),
    {
        let n = width * height;
        let mut data: Vec<PixelData> = Vec::new();
        while data.len() < n
            invariant
                data.len() <= n,
                forall|i: int| 0 <= i < data.len() ==> data@[i] == 0u32,
            decreases n - data.len(),
        {
            data.push(0);
        }
        assert(data@ == Seq::new(n as nat, |i: int| 0u32));
        Image { width, height, data }
    }

    #[inline]
    pub fn get_width(&self) -> (w: usize)
        ensures
            w == self.spec_width(),
    {
        self.width
    }

    #[inline]
    pub fn get_height(&self) -> (h: usize)
        ensures
            h == self.spec_height(),
    {
        self.height
    }

    #[inline]
    pub fn read_pixel(&self, x: usize, y: usize) -> (p: PixelData)
        requires
            self.wf(),
            x < self.spec_width(),
            y < self.spec_height(),
        ensures
            p == self.pixel_at(x as nat, y as nat),
    {
        let idx = self.index_of(x, y);
        self.data[idx]
    }

    #[inline]
    pub fn read_color(&self, x: usize, y: usize) -> (c: Color)
        requires
            self.wf(),
            x < self.spec_width(),
            y < self.spec_height(),
        ensures
            c == Color::unpacked(self.pixel_at(x as nat, y as nat)),
    {
        Color::from(self.read_pixel(x, y))
    }

    #[inline]
    pub fn write_pixel(&mut self, x: usize, y: usize, data: PixelData)
        requires
            old(self).wf(),
            x < old(self).spec_width(),
            y < old(self).spec_height(),
        ensures
            final(self).wf(),
            final(self).spec_width() == old(self).spec_width(),
            final(self).spec_height() == old(self).spec_height(),
            final(self).pixels() == old(self).pixels().update(
                pixel_index(old(self).spec_width(), x as nat, y as nat) as int,
                data,
            ),
            final(self).pixel_at(x as nat, y as nat) == data,
            forall|x2: nat, y2: nat|
                x2 < old(self).spec_width() && y2 < old(self).spec_height() && (x2 != x || y2 != y)
                    ==> #[trigger] final(self).pixel_at(x2, y2) == old(self).pixel_at(x2, y2),
    {
        let idx = self.index_of(x, y);
        self.data.set(idx, data);
        proof {
            assert forall|x2: nat, y2: nat|
                x2 < self.spec_width() && y2 < self.spec_height() && (x2 != x || y2 != y)
                    implies #[trigger] self.pixel_at(x2, y2) == old(self).pixel_at(x2, y2) by {
                lemma_index_injective(self.width as nat, x as nat, y as nat, x2, y2);
                lemma_index_in_grid(self.width as nat, self.height as nat, x2, y2);
            }
        }
    }

    #[inline]
    pub fn write_color(&mut self, x: usize, y: usize, color: Color)
        requires
            old(self).wf(),
            x < old(self).spec_width(),
            y < old(self).spec_height(),
        ensures
            final(self).wf(),
            final(self).spec_width() == old(self).spec_width(),
            final(self).spec_height() == old(self).spec_height(),
            final(self).pixels() == old(self).pixels().update(
                pixel_index(old(self).spec_width(), x as nat, y as nat) as int,
                color.packed(),
            ),
            final(self).pixel_at(x as nat, y as nat) == color.packed(),
            Color::unpacked(final(self).pixel_at(x as nat, y as nat)) == color,
            forall|x2: nat, y2: nat|
                x2 < old(self).spec_width() && y2 < old(self).spec_height() && (x2 != x || y2 != y)
                    ==> #[trigger] final(self).pixel_at(x2, y2) == old(self).pixel_at(x2, y2),
    {
        self.write_pixel(x, y, PixelData::from(color));
        proof {
            lemma_unpack_pack(color);
        }
    }

    /// Walks the pixels row by row, top row first, each row from the left.
    pub fn iter(&self) -> (it: ImageIter<'_>)
        requires
            self.wf(),
        ensures
            it.image() == *self,
            it.position() == 0,
    {
        ImageIter { image: self, curr_x: 0, curr_y: 0 }
    }

    fn index_of(&self, x: usize, y: usize) -> (idx: usize)
        requires
            self.wf(),
            x < self.spec_width(),
            y < self.spec_height(),
        ensures
            idx == pixel_index(self.spec_width(), x as nat, y as nat),
            idx < self.pixels().len(),
    {
        let count = self.data.len();
        proof {
            lemma_index_in_grid(self.width as nat, self.height as nat, x as nat, y as nat);
            assert(x + y * self.width < count);
        }
        x + y * self.width
    }
}

/// A cursor over an image's pixels in row-major order.
pub struct ImageIter<'a> {
    image: &'a Image,
    curr_x: usize,
    curr_y: usize,
}

impl<'a> ImageIter<'a> {
    #[verifier::type_invariant]
    spec fn inv(&self) -> bool {
        &&& self.image.wf()
        &&& self.curr_y <= self.image.spec_height()
        &&& (self.curr_x < self.image.spec_width() || self.curr_x == 0)
        &&& (self.curr_y == self.image.spec_height() ==> self.curr_x == 0)
    }

    /// The image walked over.
    pub closed spec fn image(&self) -> Image {
        *self.image
    }

    /// How many pixels have been handed out so far.
    pub closed spec fn position(&self) -> nat {
        pixel_index(self.image.spec_width(), self.curr_x as nat, self.curr_y as nat)
    }

    /// The next pixel as its column, row and color, or `None` once every pixel has
    /// been handed out.
    pub fn next(&mut self) -> (item: Option<(usize, usize, Color)>)
        ensures
            final(self).image() == old(self).image(),
            final(self).image().wf(),
            ({
                let img = old(self).image();
                let w = img.spec_width();
                let pos = old(self).position();
                if pos < w * img.spec_height() {
                    &&& final(self).position() == pos + 1
                    &&& item == Some(
                        ((pos % w) as usize, (pos / w) as usize, Color::unpacked(img.pixels()[pos as int])),
                    )
                } else {
                    &&& final(self).position() == pos
                    &&& item is None
                }
            }),
    {
        proof {
            use_type_invariant(&*self);
        }
        let w = self.image.get_width();
        let h = self.image.get_height();
        if self.curr_y >= h || self.curr_x >= w {
            proof {
                lemma_past_last_pixel(w as nat, h as nat, self.curr_x as nat, self.curr_y as nat);
            }
            return None;
        }
        let x = self.curr_x;
        let y = self.curr_y;
        let color = self.image.read_color(x, y);
        proof {
            lemma_index_in_grid(w as nat, h as nat, x as nat, y as nat);
            lemma_row_major(w as nat, x as nat, y as nat);
        }
        if x + 1 == w {
            self.curr_x = 0;
            self.curr_y = y + 1;
        } else {
            self.curr_x = x + 1;
        }
        Some((x, y, color))
    }
}

/// A cursor that stands on no pixel of the grid has walked every pixel.
proof fn lemma_past_last_pixel(width: nat, height: nat, x: nat, y: nat)
    requires
        y <= height,
        x < width || x == 0,
        y == height ==> x == 0,
        y >= height || x >= width,
    ensures
        pixel_index(width, x, y) >= width * height,
{
    if width == 0 {
        assert(width * height == 0);
    } else {
        assert(y * width == width * height) by (nonlinear_arith)
            requires
                y == height,
        ;
    }
}

} // verus!
