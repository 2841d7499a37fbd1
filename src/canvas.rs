use vstd::prelude::*;

use crate::color::Color;
use crate::grid::{
    lemma_index_in_grid, lemma_index_injective, lemma_next_row, lemma_row_major, pixel_index,
};

verus! {

/// `c` is stored at `offset` in the display byte order: blue, green, red, alpha.
pub open spec fn holds_pixel(bytes: Seq<u8>, offset: int, c: Color) -> bool {
    &&& bytes[offset] == c.b
    &&& bytes[offset + 1] == c.g
    &&& bytes[offset + 2] == c.r
    &&& bytes[offset + 3] == c.a
}

/// The color drawn where a ray hits nothing: opaque black.
pub open spec fn background() -> Color {
    Color { r: 0, g: 0, b: 0, a: 255 }
}

/// The color a pixel shows for a shading result: the shaded color on a hit, the
/// background on a miss.
pub open spec fn shown(shade: Option<Color>) -> Color {
    match shade {
        Some(c) => c,
        None => background(),
    }
}

/// The color drawn where a ray hits nothing.
pub fn background_color() -> (c: Color)
    ensures
        c == background(),
{
    Color::new(0, 0, 0)
}

/// The frame a scene is rendered into: width by height pixels of four bytes each,
/// row by row with the top row first, each pixel stored as blue, green, red, alpha.
pub struct PixelBuffer {
    width: usize,
    height: usize,
    data: Vec<u8>,
}

/// Pixel `i` of the frame was rendered: its color is one that `shade` may give for its
/// column and row, and the bytes hold what that result shows.
spec fn pixel_rendered<F: Fn(usize, usize) -> Option<Color>>(
    shade: F,
    bytes: Seq<u8>,
    shades: Seq<Option<Color>>,
    width: nat,
    i: int,
) -> bool {
    &&& shade.ensures(((i % width as int) as usize, (i / width as int) as usize), shades[i])
    &&& holds_pixel(bytes, 4 * i, shown(shades[i]))
}

impl PixelBuffer {
    /// Well-formed: four bytes for each pixel.
    pub open spec fn wf(&self) -> bool {
        self.bytes().len() == self.spec_width() * self.spec_height() * 4
    }

    pub closed spec fn spec_width(&self) -> nat {
        self.width as nat
    }

    pub closed spec fn spec_height(&self) -> nat {
        self.height as nat
    }

    /// The frame's bytes in memory order.
    pub closed spec fn bytes(&self) -> Seq<u8> {
        self.data@
    }

    /// The pixel at column `x`, row `y` holds `c`.
    pub open spec fn shows(&self, x: nat, y: nat, c: Color) -> bool {
        holds_pixel(self.bytes(), 4 * pixel_index(self.spec_width(), x, y) as int, c)
    }

    /// The pixel at column `x`, row `y` shows what `shade` may give there: a color it
    /// may return, or the background where it may report a miss.
    pub open spec fn shows_shading<F: Fn(usize, usize) -> Option<Color>>(
        &self,
        shade: F,
        x: usize,
        y: usize,
    ) -> bool {
        exists|c: Option<Color>|
            #![trigger shade.ensures((x, y), c)]
            shade.ensures((x, y), c) && self.shows(x as nat, y as nat, shown(c))
    }

    /// A frame of the given size with every byte zero.
    pub fn new(width: usize, height: usize) -> (buf: PixelBuffer)
        requires
            width * height * 4 <= usize::MAX,
        ensures
            buf.wf(),
            buf.spec_width() == width,
            buf.spec_height() == height,
            buf.bytes() == Seq::new((width * height * 4) as nat, |i: int| 0u8),
    {
        PixelBuffer { width, height, data: zeroed(width * height * 4) }
    }

    pub fn get_width(&self) -> (w: usize)
        ensures
            w == self.spec_width(),
    {
        self.width
    }

    pub fn get_height(&self) -> (h: usize)
        ensures
            h == self.spec_height(),
    {
        self.height
    }

    /// Gives the frame a new size, with every byte zero.
    pub fn resize(&mut self, width: usize, height: usize)
        requires
            width * height * 4 <= usize::MAX,
        ensures
            final(self).wf(),
            final(self).spec_width() == width,
            final(self).spec_height() == height,
            final(self).bytes() == Seq::new((width * height * 4) as nat, |i: int| 0u8),
    {
        self.width = width;
        self.height = height;
        self.data = zeroed(width * height * 4);
    }

    /// The frame's bytes, for handing to a display.
    pub fn as_bytes(&self) -> (b: &[u8])
        ensures
            b@ == self.bytes(),
    {
        self.data.as_slice()
    }

    /// Stores `color` at column `x`, row `y`, as blue, green, red, alpha.
    #[inline]
    pub fn write_pixel(&mut self, x: usize, y: usize, color: Color)
        requires
            old(self).wf(),
            x < old(self).spec_width(),
            y < old(self).spec_height(),
        ensures
            final(self).wf(),
            final(self).spec_width() == old(self).spec_width(),
            final(self).spec_height() == old(self).spec_height(),
            ({
                let o = 4 * pixel_index(old(self).spec_width(), x as nat, y as nat) as int;
                final(self).bytes() == old(self).bytes().update(o, color.b).update(
                    o + 1,
                    color.g,
                ).update(o + 2, color.r).update(o + 3, color.a)
            }),
            final(self).shows(x as nat, y as nat, color),
            forall|x2: nat, y2: nat, c: Color|
                x2 < old(self).spec_width() && y2 < old(self).spec_height() && (x2 != x || y2 != y)
                    ==> (#[trigger] final(self).shows(x2, y2, c) <==> old(self).shows(x2, y2, c)),
    {
        proof {
            lemma_index_in_grid(self.width as nat, self.height as nat, x as nat, y as nat);
        }
        let count = self.data.len();
        proof {
            assert(x + y * self.width < self.width * self.height);
            assert(4 * (x + y * self.width) < count);
        }
        self.put(x + y * self.width, color);
        proof {
            assert forall|x2: nat, y2: nat, c: Color|
                x2 < self.spec_width() && y2 < self.spec_height() && (x2 != x || y2 != y)
                    implies (#[trigger] self.shows(x2, y2, c) <==> old(self).shows(x2, y2, c)) by {
                lemma_index_injective(self.width as nat, x as nat, y as nat, x2, y2);
                lemma_index_in_grid(self.width as nat, self.height as nat, x2, y2);
            }
        }
    }

    fn put(&mut self, idx: usize, color: Color)
        requires
            old(self).wf(),
            4 * idx + 4 <= old(self).bytes().len(),
        ensures
            final(self).wf(),
            final(self).width == old(self).width,
            final(self).height == old(self).height,
            final(self).bytes() == old(self).bytes().update(4 * idx as int, color.b).update(
                4 * idx + 1,
                color.g,
            ).update(4 * idx + 2, color.r).update(4 * idx + 3, color.a),
    {
        let count = self.data.len();
        assert(4 * idx + 4 <= count);
        let o = idx * 4;
        self.data.set(o, color.b);
        self.data.set(o + 1, color.g);
        self.data.set(o + 2, color.r);
        self.data.set(o + 3, color.a);
    }

    /// Renders one frame: for each pixel, row by row from the top, asks `shade` for the
    /// color at that column and row, and stores it, or the background where `shade`
    /// reports a miss.
    pub fn render_frame<F: Fn(usize, usize) -> Option<Color>>(&mut self, shade: F)
        requires
            old(self).wf(),
            forall|x: usize, y: usize|
                x < old(self).spec_width() && y < old(self).spec_height() ==> #[trigger] shade.requires(
                    (x, y),
                ),
        ensures
            final(self).wf(),
            final(self).spec_width() == old(self).spec_width(),
            final(self).spec_height() == old(self).spec_height(),
            forall|x: usize, y: usize|
                x < final(self).spec_width() && y < final(self).spec_height()
                    ==> #[trigger] final(self).shows_shading(shade, x, y),
    {
        let w = self.width;
        let h = self.height;
        let count = self.data.len();
        let ghost shades: Seq<Option<Color>> = Seq::empty();
        let mut idx: usize = 0;
        let mut y: usize = 0;
        while y < h
            invariant
                self.wf(),
                self.width == w,
                self.height == h,
                y <= h,
                idx == y * w,
                w * h * 4 == count,
                count <= usize::MAX,
                shades.len() == idx,
                forall|px: usize, py: usize|
                    px < w && py < h ==> #[trigger] shade.requires((px, py)),
                forall|i: int|
                    0 <= i < idx ==> #[trigger] pixel_rendered(shade, self.data@, shades, w as nat, i),
            decreases h - y,
        {
            let mut x: usize = 0;
            while x < w
                invariant
                    self.wf(),
                    self.width == w,
                    self.height == h,
                    y < h,
                    x <= w,
                    idx == y * w + x,
                    w * h * 4 == count,
                    count <= usize::MAX,
                    shades.len() == idx,
                    forall|px: usize, py: usize|
                        px < w && py < h ==> #[trigger] shade.requires((px, py)),
                    forall|i: int|
                        0 <= i < idx ==> #[trigger] pixel_rendered(
                            shade,
                            self.data@,
                            shades,
                            w as nat,
                            i,
                        ),
                decreases w - x,
            {
                let c = shade(x, y);
                let color = match c {
                    Some(hit) => hit,
                    None => background_color(),
                };
                proof {
                    lemma_index_in_grid(w as nat, h as nat, x as nat, y as nat);
                    lemma_row_major(w as nat, x as nat, y as nat);
                }
                let ghost before = self.data@;
                let ghost old_shades = shades;
                self.put(idx, color);
                proof {
                    shades = shades.push(c);
                    assert forall|i: int| 0 <= i < idx + 1 implies #[trigger] pixel_rendered(
                        shade,
                        self.data@,
                        shades,
                        w as nat,
                        i,
                    ) by {
                        if i < idx {
                            assert(pixel_rendered(shade, before, old_shades, w as nat, i));
                        }
                    }
                }
                idx = idx + 1;
                x = x + 1;
            }
            proof {
                lemma_next_row(w as nat, y as nat);
            }
            y = y + 1;
        }
        proof {
            assert(idx == w * h) by (nonlinear_arith)
                requires
                    idx == y * w,
                    y == h,
            ;
            assert forall|x: usize, y: usize| x < w && y < h implies #[trigger] self.shows_shading(
                shade,
                x,
                y,
            ) by {
                let i = pixel_index(w as nat, x as nat, y as nat) as int;
                lemma_index_in_grid(w as nat, h as nat, x as nat, y as nat);
                lemma_row_major(w as nat, x as nat, y as nat);
                assert(pixel_rendered(shade, self.data@, shades, w as nat, i));
                assert(shade.ensures((x, y), shades[i]));
            }
        }
    }
}

/// `n` zero bytes.
fn zeroed(n: usize) -> (v: Vec<u8>)
    ensures
        v@ == Seq::new(n as nat, |i: int| 0u8),
{
    let mut v: Vec<u8> = Vec::new();
    while v.len() < n
        invariant
            v.len() <= n,
            forall|i: int| 0 <= i < v.len() ==> v@[i] == 0u8,
        decreases n - v.len(),
    {
        v.push(0);
    }
    assert(v@ == Seq::new(n as nat, |i: int| 0u8));
    v
}

} // verus!
