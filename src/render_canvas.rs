//! A software RGBA canvas and the conversion of its pixels into the
//! little-endian ARGB8888 byte layout of a shared-memory buffer.

use vstd::prelude::*;

verus! {

/// One RGBA pixel.
#[derive(Clone, Copy, Debug, PartialEq, Eq, Structural)]
pub struct Color {
    pub r: u8,
    pub g: u8,
    pub b: u8,
    pub a: u8,
}

/// The 32-bit ARGB word of a color: alpha in the top byte, blue in the lowest.
pub open spec fn argb_word(c: Color) -> int {
    c.a * 0x100_0000 + c.r * 0x1_0000 + c.g * 0x100 + c.b
}

/// The four bytes of `argb_word(c)` in little-endian order.
pub open spec fn argb_le_bytes(c: Color) -> Seq<u8> {
    seq![c.b, c.g, c.r, c.a]
}

impl Color {
    pub fn new(r: u8, g: u8, b: u8, a: u8) -> (c: Self)
        ensures
            c == (Color { r, g, b, a }),
    {
        Self { r, g, b, a }
    }

    /// A grey of the given intensity.
    pub fn new_mono(mono: u8, a: u8) -> (c: Self)
        ensures
            c == (Color { r: mono, g: mono, b: mono, a }),
    {
        Self { r: mono, g: mono, b: mono, a }
    }

    pub fn from_tuple(tuple: (u8, u8, u8), a: u8) -> (c: Self)
        ensures
            c == (Color { r: tuple.0, g: tuple.1, b: tuple.2, a }),
    {
        Self::new(tuple.0, tuple.1, tuple.2, a)
    }

    /// The color as the signed 32-bit word of an ARGB8888 buffer (the bit
    /// pattern of `argb_word`).
    pub fn get_wayland_color(self) -> (w: i32)
        ensures
            w == (if argb_word(self) < 0x8000_0000 {
                argb_word(self)
            } else {
                argb_word(self) - 0x1_0000_0000
            }),
    {
        let word: u32 = (self.a as u32) * 0x100_0000 + (self.r as u32) * 0x1_0000 + (self.g as u32)
            * 0x100 + (self.b as u32);
        if word < 0x8000_0000 {
            word as i32
        } else {
            ((word - 0x8000_0000) as i32) + i32::MIN
        }
    }
}

/// A `width` x `height` grid of pixels stored row by row.
pub struct RenderCanvas {
    pixels: Vec<Color>,
    width: u32,
    height: u32,
}

/// Index arithmetic of the row-major layout: distinct in-range coordinates
/// land on distinct, in-range slots.
proof fn lemma_slot_injective(w: int, h: int, px: int, py: int, qx: int, qy: int)
    requires
        0 <= px < w,
        0 <= qx < w,
        0 <= py < h,
        0 <= qy < h,
    ensures
        0 <= px + w * py < w * h,
        (px + w * py == qx + w * qy) ==> (px == qx && py == qy),
{
    assert(w * py + w <= w * h) by (nonlinear_arith)
        requires
            0 <= py < h,
            0 < w,
    ;
    if py < qy {
        assert(w * py + w <= w * qy) by (nonlinear_arith)
            requires
                py < qy,
                0 < w,
        ;
    } else if qy < py {
        assert(w * qy + w <= w * py) by (nonlinear_arith)
            requires
                qy < py,
                0 < w,
        ;
    }
}

impl RenderCanvas {
    pub closed spec fn spec_width(&self) -> nat {
        self.width as nat
    }

    pub closed spec fn spec_height(&self) -> nat {
        self.height as nat
    }

    /// The pixels, row by row.
    pub closed spec fn spec_pixels(&self) -> Seq<Color> {
        self.pixels@
    }

    /// One slot per pixel, and the slot count fits in 32 bits.
    pub open spec fn wf(&self) -> bool {
        &&& self.spec_pixels().len() == self.spec_width() * self.spec_height()
        &&& self.spec_width() * self.spec_height() <= u32::MAX
    }

    pub open spec fn pixel_at(&self, x: int, y: int) -> Color {
        self.spec_pixels()[x + self.spec_width() * y]
    }

    pub open spec fn in_bounds(&self, x: int, y: int) -> bool {
        0 <= x < self.spec_width() && 0 <= y < self.spec_height()
    }

    /// A canvas of the given size filled with opaque black.
    pub fn new(width: u32, height: u32) -> (c: Self)
        requires
            width * height <= u32::MAX,
        ensures
            c.wf(),
            c.spec_width() == width,
            c.spec_height() == height,
            forall|i: int|
                0 <= i < c.spec_pixels().len() ==> #[trigger] c.spec_pixels()[i] == (Color {
                    r: 0,
                    g: 0,
                    b: 0,
                    a: 255,
                }),
    {
        let pixels = Self::filled(Color::new(0, 0, 0, 255), width * height);
        Self { pixels, width, height }
    }

    fn filled(color: Color, n: u32) -> (v: Vec<Color>)
        ensures
            v@ == Seq::new(n as nat, |i: int| color),
    {
        let mut v: Vec<Color> = Vec::new();
        let mut i: u32 = 0;
        while i < n
            invariant
                i <= n,
                v@ == Seq::new(i as nat, |k: int| color),
            decreases n - i,
        {
            v.push(color);
            i = i + 1;
        }
        v
    }

    fn index_from_pixel(&self, x: u32, y: u32) -> (i: usize)
        requires
            self.wf(),
            x < self.spec_width(),
            y < self.spec_height(),
        ensures
            i == x + self.spec_width() * y,
            i < self.spec_pixels().len(),
    {
        proof {
            lemma_slot_injective(self.width as int, self.height as int, x as int, y as int, 0, 0);
        }
        (x + self.width * y) as usize
    }

    /// Paints one pixel; coordinates outside the canvas are ignored.
    pub fn set_pixel(&mut self, x: u32, y: u32, color: Color)
        requires
            old(self).wf(),
        ensures
            final(self).wf(),
            final(self).spec_width() == old(self).spec_width(),
            final(self).spec_height() == old(self).spec_height(),
            old(self).in_bounds(x as int, y as int) ==> final(self).spec_pixels()
                == old(self).spec_pixels().update(x + old(self).spec_width() * y, color),
            !old(self).in_bounds(x as int, y as int) ==> final(self).spec_pixels()
                == old(self).spec_pixels(),
    {
        if x >= self.width || y >= self.height {
            return ;
        }
        let index = self.index_from_pixel(x, y);
        self.pixels.set(index, color);
    }

    /// Fills the rectangle with corner `(x, y)` and size `w` x `h`; the part
    /// that falls outside the canvas is clipped.
    pub fn draw_box(&mut self, x: u32, y: u32, w: u32, h: u32, color: Color)
        requires
            old(self).wf(),
            x + w <= u32::MAX,
            y + h <= u32::MAX,
        ensures
            final(self).wf(),
            final(self).spec_width() == old(self).spec_width(),
            final(self).spec_height() == old(self).spec_height(),
            forall|px: int, py: int|
                #![trigger final(self).pixel_at(px, py)]
                old(self).in_bounds(px, py) ==> final(self).pixel_at(px, py) == if x <= px < x + w
                    && y <= py < y + h {
                    color
                } else {
                    old(self).pixel_at(px, py)
                },
    {
        let ghost start = *self;
        let mut box_x: u32 = x;
        while box_x < x + w
            invariant
                self.wf(),
                start.wf(),
                self.spec_width() == start.spec_width(),
                self.spec_height() == start.spec_height(),
                x <= box_x <= x + w,
                x + w <= u32::MAX,
                y + h <= u32::MAX,
                forall|px: int, py: int|
                    #![trigger self.pixel_at(px, py)]
                    start.in_bounds(px, py) ==> self.pixel_at(px, py) == if x <= px < box_x && y
                        <= py < y + h {
                        color
                    } else {
                        start.pixel_at(px, py)
                    },
            decreases x + w - box_x,
        {
            let mut box_y: u32 = y;
            while box_y < y + h
                invariant
                    self.wf(),
                    start.wf(),
                    self.spec_width() == start.spec_width(),
                    self.spec_height() == start.spec_height(),
                    x <= box_x < x + w,
                    y <= box_y <= y + h,
                    y + h <= u32::MAX,
                    forall|px: int, py: int|
                        #![trigger self.pixel_at(px, py)]
                        start.in_bounds(px, py) ==> self.pixel_at(px, py) == if (x <= px < box_x
                            && y <= py < y + h) || (px == box_x && y <= py < box_y) {
                            color
                        } else {
                            start.pixel_at(px, py)
                        },
                decreases y + h - box_y,
            {
                let ghost before = *self;
                self.set_pixel(box_x, box_y, color);
                proof {
                    let wd = self.spec_width() as int;
                    let ht = self.spec_height() as int;
                    assert forall|px: int, py: int|
                        #![trigger self.pixel_at(px, py)]
                        start.in_bounds(px, py) implies self.pixel_at(px, py) == if (x <= px
                            < box_x && y <= py < y + h) || (px == box_x && y <= py < box_y + 1) {
                            color
                        } else {
                            start.pixel_at(px, py)
                        } by {
                        assert(before.pixel_at(px, py) == if (x <= px < box_x && y <= py < y + h)
                            || (px == box_x && y <= py < box_y) {
                            color
                        } else {
                            start.pixel_at(px, py)
                        });
                        if before.in_bounds(box_x as int, box_y as int) {
                            lemma_slot_injective(wd, ht, px, py, box_x as int, box_y as int);
                            lemma_slot_injective(wd, ht, box_x as int, box_y as int, px, py);
                            assert(self.pixel_at(px, py) == if px == box_x && py == box_y {
                                color
                            } else {
                                before.pixel_at(px, py)
                            });
                        } else {
                            assert(self.spec_pixels() == before.spec_pixels());
                        }
                    }
                }
                box_y = box_y + 1;
            }
            box_x = box_x + 1;
        }
    }

    /// Paints every pixel with `color`.
    pub fn wipe(&mut self, color: Color)
        requires
            old(self).wf(),
        ensures
            final(self).wf(),
            final(self).spec_width() == old(self).spec_width(),
            final(self).spec_height() == old(self).spec_height(),
            forall|i: int|
                0 <= i < final(self).spec_pixels().len() ==> #[trigger] final(self).spec_pixels()[i]
                    == color,
    {
        self.pixels = Self::filled(color, self.width * self.height);
    }

    /// Writes the pixels into an ARGB8888 buffer, four little-endian bytes per
    /// pixel, in row-major order; trailing bytes that do not make a whole
    /// pixel are left as they are.
    pub fn fill_wayland_canvas(&self, canvas: &mut [u8])
        requires
            self.wf(),
            old(canvas)@.len() / 4 <= self.spec_pixels().len(),
        ensures
            final(canvas)@.len() == old(canvas)@.len(),
            forall|k: int|
                0 <= k < 4 * (old(canvas)@.len() / 4) ==> #[trigger] final(canvas)@[k]
                    == argb_le_bytes(self.spec_pixels()[k / 4])[k % 4],
            forall|k: int|
                4 * (old(canvas)@.len() / 4) <= k < old(canvas)@.len()
                    ==> #[trigger] final(canvas)@[k] == old(canvas)@[k],
    {
        let total: usize = canvas.len();
        let chunks: usize = total / 4;
        let width_usize: usize = self.width as usize;
        let mut index: usize = 0;
        assert(4 * chunks <= canvas@.len());
        while index < chunks
            invariant
                self.wf(),
                4 * chunks <= canvas@.len(),
                total == canvas@.len(),
                chunks == old(canvas)@.len() / 4,
                chunks <= self.spec_pixels().len(),
                width_usize == self.spec_width(),
                index <= chunks,
                canvas@.len() == old(canvas)@.len(),
                forall|k: int|
                    0 <= k < 4 * index ==> #[trigger] canvas@[k] == argb_le_bytes(
                        self.spec_pixels()[k / 4],
                    )[k % 4],
                forall|k: int|
                    4 * index <= k < canvas@.len() ==> #[trigger] canvas@[k] == old(canvas)@[k],
            decreases chunks - index,
        {
            proof {
                let wd = self.spec_width() as int;
                let ht = self.spec_height() as int;
                assert(wd > 0) by (nonlinear_arith)
                    requires
                        index < chunks <= wd * ht,
                        ht >= 0,
                        wd >= 0,
                ;
                vstd::arithmetic::div_mod::lemma_fundamental_div_mod(index as int, wd);
                assert(index as int / wd < ht) by (nonlinear_arith)
                    requires
                        index as int == wd * (index as int / wd) + index as int % wd,
                        0 <= index as int % wd,
                        index < wd * ht,
                        wd > 0,
                ;
                assert(index as int / wd >= 0) by (nonlinear_arith)
                    requires
                        index >= 0,
                        wd > 0,
                ;
            }
            let x = (index % width_usize) as u32;
            let y = (index / width_usize) as u32;
            let pixel_index: usize = self.index_from_pixel(x, y);
            let bytes = self.pixels[pixel_index];
            assert(pixel_index == index);
            canvas[4 * index] = bytes.b;
            canvas[4 * index + 1] = bytes.g;
            canvas[4 * index + 2] = bytes.r;
            canvas[4 * index + 3] = bytes.a;
            index = index + 1;
        }
    }

    pub fn width(&self) -> (w: u32)
        ensures
            w == self.spec_width(),
    {
        self.width
    }

    pub fn height(&self) -> (h: u32)
        ensures
            h == self.spec_height(),
    {
        self.height
    }

    /// The pixel at `(x, y)`, where that lies on the canvas.
    pub fn pixel(&self, x: u32, y: u32) -> (c: Option<Color>)
        requires
            self.wf(),
        ensures
            self.in_bounds(x as int, y as int) ==> c == Some(self.pixel_at(x as int, y as int)),
            !self.in_bounds(x as int, y as int) ==> c.is_none(),
    {
        if x >= self.width || y >= self.height {
            return None;
        }
        let index = self.index_from_pixel(x, y);
        Some(self.pixels[index])
    }
} // impl RenderCanvas

/// Something that paints itself onto a canvas.
pub trait CanvasRenderable {
    fn draw(&mut self, canvas: &mut RenderCanvas);
}

} // verus!
