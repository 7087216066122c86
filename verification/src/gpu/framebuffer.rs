//! The 1280x720 ARGB framebuffer.
use vstd::prelude::*;

verus! {

pub const WIDTH: usize = 1280;
pub const HEIGHT: usize = 720;
pub const FB_PIXELS: usize = 921_600;

/// Pixel `(px, py)` of a row-major screen image.
pub open spec fn pix(s: Seq<u32>, px: int, py: int) -> u32 {
    s[py * WIDTH + px]
}

pub open spec fn on_screen(px: int, py: int) -> bool {
    0 <= px < WIDTH && 0 <= py < HEIGHT
}

/// `(px, py)` lies in the rectangle at `(x, y)` of size `w` by `h`.
pub open spec fn in_rect(px: int, py: int, x: int, y: int, w: int, h: int) -> bool {
    x <= px < x + w && y <= py < y + h
}

/// `b` is `a` with the on-screen part of the rectangle painted `color`.
pub open spec fn filled(a: Seq<u32>, b: Seq<u32>, x: int, y: int, w: int, h: int, color: u32) -> bool {
    &&& b.len() == a.len()
    &&& forall|px: int, py: int|
        on_screen(px, py) ==> #[trigger] pix(b, px, py) == if in_rect(px, py, x, y, w, h) {
            color
        } else {
            pix(a, px, py)
        }
}

/// The framebuffer's bytes: width x height pixels of 4 bytes.
pub fn fb_size() -> (n: u32)
    ensures
        n == WIDTH * HEIGHT * 4,
{
    3_686_400
}

/// The screen image.
pub struct Framebuffer {
    pixels: Vec<u32>,
}

impl Framebuffer {
    pub closed spec fn view(&self) -> Seq<u32> {
        self.pixels@
    }

    pub open spec fn wf(&self) -> bool {
        self@.len() == FB_PIXELS
    }

    /// A black screen.
    pub fn new() -> (fb: Self)
        ensures
            fb.wf(),
            forall|px: int, py: int| on_screen(px, py) ==> #[trigger] pix(fb@, px, py) == 0,
    {
        let fb = Framebuffer { pixels: vec![0u32; FB_PIXELS] };
        assert forall|px: int, py: int| on_screen(px, py) implies #[trigger] pix(fb@, px, py) == 0 by {
            assert(0 <= py * WIDTH + px < FB_PIXELS);
        }
        fb
    }

    /// Pixel `(px, py)`.
    pub fn pixel(&self, px: usize, py: usize) -> (c: u32)
        requires
            self.wf(),
            px < WIDTH,
            py < HEIGHT,
        ensures
            c == pix(self@, px as int, py as int),
    {
        self.pixels[py * WIDTH + px]
    }

    pub fn put_pixel(&mut self, px: usize, py: usize, c: u32)
        requires
            old(self).wf(),
            px < WIDTH,
            py < HEIGHT,
        ensures
            final(self).wf(),
            pix(final(self)@, px as int, py as int) == c,
            forall|a: int, b: int|
                on_screen(a, b) && !(a == px && b == py) ==> #[trigger] pix(final(self)@, a, b) == pix(
                    old(self)@,
                    a,
                    b,
                ),
    {
        self.pixels.set(py * WIDTH + px, c);
        assert forall|a: int, b: int|
            on_screen(a, b) && !(a == px && b == py) implies #[trigger] pix(self@, a, b) == pix(
            old(self)@,
            a,
            b,
        ) by {
            assert(b * WIDTH + a != py * WIDTH + px);
        }
    }

    /// Paints the whole screen `color`.
    pub fn fill(&mut self, color: u32)
        requires
            old(self).wf(),
        ensures
            final(self).wf(),
            forall|px: int, py: int| on_screen(px, py) ==> #[trigger] pix(final(self)@, px, py) == color,
    {
        self.fill_rect(0, 0, WIDTH as u32, HEIGHT as u32, color);
    }

    /// Paints the on-screen part of a rectangle `color`.
    pub fn fill_rect(&mut self, x: u32, y: u32, w: u32, h: u32, color: u32)
        requires
            old(self).wf(),
            x + w <= 0x1_0000_0000,
            y + h <= 0x1_0000_0000,
        ensures
            final(self).wf(),
            filled(old(self)@, final(self)@, x as int, y as int, w as int, h as int, color),
    {
        if x as usize >= WIDTH || y as usize >= HEIGHT {
            return;
        }
        let x0 = x as usize;
        let y0 = y as usize;
        let xe: usize = if (w as usize) > WIDTH - x0 { WIDTH } else { x0 + w as usize };
        let ye: usize = if (h as usize) > HEIGHT - y0 { HEIGHT } else { y0 + h as usize };
        let mut row = y0;
        while row < ye
            invariant
                self.wf(),
                x0 == x,
                y0 == y,
                x0 <= xe <= WIDTH,
                y0 <= row <= ye <= HEIGHT,
                xe == if x + w > WIDTH { WIDTH as int } else { x + w },
                ye == if y + h > HEIGHT { HEIGHT as int } else { y + h },
                forall|px: int, py: int|
                    on_screen(px, py) ==> #[trigger] pix(self@, px, py) == if y0 <= py < row && x0 <= px < xe {
                        color
                    } else {
                        pix(old(self)@, px, py)
                    },
            decreases ye - row,
        {
            let mut col = x0;
            while col < xe
                invariant
                    self.wf(),
                    x0 <= col <= xe <= WIDTH,
                    y0 <= row < ye <= HEIGHT,
                    forall|px: int, py: int|
                        on_screen(px, py) ==> #[trigger] pix(self@, px, py) == if (y0 <= py < row && x0
                            <= px < xe) || (py == row && x0 <= px < col) {
                            color
                        } else {
                            pix(old(self)@, px, py)
                        },
                decreases xe - col,
            {
                let ghost prev = self@;
                self.put_pixel(col, row, color);
                assert forall|px: int, py: int| on_screen(px, py) implies #[trigger] pix(self@, px, py)
                    == if (y0 <= py < row && x0 <= px < xe) || (py == row && x0 <= px < col + 1) {
                    color
                } else {
                    pix(old(self)@, px, py)
                } by {
                    if !(px == col && py == row) {
                        assert(pix(self@, px, py) == pix(prev, px, py));
                    }
                }
                col = col + 1;
            }
            row = row + 1;
        }
    }
}

} // verus!
