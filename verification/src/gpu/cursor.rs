//! The 12x20 arrow cursor, drawn with save-under: drawing keeps the pixels
//! it covers, erasing at the same position puts them back.
use vstd::prelude::*;
use crate::gpu::framebuffer::{in_rect, on_screen, pix, Framebuffer, HEIGHT, WIDTH};

verus! {

pub const CURSOR_W: usize = 12;
pub const CURSOR_H: usize = 20;
pub const CURSOR_PIXELS: usize = 240;
pub const WHITE: u32 = 0xFFFF_FFFF;

/// The arrow's rows, one bit per pixel, most significant bit first.
pub open spec fn arrow_row(row: int) -> u16 {
    if row == 0 {
        0x8000
    } else if row == 1 {
        0xC000
    } else if row == 2 {
        0xE000
    } else if row == 3 {
        0xF000
    } else if row == 4 {
        0xF800
    } else if row == 5 {
        0xFC00
    } else if row == 6 {
        0xFE00
    } else if row == 7 {
        0xFF00
    } else if row == 8 {
        0xFF80
    } else if row == 9 {
        0xFFC0
    } else if row == 10 {
        0xFFE0
    } else if row == 11 {
        0xFE00
    } else if row == 12 {
        0xEE00
    } else if row == 13 {
        0xC700
    } else if row == 14 {
        0x8700
    } else if row == 15 || row == 16 {
        0x0380
    } else if row == 17 {
        0x0180
    } else {
        0x0000
    }
}

fn arrow(row: usize) -> (bits: u16)
    ensures
        bits == arrow_row(row as int),
{
    if row == 0 {
        0x8000
    } else if row == 1 {
        0xC000
    } else if row == 2 {
        0xE000
    } else if row == 3 {
        0xF000
    } else if row == 4 {
        0xF800
    } else if row == 5 {
        0xFC00
    } else if row == 6 {
        0xFE00
    } else if row == 7 {
        0xFF00
    } else if row == 8 {
        0xFF80
    } else if row == 9 {
        0xFFC0
    } else if row == 10 {
        0xFFE0
    } else if row == 11 {
        0xFE00
    } else if row == 12 {
        0xEE00
    } else if row == 13 {
        0xC700
    } else if row == 14 {
        0x8700
    } else if row == 15 || row == 16 {
        0x0380
    } else if row == 17 {
        0x0180
    } else {
        0x0000
    }
}

/// Whether the arrow paints pixel `(col, row)` of its box.
pub open spec fn arrow_bit(col: int, row: int) -> bool {
    (arrow_row(row) >> ((15 - col) as u16)) & 1u16 == 1u16
}

/// `(px, py)` is covered by the cursor box at `(x, y)`.
pub open spec fn in_box(px: int, py: int, x: int, y: int) -> bool {
    in_rect(px, py, x, y, CURSOR_W as int, CURSOR_H as int)
}

/// Drawing the cursor at `(x, y)` took screen `a` to `b` and save buffer
/// `s` to `t`: every covered on-screen pixel was saved, the arrow's pixels
/// turned white, nothing else changed.
pub open spec fn drawn(a: Seq<u32>, b: Seq<u32>, s: Seq<u32>, t: Seq<u32>, x: int, y: int) -> bool {
    &&& b.len() == a.len()
    &&& t.len() == s.len()
    &&& forall|px: int, py: int|
        on_screen(px, py) ==> #[trigger] pix(b, px, py) == if in_box(px, py, x, y) && arrow_bit(
            px - x,
            py - y,
        ) {
            WHITE
        } else {
            pix(a, px, py)
        }
    &&& forall|col: int, row: int|
        0 <= col < CURSOR_W && 0 <= row < CURSOR_H ==> #[trigger] t[row * CURSOR_W + col] == if on_screen(
            x + col,
            y + row,
        ) {
            pix(a, x + col, y + row)
        } else {
            s[row * CURSOR_W + col]
        }
}

/// Erasing the cursor at `(x, y)` with save buffer `s` took screen `a` to
/// `b`: every covered on-screen pixel got its saved value back.
pub open spec fn erased(a: Seq<u32>, b: Seq<u32>, s: Seq<u32>, x: int, y: int) -> bool {
    &&& b.len() == a.len()
    &&& forall|px: int, py: int|
        on_screen(px, py) ==> #[trigger] pix(b, px, py) == if in_box(px, py, x, y) {
            s[(py - y) * CURSOR_W + (px - x)]
        } else {
            pix(a, px, py)
        }
}

/// The cursor's save-under buffer.
pub struct Cursor {
    saved: Vec<u32>,
}

impl Cursor {
    pub closed spec fn saved_v(&self) -> Seq<u32> {
        self.saved@
    }

    pub open spec fn wf(&self) -> bool {
        self.saved_v().len() == CURSOR_PIXELS
    }

    pub fn new() -> (c: Self)
        ensures
            c.wf(),
    {
        Cursor { saved: vec![0u32; CURSOR_PIXELS] }
    }

    /// Saves the covered pixels, then paints the arrow at `(x, y)`.
    pub fn draw_cursor(&mut self, fb: &mut Framebuffer, x: i32, y: i32)
        requires
            old(self).wf(),
            old(fb).wf(),
            x + CURSOR_W <= i32::MAX,
            y + CURSOR_H <= i32::MAX,
        ensures
            final(self).wf(),
            final(fb).wf(),
            drawn(old(fb)@, final(fb)@, old(self).saved_v(), final(self).saved_v(), x as int, y as int),
    {
        let mut row: usize = 0;
        while row < CURSOR_H
            invariant
                self.wf(),
                fb.wf(),
                x + CURSOR_W <= i32::MAX,
                y + CURSOR_H <= i32::MAX,
                row <= CURSOR_H,
                forall|px: int, py: int|
                    on_screen(px, py) ==> #[trigger] pix(fb@, px, py) == if in_rect(
                        px,
                        py,
                        x as int,
                        y as int,
                        CURSOR_W as int,
                        row as int,
                    ) && arrow_bit(px - x, py - y) {
                        WHITE
                    } else {
                        pix(old(fb)@, px, py)
                    },
                forall|col: int, r: int|
                    0 <= col < CURSOR_W && 0 <= r < CURSOR_H ==> #[trigger] self.saved_v()[r * CURSOR_W + col]
                        == if r < row && on_screen(x + col, y + r) {
                        pix(old(fb)@, x + col, y + r)
                    } else {
                        old(self).saved_v()[r * CURSOR_W + col]
                    },
            decreases CURSOR_H - row,
        {
            let bits = arrow(row);
            let mut col: usize = 0;
            while col < CURSOR_W
                invariant
                    self.wf(),
                    fb.wf(),
                    x + CURSOR_W <= i32::MAX,
                    y + CURSOR_H <= i32::MAX,
                    row < CURSOR_H,
                    col <= CURSOR_W,
                    bits == arrow_row(row as int),
                    forall|px: int, py: int|
                        on_screen(px, py) ==> #[trigger] pix(fb@, px, py) == if (in_rect(
                            px,
                            py,
                            x as int,
                            y as int,
                            CURSOR_W as int,
                            row as int,
                        ) || in_rect(px, py, x as int, y + row, col as int, 1)) && arrow_bit(
                            px - x,
                            py - y,
                        ) {
                            WHITE
                        } else {
                            pix(old(fb)@, px, py)
                        },
                    forall|c: int, r: int|
                        0 <= c < CURSOR_W && 0 <= r < CURSOR_H ==> #[trigger] self.saved_v()[r * CURSOR_W
                            + c] == if (r < row || (r == row && c < col)) && on_screen(x + c, y + r) {
                            pix(old(fb)@, x + c, y + r)
                        } else {
                            old(self).saved_v()[r * CURSOR_W + c]
                        },
                decreases CURSOR_W - col,
            {
                let px = x + col as i32;
                let py = y + row as i32;
                if px >= 0 && px < WIDTH as i32 && py >= 0 && py < HEIGHT as i32 {
                    let ppx = px as usize;
                    let ppy = py as usize;
                    let under = fb.pixel(ppx, ppy);
                    let ghost sv = self.saved@;
                    self.saved.set(row * CURSOR_W + col, under);
                    assert forall|c: int, r: int| 0 <= c < CURSOR_W && 0 <= r < CURSOR_H implies #[trigger] self.saved_v()[r
                        * CURSOR_W + c] == if (r < row || (r == row && c < col + 1)) && on_screen(
                        x + c,
                        y + r,
                    ) {
                        pix(old(fb)@, x + c, y + r)
                    } else {
                        old(self).saved_v()[r * CURSOR_W + c]
                    } by {
                        if !(r == row && c == col) {
                            assert(r * CURSOR_W + c != row * CURSOR_W + col);
                            assert(self.saved_v()[r * CURSOR_W + c] == sv[r * CURSOR_W + c]);
                        }
                    }
                    let lit = (bits >> ((15 - col) as u16)) & 1u16 == 1u16;
                    let ghost prev = fb@;
                    if lit {
                        fb.put_pixel(ppx, ppy, WHITE);
                    }
                    assert forall|a: int, b: int| on_screen(a, b) implies #[trigger] pix(fb@, a, b) == if (in_rect(
                        a,
                        b,
                        x as int,
                        y as int,
                        CURSOR_W as int,
                        row as int,
                    ) || in_rect(a, b, x as int, y + row, col + 1, 1)) && arrow_bit(a - x, b - y) {
                        WHITE
                    } else {
                        pix(old(fb)@, a, b)
                    } by {
                        if !(a == ppx && b == ppy) {
                            assert(pix(fb@, a, b) == pix(prev, a, b));
                        }
                    }
                } else {
                    assert forall|c: int, r: int| 0 <= c < CURSOR_W && 0 <= r < CURSOR_H implies #[trigger] self.saved_v()[r
                        * CURSOR_W + c] == if (r < row || (r == row && c < col + 1)) && on_screen(
                        x + c,
                        y + r,
                    ) {
                        pix(old(fb)@, x + c, y + r)
                    } else {
                        old(self).saved_v()[r * CURSOR_W + c]
                    } by {}
                }
                col = col + 1;
            }
            row = row + 1;
        }
    }

    /// Puts back the pixels saved by the last `draw_cursor` at `(x, y)`.
    pub fn erase_cursor(&self, fb: &mut Framebuffer, x: i32, y: i32)
        requires
            self.wf(),
            old(fb).wf(),
            x + CURSOR_W <= i32::MAX,
            y + CURSOR_H <= i32::MAX,
        ensures
            final(fb).wf(),
            erased(old(fb)@, final(fb)@, self.saved_v(), x as int, y as int),
    {
        let mut row: usize = 0;
        while row < CURSOR_H
            invariant
                self.wf(),
                fb.wf(),
                x + CURSOR_W <= i32::MAX,
                y + CURSOR_H <= i32::MAX,
                row <= CURSOR_H,
                forall|px: int, py: int|
                    on_screen(px, py) ==> #[trigger] pix(fb@, px, py) == if in_rect(
                        px,
                        py,
                        x as int,
                        y as int,
                        CURSOR_W as int,
                        row as int,
                    ) {
                        self.saved_v()[(py - y) * CURSOR_W + (px - x)]
                    } else {
                        pix(old(fb)@, px, py)
                    },
            decreases CURSOR_H - row,
        {
            let mut col: usize = 0;
            while col < CURSOR_W
                invariant
                    self.wf(),
                    fb.wf(),
                    x + CURSOR_W <= i32::MAX,
                    y + CURSOR_H <= i32::MAX,
                    row < CURSOR_H,
                    col <= CURSOR_W,
                    forall|px: int, py: int|
                        on_screen(px, py) ==> #[trigger] pix(fb@, px, py) == if in_rect(
                            px,
                            py,
                            x as int,
                            y as int,
                            CURSOR_W as int,
                            row as int,
                        ) || in_rect(px, py, x as int, y + row, col as int, 1) {
                            self.saved_v()[(py - y) * CURSOR_W + (px - x)]
                        } else {
                            pix(old(fb)@, px, py)
                        },
                decreases CURSOR_W - col,
            {
                let px = x + col as i32;
                let py = y + row as i32;
                if px >= 0 && px < WIDTH as i32 && py >= 0 && py < HEIGHT as i32 {
                    let ppx = px as usize;
                    let ppy = py as usize;
                    let v = self.saved[row * CURSOR_W + col];
                    let ghost prev = fb@;
                    fb.put_pixel(ppx, ppy, v);
                    assert forall|a: int, b: int| on_screen(a, b) implies #[trigger] pix(fb@, a, b) == if in_rect(
                        a,
                        b,
                        x as int,
                        y as int,
                        CURSOR_W as int,
                        row as int,
                    ) || in_rect(a, b, x as int, y + row, col + 1, 1) {
                        self.saved_v()[(b - y) * CURSOR_W + (a - x)]
                    } else {
                        pix(old(fb)@, a, b)
                    } by {
                        if !(a == ppx && b == ppy) {
                            assert(pix(fb@, a, b) == pix(prev, a, b));
                        }
                    }
                }
                col = col + 1;
            }
            row = row + 1;
        }
    }
}

/// Erasing the cursor where it was drawn restores the screen pixel for
/// pixel.
pub proof fn lemma_erase_undoes_draw(
    a: Seq<u32>,
    b: Seq<u32>,
    c: Seq<u32>,
    s: Seq<u32>,
    t: Seq<u32>,
    x: int,
    y: int,
)
    requires
        drawn(a, b, s, t, x, y),
        erased(b, c, t, x, y),
    ensures
        c.len() == a.len(),
        forall|px: int, py: int| on_screen(px, py) ==> #[trigger] pix(c, px, py) == pix(a, px, py),
{
    assert forall|px: int, py: int| on_screen(px, py) implies #[trigger] pix(c, px, py) == pix(a, px, py) by {
        assert(pix(b, px, py) == pix(b, px, py));
        if in_box(px, py, x, y) {
            let col = px - x;
            let row = py - y;
            assert(t[row * CURSOR_W + col] == pix(a, x + col, y + row));
        }
    }
}

} // verus!
