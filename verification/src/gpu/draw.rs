//! Drawing primitives over the framebuffer: rectangles, lines, borders and
//! alpha-blended rectangles. Everything is clipped to the screen.
use vstd::prelude::*;
use crate::gpu::framebuffer::{filled, in_rect, on_screen, pix, Framebuffer, HEIGHT, WIDTH};

verus! {

/// A filled rectangle.
pub fn draw_rect(fb: &mut Framebuffer, x: u32, y: u32, w: u32, h: u32, color: u32)
    requires
        old(fb).wf(),
        x + w <= 0x1_0000_0000,
        y + h <= 0x1_0000_0000,
    ensures
        final(fb).wf(),
        filled(old(fb)@, final(fb)@, x as int, y as int, w as int, h as int, color),
{
    fb.fill_rect(x, y, w, h, color);
}

/// A horizontal line of `len` pixels starting at `(x, y)`.
pub fn draw_hline(fb: &mut Framebuffer, x: u32, y: u32, len: u32, color: u32)
    requires
        old(fb).wf(),
    ensures
        final(fb).wf(),
        filled(old(fb)@, final(fb)@, x as int, y as int, len as int, 1, color),
{
    if y as usize >= HEIGHT {
        return;
    }
    let room: u32 = if x >= WIDTH as u32 { 0 } else { WIDTH as u32 - x };
    let n = if len < room { len } else { room };
    fb.fill_rect(x, y, n, 1, color);
}

/// A vertical line of `len` pixels starting at `(x, y)`.
pub fn draw_vline(fb: &mut Framebuffer, x: u32, y: u32, len: u32, color: u32)
    requires
        old(fb).wf(),
    ensures
        final(fb).wf(),
        filled(old(fb)@, final(fb)@, x as int, y as int, 1, len as int, color),
{
    if x as usize >= WIDTH {
        return;
    }
    let room: u32 = if y >= HEIGHT as u32 { 0 } else { HEIGHT as u32 - y };
    let n = if len < room { len } else { room };
    fb.fill_rect(x, y, 1, n, color);
}

/// On the one-pixel frame of the rectangle: its top row, bottom row, left
/// column or right column.
pub open spec fn on_border(px: int, py: int, x: int, y: int, w: int, h: int) -> bool {
    let bottom = if h > 0 { y + h - 1 } else { y };
    let right = if w > 0 { x + w - 1 } else { x };
    ||| in_rect(px, py, x, y, w, 1)
    ||| in_rect(px, py, x, bottom, w, 1)
    ||| in_rect(px, py, x, y, 1, h)
    ||| in_rect(px, py, right, y, 1, h)
}

/// The one-pixel frame of a rectangle.
pub fn draw_border(fb: &mut Framebuffer, x: u32, y: u32, w: u32, h: u32, color: u32)
    requires
        old(fb).wf(),
        x + w <= 0x1_0000_0000,
        y + h <= 0x1_0000_0000,
    ensures
        final(fb).wf(),
        forall|px: int, py: int|
            on_screen(px, py) ==> #[trigger] pix(final(fb)@, px, py) == if on_border(
                px,
                py,
                x as int,
                y as int,
                w as int,
                h as int,
            ) {
                color
            } else {
                pix(old(fb)@, px, py)
            },
{
    let hb = if h > 0 { h - 1 } else { 0 };
    let wb = if w > 0 { w - 1 } else { 0 };
    let ghost s0 = fb@;
    draw_hline(fb, x, y, w, color);
    let ghost s1 = fb@;
    draw_hline(fb, x, y + hb, w, color);
    let ghost s2 = fb@;
    draw_vline(fb, x, y, h, color);
    let ghost s3 = fb@;
    draw_vline(fb, x + wb, y, h, color);
    assert forall|px: int, py: int| on_screen(px, py) implies #[trigger] pix(fb@, px, py) == if on_border(
        px,
        py,
        x as int,
        y as int,
        w as int,
        h as int,
    ) {
        color
    } else {
        pix(s0, px, py)
    } by {
        assert(pix(s1, px, py) == pix(s1, px, py));
        assert(pix(s2, px, py) == pix(s2, px, py));
        assert(pix(s3, px, py) == pix(s3, px, py));
    }
}

/// Red, green and blue channels of a colour.
pub open spec fn red(c: u32) -> int {
    (c as int / 0x1_0000) % 0x100
}

pub open spec fn green(c: u32) -> int {
    (c as int / 0x100) % 0x100
}

pub open spec fn blue(c: u32) -> int {
    c as int % 0x100
}

/// One channel of `f` over `b` at opacity `a` of 255.
pub open spec fn mix(f: int, b: int, a: int) -> int {
    (f * a + b * (255 - a)) / 255
}

/// `fg` over `bg` at opacity `alpha` of 255, channel by channel; the alpha
/// byte of the result is 0.
pub open spec fn blend(fg: u32, bg: u32, alpha: u8) -> u32 {
    (mix(red(fg), red(bg), alpha as int) * 0x1_0000 + mix(green(fg), green(bg), alpha as int) * 0x100 + mix(
        blue(fg),
        blue(bg),
        alpha as int,
    )) as u32
}

proof fn lemma_mix_byte(f: int, b: int, a: int)
    requires
        0 <= f < 256,
        0 <= b < 256,
        0 <= a <= 255,
    ensures
        0 <= mix(f, b, a) < 256,
{
    assert(0 <= f * a + b * (255 - a) <= 255 * 255) by (nonlinear_arith)
        requires
            0 <= f < 256,
            0 <= b < 256,
            0 <= a <= 255,
    ;
}

fn blend_pixel(fg: u32, bg: u32, alpha: u8) -> (c: u32)
    ensures
        c == blend(fg, bg, alpha),
{
    let a = alpha as u32;
    let fr = (fg >> 16u32) & 0xFF;
    let fgg = (fg >> 8u32) & 0xFF;
    let fb = fg & 0xFF;
    let br = (bg >> 16u32) & 0xFF;
    let bgg = (bg >> 8u32) & 0xFF;
    let bb = bg & 0xFF;
    assert(fr == (fg / 0x1_0000) % 0x100 && fgg == (fg / 0x100) % 0x100 && fb == fg % 0x100) by (bit_vector)
        requires
            fr == (fg >> 16u32) & 0xFF,
            fgg == (fg >> 8u32) & 0xFF,
            fb == fg & 0xFF,
    ;
    assert(br == (bg / 0x1_0000) % 0x100 && bgg == (bg / 0x100) % 0x100 && bb == bg % 0x100) by (bit_vector)
        requires
            br == (bg >> 16u32) & 0xFF,
            bgg == (bg >> 8u32) & 0xFF,
            bb == bg & 0xFF,
    ;
    assert(fr * a <= 255 * 255 && br * (255 - a) <= 255 * 255) by (nonlinear_arith)
        requires
            fr <= 255,
            br <= 255,
            a <= 255,
    ;
    assert(fgg * a <= 255 * 255 && bgg * (255 - a) <= 255 * 255) by (nonlinear_arith)
        requires
            fgg <= 255,
            bgg <= 255,
            a <= 255,
    ;
    assert(fb * a <= 255 * 255 && bb * (255 - a) <= 255 * 255) by (nonlinear_arith)
        requires
            fb <= 255,
            bb <= 255,
            a <= 255,
    ;
    let r = (fr * a + br * (255 - a)) / 255;
    let g = (fgg * a + bgg * (255 - a)) / 255;
    let b = (fb * a + bb * (255 - a)) / 255;
    proof {
        lemma_mix_byte(fr as int, br as int, a as int);
        lemma_mix_byte(fgg as int, bgg as int, a as int);
        lemma_mix_byte(fb as int, bb as int, a as int);
    }
    let c = (r << 16u32) | (g << 8u32) | b;
    assert(c == r * 0x1_0000 + g * 0x100 + b) by (bit_vector)
        requires
            c == (r << 16u32) | (g << 8u32) | b,
            r < 256,
            g < 256,
            b < 256,
    ;
    c
}

/// Blends `fg` at opacity `alpha` over the on-screen part of a rectangle.
pub fn blend_rect(fb: &mut Framebuffer, x: u32, y: u32, w: u32, h: u32, fg: u32, alpha: u8)
    requires
        old(fb).wf(),
    ensures
        final(fb).wf(),
        forall|px: int, py: int|
            on_screen(px, py) ==> #[trigger] pix(final(fb)@, px, py) == if in_rect(
                px,
                py,
                x as int,
                y as int,
                w as int,
                h as int,
            ) {
                blend(fg, pix(old(fb)@, px, py), alpha)
            } else {
                pix(old(fb)@, px, py)
            },
{
    let fx = x as usize;
    let fy = y as usize;
    let room_x: usize = if fx >= WIDTH { 0 } else { WIDTH - fx };
    let room_y: usize = if fy >= HEIGHT { 0 } else { HEIGHT - fy };
    let fw: usize = if (w as usize) < room_x { w as usize } else { room_x };
    let fh: usize = if (h as usize) < room_y { h as usize } else { room_y };
    let mut row: usize = 0;
    while row < fh
        invariant
            fb.wf(),
            fx == x,
            fy == y,
            fw <= w,
            fh <= h,
            fw == 0 || fx + fw <= WIDTH,
            fh == 0 || fy + fh <= HEIGHT,
            fw == w || fx + fw >= WIDTH,
            fh == h || fy + fh >= HEIGHT,
            row <= fh,
            forall|px: int, py: int|
                on_screen(px, py) ==> #[trigger] pix(fb@, px, py) == if fy <= py < fy + row && fx <= px
                    < fx + fw {
                    blend(fg, pix(old(fb)@, px, py), alpha)
                } else {
                    pix(old(fb)@, px, py)
                },
        decreases fh - row,
    {
        let mut col: usize = 0;
        while col < fw
            invariant
                fb.wf(),
                fw == 0 || fx + fw <= WIDTH,
                fh == 0 || fy + fh <= HEIGHT,
                row < fh,
                col <= fw,
                forall|px: int, py: int|
                    on_screen(px, py) ==> #[trigger] pix(fb@, px, py) == if (fy <= py < fy + row && fx <= px
                        < fx + fw) || (py == fy + row && fx <= px < fx + col) {
                        blend(fg, pix(old(fb)@, px, py), alpha)
                    } else {
                        pix(old(fb)@, px, py)
                    },
            decreases fw - col,
        {
            let px = fx + col;
            let py = fy + row;
            let bg = fb.pixel(px, py);
            let c = blend_pixel(fg, bg, alpha);
            let ghost prev = fb@;
            fb.put_pixel(px, py, c);
            assert forall|a: int, b: int| on_screen(a, b) implies #[trigger] pix(fb@, a, b) == if (fy <= b
                < fy + row && fx <= a < fx + fw) || (b == fy + row && fx <= a < fx + col + 1) {
                blend(fg, pix(old(fb)@, a, b), alpha)
            } else {
                pix(old(fb)@, a, b)
            } by {
                if !(a == px && b == py) {
                    assert(pix(fb@, a, b) == pix(prev, a, b));
                } else {
                    assert(pix(prev, a, b) == pix(old(fb)@, a, b));
                }
            }
            col = col + 1;
        }
        row = row + 1;
    }
}


// ── Desktop backdrop ──────────────────────────────────────────────────────────

/// The first and last columns the backdrop gradient covers.
pub const BACKDROP_X0: usize = 188;
pub const BACKDROP_X1: usize = 1092;

/// The backdrop colour at `(bx, by)`: a deep midnight blue that lightens
/// towards the bottom, with a warm glow towards the centre column; each
/// channel is capped.
pub open spec fn backdrop_color(bx: int, by: int) -> u32 {
    let ty = by * 255 / 720;
    let r_base = 7 + ty / 60;
    let g_base = 14 + ty / 80;
    let b_base = 26 + ty / 30;
    let tx = if bx < 640 { bx * 255 / 640 } else { (1280 - bx) * 255 / 640 };
    let warm = tx / 28;
    let r = if r_base + warm / 2 < 0x1A { r_base + warm / 2 } else { 0x1A };
    let g = if g_base + warm / 6 < 0x16 { g_base + warm / 6 } else { 0x16 };
    let bs = if b_base >= warm / 4 { b_base - warm / 4 } else { 0 };
    let b = if bs < 0x2A { bs } else { 0x2A };
    (r * 0x1_0000 + g * 0x100 + b) as u32
}

fn backdrop_pixel(bx: u32, by: u32) -> (c: u32)
    requires
        bx <= 1280,
        by < 720,
    ensures
        c == backdrop_color(bx as int, by as int),
{
    let ty = by * 255 / 720;
    let r_base = 7 + ty / 60;
    let g_base = 14 + ty / 80;
    let b_base = 26 + ty / 30;
    let tx = if bx < 640 { bx * 255 / 640 } else { (1280 - bx) * 255 / 640 };
    let warm = tx / 28;
    let r = if r_base + warm / 2 < 0x1A { r_base + warm / 2 } else { 0x1A };
    let g = if g_base + warm / 6 < 0x16 { g_base + warm / 6 } else { 0x16 };
    let bs = if b_base >= warm / 4 { b_base - warm / 4 } else { 0 };
    let b = if bs < 0x2A { bs } else { 0x2A };
    r * 0x1_0000 + g * 0x100 + b
}

/// Paints the backdrop gradient over columns `BACKDROP_X0..=BACKDROP_X1` of
/// every row; the rest of the screen is left as it was.
pub fn paint_backdrop(fb: &mut Framebuffer)
    requires
        old(fb).wf(),
    ensures
        final(fb).wf(),
        forall|px: int, py: int|
            on_screen(px, py) ==> #[trigger] pix(final(fb)@, px, py) == if BACKDROP_X0 <= px <= BACKDROP_X1 {
                backdrop_color(px, py)
            } else {
                pix(old(fb)@, px, py)
            },
{
    let mut row: usize = 0;
    while row < HEIGHT
        invariant
            fb.wf(),
            row <= HEIGHT,
            forall|px: int, py: int|
                on_screen(px, py) ==> #[trigger] pix(fb@, px, py) == if py < row && BACKDROP_X0 <= px
                    <= BACKDROP_X1 {
                    backdrop_color(px, py)
                } else {
                    pix(old(fb)@, px, py)
                },
        decreases HEIGHT - row,
    {
        let mut col: usize = BACKDROP_X0;
        while col <= BACKDROP_X1
            invariant
                fb.wf(),
                row < HEIGHT,
                BACKDROP_X0 <= col <= BACKDROP_X1 + 1,
                forall|px: int, py: int|
                    on_screen(px, py) ==> #[trigger] pix(fb@, px, py) == if (py < row && BACKDROP_X0 <= px
                        <= BACKDROP_X1) || (py == row && BACKDROP_X0 <= px < col) {
                        backdrop_color(px, py)
                    } else {
                        pix(old(fb)@, px, py)
                    },
            decreases BACKDROP_X1 + 1 - col,
        {
            let ghost prev = fb@;
            let c = backdrop_pixel(col as u32, row as u32);
            fb.put_pixel(col, row, c);
            assert forall|px: int, py: int| on_screen(px, py) implies #[trigger] pix(fb@, px, py) == if (py
                < row && BACKDROP_X0 <= px <= BACKDROP_X1) || (py == row && BACKDROP_X0 <= px < col + 1) {
                backdrop_color(px, py)
            } else {
                pix(old(fb)@, px, py)
            } by {
                if !(px == col && py == row) {
                    assert(pix(fb@, px, py) == pix(prev, px, py));
                }
            }
            col = col + 1;
        }
        row = row + 1;
    }
}

} // verus!
