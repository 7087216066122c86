//! The painter: turns a display list into pixels, one operation after the
//! other, with the drawing primitives.
//!
//! Rectangles, lines, frames, blends and the backdrop are painted. A rounded
//! rectangle or frame is painted as the plain rectangle or frame of the same
//! size. Text, icons and logos need glyph and bitmap tables, which are not
//! part of this library: the painter leaves the screen unchanged for them.
use vstd::prelude::*;
use crate::gpu::draw::{
    backdrop_color, blend, blend_rect, draw_border, draw_hline, draw_rect, draw_vline, on_border,
    paint_backdrop, BACKDROP_X0, BACKDROP_X1,
};
use crate::gpu::framebuffer::{in_rect, on_screen, pix, Framebuffer, FB_PIXELS, HEIGHT, WIDTH};
use crate::gpu::render::{ember, progress_filled, progress_ops, splash_progress_ops};
use crate::gpu::scene::DrawOp;

verus! {

/// The colour of pixel `(px, py)` after `op` is painted over the image `s`.
pub open spec fn op_pixel(s: Seq<u32>, op: DrawOp, px: int, py: int) -> u32 {
    let old_c = pix(s, px, py);
    match op {
        DrawOp::Rect { x, y, w, h, color } => if in_rect(px, py, x as int, y as int, w as int, h as int) {
            color
        } else {
            old_c
        },
        DrawOp::RoundedRect { x, y, w, h, color, .. } => if in_rect(
            px,
            py,
            x as int,
            y as int,
            w as int,
            h as int,
        ) {
            color
        } else {
            old_c
        },
        DrawOp::HLine { x, y, len, color } => if in_rect(px, py, x as int, y as int, len as int, 1) {
            color
        } else {
            old_c
        },
        DrawOp::VLine { x, y, len, color } => if in_rect(px, py, x as int, y as int, 1, len as int) {
            color
        } else {
            old_c
        },
        DrawOp::Border { x, y, w, h, color } => if on_border(
            px,
            py,
            x as int,
            y as int,
            w as int,
            h as int,
        ) {
            color
        } else {
            old_c
        },
        DrawOp::RoundedBorder { x, y, w, h, color, .. } => if on_border(
            px,
            py,
            x as int,
            y as int,
            w as int,
            h as int,
        ) {
            color
        } else {
            old_c
        },
        DrawOp::Blend { x, y, w, h, fg, alpha } => if in_rect(
            px,
            py,
            x as int,
            y as int,
            w as int,
            h as int,
        ) {
            blend(fg, old_c, alpha)
        } else {
            old_c
        },
        DrawOp::Backdrop => if BACKDROP_X0 <= px <= BACKDROP_X1 {
            backdrop_color(px, py)
        } else {
            old_c
        },
        _ => old_c,
    }
}

/// The image `s` with `op` painted over it.
pub open spec fn paint_op(s: Seq<u32>, op: DrawOp) -> Seq<u32> {
    Seq::new(s.len(), |i: int| op_pixel(s, op, i % (WIDTH as int), i / (WIDTH as int)))
}

/// The image `s` with the operations of `ops` painted over it in order.
pub open spec fn paint_spec(s: Seq<u32>, ops: Seq<DrawOp>) -> Seq<u32>
    decreases ops.len(),
{
    if ops.len() == 0 {
        s
    } else {
        paint_op(paint_spec(s, ops.drop_last()), ops.last())
    }
}

/// A rectangle's right and bottom edges fit in 32 bits.
pub open spec fn op_fits(op: DrawOp) -> bool {
    match op {
        DrawOp::Rect { x, y, w, h, .. } => x + w <= 0x1_0000_0000 && y + h <= 0x1_0000_0000,
        DrawOp::RoundedRect { x, y, w, h, .. } => x + w <= 0x1_0000_0000 && y + h <= 0x1_0000_0000,
        DrawOp::Border { x, y, w, h, .. } => x + w <= 0x1_0000_0000 && y + h <= 0x1_0000_0000,
        DrawOp::RoundedBorder { x, y, w, h, .. } => x + w <= 0x1_0000_0000 && y + h <= 0x1_0000_0000,
        _ => true,
    }
}

/// Every operation of the list fits.
pub open spec fn list_fits(ops: Seq<DrawOp>) -> bool {
    forall|i: int| 0 <= i < ops.len() ==> op_fits(#[trigger] ops[i])
}

fn edge_fits(x: u32, w: u32) -> (r: bool)
    ensures
        r == (x + w <= 0x1_0000_0000),
{
    w <= u32::MAX - x || w - (u32::MAX - x) == 1
}

/// Whether the painter can take `op`: its rectangle's edges fit in 32 bits.
pub fn fits(op: &DrawOp) -> (r: bool)
    ensures
        r == op_fits(*op),
{
    match *op {
        DrawOp::Rect { x, y, w, h, .. } => edge_fits(x, w) && edge_fits(y, h),
        DrawOp::RoundedRect { x, y, w, h, .. } => edge_fits(x, w) && edge_fits(y, h),
        DrawOp::Border { x, y, w, h, .. } => edge_fits(x, w) && edge_fits(y, h),
        DrawOp::RoundedBorder { x, y, w, h, .. } => edge_fits(x, w) && edge_fits(y, h),
        _ => true,
    }
}

/// Whether the painter can take every operation of `ops`.
pub fn all_fit(ops: &[DrawOp]) -> (r: bool)
    ensures
        r == list_fits(ops@),
{
    let mut i: usize = 0;
    while i < ops.len()
        invariant
            i <= ops@.len(),
            forall|j: int| 0 <= j < i ==> op_fits(#[trigger] ops@[j]),
        decreases ops.len() - i,
    {
        if !fits(&ops[i]) {
            return false;
        }
        i = i + 1;
    }
    true
}

/// An image of the screen's size whose every on-screen pixel is `op_pixel`
/// of `a` is `paint_op(a, op)`.
proof fn lemma_image(a: Seq<u32>, b: Seq<u32>, op: DrawOp)
    requires
        a.len() == FB_PIXELS,
        b.len() == FB_PIXELS,
        forall|px: int, py: int| on_screen(px, py) ==> #[trigger] pix(b, px, py) == op_pixel(a, op, px, py),
    ensures
        b == paint_op(a, op),
{
    assert forall|i: int| 0 <= i < FB_PIXELS implies b[i] == paint_op(a, op)[i] by {
        let px = i % (WIDTH as int);
        let py = i / (WIDTH as int);
        vstd::arithmetic::div_mod::lemma_fundamental_div_mod(i, WIDTH as int);
        assert(0 <= py < HEIGHT) by (nonlinear_arith)
            requires
                py == i / 1280,
                0 <= i < 921_600,
        ;
        assert(0 <= px < WIDTH);
        assert(pix(b, px, py) == op_pixel(a, op, px, py));
    }
    assert(b =~= paint_op(a, op));
}

/// Paints one operation.
pub fn paint_one(fb: &mut Framebuffer, op: &DrawOp)
    requires
        old(fb).wf(),
        op_fits(*op),
    ensures
        final(fb).wf(),
        final(fb)@ == paint_op(old(fb)@, *op),
{
    match *op {
        DrawOp::Rect { x, y, w, h, color } => draw_rect(fb, x, y, w, h, color),
        DrawOp::RoundedRect { x, y, w, h, color, .. } => draw_rect(fb, x, y, w, h, color),
        DrawOp::HLine { x, y, len, color } => draw_hline(fb, x, y, len, color),
        DrawOp::VLine { x, y, len, color } => draw_vline(fb, x, y, len, color),
        DrawOp::Border { x, y, w, h, color } => draw_border(fb, x, y, w, h, color),
        DrawOp::RoundedBorder { x, y, w, h, color, .. } => draw_border(fb, x, y, w, h, color),
        DrawOp::Blend { x, y, w, h, fg, alpha } => blend_rect(fb, x, y, w, h, fg, alpha),
        DrawOp::Backdrop => paint_backdrop(fb),
        _ => {},
    }
    proof {
        lemma_image(old(fb)@, fb@, *op);
    }
}

/// Paints the operations of `ops` in order.
pub fn paint(fb: &mut Framebuffer, ops: &[DrawOp])
    requires
        old(fb).wf(),
        list_fits(ops@),
    ensures
        final(fb).wf(),
        final(fb)@ == paint_spec(old(fb)@, ops@),
{
    let mut i: usize = 0;
    while i < ops.len()
        invariant
            fb.wf(),
            i <= ops@.len(),
            list_fits(ops@),
            fb@ == paint_spec(old(fb)@, ops@.take(i as int)),
        decreases ops.len() - i,
    {
        paint_one(fb, &ops[i]);
        assert(ops@.take(i + 1).drop_last() =~= ops@.take(i as int));
        i = i + 1;
    }
    assert(ops@.take(ops@.len() as int) =~= ops@);
}

// ── Laws of painting ─────────────────────────────────────────────────────────

/// Pixel `(px, py)` of `paint_op(s, op)` is `op_pixel(s, op, px, py)`.
pub proof fn lemma_paint_op_pixel(s: Seq<u32>, op: DrawOp, px: int, py: int)
    requires
        s.len() == FB_PIXELS,
        on_screen(px, py),
    ensures
        pix(paint_op(s, op), px, py) == op_pixel(s, op, px, py),
{
    let i = py * WIDTH + px;
    assert(0 <= i < FB_PIXELS) by (nonlinear_arith)
        requires
            0 <= px < 1280,
            0 <= py < 720,
            i == py * 1280 + px,
    ;
    vstd::arithmetic::div_mod::lemma_fundamental_div_mod_converse(i, WIDTH as int, py, px);
}

/// Painting keeps the image's size.
pub proof fn lemma_paint_len(s: Seq<u32>, ops: Seq<DrawOp>)
    ensures
        paint_spec(s, ops).len() == s.len(),
    decreases ops.len(),
{
    if ops.len() > 0 {
        lemma_paint_len(s, ops.drop_last());
    }
}

/// Painting `a` and then `b` is painting `a + b`.
pub proof fn lemma_paint_concat(s: Seq<u32>, a: Seq<DrawOp>, b: Seq<DrawOp>)
    ensures
        paint_spec(s, a + b) == paint_spec(paint_spec(s, a), b),
    decreases b.len(),
{
    if b.len() == 0 {
        assert(a + b =~= a);
    } else {
        assert((a + b).drop_last() =~= a + b.drop_last());
        assert((a + b).last() == b.last());
        lemma_paint_concat(s, a, b.drop_last());
    }
}

/// The first `n` columns of the progress bar: rows 388 to 393 of the columns
/// from x = 440 take the ember gradient; every other pixel keeps its colour.
proof fn lemma_progress_columns(s: Seq<u32>, n: int)
    requires
        s.len() == FB_PIXELS,
        0 <= n <= 400,
    ensures
        paint_spec(s, progress_ops(n)).len() == FB_PIXELS,
        forall|px: int, py: int|
            on_screen(px, py) ==> #[trigger] pix(paint_spec(s, progress_ops(n)), px, py) == if 388 <= py
                < 394 && 440 <= px < 440 + n {
                ember(px - 440)
            } else {
                pix(s, px, py)
            },
    decreases n,
{
    if n <= 0 {
        assert(progress_ops(n) =~= Seq::<DrawOp>::empty());
    } else {
        lemma_progress_columns(s, n - 1);
        let ops = progress_ops(n);
        let op = DrawOp::VLine { x: (440 + n - 1) as u32, y: 388, len: 6, color: ember(n - 1) };
        assert(ops.drop_last() =~= progress_ops(n - 1));
        assert(ops.last() == op);
        let prev = paint_spec(s, progress_ops(n - 1));
        assert(paint_spec(s, ops) == paint_op(prev, op));
        assert forall|px: int, py: int| on_screen(px, py) implies #[trigger] pix(paint_spec(s, ops), px, py)
            == if 388 <= py < 394 && 440 <= px < 440 + n {
            ember(px - 440)
        } else {
            pix(s, px, py)
        } by {
            lemma_paint_op_pixel(prev, op, px, py);
            assert(pix(prev, px, py) == pix(prev, px, py));
        }
    }
}

/// Painting the splash's progress at boot stage `stage` over any screen: on
/// the bar's rows (388 to 393), the filled columns from x = 440 left of the
/// glow on the bar's tip take the ember gradient, and the columns left of
/// the bar or past its fill and glow keep their colour.
pub proof fn lemma_splash_progress_pixels(s: Seq<u32>, stage: u32, px: int, py: int)
    requires
        s.len() == FB_PIXELS,
        on_screen(px, py),
        388 <= py < 394,
    ensures
        440 <= px < 440 + progress_filled(stage) - 4 ==> pix(paint_spec(s, splash_progress_ops(stage)), px, py)
            == ember(px - 440),
        px < 440 || px >= 440 + progress_filled(stage) + 4 ==> pix(
            paint_spec(s, splash_progress_ops(stage)),
            px,
            py,
        ) == pix(s, px, py),
{
    let f = progress_filled(stage);
    assert(0 <= f <= 400) by (nonlinear_arith)
        requires
            f == 400 * (if stage < 6 { stage as int } else { 6 }) / 6,
    ;
    let all = splash_progress_ops(stage);
    let bar = progress_ops(f);
    let tail = all.skip(bar.len() as int);
    assert(all =~= bar + tail);
    lemma_paint_concat(s, bar, tail);
    lemma_progress_columns(s, f);
    let s1 = paint_spec(s, bar);
    assert(pix(s1, px, py) == pix(s1, px, py));
    let t1 = tail.take(1);
    let t2 = tail.take(2);
    assert(tail.len() == 2 || tail.len() == 3);
    assert(t1.drop_last() =~= Seq::<DrawOp>::empty());
    assert(t2.drop_last() =~= t1);
    let s2 = paint_op(s1, tail[0]);
    assert(paint_spec(s1, t1.drop_last()) == s1);
    assert(t1.last() == tail[0]);
    assert(paint_spec(s1, t1) == s2);
    lemma_paint_op_pixel(s1, tail[0], px, py);
    lemma_paint_len(s1, t1);
    let s3 = paint_op(s2, tail[1]);
    assert(t2.last() == tail[1]);
    assert(paint_spec(s1, t2) == s3);
    lemma_paint_op_pixel(s2, tail[1], px, py);
    if tail.len() == 2 {
        assert(tail =~= t2);
    } else {
        assert(tail.drop_last() =~= t2);
        lemma_paint_len(s1, t2);
        lemma_paint_op_pixel(s3, tail[2], px, py);
    }
}

} // verus!
