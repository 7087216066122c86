//! Display lists. The desktop's render functions describe a frame as a list
//! of drawing operations; the rasterizer (framebuffer primitives, fonts and
//! bitmaps) turns the list into pixels.
use vstd::prelude::*;

verus! {

/// Glyph size of a text operation.
#[derive(Clone, Copy, PartialEq, Eq, Debug, Structural)]
pub enum TextSize {
    /// The 8-pixel font.
    Small,
    /// The 8x16 font.
    Large,
    /// The 8-pixel font at twice the size.
    Double,
}

/// One drawing operation.
#[derive(Clone, Copy)]
pub enum DrawOp<'a> {
    /// A filled rectangle.
    Rect { x: u32, y: u32, w: u32, h: u32, color: u32 },
    /// A horizontal line.
    HLine { x: u32, y: u32, len: u32, color: u32 },
    /// A vertical line.
    VLine { x: u32, y: u32, len: u32, color: u32 },
    /// A one-pixel rectangle frame.
    Border { x: u32, y: u32, w: u32, h: u32, color: u32 },
    /// A filled rectangle with rounded corners of radius `r`.
    RoundedRect { x: u32, y: u32, w: u32, h: u32, r: u32, color: u32 },
    /// A rounded one-pixel frame.
    RoundedBorder { x: u32, y: u32, w: u32, h: u32, r: u32, color: u32 },
    /// `fg` blended over a rectangle at opacity `alpha` of 255.
    Blend { x: u32, y: u32, w: u32, h: u32, fg: u32, alpha: u8 },
    /// Text, cut off at column `clip` when there is one.
    Text { x: u32, y: u32, text: &'a str, color: u32, size: TextSize, clip: Option<u32> },
    /// The part of `text` from byte `from` on, cut off at column `clip`.
    TextTail { x: u32, y: u32, text: &'a str, from: usize, color: u32, clip_x: u32 },
    /// The UTF-8 text `bytes[from..to]`.
    Slice { x: u32, y: u32, bytes: &'a [u8], from: usize, to: usize, color: u32, size: TextSize, clip: Option<u32> },
    /// A file name (the first `name_len` bytes, or `?` when they are not
    /// UTF-8), cut off at column `clip_x`.
    FileName { x: u32, y: u32, file_name: [u8; 32], name_len: usize, color: u32, clip_x: u32 },
    /// A process name (the first `name_len` bytes, or `?` when they are
    /// not UTF-8), cut off at column `clip_x`.
    ProcName { x: u32, y: u32, proc_name: [u8; 16], name_len: usize, color: u32, clip_x: u32 },
    /// The first `upto` bytes of `bytes`, raw, in the 8-pixel font.
    Bytes { x: u32, y: u32, bytes: &'a [u8], upto: usize, color: u32 },
    /// Up to four characters computed at draw time (digits, units).
    Short { x: u32, y: u32, chars: (u8, u8, u8, u8), count: u8, color: u32 },
    /// One character in the 8-pixel font.
    Char { x: u32, y: u32, ch: u8, color: u32 },
    /// A 32-bit value in hexadecimal.
    Hex32 { x: u32, y: u32, value: u32, color: u32 },
    /// Dock icon `id` (0 AIEONYX, 1 globe, 2 terminal, 3 folder, 4 disk,
    /// 5 gear, 6 antenna).
    Icon { id: u8, x: u32, y: u32 },
    /// The pixel logo.
    Logo { x: u32, y: u32 },
    /// The AIEONYX brand logo.
    BrandLogo { x: u32, y: u32 },
    /// The desktop backdrop gradient over columns 188..=1092.
    Backdrop,
}

/// A display list under construction.
pub struct Canvas<'a> {
    pub ops: Vec<DrawOp<'a>>,
}

impl<'a> Canvas<'a> {
    pub open spec fn view(&self) -> Seq<DrawOp<'a>> {
        self.ops@
    }

    pub fn new() -> (c: Self)
        ensures
            c@ == Seq::<DrawOp<'a>>::empty(),
    {
        Canvas { ops: Vec::new() }
    }

    /// Appends one operation.
    pub fn op(&mut self, op: DrawOp<'a>)
        ensures
            final(self)@ == old(self)@.push(op),
    {
        self.ops.push(op);
    }

    pub fn rect(&mut self, x: u32, y: u32, w: u32, h: u32, color: u32)
        ensures
            final(self)@ == old(self)@.push(DrawOp::Rect { x, y, w, h, color }),
    {
        self.ops.push(DrawOp::Rect { x, y, w, h, color });
    }

    pub fn hline(&mut self, x: u32, y: u32, len: u32, color: u32)
        ensures
            final(self)@ == old(self)@.push(DrawOp::HLine { x, y, len, color }),
    {
        self.ops.push(DrawOp::HLine { x, y, len, color });
    }

    pub fn vline(&mut self, x: u32, y: u32, len: u32, color: u32)
        ensures
            final(self)@ == old(self)@.push(DrawOp::VLine { x, y, len, color }),
    {
        self.ops.push(DrawOp::VLine { x, y, len, color });
    }

    pub fn border(&mut self, x: u32, y: u32, w: u32, h: u32, color: u32)
        ensures
            final(self)@ == old(self)@.push(DrawOp::Border { x, y, w, h, color }),
    {
        self.ops.push(DrawOp::Border { x, y, w, h, color });
    }

    pub fn rounded(&mut self, x: u32, y: u32, w: u32, h: u32, r: u32, color: u32)
        ensures
            final(self)@ == old(self)@.push(DrawOp::RoundedRect { x, y, w, h, r, color }),
    {
        self.ops.push(DrawOp::RoundedRect { x, y, w, h, r, color });
    }

    pub fn rounded_border(&mut self, x: u32, y: u32, w: u32, h: u32, r: u32, color: u32)
        ensures
            final(self)@ == old(self)@.push(DrawOp::RoundedBorder { x, y, w, h, r, color }),
    {
        self.ops.push(DrawOp::RoundedBorder { x, y, w, h, r, color });
    }

    pub fn blend(&mut self, x: u32, y: u32, w: u32, h: u32, fg: u32, alpha: u8)
        ensures
            final(self)@ == old(self)@.push(DrawOp::Blend { x, y, w, h, fg, alpha }),
    {
        self.ops.push(DrawOp::Blend { x, y, w, h, fg, alpha });
    }

    /// Text in the 8-pixel font.
    pub fn text(&mut self, x: u32, y: u32, text: &'a str, color: u32)
        ensures
            final(self)@ == old(self)@.push(DrawOp::Text { x, y, text, color, size: TextSize::Small, clip: None }),
    {
        self.ops.push(DrawOp::Text { x, y, text, color, size: TextSize::Small, clip: None });
    }

    /// Text in the 8-pixel font, cut off at column `clip`.
    pub fn text_clipped(&mut self, x: u32, y: u32, text: &'a str, color: u32, clip: u32)
        ensures
            final(self)@ == old(self)@.push(
                DrawOp::Text { x, y, text, color, size: TextSize::Small, clip: Some(clip) },
            ),
    {
        self.ops.push(DrawOp::Text { x, y, text, color, size: TextSize::Small, clip: Some(clip) });
    }

    /// Text in the 8x16 font.
    pub fn text16(&mut self, x: u32, y: u32, text: &'a str, color: u32)
        ensures
            final(self)@ == old(self)@.push(DrawOp::Text { x, y, text, color, size: TextSize::Large, clip: None }),
    {
        self.ops.push(DrawOp::Text { x, y, text, color, size: TextSize::Large, clip: None });
    }

    /// Text in the 8x16 font, cut off at column `clip`.
    pub fn text16_clipped(&mut self, x: u32, y: u32, text: &'a str, color: u32, clip: u32)
        ensures
            final(self)@ == old(self)@.push(
                DrawOp::Text { x, y, text, color, size: TextSize::Large, clip: Some(clip) },
            ),
    {
        self.ops.push(DrawOp::Text { x, y, text, color, size: TextSize::Large, clip: Some(clip) });
    }

    pub fn short(&mut self, x: u32, y: u32, chars: (u8, u8, u8, u8), count: u8, color: u32)
        ensures
            final(self)@ == old(self)@.push(DrawOp::Short { x, y, chars, count, color }),
    {
        self.ops.push(DrawOp::Short { x, y, chars, count, color });
    }

    pub fn hex32(&mut self, x: u32, y: u32, value: u32, color: u32)
        ensures
            final(self)@ == old(self)@.push(DrawOp::Hex32 { x, y, value, color }),
    {
        self.ops.push(DrawOp::Hex32 { x, y, value, color });
    }
}


/// The dock and panel icons: 0 AIEONYX, 1 globe, 2 terminal, 3 folder,
/// 4 disk, 5 gear, 6 antenna. Any other index draws nothing.
pub const ICON_COUNT: u8 = 7;
pub const ICON_W: u32 = 32;
pub const ICON_H: u32 = 32;

/// Draws icon `idx` with its top-left corner at `(x, y)`.
pub fn blit_icon<'a>(c: &mut Canvas<'a>, idx: u8, x: u32, y: u32)
    ensures
        idx < ICON_COUNT ==> final(c)@ == old(c)@.push(DrawOp::Icon { id: idx, x, y }),
        idx >= ICON_COUNT ==> final(c)@ == old(c)@,
{
    if idx < ICON_COUNT {
        c.op(DrawOp::Icon { id: idx, x, y });
    }
}

} // verus!
