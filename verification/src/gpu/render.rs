//! The desktop's render functions. Each describes its part of the screen as
//! a display list appended to a canvas; the contracts give the list exactly.
use vstd::prelude::*;
use vstd::string::StringSliceAdditionalSpecFns;
use crate::gpu::desktop::{ACCENT_AMBER, ACCENT_TEAL, DARK_BG, DOCK_BG, DOCK_H, DOCK_W, DOCK_X, DOCK_Y, DesktopState, EdbEntry, FsEntry, GLASS_BORDER, GLASS_HI, GLASS_LOW, GLASS_MID, GLASS_PANEL, HANIEL_MAX_BODY, HANIEL_MAX_LINKS, HanielDoc, PANEL_BG, PANEL_BORDER, PANEL_W, PLUM_GLOW, ProcSlot, SHADOW, TEXT_DIM, TEXT_WHITE, TOP_BAR_H, WIN_BG, WIN_H, WIN_TITLE, WIN_W, WindowPos};
use crate::axon_interp::{i64_decimal, nat_digits};
use crate::gpu::scene::{Canvas, DrawOp, TextSize};

verus! {

/// Appending `a` then `b` appends `a + b`.
pub proof fn lemma_append<A>(s: Seq<A>, a: Seq<A>, b: Seq<A>)
    ensures
        (s + a) + b == s + (a + b),
{
    assert((s + a) + b =~= s + (a + b));
}

/// `a - b`, or 0 when `b > a`.
pub open spec fn sat_sub(a: u32, b: u32) -> u32 {
    if a >= b {
        (a - b) as u32
    } else {
        0
    }
}

/// The file browser's sidebar places: label and colour.
pub open spec fn nav_item(i: int) -> (&'static str, u32) {
    if i == 0 {
        ("Home", 0x888899)
    } else if i == 1 {
        ("Workspace", TEXT_WHITE)
    } else if i == 2 {
        ("Projects", 0x888899)
    } else if i == 3 {
        ("Documents", 0x888899)
    } else if i == 4 {
        ("Downloads", 0x888899)
    } else if i == 5 {
        ("Secure Vault", ACCENT_TEAL)
    } else if i == 6 {
        ("Shared", 0x888899)
    } else {
        ("Trash", 0x664444)
    }
}

fn nav_item_at(i: u32) -> (r: (&'static str, u32))
    requires
        i < 8,
    ensures
        r == nav_item(i as int),
{
    if i == 0 {
        ("Home", 0x888899)
    } else if i == 1 {
        ("Workspace", TEXT_WHITE)
    } else if i == 2 {
        ("Projects", 0x888899)
    } else if i == 3 {
        ("Documents", 0x888899)
    } else if i == 4 {
        ("Downloads", 0x888899)
    } else if i == 5 {
        ("Secure Vault", ACCENT_TEAL)
    } else if i == 6 {
        ("Shared", 0x888899)
    } else {
        ("Trash", 0x664444)
    }
}

/// One sidebar place, at row `i`.
pub open spec fn nav_item_ops<'a>(wx_u: u32, content_y: u32, i: int) -> Seq<DrawOp<'a>> {
    let ny = (content_y + 20 + i * 22) as u32;
    let label = nav_item(i).0;
    let col = nav_item(i).1;
    let dot: u32 = if i == 5 { ACCENT_TEAL } else if i == 7 { 0x664444 } else { 0x33334A };
    let hi: Seq<DrawOp<'a>> = if i == 1 {
        seq![
            DrawOp::Rect { x: (wx_u + 4) as u32, y: (ny - 2) as u32, w: 122, h: 18, color: 0x1A1A38 },
            DrawOp::Rect { x: (wx_u + 4) as u32, y: (ny - 2) as u32, w: 3, h: 18, color: PLUM_GLOW },
        ]
    } else {
        Seq::empty()
    };
    hi + seq![
        DrawOp::Rect { x: (wx_u + 10) as u32, y: (ny + 4) as u32, w: 6, h: 6, color: dot },
        DrawOp::Text { x: (wx_u + 22) as u32, y: (ny + 2) as u32, text: label, color: col, size: TextSize::Small, clip: Some((wx_u + 126) as u32) },
    ]
}

/// The first `n` sidebar places.
pub open spec fn nav_ops<'a>(wx_u: u32, content_y: u32, n: int) -> Seq<DrawOp<'a>>
    decreases n,
{
    if n <= 0 {
        Seq::empty()
    } else {
        nav_ops(wx_u, content_y, n - 1) + nav_item_ops(wx_u, content_y, n - 1)
    }
}

/// Disk use in percent.
pub open spec fn used_pct(disk_used: u32, disk_total: u32) -> u32 {
    if disk_total > 0 {
        (disk_used * 100 / (disk_total as int)) as u32
    } else {
        0
    }
}

/// A computed label whose first character is `lead`: drawn only when the
/// bytes are valid UTF-8, that is when `lead` is ASCII (the other characters
/// always are).
pub open spec fn short_if_ascii<'a>(x: u32, y: u32, chars: (u8, u8, u8, u8), count: u8, color: u32) -> Seq<DrawOp<'a>> {
    if chars.0 < 0x80 {
        seq![DrawOp::Short { x, y, chars, count, color }]
    } else {
        Seq::empty()
    }
}

/// The sidebar: places, storage gauge.
pub open spec fn fb_sidebar_ops<'a>(wx_u: u32, content_y: u32, content_h: u32, disk_used: u32, disk_total: u32) -> Seq<DrawOp<'a>> {
    let stor_y = (content_y + content_h - 44) as u32;
    let pct = used_pct(disk_used, disk_total);
    let bar = (114 * (if pct < 100 { pct as int } else { 100 }) / 100) as u32;
    seq![
        DrawOp::Rect { x: wx_u, y: content_y, w: 130, h: content_h, color: 0x07070F },
        DrawOp::VLine { x: (wx_u + 130) as u32, y: content_y, len: content_h, color: PANEL_BORDER },
        DrawOp::Text { x: (wx_u + 8) as u32, y: (content_y + 6) as u32, text: "FILES", color: 0x33334A, size: TextSize::Small, clip: None },
    ] + nav_ops(wx_u, content_y, 8) + seq![
        DrawOp::HLine { x: (wx_u + 6) as u32, y: (stor_y - 4) as u32, len: 118, color: PANEL_BORDER },
        DrawOp::Text { x: (wx_u + 8) as u32, y: stor_y, text: "Storage", color: 0x44446A, size: TextSize::Small, clip: None },
    ] + short_if_ascii(
        (wx_u + 102) as u32,
        stor_y,
        ((48 + (pct / 10) as u8) as u8, (48 + pct % 10) as u8, 37u8, 0u8),
        3,
        0x44446A,
    ) + seq![
        DrawOp::Rect { x: (wx_u + 8) as u32, y: (stor_y + 12) as u32, w: 114, h: 4, color: 0x22224A },
        DrawOp::Rect { x: (wx_u + 8) as u32, y: (stor_y + 12) as u32, w: bar, h: 4, color: PLUM_GLOW },
        DrawOp::Text { x: (wx_u + 8) as u32, y: (stor_y + 20) as u32, text: "AXFS local", color: 0x2A2A44, size: TextSize::Small, clip: None },
        DrawOp::Text { x: (wx_u + 8) as u32, y: (stor_y + 32) as u32, text: "Protected", color: 0x1A4A2A, size: TextSize::Small, clip: None },
    ]
}

fn fb_sidebar<'a>(c: &mut Canvas<'a>, wx_u: u32, content_y: u32, content_h: u32, disk_used: u32, disk_total: u32)
    requires
        wx_u + 130 <= u32::MAX,
        content_y + 240 <= u32::MAX,
        content_y + content_h >= 48,
        content_y + content_h <= u32::MAX,
        disk_total > 0 ==> disk_used * 100 <= u32::MAX,
        ((used_pct(disk_used, disk_total) / 10) as u8) <= 207,
    ensures
        final(c)@ == old(c)@ + fb_sidebar_ops(wx_u, content_y, content_h, disk_used, disk_total),
{
    let ghost start = c@;
    c.rect(wx_u, content_y, 130, content_h, 0x07070F);
    c.vline(wx_u + 130, content_y, content_h, PANEL_BORDER);
    c.text(wx_u + 8, content_y + 6, "FILES", 0x33334A);
    let ghost head = c@;
    let mut ni: u32 = 0;
    while ni < 8
        invariant
            ni <= 8,
            wx_u + 130 <= u32::MAX,
            content_y + 240 <= u32::MAX,
            c@ == head + nav_ops(wx_u, content_y, ni as int),
        decreases 8 - ni,
    {
        let ny = content_y + 20 + ni * 22;
        let (label, col) = nav_item_at(ni);
        if ni == 1 {
            c.rect(wx_u + 4, ny - 2, 122, 18, 0x1A1A38);
            c.rect(wx_u + 4, ny - 2, 3, 18, PLUM_GLOW);
        }
        let dot: u32 = if ni == 5 {
            ACCENT_TEAL
        } else if ni == 7 {
            0x664444
        } else {
            0x33334A
        };
        c.rect(wx_u + 10, ny + 4, 6, 6, dot);
        c.text_clipped(wx_u + 22, ny + 2, label, col, wx_u + 126);
        assert(c@ =~= head + nav_ops(wx_u, content_y, ni + 1));
        ni = ni + 1;
    }
    let stor_y = content_y + content_h - 44;
    c.hline(wx_u + 6, stor_y - 4, 118, PANEL_BORDER);
    c.text(wx_u + 8, stor_y, "Storage", 0x44446A);
    let pct: u32 = if disk_total > 0 {
        disk_used * 100 / disk_total
    } else {
        0
    };
    let d0 = (pct / 10) as u8;
    let c0 = 48u8 + d0;
    let c1 = 48u8 + (pct % 10) as u8;
    if c0 < 0x80 {
        c.short(wx_u + 102, stor_y, (c0, c1, 37u8, 0), 3, 0x44446A);
    }
    let pct_cap = if pct < 100 {
        pct
    } else {
        100
    };
    let bar = 114 * pct_cap / 100;
    c.rect(wx_u + 8, stor_y + 12, 114, 4, 0x22224A);
    c.rect(wx_u + 8, stor_y + 12, bar, 4, PLUM_GLOW);
    c.text(wx_u + 8, stor_y + 20, "AXFS local", 0x2A2A44);
    c.text(wx_u + 8, stor_y + 32, "Protected", 0x1A4A2A);
    assert(c@ =~= start + fb_sidebar_ops(wx_u, content_y, content_h, disk_used, disk_total));
}
/// Icon colour of a file kind.
pub open spec fn kind_color(kind: u8) -> u32 {
    if kind == 0 {
        ACCENT_TEAL
    } else if kind == 1 {
        ACCENT_AMBER
    } else if kind == 2 {
        0x7777FF
    } else {
        TEXT_DIM
    }
}

fn kind_color_of(kind: u8) -> (r: u32)
    ensures
        r == kind_color(kind),
{
    if kind == 0 {
        ACCENT_TEAL
    } else if kind == 1 {
        ACCENT_AMBER
    } else if kind == 2 {
        0x7777FF
    } else {
        TEXT_DIM
    }
}

/// Type column label of a file kind.
pub open spec fn kind_label(kind: u8) -> &'static str {
    if kind == 0 {
        ".ax"
    } else if kind == 1 {
        ".axpkg"
    } else if kind == 2 {
        ".txt"
    } else {
        "file"
    }
}

fn kind_label_of(kind: u8) -> (r: &'static str)
    ensures
        r == kind_label(kind),
{
    if kind == 0 {
        ".ax"
    } else if kind == 1 {
        ".axpkg"
    } else if kind == 2 {
        ".txt"
    } else {
        "file"
    }
}

/// Icon letter of a file kind.
pub open spec fn kind_initial(kind: u8) -> &'static str {
    if kind == 0 {
        "a"
    } else if kind == 1 {
        "p"
    } else if kind == 2 {
        "t"
    } else {
        "f"
    }
}

fn kind_initial_of(kind: u8) -> (r: &'static str)
    ensures
        r == kind_initial(kind),
{
    if kind == 0 {
        "a"
    } else if kind == 1 {
        "p"
    } else if kind == 2 {
        "t"
    } else {
        "f"
    }
}

/// Preview type name of a file kind.
pub open spec fn kind_name(kind: u8) -> &'static str {
    if kind == 0 {
        "AXON Script"
    } else if kind == 1 {
        "Sovereign Package"
    } else if kind == 2 {
        "Text Document"
    } else {
        "File"
    }
}

fn kind_name_of(kind: u8) -> (r: &'static str)
    ensures
        r == kind_name(kind),
{
    if kind == 0 {
        "AXON Script"
    } else if kind == 1 {
        "Sovereign Package"
    } else if kind == 2 {
        "Text Document"
    } else {
        "File"
    }
}

/// Preview icon colour of a file kind.
pub open spec fn kind_tint(kind: u8) -> u32 {
    if kind == 0 {
        ACCENT_TEAL
    } else if kind == 1 {
        ACCENT_AMBER
    } else if kind == 2 {
        0x7777FF
    } else {
        TEXT_DIM
    }
}

fn kind_tint_of(kind: u8) -> (r: u32)
    ensures
        r == kind_tint(kind),
{
    if kind == 0 {
        ACCENT_TEAL
    } else if kind == 1 {
        ACCENT_AMBER
    } else if kind == 2 {
        0x7777FF
    } else {
        TEXT_DIM
    }
}

/// Preview icon letters of a file kind.
pub open spec fn kind_badge(kind: u8) -> &'static str {
    if kind == 0 {
        "AX"
    } else if kind == 1 {
        "PKG"
    } else if kind == 2 {
        "TXT"
    } else {
        "FILE"
    }
}

fn kind_badge_of(kind: u8) -> (r: &'static str)
    ensures
        r == kind_badge(kind),
{
    if kind == 0 {
        "AX"
    } else if kind == 1 {
        "PKG"
    } else if kind == 2 {
        "TXT"
    } else {
        "FILE"
    }
}

/// The size label: `NNKB` from 1024 bytes on, else `NN B` (with a blank
/// tens digit below 10 when `pad`).
pub open spec fn size_chars(size: u32, pad: bool) -> (u8, u8, u8, u8) {
    if size >= 1024 {
        let kb = size / 1024;
        ((48 + (kb / 10) as u8) as u8, (48 + kb % 10) as u8, 75u8, 66u8)
    } else if pad && size < 10 {
        (32u8, (48 + size % 10) as u8, 32u8, 66u8)
    } else {
        ((48 + size / 10) as u8, (48 + size % 10) as u8, 32u8, 66u8)
    }
}

/// The size label can be formed without overflow.
pub open spec fn size_ok(size: u32) -> bool {
    size >= 1024 ==> ((size / 1024 / 10) as u8) <= 207
}

fn size_label(size: u32, pad: bool) -> (r: (u8, u8, u8, u8))
    requires
        size_ok(size),
    ensures
        r == size_chars(size, pad),
{
    if size >= 1024 {
        let kb = size / 1024;
        (48u8 + (kb / 10) as u8, 48u8 + (kb % 10) as u8, 75u8, 66u8)
    } else if pad && size < 10 {
        (32u8, 48u8 + (size % 10) as u8, 32u8, 66u8)
    } else {
        (48u8 + (size / 10) as u8, 48u8 + (size % 10) as u8, 32u8, 66u8)
    }
}

/// Rows of the file list that fit: at most `count`, at most the entries
/// given, at most what the body height holds.
pub open spec fn fb_rows_shown(content_h: u32, count: usize, len: int) -> int {
    let max_rows = sat_sub(content_h, 65) / 22;
    let a = if count < max_rows { count as int } else { max_rows as int };
    if a < len { a } else { len }
}

/// The list's head: navigation bar and column headers.
pub open spec fn fb_head_ops<'a>(main_x: u32, main_w: u32, content_y: u32, content_h: u32) -> Seq<DrawOp<'a>> {
    let nav_y = (content_y + 2) as u32;
    let hdr_y = (nav_y + 26) as u32;
    seq![
        DrawOp::Rect { x: main_x, y: content_y, w: main_w, h: content_h, color: WIN_BG },
        DrawOp::Rect { x: main_x, y: nav_y, w: main_w, h: 24, color: 0x0A0A1A },
        DrawOp::RoundedRect { x: (main_x + 4) as u32, y: (nav_y + 4) as u32, w: 16, h: 16, r: 3, color: 0x1A1A3A },
        DrawOp::RoundedRect { x: (main_x + 22) as u32, y: (nav_y + 4) as u32, w: 16, h: 16, r: 3, color: 0x1A1A3A },
        DrawOp::RoundedRect { x: (main_x + 40) as u32, y: (nav_y + 4) as u32, w: 16, h: 16, r: 3, color: 0x1A1A3A },
        DrawOp::Text { x: (main_x + 8) as u32, y: (nav_y + 12) as u32, text: "<", color: TEXT_DIM, size: TextSize::Small, clip: None },
        DrawOp::Text { x: (main_x + 26) as u32, y: (nav_y + 12) as u32, text: ">", color: TEXT_DIM, size: TextSize::Small, clip: None },
        DrawOp::Text { x: (main_x + 44) as u32, y: (nav_y + 12) as u32, text: "^", color: TEXT_DIM, size: TextSize::Small, clip: None },
        DrawOp::RoundedRect { x: (main_x + 60) as u32, y: (nav_y + 4) as u32, w: (main_w - 68) as u32, h: 16, r: 3, color: 0x0D0D22 },
        DrawOp::Border { x: (main_x + 60) as u32, y: (nav_y + 4) as u32, w: (main_w - 68) as u32, h: 16, color: PANEL_BORDER },
        DrawOp::Text { x: (main_x + 66) as u32, y: (nav_y + 12) as u32, text: "Home / Workspace", color: TEXT_DIM, size: TextSize::Small, clip: Some((main_x + main_w - 8) as u32) },
        DrawOp::Rect { x: main_x, y: hdr_y, w: main_w, h: 14, color: 0x0A0A1A },
        DrawOp::Text { x: (main_x + 36) as u32, y: (hdr_y + 3) as u32, text: "Name", color: TEXT_DIM, size: TextSize::Small, clip: None },
        DrawOp::Text { x: (main_x + main_w - 72) as u32, y: (hdr_y + 3) as u32, text: "Type", color: TEXT_DIM, size: TextSize::Small, clip: None },
        DrawOp::Text { x: (main_x + main_w - 32) as u32, y: (hdr_y + 3) as u32, text: "Size", color: TEXT_DIM, size: TextSize::Small, clip: None },
        DrawOp::HLine { x: main_x, y: (hdr_y + 14) as u32, len: main_w, color: PANEL_BORDER },
    ]
}

/// File list row `row` showing `e`.
pub open spec fn fb_row_ops<'a>(main_x: u32, main_w: u32, body_top: u32, e: FsEntry, row: int, selected: usize) -> Seq<DrawOp<'a>> {
    let ry = (body_top + row * 22) as u32;
    let nc: u32 = if row == selected { TEXT_WHITE } else { 0xCCCCEE };
    let hi: Seq<DrawOp<'a>> = if row == selected {
        seq![
            DrawOp::Rect { x: main_x, y: ry, w: main_w, h: 21, color: 0x141438 },
            DrawOp::HLine { x: main_x, y: ry, len: main_w, color: PLUM_GLOW },
        ]
    } else if row % 2 == 0 {
        seq![
            DrawOp::Rect { x: main_x, y: ry, w: main_w, h: 21, color: 0x09091A },
        ]
    } else {
        Seq::empty()
    };
    hi + seq![
        DrawOp::RoundedRect { x: (main_x + 6) as u32, y: (ry + 4) as u32, w: 14, h: 14, r: 2, color: kind_color(e.kind) },
        DrawOp::Blend { x: (main_x + 6) as u32, y: (ry + 4) as u32, w: 14, h: 14, fg: 0x000000, alpha: 120 },
        DrawOp::Text { x: (main_x + 10) as u32, y: (ry + 11) as u32, text: kind_initial(e.kind), color: TEXT_WHITE, size: TextSize::Small, clip: None },
        DrawOp::FileName { x: (main_x + 26) as u32, y: (ry + 7) as u32, file_name: e.name, name_len: e.name_len, color: nc, clip_x: (main_x + main_w - 100) as u32 },
        DrawOp::Text { x: (main_x + main_w - 74) as u32, y: (ry + 7) as u32, text: kind_label(e.kind), color: TEXT_DIM, size: TextSize::Small, clip: None },
    ] + short_if_ascii(
        (main_x + main_w - 32) as u32,
        (ry + 7) as u32,
        size_chars(e.size, true),
        4,
        TEXT_DIM,
    )
}

/// The first `n` rows.
pub open spec fn fb_rows_ops<'a>(main_x: u32, main_w: u32, body_top: u32, es: Seq<FsEntry>, selected: usize, n: int) -> Seq<DrawOp<'a>>
    decreases n,
{
    if n <= 0 {
        Seq::empty()
    } else {
        fb_rows_ops(main_x, main_w, body_top, es, selected, n - 1) + fb_row_ops(
            main_x,
            main_w,
            body_top,
            es[n - 1],
            n - 1,
            selected,
        )
    }
}

/// The list's footer: item count and protection badge.
pub open spec fn fb_footer_ops<'a>(main_x: u32, main_w: u32, content_y: u32, content_h: u32, count: usize) -> Seq<DrawOp<'a>> {
    let foot_y = (content_y + content_h - 22) as u32;
    seq![
        DrawOp::HLine { x: main_x, y: foot_y, len: main_w, color: PANEL_BORDER },
        DrawOp::Rect { x: main_x, y: (foot_y + 1) as u32, w: main_w, h: 21, color: 0x07070F },
    ] + short_if_ascii(
        (main_x + 8) as u32,
        (foot_y + 8) as u32,
        ((48 + (count / 10) as u8) as u8, (48 + count % 10) as u8, 0u8, 0u8),
        2,
        TEXT_DIM,
    ) + seq![
        DrawOp::Text { x: (main_x + 24) as u32, y: (foot_y + 8) as u32, text: " items", color: TEXT_DIM, size: TextSize::Small, clip: None },
        DrawOp::RoundedRect { x: (main_x + main_w - 110) as u32, y: (foot_y + 5) as u32, w: 12, h: 12, r: 3, color: ACCENT_TEAL },
        DrawOp::Blend { x: (main_x + main_w - 110) as u32, y: (foot_y + 5) as u32, w: 12, h: 12, fg: 0x000000, alpha: 80 },
        DrawOp::Text { x: (main_x + main_w - 104) as u32, y: (foot_y + 12) as u32, text: "S", color: ACCENT_TEAL, size: TextSize::Small, clip: None },
        DrawOp::Text { x: (main_x + main_w - 94) as u32, y: (foot_y + 8) as u32, text: "Sovereign Protected", color: 0x33334A, size: TextSize::Small, clip: None },
    ]
}

/// The preview of the selected entry `e`.
pub open spec fn fb_preview_entry_ops<'a>(preview_x: u32, content_y: u32, e: FsEntry) -> Seq<DrawOp<'a>> {
    let fi_x = (preview_x + 60) as u32;
    let fi_y = (content_y + 14) as u32;
    let meta_y = (fi_y + 84) as u32;
    let btn_y = (meta_y + 68) as u32;
    seq![
        DrawOp::RoundedRect { x: fi_x, y: fi_y, w: 40, h: 40, r: 6, color: kind_tint(e.kind) },
        DrawOp::Blend { x: fi_x, y: fi_y, w: 40, h: 40, fg: 0x000000, alpha: 140 },
        DrawOp::Blend { x: fi_x, y: fi_y, w: 40, h: 20, fg: 0xFFFFFF, alpha: 20 },
        DrawOp::Text { x: (fi_x + 10) as u32, y: (fi_y + 24) as u32, text: kind_badge(e.kind), color: TEXT_WHITE, size: TextSize::Small, clip: None },
        DrawOp::FileName { x: (preview_x + 8) as u32, y: (fi_y + 48) as u32, file_name: e.name, name_len: e.name_len, color: TEXT_WHITE, clip_x: (preview_x + 156) as u32 },
        DrawOp::Text { x: (preview_x + 8) as u32, y: (fi_y + 62) as u32, text: kind_name(e.kind), color: TEXT_DIM, size: TextSize::Small, clip: Some((preview_x + 154) as u32) },
        DrawOp::HLine { x: (preview_x + 8) as u32, y: (fi_y + 76) as u32, len: 144, color: PANEL_BORDER },
        DrawOp::Text { x: (preview_x + 8) as u32, y: meta_y, text: "Type", color: TEXT_DIM, size: TextSize::Small, clip: None },
        DrawOp::Text { x: (preview_x + 56) as u32, y: meta_y, text: kind_name(e.kind), color: TEXT_WHITE, size: TextSize::Small, clip: Some((preview_x + 154) as u32) },
        DrawOp::Text { x: (preview_x + 8) as u32, y: (meta_y + 20) as u32, text: "Size", color: TEXT_DIM, size: TextSize::Small, clip: None },
    ] + short_if_ascii(
        (preview_x + 56) as u32,
        (meta_y + 20) as u32,
        size_chars(e.size, false),
        4,
        TEXT_WHITE,
    ) + seq![
        DrawOp::Text { x: (preview_x + 8) as u32, y: (meta_y + 40) as u32, text: "Location", color: TEXT_DIM, size: TextSize::Small, clip: None },
        DrawOp::Text { x: (preview_x + 8) as u32, y: (meta_y + 52) as u32, text: "/Workspace", color: 0x44446A, size: TextSize::Small, clip: None },
        DrawOp::RoundedRect { x: (preview_x + 8) as u32, y: btn_y, w: 144, h: 20, r: 4, color: PLUM_GLOW },
        DrawOp::Blend { x: (preview_x + 8) as u32, y: btn_y, w: 144, h: 10, fg: 0xFFFFFF, alpha: 20 },
        DrawOp::Text { x: (preview_x + 16) as u32, y: (btn_y + 12) as u32, text: "Open", color: TEXT_WHITE, size: TextSize::Small, clip: None },
        DrawOp::RoundedRect { x: (preview_x + 8) as u32, y: (btn_y + 26) as u32, w: 144, h: 20, r: 4, color: 0x0D2A1A },
        DrawOp::Border { x: (preview_x + 8) as u32, y: (btn_y + 26) as u32, w: 144, h: 20, color: ACCENT_TEAL },
        DrawOp::Text { x: (preview_x + 16) as u32, y: (btn_y + 38) as u32, text: "Verify", color: ACCENT_TEAL, size: TextSize::Small, clip: None },
        DrawOp::RoundedRect { x: (preview_x + 8) as u32, y: (btn_y + 52) as u32, w: 144, h: 20, r: 4, color: 0x1A1500 },
        DrawOp::Border { x: (preview_x + 8) as u32, y: (btn_y + 52) as u32, w: 144, h: 20, color: ACCENT_AMBER },
        DrawOp::Text { x: (preview_x + 16) as u32, y: (btn_y + 64) as u32, text: "Encrypt", color: ACCENT_AMBER, size: TextSize::Small, clip: None },
    ]
}

/// The preview panel.
pub open spec fn fb_preview_ops<'a>(preview_x: u32, content_y: u32, content_h: u32, es: Seq<FsEntry>, count: usize, selected: usize) -> Seq<DrawOp<'a>> {
    seq![
        DrawOp::VLine { x: preview_x, y: content_y, len: content_h, color: PANEL_BORDER },
        DrawOp::Rect { x: preview_x, y: content_y, w: 160, h: content_h, color: 0x07070F },
    ] + if count > 0 && selected < count {
        fb_preview_entry_ops(preview_x, content_y, es[selected as int])
    } else {
        seq![
            DrawOp::Text { x: (preview_x + 16) as u32, y: (content_y + 60) as u32, text: "Select a file", color: TEXT_DIM, size: TextSize::Small, clip: None },
            DrawOp::Text { x: (preview_x + 16) as u32, y: (content_y + 76) as u32, text: "to preview", color: TEXT_DIM, size: TextSize::Small, clip: None },
        ]
    }
}

/// The whole file browser window body.
pub open spec fn file_browser_ops<'a>(
    wx: i32,
    wy: i32,
    w: u32,
    h: u32,
    es: Seq<FsEntry>,
    count: usize,
    selected: usize,
    disk_used: u32,
    disk_total: u32,
) -> Seq<DrawOp<'a>> {
    let wx_u = wx as u32;
    let wy_u = wy as u32;
    let content_y = (wy_u + 25) as u32;
    let content_h = sat_sub(h, 25);
    let main_x = (wx_u + 131) as u32;
    let main_w = sat_sub(w, 292);
    let preview_x = (wx_u + w - 160) as u32;
    let body_top = (content_y + 43) as u32;
    let n = fb_rows_shown(content_h, count, es.len() as int);
    fb_sidebar_ops(wx_u, content_y, content_h, disk_used, disk_total) + fb_head_ops(
        main_x,
        main_w,
        content_y,
        content_h,
    ) + fb_rows_ops(main_x, main_w, body_top, es, selected, n) + (if count == 0 {
        seq![
            DrawOp::Text {
                x: (main_x + 16) as u32,
                y: (body_top + 12) as u32,
                text: "[empty filesystem]",
                color: TEXT_DIM,
                size: TextSize::Small,
                clip: None,
            },
        ]
    } else {
        Seq::empty()
    }) + fb_footer_ops(main_x, main_w, content_y, content_h, count) + fb_preview_ops(
        preview_x,
        content_y,
        content_h,
        es,
        count,
        selected,
    ) + seq![
        DrawOp::Rect { x: (wx_u + w - 12) as u32, y: (wy_u + h - 12) as u32, w: 12, h: 12, color: ACCENT_TEAL },
        DrawOp::Rect { x: (wx_u + w - 8) as u32, y: (wy_u + h - 8) as u32, w: 4, h: 4, color: TEXT_WHITE },
    ]
}

/// What the file browser needs of its arguments (else it would overflow or
/// index out of bounds).
pub open spec fn file_browser_ok(
    wx: i32,
    wy: i32,
    w: u32,
    h: u32,
    es: Seq<FsEntry>,
    count: usize,
    selected: usize,
    disk_used: u32,
    disk_total: u32,
) -> bool {
    let wx_u = wx as u32;
    let wy_u = wy as u32;
    let content_h = sat_sub(h, 25);
    let n = fb_rows_shown(content_h, count, es.len() as int);
    &&& wx_u + w <= u32::MAX
    &&& w >= 360
    &&& wy_u + 25 + 240 <= u32::MAX
    &&& wy_u + 25 + content_h <= u32::MAX
    &&& wy_u + 25 + content_h >= 48
    &&& wy_u + h >= 12
    &&& disk_total > 0 ==> disk_used * 100 <= u32::MAX
    &&& ((used_pct(disk_used, disk_total) / 10) as u8) <= 207
    &&& ((count / 10) as u8) <= 207
    &&& forall|i: int| 0 <= i < n ==> (#[trigger] es[i]).name_len <= 32 && size_ok(es[i].size)
    &&& count > 0 && selected < count ==> selected < es.len() && es[selected as int].name_len <= 32 && size_ok(
        es[selected as int].size,
    )
}

fn fb_head<'a>(c: &mut Canvas<'a>, main_x: u32, main_w: u32, content_y: u32, content_h: u32)
    requires
        main_w >= 68,
        main_x >= 100,
        main_x + main_w + 100 <= u32::MAX,
        content_y + 48 <= u32::MAX,
    ensures
        final(c)@ == old(c)@ + fb_head_ops(main_x, main_w, content_y, content_h),
{
    let ghost start = c@;
    let nav_y = content_y + 2;
    let hdr_y = nav_y + 26;
    c.rect(main_x, content_y, main_w, content_h, WIN_BG);
    c.rect(main_x, nav_y, main_w, 24, 0x0A0A1A);
    c.rounded(main_x + 4, nav_y + 4, 16, 16, 3, 0x1A1A3A);
    c.rounded(main_x + 22, nav_y + 4, 16, 16, 3, 0x1A1A3A);
    c.rounded(main_x + 40, nav_y + 4, 16, 16, 3, 0x1A1A3A);
    c.text(main_x + 8, nav_y + 12, "<", TEXT_DIM);
    c.text(main_x + 26, nav_y + 12, ">", TEXT_DIM);
    c.text(main_x + 44, nav_y + 12, "^", TEXT_DIM);
    c.rounded(main_x + 60, nav_y + 4, main_w - 68, 16, 3, 0x0D0D22);
    c.border(main_x + 60, nav_y + 4, main_w - 68, 16, PANEL_BORDER);
    c.text_clipped(main_x + 66, nav_y + 12, "Home / Workspace", TEXT_DIM, main_x + main_w - 8);
    c.rect(main_x, hdr_y, main_w, 14, 0x0A0A1A);
    c.text(main_x + 36, hdr_y + 3, "Name", TEXT_DIM);
    c.text(main_x + main_w - 72, hdr_y + 3, "Type", TEXT_DIM);
    c.text(main_x + main_w - 32, hdr_y + 3, "Size", TEXT_DIM);
    c.hline(main_x, hdr_y + 14, main_w, PANEL_BORDER);
    assert(c@ =~= start + fb_head_ops(main_x, main_w, content_y, content_h));
}

#[verifier::rlimit(30)]
fn fb_rows<'a>(c: &mut Canvas<'a>, main_x: u32, main_w: u32, body_top: u32, entries: &'a [FsEntry], selected: usize, n: usize)
    requires
        n <= entries@.len(),
        main_x >= 100,
        main_x + main_w + 100 <= u32::MAX,
        body_top + n * 22 + 22 <= u32::MAX,
        forall|i: int| 0 <= i < n ==> (#[trigger] entries@[i]).name_len <= 32 && size_ok(entries@[i].size),
    ensures
        final(c)@ == old(c)@ + fb_rows_ops(main_x, main_w, body_top, entries@, selected, n as int),
{
    let ghost start = c@;
    let mut row: usize = 0;
    while row < n
        invariant
            row <= n,
            n <= entries@.len(),
            main_x >= 100,
            main_x + main_w + 100 <= u32::MAX,
            body_top + n * 22 + 22 <= u32::MAX,
            forall|i: int| 0 <= i < n ==> (#[trigger] entries@[i]).name_len <= 32 && size_ok(entries@[i].size),
            c@ == start + fb_rows_ops(main_x, main_w, body_top, entries@, selected, row as int),
        decreases n - row,
    {
        let e = &entries[row];
        assert(row * 22 + 22 <= n * 22) by (nonlinear_arith)
            requires
                row < n,
        ;
        let ry = body_top + row as u32 * 22;
        let ghost before = c@;
        if row == selected {
            c.rect(main_x, ry, main_w, 21, 0x141438);
            c.hline(main_x, ry, main_w, PLUM_GLOW);
        } else if row % 2 == 0 {
            c.rect(main_x, ry, main_w, 21, 0x09091A);
        }
        let nc: u32 = if row == selected {
            TEXT_WHITE
        } else {
            0xCCCCEE
        };
        let kc = kind_color_of(e.kind);
        let ki = kind_initial_of(e.kind);
        let kl = kind_label_of(e.kind);
        c.rounded(main_x + 6, ry + 4, 14, 14, 2, kc);
        c.blend(main_x + 6, ry + 4, 14, 14, 0x000000, 120);
        c.text(main_x + 10, ry + 11, ki, TEXT_WHITE);
        c.op(
            DrawOp::FileName {
                x: main_x + 26,
                y: ry + 7,
                file_name: e.name,
                name_len: e.name_len,
                color: nc,
                clip_x: main_x + main_w - 100,
            },
        );
        c.text(main_x + main_w - 74, ry + 7, kl, TEXT_DIM);
        let sz = size_label(e.size, true);
        if sz.0 < 0x80 {
            c.short(main_x + main_w - 32, ry + 7, sz, 4, TEXT_DIM);
        }
        assert(c@ =~= before + fb_row_ops(main_x, main_w, body_top, entries@[row as int], row as int, selected));
        row = row + 1;
    }
}

fn fb_footer<'a>(c: &mut Canvas<'a>, main_x: u32, main_w: u32, content_y: u32, content_h: u32, count: usize)
    requires
        main_x >= 110,
        main_x + main_w + 100 <= u32::MAX,
        content_y + content_h >= 48,
        content_y + content_h <= u32::MAX,
        ((count / 10) as u8) <= 207,
    ensures
        final(c)@ == old(c)@ + fb_footer_ops(main_x, main_w, content_y, content_h, count),
{
    let ghost start = c@;
    let foot_y = content_y + content_h - 22;
    c.hline(main_x, foot_y, main_w, PANEL_BORDER);
    c.rect(main_x, foot_y + 1, main_w, 21, 0x07070F);
    let c1 = 48u8 + (count / 10) as u8;
    let c2 = 48u8 + (count % 10) as u8;
    if c1 < 0x80 {
        c.short(main_x + 8, foot_y + 8, (c1, c2, 0u8, 0u8), 2, TEXT_DIM);
    }
    c.text(main_x + 24, foot_y + 8, " items", TEXT_DIM);
    c.rounded(main_x + main_w - 110, foot_y + 5, 12, 12, 3, ACCENT_TEAL);
    c.blend(main_x + main_w - 110, foot_y + 5, 12, 12, 0x000000, 80);
    c.text(main_x + main_w - 104, foot_y + 12, "S", ACCENT_TEAL);
    c.text(main_x + main_w - 94, foot_y + 8, "Sovereign Protected", 0x33334A);
    assert(c@ =~= start + fb_footer_ops(main_x, main_w, content_y, content_h, count));
}

fn fb_preview<'a>(
    c: &mut Canvas<'a>,
    preview_x: u32,
    content_y: u32,
    content_h: u32,
    entries: &'a [FsEntry],
    count: usize,
    selected: usize,
)
    requires
        preview_x + 160 <= u32::MAX,
        content_y + 240 <= u32::MAX,
        count > 0 && selected < count ==> selected < entries@.len() && entries@[selected as int].name_len <= 32
            && size_ok(entries@[selected as int].size),
    ensures
        final(c)@ == old(c)@ + fb_preview_ops(preview_x, content_y, content_h, entries@, count, selected),
{
    let ghost start = c@;
    c.vline(preview_x, content_y, content_h, PANEL_BORDER);
    c.rect(preview_x, content_y, 160, content_h, 0x07070F);
    if count > 0 && selected < count {
        let e = &entries[selected];
        let fi_x = preview_x + 60;
        let fi_y = content_y + 14;
        let meta_y = fi_y + 84;
        let btn_y = meta_y + 68;
        c.rounded(fi_x, fi_y, 40, 40, 6, kind_tint_of(e.kind));
        c.blend(fi_x, fi_y, 40, 40, 0x000000, 140);
        c.blend(fi_x, fi_y, 40, 20, 0xFFFFFF, 20);
        c.text(fi_x + 10, fi_y + 24, kind_badge_of(e.kind), TEXT_WHITE);
        c.op(
            DrawOp::FileName {
                x: preview_x + 8,
                y: fi_y + 48,
                file_name: e.name,
                name_len: e.name_len,
                color: TEXT_WHITE,
                clip_x: preview_x + 156,
            },
        );
        let tn = kind_name_of(e.kind);
        c.text_clipped(preview_x + 8, fi_y + 62, tn, TEXT_DIM, preview_x + 154);
        c.hline(preview_x + 8, fi_y + 76, 144, PANEL_BORDER);
        c.text(preview_x + 8, meta_y, "Type", TEXT_DIM);
        c.text_clipped(preview_x + 56, meta_y, tn, TEXT_WHITE, preview_x + 154);
        c.text(preview_x + 8, meta_y + 20, "Size", TEXT_DIM);
        let sz = size_label(e.size, false);
        if sz.0 < 0x80 {
            c.short(preview_x + 56, meta_y + 20, sz, 4, TEXT_WHITE);
        }
        c.text(preview_x + 8, meta_y + 40, "Location", TEXT_DIM);
        c.text(preview_x + 8, meta_y + 52, "/Workspace", 0x44446A);
        c.rounded(preview_x + 8, btn_y, 144, 20, 4, PLUM_GLOW);
        c.blend(preview_x + 8, btn_y, 144, 10, 0xFFFFFF, 20);
        c.text(preview_x + 16, btn_y + 12, "Open", TEXT_WHITE);
        c.rounded(preview_x + 8, btn_y + 26, 144, 20, 4, 0x0D2A1A);
        c.border(preview_x + 8, btn_y + 26, 144, 20, ACCENT_TEAL);
        c.text(preview_x + 16, btn_y + 38, "Verify", ACCENT_TEAL);
        c.rounded(preview_x + 8, btn_y + 52, 144, 20, 4, 0x1A1500);
        c.border(preview_x + 8, btn_y + 52, 144, 20, ACCENT_AMBER);
        c.text(preview_x + 16, btn_y + 64, "Encrypt", ACCENT_AMBER);
    } else {
        c.text(preview_x + 16, content_y + 60, "Select a file", TEXT_DIM);
        c.text(preview_x + 16, content_y + 76, "to preview", TEXT_DIM);
    }
    assert(c@ =~= start + fb_preview_ops(preview_x, content_y, content_h, entries@, count, selected));
}

/// The file browser (window kind 9): a sidebar of places with a storage
/// gauge, the file list with name, type and size columns, and a preview of
/// the selected file with its actions.
pub fn render_file_browser<'a>(
    c: &mut Canvas<'a>,
    wx: i32,
    wy: i32,
    w: u32,
    h: u32,
    entries: &'a [FsEntry],
    count: usize,
    selected: usize,
    disk_used: u32,
    disk_total: u32,
)
    requires
        file_browser_ok(wx, wy, w, h, entries@, count, selected, disk_used, disk_total),
    ensures
        final(c)@ == old(c)@ + file_browser_ops(wx, wy, w, h, entries@, count, selected, disk_used, disk_total),
{
    let ghost start = c@;
    let wx_u = wx as u32;
    let wy_u = wy as u32;
    let content_y = wy_u + 25;
    let content_h = h.saturating_sub(25);
    let main_x = wx_u + 131;
    let main_w = w.saturating_sub(292);
    let preview_x = wx_u + w - 160;
    let ghost n_ops = file_browser_ops(wx, wy, w, h, entries@, count, selected, disk_used, disk_total);
    fb_sidebar(c, wx_u, content_y, content_h, disk_used, disk_total);
    let ghost a1 = fb_sidebar_ops(wx_u, content_y, content_h, disk_used, disk_total);
    fb_head(c, main_x, main_w, content_y, content_h);
    let ghost a2 = fb_head_ops(main_x, main_w, content_y, content_h);
    proof {
        lemma_append(start, a1, a2);
    }
    let body_top = content_y + 43;
    let body_h = content_h.saturating_sub(65);
    let max_rows = (body_h / 22) as usize;
    let a = if count < max_rows {
        count
    } else {
        max_rows
    };
    let n = if a < entries.len() {
        a
    } else {
        entries.len()
    };
    assert(n * 22 <= body_h) by (nonlinear_arith)
        requires
            n <= max_rows,
            max_rows == body_h / 22,
    ;
    assert(n == fb_rows_shown(content_h, count, entries@.len() as int));
    fb_rows(c, main_x, main_w, body_top, entries, selected, n);
    let ghost a3 = fb_rows_ops(main_x, main_w, body_top, entries@, selected, n as int);
    proof {
        lemma_append(start, a1 + a2, a3);
    }
    let ghost before_empty = c@;
    if count == 0 {
        c.text(main_x + 16, body_top + 12, "[empty filesystem]", TEXT_DIM);
    }
    let ghost a4: Seq<DrawOp<'a>> = if count == 0 {
        seq![
            DrawOp::Text {
                x: (main_x + 16) as u32,
                y: (body_top + 12) as u32,
                text: "[empty filesystem]",
                color: TEXT_DIM,
                size: TextSize::Small,
                clip: None,
            },
        ]
    } else {
        Seq::empty()
    };
    assert(c@ =~= before_empty + a4);
    proof {
        lemma_append(start, a1 + a2 + a3, a4);
    }
    fb_footer(c, main_x, main_w, content_y, content_h, count);
    let ghost a5 = fb_footer_ops(main_x, main_w, content_y, content_h, count);
    proof {
        lemma_append(start, a1 + a2 + a3 + a4, a5);
    }
    fb_preview(c, preview_x, content_y, content_h, entries, count, selected);
    let ghost a6 = fb_preview_ops(preview_x, content_y, content_h, entries@, count, selected);
    proof {
        lemma_append(start, a1 + a2 + a3 + a4 + a5, a6);
    }
    let ghost before_resize = c@;
    c.rect(wx_u + w - 12, wy_u + h - 12, 12, 12, ACCENT_TEAL);
    c.rect(wx_u + w - 8, wy_u + h - 8, 4, 4, TEXT_WHITE);
    let ghost a7 = seq![
        DrawOp::Rect { x: (wx_u + w - 12) as u32, y: (wy_u + h - 12) as u32, w: 12, h: 12, color: ACCENT_TEAL },
        DrawOp::Rect { x: (wx_u + w - 8) as u32, y: (wy_u + h - 8) as u32, w: 4, h: 4, color: TEXT_WHITE },
    ];
    assert(c@ =~= before_resize + a7);
    proof {
        lemma_append(start, a1 + a2 + a3 + a4 + a5 + a6, a7);
    }
    assert(n_ops == a1 + a2 + a3 + a4 + a5 + a6 + a7);
}
/// Left edge of the right panel.
pub const RX: u32 = 1092;

/// The backdrop and the side panels' fill.
pub open spec fn desk_sky_ops<'a>() -> Seq<DrawOp<'a>> {
    seq![DrawOp::Backdrop] + seq![
        DrawOp::Rect { x: 0, y: 0, w: 188, h: 720, color: 0x0A0816 },
        DrawOp::Rect { x: 1092, y: 0, w: 188, h: 720, color: 0x0A0816 },
    ]
}

/// The star field.
pub open spec fn desk_stars_ops<'a>() -> Seq<DrawOp<'a>> {
    seq![
        DrawOp::Rect { x: 220, y: 65, w: 1, h: 1, color: 0x8888AA },
        DrawOp::Rect { x: 380, y: 42, w: 2, h: 2, color: 0xCCCCEE },
        DrawOp::Rect { x: 540, y: 88, w: 1, h: 1, color: 0x9999BB },
        DrawOp::Rect { x: 720, y: 55, w: 2, h: 2, color: 0xDDDDFF },
        DrawOp::Rect { x: 850, y: 30, w: 1, h: 1, color: 0x7777AA },
        DrawOp::Rect { x: 960, y: 75, w: 1, h: 1, color: 0xAAAACC },
        DrawOp::Rect { x: 290, y: 180, w: 1, h: 1, color: 0x6666AA },
        DrawOp::Rect { x: 480, y: 210, w: 2, h: 2, color: 0xBBBBDD },
        DrawOp::Rect { x: 600, y: 155, w: 1, h: 1, color: 0x8888BB },
        DrawOp::Rect { x: 780, y: 195, w: 1, h: 1, color: 0x9999CC },
        DrawOp::Rect { x: 1020, y: 120, w: 2, h: 2, color: 0xCCCCEE },
        DrawOp::Rect { x: 1060, y: 200, w: 1, h: 1, color: 0x7777AA },
        DrawOp::Rect { x: 240, y: 340, w: 1, h: 1, color: 0x6666AA },
        DrawOp::Rect { x: 500, y: 380, w: 1, h: 1, color: 0x8888CC },
        DrawOp::Rect { x: 730, y: 360, w: 2, h: 2, color: 0xAAAADD },
        DrawOp::Rect { x: 880, y: 310, w: 1, h: 1, color: 0x7777BB },
        DrawOp::Rect { x: 1000, y: 380, w: 1, h: 1, color: 0x6666AA },
        DrawOp::Rect { x: 1050, y: 450, w: 2, h: 2, color: 0xBBBBCC },
        DrawOp::Rect { x: 210, y: 500, w: 1, h: 1, color: 0x8888AA },
        DrawOp::Rect { x: 420, y: 480, w: 2, h: 2, color: 0xCCCCDD },
        DrawOp::Rect { x: 680, y: 510, w: 1, h: 1, color: 0x7777AA },
        DrawOp::Rect { x: 820, y: 490, w: 1, h: 1, color: 0x9999BB },
        DrawOp::Rect { x: 1010, y: 520, w: 2, h: 2, color: 0xBBBBDD },
        DrawOp::Rect { x: 1070, y: 560, w: 1, h: 1, color: 0x8888AA },
    ]
}

/// The faint pixel stars.
pub open spec fn desk_dust_ops<'a>() -> Seq<DrawOp<'a>> {
    seq![
        DrawOp::Rect { x: 310, y: 95, w: 1, h: 1, color: 0x555577 },
        DrawOp::Rect { x: 455, y: 130, w: 1, h: 1, color: 0x555577 },
        DrawOp::Rect { x: 615, y: 200, w: 1, h: 1, color: 0x555577 },
        DrawOp::Rect { x: 850, y: 240, w: 1, h: 1, color: 0x555577 },
        DrawOp::Rect { x: 930, y: 180, w: 1, h: 1, color: 0x555577 },
        DrawOp::Rect { x: 1045, y: 310, w: 1, h: 1, color: 0x555577 },
        DrawOp::Rect { x: 270, y: 265, w: 1, h: 1, color: 0x555577 },
        DrawOp::Rect { x: 560, y: 290, w: 1, h: 1, color: 0x555577 },
        DrawOp::Rect { x: 700, y: 400, w: 1, h: 1, color: 0x555577 },
        DrawOp::Rect { x: 810, y: 430, w: 1, h: 1, color: 0x555577 },
        DrawOp::Rect { x: 950, y: 390, w: 1, h: 1, color: 0x555577 },
        DrawOp::Rect { x: 1060, y: 470, w: 1, h: 1, color: 0x555577 },
        DrawOp::Rect { x: 230, y: 440, w: 1, h: 1, color: 0x555577 },
        DrawOp::Rect { x: 470, y: 510, w: 1, h: 1, color: 0x555577 },
        DrawOp::Rect { x: 740, y: 540, w: 1, h: 1, color: 0x555577 },
        DrawOp::Rect { x: 890, y: 560, w: 1, h: 1, color: 0x555577 },
    ]
}

fn desk_sky<'a>(c: &mut Canvas<'a>)
    ensures
        final(c)@ == old(c)@ + desk_sky_ops(),
{
    let ghost start = c@;
    c.op(DrawOp::Backdrop);
    c.rect(0, 0, 188, 720, 0x0A0816);
    c.rect(1092, 0, 188, 720, 0x0A0816);
    assert(c@ =~= start + desk_sky_ops());
}

fn desk_stars<'a>(c: &mut Canvas<'a>)
    ensures
        final(c)@ == old(c)@ + desk_stars_ops(),
{
    let ghost start = c@;
    c.rect(220, 65, 1, 1, 0x8888AA);
    c.rect(380, 42, 2, 2, 0xCCCCEE);
    c.rect(540, 88, 1, 1, 0x9999BB);
    c.rect(720, 55, 2, 2, 0xDDDDFF);
    c.rect(850, 30, 1, 1, 0x7777AA);
    c.rect(960, 75, 1, 1, 0xAAAACC);
    c.rect(290, 180, 1, 1, 0x6666AA);
    c.rect(480, 210, 2, 2, 0xBBBBDD);
    c.rect(600, 155, 1, 1, 0x8888BB);
    c.rect(780, 195, 1, 1, 0x9999CC);
    c.rect(1020, 120, 2, 2, 0xCCCCEE);
    c.rect(1060, 200, 1, 1, 0x7777AA);
    c.rect(240, 340, 1, 1, 0x6666AA);
    c.rect(500, 380, 1, 1, 0x8888CC);
    c.rect(730, 360, 2, 2, 0xAAAADD);
    c.rect(880, 310, 1, 1, 0x7777BB);
    c.rect(1000, 380, 1, 1, 0x6666AA);
    c.rect(1050, 450, 2, 2, 0xBBBBCC);
    c.rect(210, 500, 1, 1, 0x8888AA);
    c.rect(420, 480, 2, 2, 0xCCCCDD);
    c.rect(680, 510, 1, 1, 0x7777AA);
    c.rect(820, 490, 1, 1, 0x9999BB);
    c.rect(1010, 520, 2, 2, 0xBBBBDD);
    c.rect(1070, 560, 1, 1, 0x8888AA);
    assert(c@ =~= start + desk_stars_ops());
}

fn desk_dust<'a>(c: &mut Canvas<'a>)
    ensures
        final(c)@ == old(c)@ + desk_dust_ops(),
{
    let ghost start = c@;
    c.rect(310, 95, 1, 1, 0x555577);
    c.rect(455, 130, 1, 1, 0x555577);
    c.rect(615, 200, 1, 1, 0x555577);
    c.rect(850, 240, 1, 1, 0x555577);
    c.rect(930, 180, 1, 1, 0x555577);
    c.rect(1045, 310, 1, 1, 0x555577);
    c.rect(270, 265, 1, 1, 0x555577);
    c.rect(560, 290, 1, 1, 0x555577);
    c.rect(700, 400, 1, 1, 0x555577);
    c.rect(810, 430, 1, 1, 0x555577);
    c.rect(950, 390, 1, 1, 0x555577);
    c.rect(1060, 470, 1, 1, 0x555577);
    c.rect(230, 440, 1, 1, 0x555577);
    c.rect(470, 510, 1, 1, 0x555577);
    c.rect(740, 540, 1, 1, 0x555577);
    c.rect(890, 560, 1, 1, 0x555577);
    assert(c@ =~= start + desk_dust_ops());
}

/// The logo's halo, the logo and the wordmark under it, for a logo of
/// `logo_w` x `logo_h` pixels.
pub open spec fn desk_logo_ops<'a>(logo_w: u32, logo_h: u32) -> Seq<DrawOp<'a>> {
    let logo_x = sat_sub(640, logo_w / 2);
    let logo_y: u32 = 348;
    let gc = (logo_x + logo_w / 2) as u32;
    let gy = (logo_y + logo_h / 2) as u32;
    seq![
        DrawOp::Blend { x: (gc - 120) as u32, y: (gy - 120) as u32, w: 240, h: 240, fg: 0x4B2F80, alpha: 6 },
        DrawOp::Blend { x: (gc - 80) as u32, y: (gy - 80) as u32, w: 160, h: 160, fg: 0x5B3A9A, alpha: 10 },
        DrawOp::Blend { x: (gc - 60) as u32, y: (gy - 60) as u32, w: 120, h: 120, fg: 0x6B3FA0, alpha: 16 },
        DrawOp::Blend { x: (gc - 48) as u32, y: (gy - 48) as u32, w: 96, h: 96, fg: 0x6B3FA0, alpha: 22 },
        DrawOp::Blend { x: (gc - 36) as u32, y: (gy - 36) as u32, w: 72, h: 72, fg: 0x7040C0, alpha: 32 },
        DrawOp::Blend { x: (gc - 24) as u32, y: (gy - 24) as u32, w: 48, h: 48, fg: 0x8840FF, alpha: 44 },
    ] + seq![
        DrawOp::Logo { x: logo_x, y: logo_y },
        DrawOp::Text {
            x: 585,
            y: (logo_y + logo_h + 8) as u32,
            text: "AIEONYX",
            color: 0x3A3A6A,
            size: TextSize::Double,
            clip: None,
        },
    ]
}

fn desk_logo<'a>(c: &mut Canvas<'a>, logo_w: u32, logo_h: u32)
    requires
        logo_h <= 1000,
        logo_w <= 1280,
    ensures
        final(c)@ == old(c)@ + desk_logo_ops(logo_w, logo_h),
{
    let ghost start = c@;
    let logo_x = 640u32.saturating_sub(logo_w / 2);
    let logo_y: u32 = 348;
    let gc = logo_x + logo_w / 2;
    let gy = logo_y + logo_h / 2;
    assert(gc >= 120 && gy >= 120);
    c.blend(gc - 120, gy - 120, 240, 240, 0x4B2F80, 6);
    c.blend(gc - 80, gy - 80, 160, 160, 0x5B3A9A, 10);
    c.blend(gc - 60, gy - 60, 120, 120, 0x6B3FA0, 16);
    c.blend(gc - 48, gy - 48, 96, 96, 0x6B3FA0, 22);
    c.blend(gc - 36, gy - 36, 72, 72, 0x7040C0, 32);
    c.blend(gc - 24, gy - 24, 48, 48, 0x8840FF, 44);
    c.op(DrawOp::Logo { x: logo_x, y: logo_y });
    c.op(
        DrawOp::Text {
            x: 585,
            y: logo_y + logo_h + 8,
            text: "AIEONYX",
            color: 0x3A3A6A,
            size: TextSize::Double,
            clip: None,
        },
    );
    assert(c@ =~= start + desk_logo_ops(logo_w, logo_h));
}

/// `k` Newton steps toward the integer square root of `s` from `root`.
pub open spec fn newton(s: int, root: int, k: nat) -> int
    decreases k,
{
    if k == 0 {
        root
    } else {
        newton(s, (root + s / (root + 1)) / 2, (k - 1) as nat)
    }
}

/// Half-width of the avatar disc (radius 20) on its row `ay`.
pub open spec fn avatar_dx(ay: int) -> int {
    let dy = if ay < 20 { 20 - ay } else { ay - 20 };
    if dy * dy > 400 {
        0
    } else {
        newton(400 - dy * dy, 400 - dy * dy, 16)
    }
}

/// The avatar disc's rows `0..n`.
pub open spec fn avatar_ops<'a>(n: int) -> Seq<DrawOp<'a>>
    decreases n,
{
    if n <= 0 {
        Seq::empty()
    } else {
        let dx = avatar_dx(n - 1);
        avatar_ops(n - 1) + if dx > 0 {
            seq![DrawOp::HLine { x: (40 - dx) as u32, y: (76 + n - 1) as u32, len: (dx * 2) as u32, color: PLUM_GLOW }]
        } else {
            Seq::empty()
        }
    }
}


/// Newton steps compose: `n + m` steps are `m` steps from where `n` led.
proof fn lemma_newton_split(s: int, r: int, n: nat, m: nat)
    ensures
        newton(s, r, n + m) == newton(s, newton(s, r, n), m),
    decreases n,
{
    if n > 0 {
        lemma_newton_split(s, (r + s / (r + 1)) / 2, (n - 1) as nat, m);
        assert((n + m - 1) as nat == (n - 1) as nat + m);
    }
}

/// A fixed point of the Newton step stays put.
proof fn lemma_newton_fix(s: int, r: int, k: nat)
    requires
        (r + s / (r + 1)) / 2 == r,
    ensures
        newton(s, r, k) == r,
    decreases k,
{
    if k > 0 {
        lemma_newton_fix(s, r, (k - 1) as nat);
    }
}

/// Sixteen Newton steps from `r0` through `r1, ..., r6`, where `r6` is a
/// fixed point, end on `r6`.
proof fn lemma_newton_path(s: int, r0: int, r1: int, r2: int, r3: int, r4: int, r5: int, r6: int)
    requires
        (r0 + s / (r0 + 1)) / 2 == r1,
        (r1 + s / (r1 + 1)) / 2 == r2,
        (r2 + s / (r2 + 1)) / 2 == r3,
        (r3 + s / (r3 + 1)) / 2 == r4,
        (r4 + s / (r4 + 1)) / 2 == r5,
        (r5 + s / (r5 + 1)) / 2 == r6,
        (r6 + s / (r6 + 1)) / 2 == r6,
    ensures
        newton(s, r0, 16) == r6,
{
    reveal_with_fuel(newton, 7);
    lemma_newton_split(s, r0, 6, 10);
    lemma_newton_fix(s, r6, 10);
}

/// Sixteen Newton steps from `s = 400 - dy * dy` (`0 <= dy <= 20`) settle,
/// within six steps, on a fixed point between 0 and 20.
proof fn lemma_newton_disc(dy: int)
    requires
        0 <= dy <= 20,
    ensures
        0 <= newton(400 - dy * dy, 400 - dy * dy, 16) <= 20,
{
    if dy == 0 {
        lemma_newton_path(400, 400, 200, 100, 51, 29, 21, 19);
    } else if dy == 1 {
        lemma_newton_path(399, 399, 199, 100, 51, 29, 21, 19);
    } else if dy == 2 {
        lemma_newton_path(396, 396, 198, 99, 51, 29, 21, 19);
    } else if dy == 3 {
        lemma_newton_path(391, 391, 195, 98, 50, 28, 20, 19);
    } else if dy == 4 {
        lemma_newton_path(384, 384, 192, 96, 49, 28, 20, 19);
    } else if dy == 5 {
        lemma_newton_path(375, 375, 187, 94, 48, 27, 20, 18);
    } else if dy == 6 {
        lemma_newton_path(364, 364, 182, 91, 47, 27, 20, 18);
    } else if dy == 7 {
        lemma_newton_path(351, 351, 175, 88, 45, 26, 19, 18);
    } else if dy == 8 {
        lemma_newton_path(336, 336, 168, 84, 43, 25, 18, 17);
    } else if dy == 9 {
        lemma_newton_path(319, 319, 159, 80, 41, 24, 18, 17);
    } else if dy == 10 {
        lemma_newton_path(300, 300, 150, 75, 39, 23, 17, 16);
    } else if dy == 11 {
        lemma_newton_path(279, 279, 139, 70, 36, 21, 16, 16);
    } else if dy == 12 {
        lemma_newton_path(256, 256, 128, 64, 33, 20, 16, 15);
    } else if dy == 13 {
        lemma_newton_path(231, 231, 115, 58, 30, 18, 15, 14);
    } else if dy == 14 {
        lemma_newton_path(204, 204, 102, 51, 27, 17, 14, 13);
    } else if dy == 15 {
        lemma_newton_path(175, 175, 87, 44, 23, 15, 12, 12);
    } else if dy == 16 {
        lemma_newton_path(144, 144, 72, 36, 19, 13, 11, 11);
    } else if dy == 17 {
        lemma_newton_path(111, 111, 55, 28, 15, 10, 10, 10);
    } else if dy == 18 {
        lemma_newton_path(76, 76, 38, 19, 11, 8, 8, 8);
    } else if dy == 19 {
        lemma_newton_path(39, 39, 19, 10, 6, 5, 5, 5);
    } else if dy == 20 {
        lemma_newton_path(0, 0, 0, 0, 0, 0, 0, 0);
    }
}

/// The avatar disc is at most 20 pixels to either side of its centre.
proof fn lemma_avatar_dx(ay: int)
    requires
        0 <= ay < 40,
    ensures
        0 <= avatar_dx(ay) <= 20,
{
    let dy = if ay < 20 { 20 - ay } else { ay - 20 };
    lemma_newton_disc(dy);
}
/// The identity panel's frame.
pub open spec fn desk_identity_frame_ops<'a>() -> Seq<DrawOp<'a>> {
    seq![
        DrawOp::RoundedRect { x: 8, y: (TOP_BAR_H + 8) as u32, w: PANEL_W, h: (720 - TOP_BAR_H - DOCK_H - 16) as u32, r: 8, color: GLASS_PANEL },
        DrawOp::RoundedBorder { x: 8, y: (TOP_BAR_H + 8) as u32, w: PANEL_W, h: (720 - TOP_BAR_H - DOCK_H - 16) as u32, r: 8, color: GLASS_BORDER },
        DrawOp::HLine { x: 9, y: (TOP_BAR_H + 9) as u32, len: (PANEL_W - 2) as u32, color: 0x3A3860 },
        DrawOp::Text { x: 20, y: (TOP_BAR_H + 24) as u32, text: "IDENTITY", color: 0x44446A, size: TextSize::Large, clip: None },
    ]
}

/// The avatar's initial and the user's name: the first letter and the whole
/// name when it is valid UTF-8 (nothing when it is not); `E` and `Edison`
/// when no name is set.
pub open spec fn desk_user_ops<'a>(user_name: &'a [u8]) -> Seq<DrawOp<'a>> {
    if user_name@.len() != 0 {
        if vstd::utf8::valid_utf8(user_name@) {
            seq![
                DrawOp::Slice {
                    x: 36,
                    y: 88,
                    bytes: user_name,
                    from: 0,
                    to: 1,
                    color: TEXT_WHITE,
                    size: TextSize::Large,
                    clip: None,
                },
                DrawOp::Slice {
                    x: 68,
                    y: 82,
                    bytes: user_name,
                    from: 0,
                    to: user_name@.len() as usize,
                    color: TEXT_WHITE,
                    size: TextSize::Large,
                    clip: None,
                },
                DrawOp::Text { x: 68, y: 100, text: "Sovereign", color: 0x44446A, size: TextSize::Small, clip: None },
            ]
        } else {
            Seq::empty()
        }
    } else {
        seq![
            DrawOp::Text { x: 36, y: 88, text: "E", color: TEXT_WHITE, size: TextSize::Large, clip: None },
            DrawOp::Text { x: 68, y: 82, text: "Edison", color: TEXT_WHITE, size: TextSize::Large, clip: None },
            DrawOp::Text { x: 68, y: 100, text: "Sovereign", color: 0x44446A, size: TextSize::Small, clip: None },
        ]
    }
}

/// The identity panel: frame, avatar disc with highlight, initial and name.
pub open spec fn desk_identity_ops<'a>(user_name: &'a [u8]) -> Seq<DrawOp<'a>> {
    desk_identity_frame_ops() + avatar_ops(40) + seq![
        DrawOp::Blend { x: 20, y: 76, w: 40, h: 20, fg: 0xFFFFFF, alpha: 25 },
    ] + desk_user_ops(user_name)
}

fn desk_identity<'a>(c: &mut Canvas<'a>, user_name: &'a [u8])
    requires
        user_name@.len() != 0 && vstd::utf8::valid_utf8(user_name@) ==> user_name@[0] < 0x80,
    ensures
        final(c)@ == old(c)@ + desk_identity_ops(user_name),
{
    let ghost start = c@;
    c.rounded(8, TOP_BAR_H + 8, PANEL_W, 720 - TOP_BAR_H - DOCK_H - 16, 8, GLASS_PANEL);
    c.rounded_border(8, TOP_BAR_H + 8, PANEL_W, 720 - TOP_BAR_H - DOCK_H - 16, 8, GLASS_BORDER);
    c.hline(9, TOP_BAR_H + 9, PANEL_W - 2, 0x3A3860);
    c.text16(20, TOP_BAR_H + 24, "IDENTITY", 0x44446A);
    assert(c@ =~= start + desk_identity_frame_ops());
    let ghost s1 = c@;
    let mut ay: u32 = 0;
    while ay < 40
        invariant
            ay <= 40,
            c@ == s1 + avatar_ops(ay as int),
        decreases 40 - ay,
    {
        let dy = if ay < 20 {
            20 - ay
        } else {
            ay - 20
        };
        assert(dy * dy <= 400) by (nonlinear_arith)
            requires
                dy <= 20,
        ;
        let d2 = dy * dy;
        let dx: u32 = if d2 > 400 {
            0
        } else {
            let s = 400 - d2;
            let mut root = s;
            let mut iter: u32 = 0;
            while iter < 16
                invariant
                    iter <= 16,
                    s <= 400,
                    root <= 400,
                    newton(s as int, s as int, 16) == newton(s as int, root as int, (16 - iter) as nat),
                decreases 16 - iter,
            {
                assert((s as int) / (root as int + 1) <= s) by (nonlinear_arith)
                    requires
                        root >= 0,
                        s >= 0,
                ;
                root = (root + s / (root + 1)) / 2;
                iter = iter + 1;
            }
            root
        };
        proof {
            lemma_avatar_dx(ay as int);
        }
        assert(dx == avatar_dx(ay as int));
        if dx > 0 {
            c.hline(20 + 20 - dx, 76 + ay, dx * 2, PLUM_GLOW);
        }
        assert(c@ =~= s1 + avatar_ops(ay + 1));
        ay = ay + 1;
    }
    proof {
        lemma_append(start, desk_identity_frame_ops(), avatar_ops(40));
    }
    let ghost s2 = c@;
    c.blend(20, 76, 40, 20, 0xFFFFFF, 25);
    let ghost s3 = c@;
    if user_name.len() != 0 {
        match crate::bytes::str_from_utf8(user_name) {
            Some(_) => {
                c.op(
                    DrawOp::Slice {
                        x: 36,
                        y: 88,
                        bytes: user_name,
                        from: 0,
                        to: 1,
                        color: TEXT_WHITE,
                        size: TextSize::Large,
                        clip: None,
                    },
                );
                c.op(
                    DrawOp::Slice {
                        x: 68,
                        y: 82,
                        bytes: user_name,
                        from: 0,
                        to: user_name.len(),
                        color: TEXT_WHITE,
                        size: TextSize::Large,
                        clip: None,
                    },
                );
                c.text(68, 100, "Sovereign", 0x44446A);
            },
            None => {},
        }
    } else {
        c.text16(36, 88, "E", TEXT_WHITE);
        c.text16(68, 82, "Edison", TEXT_WHITE);
        c.text(68, 100, "Sovereign", 0x44446A);
    }
    assert(c@ =~= s3 + desk_user_ops(user_name));
    assert(c@ =~= start + desk_identity_ops(user_name));
}

/// The label of space `i`.
pub open spec fn space_label(i: int) -> &'static str {
    if i == 0 {
        "Desktop"
    } else if i == 1 {
        "Files"
    } else if i == 2 {
        "Onyxia"
    } else {
        "EdisonDB"
    }
}

/// Space `i`'s row at `sy`, highlighted when it is the active space.
pub open spec fn space_ops<'a>(i: int, sy: u32, active: bool) -> Seq<DrawOp<'a>> {
    let label = space_label(i);
    if active {
        seq![
            DrawOp::Rect { x: 16, y: sy, w: (PANEL_W - 16) as u32, h: 22, color: PLUM_GLOW },
            DrawOp::Blend { x: 16, y: sy, w: (PANEL_W - 16) as u32, h: 22, fg: 0x000000, alpha: 180 },
            DrawOp::Rect { x: 24, y: (sy + 5) as u32, w: 3, h: 12, color: PLUM_GLOW },
            DrawOp::Text { x: 34, y: (sy + 13) as u32, text: label, color: TEXT_WHITE, size: TextSize::Small, clip: None },
        ]
    } else {
        seq![
            DrawOp::Rect { x: 24, y: (sy + 6) as u32, w: 3, h: 10, color: 0x33334A },
            DrawOp::Text { x: 34, y: (sy + 13) as u32, text: label, color: 0x55556A, size: TextSize::Small, clip: None },
        ]
    }
}

fn space_row<'a>(c: &mut Canvas<'a>, i: u32, sy: u32, label: &'static str, active: bool)
    requires
        i < 4,
        label == space_label(i as int),
        sy < 1000,
    ensures
        final(c)@ == old(c)@ + space_ops(i as int, sy, active),
{
    let ghost start = c@;
    if active {
        c.rect(16, sy, PANEL_W - 16, 22, PLUM_GLOW);
        c.blend(16, sy, PANEL_W - 16, 22, 0x000000, 180);
        c.rect(24, sy + 5, 3, 12, PLUM_GLOW);
        c.text(34, sy + 13, label, TEXT_WHITE);
    } else {
        c.rect(24, sy + 6, 3, 10, 0x33334A);
        c.text(34, sy + 13, label, 0x55556A);
    }
    assert(c@ =~= start + space_ops(i as int, sy, active));
}

/// The spaces list and the BASTION status lights.
pub open spec fn desk_spaces_ops<'a>(active_space: u8, edb_live: bool, desktop_ok: bool, proof_value: u64) -> Seq<DrawOp<'a>> {
    let pol_col: u32 = if edb_live { ACCENT_TEAL } else { 0x444444 };
    let desk_col: u32 = if desktop_ok { ACCENT_TEAL } else { 0x444444 };
    let proof_col: u32 = if proof_value == 0x4153 { PLUM_GLOW } else { 0x444444 };
    seq![
        DrawOp::HLine { x: 16, y: (TOP_BAR_H + 90) as u32, len: (PANEL_W - 16) as u32, color: GLASS_BORDER },
        DrawOp::Text { x: 20, y: (TOP_BAR_H + 104) as u32, text: "SPACES", color: 0x44446A, size: TextSize::Large, clip: None },
    ] + space_ops(0, (TOP_BAR_H + 116) as u32, active_space == 0) + space_ops(
        1,
        (TOP_BAR_H + 142) as u32,
        active_space == 1,
    ) + space_ops(2, (TOP_BAR_H + 162) as u32, active_space == 2) + space_ops(3, (TOP_BAR_H + 182) as u32, active_space == 3)
        + seq![
            DrawOp::HLine { x: 16, y: (TOP_BAR_H + 218) as u32, len: (PANEL_W - 16) as u32, color: GLASS_BORDER },
            DrawOp::Text { x: 24, y: (TOP_BAR_H + 234) as u32, text: "BASTION STATUS", color: 0x44446A, size: TextSize::Small, clip: None },
            DrawOp::Rect { x: 24, y: (TOP_BAR_H + 256) as u32, w: 8, h: 8, color: pol_col },
            DrawOp::Text { x: 36, y: (TOP_BAR_H + 256) as u32, text: "Policy active", color: 0x888899, size: TextSize::Small, clip: None },
            DrawOp::Rect { x: 24, y: (TOP_BAR_H + 272) as u32, w: 8, h: 8, color: desk_col },
            DrawOp::Text { x: 36, y: (TOP_BAR_H + 272) as u32, text: "Desktop ready", color: 0x888899, size: TextSize::Small, clip: None },
            DrawOp::Rect { x: 24, y: (TOP_BAR_H + 288) as u32, w: 8, h: 8, color: proof_col },
            DrawOp::Text { x: 36, y: (TOP_BAR_H + 288) as u32, text: "Proof 0x4153", color: 0x888899, size: TextSize::Small, clip: None },
        ]
}

#[verifier::rlimit(30)]
fn desk_spaces<'a>(c: &mut Canvas<'a>, active_space: u8, edb_live: bool, desktop_ok: bool, proof_value: u64)
    ensures
        final(c)@ == old(c)@ + desk_spaces_ops(active_space, edb_live, desktop_ok, proof_value),
{
    let ghost start = c@;
    c.hline(16, TOP_BAR_H + 90, PANEL_W - 16, GLASS_BORDER);
    c.text16(20, TOP_BAR_H + 104, "SPACES", 0x44446A);
    let ghost g = seq![
        DrawOp::HLine { x: 16, y: (TOP_BAR_H + 90) as u32, len: (PANEL_W - 16) as u32, color: GLASS_BORDER },
        DrawOp::Text { x: 20, y: (TOP_BAR_H + 104) as u32, text: "SPACES", color: 0x44446A, size: TextSize::Large, clip: None },
    ];
    assert(c@ =~= start + g);
    let ghost p0 = space_ops(0, (TOP_BAR_H + 116) as u32, active_space == 0);
    let ghost p1 = space_ops(1, (TOP_BAR_H + 142) as u32, active_space == 1);
    let ghost p2 = space_ops(2, (TOP_BAR_H + 162) as u32, active_space == 2);
    let ghost p3 = space_ops(3, (TOP_BAR_H + 182) as u32, active_space == 3);
    space_row(c, 0, TOP_BAR_H + 116, "Desktop", active_space == 0);
    proof {
        lemma_append(start, g, p0);
    }
    space_row(c, 1, TOP_BAR_H + 142, "Files", active_space == 1);
    proof {
        lemma_append(start, g + p0, p1);
    }
    space_row(c, 2, TOP_BAR_H + 162, "Onyxia", active_space == 2);
    proof {
        lemma_append(start, g + p0 + p1, p2);
    }
    space_row(c, 3, TOP_BAR_H + 182, "EdisonDB", active_space == 3);
    proof {
        lemma_append(start, g + p0 + p1 + p2, p3);
    }
    let ghost s4 = c@;
    let pol_col: u32 = if edb_live {
        ACCENT_TEAL
    } else {
        0x444444
    };
    let desk_col: u32 = if desktop_ok {
        ACCENT_TEAL
    } else {
        0x444444
    };
    let proof_col: u32 = if proof_value == 0x4153 {
        PLUM_GLOW
    } else {
        0x444444
    };
    c.hline(16, TOP_BAR_H + 218, PANEL_W - 16, GLASS_BORDER);
    c.text(24, TOP_BAR_H + 234, "BASTION STATUS", 0x44446A);
    c.rect(24, TOP_BAR_H + 256, 8, 8, pol_col);
    c.text(36, TOP_BAR_H + 256, "Policy active", 0x888899);
    c.rect(24, TOP_BAR_H + 272, 8, 8, desk_col);
    c.text(36, TOP_BAR_H + 272, "Desktop ready", 0x888899);
    c.rect(24, TOP_BAR_H + 288, 8, 8, proof_col);
    c.text(36, TOP_BAR_H + 288, "Proof 0x4153", 0x888899);
    let ghost hh = seq![
        DrawOp::HLine { x: 16, y: (TOP_BAR_H + 218) as u32, len: (PANEL_W - 16) as u32, color: GLASS_BORDER },
        DrawOp::Text { x: 24, y: (TOP_BAR_H + 234) as u32, text: "BASTION STATUS", color: 0x44446A, size: TextSize::Small, clip: None },
        DrawOp::Rect { x: 24, y: (TOP_BAR_H + 256) as u32, w: 8, h: 8, color: pol_col },
        DrawOp::Text { x: 36, y: (TOP_BAR_H + 256) as u32, text: "Policy active", color: 0x888899, size: TextSize::Small, clip: None },
        DrawOp::Rect { x: 24, y: (TOP_BAR_H + 272) as u32, w: 8, h: 8, color: desk_col },
        DrawOp::Text { x: 36, y: (TOP_BAR_H + 272) as u32, text: "Desktop ready", color: 0x888899, size: TextSize::Small, clip: None },
        DrawOp::Rect { x: 24, y: (TOP_BAR_H + 288) as u32, w: 8, h: 8, color: proof_col },
        DrawOp::Text { x: 36, y: (TOP_BAR_H + 288) as u32, text: "Proof 0x4153", color: 0x888899, size: TextSize::Small, clip: None },
    ];
    assert(c@ =~= s4 + hh);
    proof {
        lemma_append(start, g + p0 + p1 + p2 + p3, hh);
    }
}

/// The right panel: system icons, resource gauges, network status.
pub open spec fn desk_system_ops<'a>(edb_live: bool) -> Seq<DrawOp<'a>> {
    let awp_col: u32 = if edb_live { ACCENT_TEAL } else { 0x444444 };
    seq![
        DrawOp::RoundedRect { x: RX, y: (TOP_BAR_H + 8) as u32, w: PANEL_W, h: (720 - TOP_BAR_H - DOCK_H - 16) as u32, r: 8, color: GLASS_PANEL },
        DrawOp::RoundedBorder { x: RX, y: (TOP_BAR_H + 8) as u32, w: PANEL_W, h: (720 - TOP_BAR_H - DOCK_H - 16) as u32, r: 8, color: GLASS_BORDER },
        DrawOp::HLine { x: (RX + 1) as u32, y: (TOP_BAR_H + 9) as u32, len: (PANEL_W - 2) as u32, color: 0x3A3860 },
        DrawOp::Text { x: (RX + 12) as u32, y: (TOP_BAR_H + 24) as u32, text: "SYSTEM", color: 0x44446A, size: TextSize::Large, clip: None },
    ] + seq![
        DrawOp::Blend { x: (RX + 10 + 0) as u32, y: (TOP_BAR_H + 38 + 0) as u32, w: 36, h: 36, fg: 0x000000, alpha: 40 },
        DrawOp::Icon { id: 1, x: (RX + 10 + 0) as u32, y: (TOP_BAR_H + 38 + 0) as u32 },
        DrawOp::Blend { x: (RX + 10 + 42) as u32, y: (TOP_BAR_H + 38 + 0) as u32, w: 36, h: 36, fg: 0x000000, alpha: 40 },
        DrawOp::Icon { id: 3, x: (RX + 10 + 42) as u32, y: (TOP_BAR_H + 38 + 0) as u32 },
        DrawOp::Blend { x: (RX + 10 + 84) as u32, y: (TOP_BAR_H + 38 + 0) as u32, w: 36, h: 36, fg: 0x000000, alpha: 40 },
        DrawOp::Icon { id: 2, x: (RX + 10 + 84) as u32, y: (TOP_BAR_H + 38 + 0) as u32 },
        DrawOp::Blend { x: (RX + 10 + 0) as u32, y: (TOP_BAR_H + 38 + 42) as u32, w: 36, h: 36, fg: 0x000000, alpha: 40 },
        DrawOp::Icon { id: 4, x: (RX + 10 + 0) as u32, y: (TOP_BAR_H + 38 + 42) as u32 },
        DrawOp::Blend { x: (RX + 10 + 42) as u32, y: (TOP_BAR_H + 38 + 42) as u32, w: 36, h: 36, fg: 0x000000, alpha: 40 },
        DrawOp::Icon { id: 5, x: (RX + 10 + 42) as u32, y: (TOP_BAR_H + 38 + 42) as u32 },
        DrawOp::Blend { x: (RX + 10 + 84) as u32, y: (TOP_BAR_H + 38 + 42) as u32, w: 36, h: 36, fg: 0x000000, alpha: 40 },
        DrawOp::Icon { id: 6, x: (RX + 10 + 84) as u32, y: (TOP_BAR_H + 38 + 42) as u32 },
    ] + seq![
        DrawOp::HLine { x: (RX + 8) as u32, y: (TOP_BAR_H + 138) as u32, len: (PANEL_W - 16) as u32, color: GLASS_BORDER },
        DrawOp::Text { x: (RX + 16) as u32, y: (TOP_BAR_H + 156) as u32, text: "RESOURCES", color: 0x44446A, size: TextSize::Small, clip: None },
        DrawOp::Text { x: (RX + 16) as u32, y: (TOP_BAR_H + 172) as u32, text: "CPU", color: 0x888899, size: TextSize::Small, clip: None },
        DrawOp::Text { x: (RX + PANEL_W - 36) as u32, y: (TOP_BAR_H + 172) as u32, text: "30%", color: 0x888899, size: TextSize::Small, clip: None },
        DrawOp::Rect { x: (RX + 16) as u32, y: (TOP_BAR_H + 182) as u32, w: (PANEL_W - 48) as u32, h: 5, color: 0x22224A },
        DrawOp::Rect { x: (RX + 16) as u32, y: (TOP_BAR_H + 182) as u32, w: ((PANEL_W - 48) * 30 / 100) as u32, h: 5, color: PLUM_GLOW },
        DrawOp::Text { x: (RX + 16) as u32, y: (TOP_BAR_H + 194) as u32, text: "MEM", color: 0x888899, size: TextSize::Small, clip: None },
        DrawOp::Text { x: (RX + PANEL_W - 36) as u32, y: (TOP_BAR_H + 194) as u32, text: "55%", color: 0x888899, size: TextSize::Small, clip: None },
        DrawOp::Rect { x: (RX + 16) as u32, y: (TOP_BAR_H + 204) as u32, w: (PANEL_W - 48) as u32, h: 5, color: 0x22224A },
        DrawOp::Rect { x: (RX + 16) as u32, y: (TOP_BAR_H + 204) as u32, w: ((PANEL_W - 48) * 55 / 100) as u32, h: 5, color: ACCENT_TEAL },
        DrawOp::HLine { x: (RX + 8) as u32, y: (TOP_BAR_H + 218) as u32, len: (PANEL_W - 16) as u32, color: GLASS_BORDER },
        DrawOp::Text { x: (RX + 16) as u32, y: (TOP_BAR_H + 234) as u32, text: "NETWORK", color: 0x44446A, size: TextSize::Small, clip: None },
        DrawOp::RoundedRect { x: (RX + 16) as u32, y: (TOP_BAR_H + 248) as u32, w: 8, h: 8, r: 4, color: awp_col },
        DrawOp::Text { x: (RX + 30) as u32, y: (TOP_BAR_H + 256) as u32, text: "AWP mesh active", color: 0x888899, size: TextSize::Small, clip: None },
        DrawOp::Text { x: (RX + 16) as u32, y: (TOP_BAR_H + 270) as u32, text: "0 peers · local only", color: 0x444466, size: TextSize::Small, clip: None },
    ]
}

fn desk_system<'a>(c: &mut Canvas<'a>, edb_live: bool)
    ensures
        final(c)@ == old(c)@ + desk_system_ops(edb_live),
{
    let ghost start = c@;
    c.rounded(RX, TOP_BAR_H + 8, PANEL_W, 720 - TOP_BAR_H - DOCK_H - 16, 8, GLASS_PANEL);
    c.rounded_border(RX, TOP_BAR_H + 8, PANEL_W, 720 - TOP_BAR_H - DOCK_H - 16, 8, GLASS_BORDER);
    c.hline(RX + 1, TOP_BAR_H + 9, PANEL_W - 2, 0x3A3860);
    c.text16(RX + 12, TOP_BAR_H + 24, "SYSTEM", 0x44446A);
    let ghost s1 = c@;
    c.blend(RX + 10 + 0, TOP_BAR_H + 38 + 0, 36, 36, 0x000000, 40);
    c.op(DrawOp::Icon { id: 1, x: RX + 10 + 0, y: TOP_BAR_H + 38 + 0 });
    c.blend(RX + 10 + 42, TOP_BAR_H + 38 + 0, 36, 36, 0x000000, 40);
    c.op(DrawOp::Icon { id: 3, x: RX + 10 + 42, y: TOP_BAR_H + 38 + 0 });
    c.blend(RX + 10 + 84, TOP_BAR_H + 38 + 0, 36, 36, 0x000000, 40);
    c.op(DrawOp::Icon { id: 2, x: RX + 10 + 84, y: TOP_BAR_H + 38 + 0 });
    c.blend(RX + 10 + 0, TOP_BAR_H + 38 + 42, 36, 36, 0x000000, 40);
    c.op(DrawOp::Icon { id: 4, x: RX + 10 + 0, y: TOP_BAR_H + 38 + 42 });
    c.blend(RX + 10 + 42, TOP_BAR_H + 38 + 42, 36, 36, 0x000000, 40);
    c.op(DrawOp::Icon { id: 5, x: RX + 10 + 42, y: TOP_BAR_H + 38 + 42 });
    c.blend(RX + 10 + 84, TOP_BAR_H + 38 + 42, 36, 36, 0x000000, 40);
    c.op(DrawOp::Icon { id: 6, x: RX + 10 + 84, y: TOP_BAR_H + 38 + 42 });
    let ghost s2 = c@;
    let awp_col: u32 = if edb_live {
        ACCENT_TEAL
    } else {
        0x444444
    };
    c.hline(RX + 8, TOP_BAR_H + 138, PANEL_W - 16, GLASS_BORDER);
    c.text(RX + 16, TOP_BAR_H + 156, "RESOURCES", 0x44446A);
    c.text(RX + 16, TOP_BAR_H + 172, "CPU", 0x888899);
    c.text(RX + PANEL_W - 36, TOP_BAR_H + 172, "30%", 0x888899);
    c.rect(RX + 16, TOP_BAR_H + 182, PANEL_W - 48, 5, 0x22224A);
    c.rect(RX + 16, TOP_BAR_H + 182, (PANEL_W - 48) * 30 / 100, 5, PLUM_GLOW);
    c.text(RX + 16, TOP_BAR_H + 194, "MEM", 0x888899);
    c.text(RX + PANEL_W - 36, TOP_BAR_H + 194, "55%", 0x888899);
    c.rect(RX + 16, TOP_BAR_H + 204, PANEL_W - 48, 5, 0x22224A);
    c.rect(RX + 16, TOP_BAR_H + 204, (PANEL_W - 48) * 55 / 100, 5, ACCENT_TEAL);
    c.hline(RX + 8, TOP_BAR_H + 218, PANEL_W - 16, GLASS_BORDER);
    c.text(RX + 16, TOP_BAR_H + 234, "NETWORK", 0x44446A);
    c.rounded(RX + 16, TOP_BAR_H + 248, 8, 8, 4, awp_col);
    c.text(RX + 30, TOP_BAR_H + 256, "AWP mesh active", 0x888899);
    c.text(RX + 16, TOP_BAR_H + 270, "0 peers · local only", 0x444466);
    assert(c@ =~= start + desk_system_ops(edb_live));
}

/// The whole desktop: backdrop, stars, logo, identity panel, spaces and
/// status, system panel; the logo is `logo_w` x `logo_h` pixels.
pub open spec fn desktop_ops<'a>(state: &'a DesktopState, logo_w: u32, logo_h: u32) -> Seq<DrawOp<'a>> {
    desk_sky_ops() + desk_stars_ops() + desk_dust_ops() + desk_logo_ops(logo_w, logo_h) + desk_identity_ops(
        state.user_name,
    ) + desk_spaces_ops(state.active_space, state.edb_live, state.desktop_ok, state.proof) + desk_system_ops(
        state.edb_live,
    )
}

/// The desktop behind the windows, for a pixel logo of `logo_w` x `logo_h`.
pub fn render_desktop<'a>(c: &mut Canvas<'a>, state: &'a DesktopState, logo_w: u32, logo_h: u32)
    requires
        logo_w <= 1280,
        logo_h <= 1000,
        state.user_name@.len() != 0 && vstd::utf8::valid_utf8(state.user_name@) ==> state.user_name@[0] < 0x80,
    ensures
        final(c)@ == old(c)@ + desktop_ops(state, logo_w, logo_h),
{
    let ghost start = c@;
    desk_sky(c);
    desk_stars(c);
    proof {
        lemma_append(start, desk_sky_ops(), desk_stars_ops());
    }
    desk_dust(c);
    proof {
        lemma_append(start, desk_sky_ops() + desk_stars_ops(), desk_dust_ops());
    }
    desk_logo(c, logo_w, logo_h);
    proof {
        lemma_append(start, desk_sky_ops() + desk_stars_ops() + desk_dust_ops(), desk_logo_ops(logo_w, logo_h));
    }
    desk_identity(c, state.user_name);
    proof {
        lemma_append(
            start,
            desk_sky_ops() + desk_stars_ops() + desk_dust_ops() + desk_logo_ops(logo_w, logo_h),
            desk_identity_ops(state.user_name),
        );
    }
    desk_spaces(c, state.active_space, state.edb_live, state.desktop_ok, state.proof);
    proof {
        lemma_append(
            start,
            desk_sky_ops() + desk_stars_ops() + desk_dust_ops() + desk_logo_ops(logo_w, logo_h) + desk_identity_ops(
                state.user_name,
            ),
            desk_spaces_ops(state.active_space, state.edb_live, state.desktop_ok, state.proof),
        );
    }
    desk_system(c, state.edb_live);
    proof {
        lemma_append(
            start,
            desk_sky_ops() + desk_stars_ops() + desk_dust_ops() + desk_logo_ops(logo_w, logo_h) + desk_identity_ops(
                state.user_name,
            ) + desk_spaces_ops(state.active_space, state.edb_live, state.desktop_ok, state.proof),
            desk_system_ops(state.edb_live),
        );
    }
}
/// Colour of a process state letter.
pub open spec fn state_color(ch: u8) -> u32 {
    if ch == 82 {
        ACCENT_TEAL
    } else if ch == 87 {
        ACCENT_AMBER
    } else if ch == 66 {
        0x6666AA
    } else if ch == 68 {
        0x664444
    } else {
        TEXT_DIM
    }
}

/// The state column's text: `R`, `W`, `B`, `D`, or `?`.
pub open spec fn state_label(ch: u8) -> &'static str {
    if ch == 82 {
        "R"
    } else if ch == 87 {
        "W"
    } else if ch == 66 {
        "B"
    } else if ch == 68 {
        "D"
    } else {
        "?"
    }
}

fn state_style(ch: u8) -> (r: (&'static str, u32))
    ensures
        r == (state_label(ch), state_color(ch)),
{
    if ch == 82 {
        ("R", ACCENT_TEAL)
    } else if ch == 87 {
        ("W", ACCENT_AMBER)
    } else if ch == 66 {
        ("B", 0x6666AA)
    } else if ch == 68 {
        ("D", 0x664444)
    } else {
        ("?", TEXT_DIM)
    }
}

/// Process rows that fit: at most `count`, at most the slots given, at most
/// what the body holds.
pub open spec fn pw_max_rows(h: u32) -> int {
    if h > 64 { (h - 64) / 16 } else { 0 }
}

pub open spec fn pw_rows_shown(h: u32, count: usize, len: int) -> int {
    let m = pw_max_rows(h);
    let a = if count < m { count as int } else { m };
    if a < len { a } else { len }
}

/// Row `row` of the process table, showing `s`.
pub open spec fn pw_row_ops<'a>(wx_u: u32, w: u32, body_top: u32, s: ProcSlot, row: int) -> Seq<DrawOp<'a>> {
    let ry = (body_top + row * 16) as u32;
    let running = s.state_ch == 82;
    let pid_col: u32 = if running { ACCENT_TEAL } else { TEXT_DIM };
    let name_col: u32 = if running { TEXT_WHITE } else { 0x9999BB };
    (if running {
        seq![
            DrawOp::Rect { x: (wx_u + 2) as u32, y: ry, w: (w - 4) as u32, h: 15, color: 0x0A1A12 },
        ]
    } else {
        Seq::empty()
    }) + seq![
        DrawOp::Short { x: (wx_u + 8) as u32, y: (ry + 4) as u32, chars: ((48 + s.pid / 10) as u8, (48 + s.pid % 10) as u8, 0u8, 0u8), count: 2, color: pid_col },
        DrawOp::ProcName { x: (wx_u + 36) as u32, y: (ry + 4) as u32, proc_name: s.name, name_len: s.name_len, color: name_col, clip_x: (wx_u + 184) as u32 },
        DrawOp::Text { x: (wx_u + 188) as u32, y: (ry + 4) as u32, text: state_label(s.state_ch), color: state_color(s.state_ch), size: TextSize::Small, clip: None },
        DrawOp::Short { x: (wx_u + 210) as u32, y: (ry + 4) as u32, chars: ((48 + s.priority / 100) as u8, (48 + s.priority / 10 % 10) as u8, (48 + s.priority % 10) as u8, 0u8), count: 3, color: TEXT_DIM },
        DrawOp::Hex32 { x: (wx_u + 248) as u32, y: (ry + 4) as u32, value: s.ticks as u32, color: TEXT_DIM },
        DrawOp::Hex32 { x: (wx_u + 346) as u32, y: (ry + 4) as u32, value: s.yields, color: TEXT_DIM },
    ]
}

pub open spec fn pw_rows_ops<'a>(wx_u: u32, w: u32, body_top: u32, ss: Seq<ProcSlot>, n: int) -> Seq<DrawOp<'a>>
    decreases n,
{
    if n <= 0 {
        Seq::empty()
    } else {
        pw_rows_ops(wx_u, w, body_top, ss, n - 1) + pw_row_ops(wx_u, w, body_top, ss[n - 1], n - 1)
    }
}

/// The process window's header row and body background.
pub open spec fn pw_head_ops<'a>(wx_u: u32, w: u32, hdr_y: u32, body_fill: u32, tick_total: u64) -> Seq<DrawOp<'a>> {
    let sep_y = (hdr_y + 14) as u32;
    let body_top = (sep_y + 2) as u32;
    seq![
        DrawOp::Rect { x: (wx_u + 1) as u32, y: hdr_y, w: (w - 2) as u32, h: 14, color: 0x0A0A1A },
        DrawOp::Text { x: (wx_u + 8) as u32, y: (hdr_y + 4) as u32, text: "PID", color: TEXT_DIM, size: TextSize::Small, clip: None },
        DrawOp::Text { x: (wx_u + 36) as u32, y: (hdr_y + 4) as u32, text: "NAME", color: TEXT_DIM, size: TextSize::Small, clip: None },
        DrawOp::Text { x: (wx_u + 188) as u32, y: (hdr_y + 4) as u32, text: "ST", color: TEXT_DIM, size: TextSize::Small, clip: None },
        DrawOp::Text { x: (wx_u + 210) as u32, y: (hdr_y + 4) as u32, text: "PRI", color: TEXT_DIM, size: TextSize::Small, clip: None },
        DrawOp::Text { x: (wx_u + 248) as u32, y: (hdr_y + 4) as u32, text: "TICKS", color: TEXT_DIM, size: TextSize::Small, clip: None },
        DrawOp::Text { x: (wx_u + 346) as u32, y: (hdr_y + 4) as u32, text: "YIELDS", color: TEXT_DIM, size: TextSize::Small, clip: None },
        DrawOp::Text { x: (wx_u + w - 120) as u32, y: (hdr_y + 4) as u32, text: "tick:", color: TEXT_DIM, size: TextSize::Small, clip: None },
        DrawOp::Hex32 { x: (wx_u + w - 84) as u32, y: (hdr_y + 4) as u32, value: tick_total as u32, color: ACCENT_TEAL },
        DrawOp::HLine { x: (wx_u + 4) as u32, y: sep_y, len: (w - 8) as u32, color: PANEL_BORDER },
        DrawOp::Rect { x: (wx_u + 1) as u32, y: body_top, w: (w - 2) as u32, h: body_fill, color: WIN_BG },
    ]
}

fn pw_head<'a>(c: &mut Canvas<'a>, wx_u: u32, w: u32, hdr_y: u32, body_fill: u32, tick_total: u64)
    requires
        w >= 130,
        wx_u + 400 <= u32::MAX,
        wx_u + w <= u32::MAX,
        hdr_y + 20 <= u32::MAX,
    ensures
        final(c)@ == old(c)@ + pw_head_ops(wx_u, w, hdr_y, body_fill, tick_total),
{
    let ghost start = c@;
    let sep_y = hdr_y + 14;
    let body_top = sep_y + 2;
    c.rect(wx_u + 1, hdr_y, w - 2, 14, 0x0A0A1A);
    c.text(wx_u + 8, hdr_y + 4, "PID", TEXT_DIM);
    c.text(wx_u + 36, hdr_y + 4, "NAME", TEXT_DIM);
    c.text(wx_u + 188, hdr_y + 4, "ST", TEXT_DIM);
    c.text(wx_u + 210, hdr_y + 4, "PRI", TEXT_DIM);
    c.text(wx_u + 248, hdr_y + 4, "TICKS", TEXT_DIM);
    c.text(wx_u + 346, hdr_y + 4, "YIELDS", TEXT_DIM);
    c.text(wx_u + w - 120, hdr_y + 4, "tick:", TEXT_DIM);
    c.hex32(wx_u + w - 84, hdr_y + 4, tick_total as u32, ACCENT_TEAL);
    c.hline(wx_u + 4, sep_y, w - 8, PANEL_BORDER);
    c.rect(wx_u + 1, body_top, w - 2, body_fill, WIN_BG);
    assert(c@ =~= start + pw_head_ops(wx_u, w, hdr_y, body_fill, tick_total));
}

/// The process window's body.
pub open spec fn proc_window_ops<'a>(wx: i32, wy: i32, w: u32, h: u32, ss: Seq<ProcSlot>, count: usize, tick_total: u64) -> Seq<DrawOp<'a>> {
    let wx_u = wx as u32;
    let wy_u = wy as u32;
    let hdr_y = (wy_u + 28) as u32;
    let sep_y = (hdr_y + 14) as u32;
    let body_top = (sep_y + 2) as u32;
    let m = pw_max_rows(h);
    let fill = m * 16 + 4;
    let body_fill = (if fill < sat_sub(h, 44) { fill } else { sat_sub(h, 44) as int }) as u32;
    let foot_y = (wy_u + h - 18) as u32;
    pw_head_ops(wx_u, w, hdr_y, body_fill, tick_total) + pw_rows_ops(wx_u, w, body_top, ss, pw_rows_shown(h, count, ss.len() as int)) + (if count == 0 {
        seq![
            DrawOp::Text {
                x: (wx_u + 12) as u32,
                y: (body_top + 6) as u32,
                text: "[no processes registered]",
                color: TEXT_DIM,
                size: TextSize::Small,
                clip: None,
            },
        ]
    } else {
        Seq::empty()
    }) + seq![
        DrawOp::HLine { x: (wx_u + 4) as u32, y: (foot_y - 2) as u32, len: (w - 8) as u32, color: PANEL_BORDER },
        DrawOp::Text { x: (wx_u + 8) as u32, y: (foot_y + 2) as u32, text: "PL-62 cooperative scheduler", color: TEXT_DIM, size: TextSize::Small, clip: None },
        DrawOp::Text { x: (wx_u + w - 130) as u32, y: (foot_y + 2) as u32, text: "R=run W=wait B=blk D=dead", color: 0x333355, size: TextSize::Small, clip: None },
        DrawOp::Rect { x: (wx_u + w - 12) as u32, y: (foot_y + 6) as u32, w: 12, h: 12, color: ACCENT_TEAL },
        DrawOp::Rect { x: (wx_u + w - 8) as u32, y: (foot_y + 10) as u32, w: 4, h: 4, color: TEXT_WHITE },
    ]
}

fn pw_rows<'a>(c: &mut Canvas<'a>, wx_u: u32, w: u32, body_top: u32, slots: &'a [ProcSlot], n: usize)
    requires
        n <= slots@.len(),
        w >= 4,
        wx_u + 400 <= u32::MAX,
        body_top + n * 16 + 16 <= u32::MAX,
        forall|i: int| 0 <= i < n ==> (#[trigger] slots@[i]).name_len <= 16,
    ensures
        final(c)@ == old(c)@ + pw_rows_ops(wx_u, w, body_top, slots@, n as int),
{
    let ghost start = c@;
    let mut row: usize = 0;
    while row < n
        invariant
            row <= n,
            n <= slots@.len(),
            w >= 4,
            wx_u + 400 <= u32::MAX,
            body_top + n * 16 + 16 <= u32::MAX,
            c@ == start + pw_rows_ops(wx_u, w, body_top, slots@, row as int),
        decreases n - row,
    {
        let s = &slots[row];
        assert(row * 16 + 16 <= n * 16) by (nonlinear_arith)
            requires
                row < n,
        ;
        let ry = body_top + row as u32 * 16;
        let ghost before = c@;
        let running = s.state_ch == 82;
        if running {
            c.rect(wx_u + 2, ry, w - 4, 15, 0x0A1A12);
        }
        let pid_col: u32 = if running {
            ACCENT_TEAL
        } else {
            TEXT_DIM
        };
        let name_col: u32 = if running {
            TEXT_WHITE
        } else {
            0x9999BB
        };
        c.short(wx_u + 8, ry + 4, (48u8 + s.pid / 10, 48u8 + s.pid % 10, 0u8, 0u8), 2, pid_col);
        c.op(
            DrawOp::ProcName {
                x: wx_u + 36,
                y: ry + 4,
                proc_name: s.name,
                name_len: s.name_len,
                color: name_col,
                clip_x: wx_u + 184,
            },
        );
        let (st_str, st_col) = state_style(s.state_ch);
        c.text(wx_u + 188, ry + 4, st_str, st_col);
        c.short(
            wx_u + 210,
            ry + 4,
            (48u8 + s.priority / 100, 48u8 + s.priority / 10 % 10, 48u8 + s.priority % 10, 0u8),
            3,
            TEXT_DIM,
        );
        c.hex32(wx_u + 248, ry + 4, s.ticks as u32, TEXT_DIM);
        c.hex32(wx_u + 346, ry + 4, s.yields, TEXT_DIM);
        assert(c@ =~= before + pw_row_ops(wx_u, w, body_top, slots@[row as int], row as int));
        row = row + 1;
    }
}

/// What the process window needs of its arguments.
pub open spec fn proc_window_ok(wx: i32, wy: i32, w: u32, h: u32, ss: Seq<ProcSlot>, count: usize) -> bool {
    &&& (wx as u32) + 400 <= u32::MAX
    &&& (wx as u32) + w <= u32::MAX
    &&& w >= 130
    &&& 0 <= wy
    &&& h <= i32::MAX
    &&& wy + h <= i32::MAX
    &&& wy + 64 <= i32::MAX
    &&& wy + h >= 20
    &&& forall|i: int| 0 <= i < pw_rows_shown(h, count, ss.len() as int) ==> (#[trigger] ss[i]).name_len <= 16
}

/// The process window (window kind 8): a table of PID, name, state,
/// priority, ticks and yields, one row per slot that fits, with the global
/// tick counter in the header.
#[verifier::rlimit(40)]
pub fn render_proc_window<'a>(
    c: &mut Canvas<'a>,
    wx: i32,
    wy: i32,
    w: u32,
    h: u32,
    slots: &'a [ProcSlot],
    count: usize,
    tick_total: u64,
)
    requires
        proc_window_ok(wx, wy, w, h, slots@, count),
    ensures
        final(c)@ == old(c)@ + proc_window_ops(wx, wy, w, h, slots@, count, tick_total),
{
    let ghost start = c@;
    let wx_u = wx as u32;
    let wy_u = wy as u32;
    let hdr_y = wy_u + 28;
    let sep_y = hdr_y + 14;
    let body_top = sep_y + 2;
    let max_rows: usize = if h > (body_top - wy_u) + 20 {
        ((h - (body_top - wy_u) - 20) / 16) as usize
    } else {
        0
    };
    assert(max_rows == pw_max_rows(h));
    let fill = max_rows as u32 * 16 + 4;
    let room = h.saturating_sub(body_top - wy_u);
    let body_fill = if fill < room {
        fill
    } else {
        room
    };
    pw_head(c, wx_u, w, hdr_y, body_fill, tick_total);
    let ghost hd = pw_head_ops(wx_u, w, hdr_y, body_fill, tick_total);
    let a = if count < max_rows {
        count
    } else {
        max_rows
    };
    let n = if a < slots.len() {
        a
    } else {
        slots.len()
    };
    assert(n == 0 || n * 16 + 64 <= h) by (nonlinear_arith)
        requires
            n <= max_rows,
            max_rows == (if h > 64 { (h - 64) / 16 } else { 0 }),
    ;
    pw_rows(c, wx_u, w, body_top, slots, n);
    let ghost rr = pw_rows_ops(wx_u, w, body_top, slots@, n as int);
    proof {
        lemma_append(start, hd, rr);
    }
    let ghost s2 = c@;
    if count == 0 {
        c.text(wx_u + 12, body_top + 6, "[no processes registered]", TEXT_DIM);
    }
    let ghost em: Seq<DrawOp<'a>> = if count == 0 {
        seq![
            DrawOp::Text {
                x: (wx_u + 12) as u32,
                y: (body_top + 6) as u32,
                text: "[no processes registered]",
                color: TEXT_DIM,
                size: TextSize::Small,
                clip: None,
            },
        ]
    } else {
        Seq::empty()
    };
    assert(c@ =~= s2 + em);
    proof {
        lemma_append(start, hd + rr, em);
    }
    let ghost s3 = c@;
    let foot_y = wy_u + h - 18;
    c.hline(wx_u + 4, foot_y - 2, w - 8, PANEL_BORDER);
    c.text(wx_u + 8, foot_y + 2, "PL-62 cooperative scheduler", TEXT_DIM);
    c.text(wx_u + w - 130, foot_y + 2, "R=run W=wait B=blk D=dead", 0x333355);
    c.rect(wx_u + w - 12, foot_y + 6, 12, 12, ACCENT_TEAL);
    c.rect(wx_u + w - 8, foot_y + 10, 4, 4, TEXT_WHITE);
    let ghost ft = seq![
        DrawOp::HLine { x: (wx_u + 4) as u32, y: (foot_y - 2) as u32, len: (w - 8) as u32, color: PANEL_BORDER },
        DrawOp::Text { x: (wx_u + 8) as u32, y: (foot_y + 2) as u32, text: "PL-62 cooperative scheduler", color: TEXT_DIM, size: TextSize::Small, clip: None },
        DrawOp::Text { x: (wx_u + w - 130) as u32, y: (foot_y + 2) as u32, text: "R=run W=wait B=blk D=dead", color: 0x333355, size: TextSize::Small, clip: None },
        DrawOp::Rect { x: (wx_u + w - 12) as u32, y: (foot_y + 6) as u32, w: 12, h: 12, color: ACCENT_TEAL },
        DrawOp::Rect { x: (wx_u + w - 8) as u32, y: (foot_y + 10) as u32, w: 4, h: 4, color: TEXT_WHITE },
    ];
    assert(c@ =~= s3 + ft);
    proof {
        lemma_append(start, hd + rr + em, ft);
    }
    assert(pw_rows_shown(h, count, slots@.len() as int) == n);
}
/// Accent colour of a page kind.
pub open spec fn page_tint(kind: u8) -> u32 {
    if kind == 1 {
        PLUM_GLOW
    } else if kind == 2 {
        ACCENT_TEAL
    } else if kind == 3 {
        0xA02020
    } else {
        0x181830
    }
}

/// The line begins with two bytes `b`.
pub open spec fn starts_twice(line: &str, b: u8) -> bool {
    line.spec_bytes().len() >= 2 && line.spec_bytes()[0] == b && line.spec_bytes()[1] == b
}

/// Body line `i` at `ly`: `##` lines are section heads, `>>` lines are
/// highlighted, both without their marker.
pub open spec fn haniel_line_ops<'a>(wx_u: u32, w: u32, ly: u32, line: &'a str) -> Seq<DrawOp<'a>> {
    if starts_twice(line, 35) {
        seq![
            DrawOp::TextTail { x: (wx_u + 10) as u32, y: ly, text: line, from: 2, color: ACCENT_TEAL, clip_x: (wx_u + w - 10) as u32 },
        ]
    } else if starts_twice(line, 62) {
        seq![
            DrawOp::TextTail { x: (wx_u + 14) as u32, y: ly, text: line, from: 2, color: ACCENT_AMBER, clip_x: (wx_u + w - 10) as u32 },
        ]
    } else {
        seq![
            DrawOp::Text { x: (wx_u + 14) as u32, y: ly, text: line, color: TEXT_WHITE, size: TextSize::Small, clip: Some((wx_u + w - 10) as u32) },
        ]
    }
}

pub open spec fn haniel_body_ops<'a>(wx_u: u32, w: u32, body_y0: u32, doc: &'a HanielDoc, n: int) -> Seq<DrawOp<'a>>
    decreases n,
{
    if n <= 0 {
        Seq::empty()
    } else {
        haniel_body_ops(wx_u, w, body_y0, doc, n - 1) + haniel_line_ops(
            wx_u,
            w,
            (body_y0 + (n - 1) * 16) as u32,
            doc.body@[n - 1],
        )
    }
}

pub open spec fn haniel_links_ops<'a>(wx_u: u32, w: u32, links_y0: u32, doc: &'a HanielDoc, n: int) -> Seq<DrawOp<'a>>
    decreases n,
{
    if n <= 0 {
        Seq::empty()
    } else {
        let ly = (links_y0 + (n - 1) * 15) as u32;
        let link = doc.links@[n - 1];
        haniel_links_ops(wx_u, w, links_y0, doc, n - 1) + seq![
            DrawOp::Rect { x: (wx_u + 12) as u32, y: (ly + 3) as u32, w: 4, h: 4, color: PLUM_GLOW },
            DrawOp::Text { x: (wx_u + 20) as u32, y: ly, text: link, color: PLUM_GLOW, size: TextSize::Small, clip: Some((wx_u + w - 60) as u32) },
            DrawOp::Text { x: (wx_u + w - 54) as u32, y: ly, text: "[Tab+Enter]", color: TEXT_DIM, size: TextSize::Small, clip: None },
        ]
    }
}

/// The page header: background, tint, `awp` badge, title and subtitle.
pub open spec fn haniel_head_ops<'a>(wx_u: u32, canvas_top: u32, w: u32, canvas_h: u32, doc: &'a HanielDoc) -> Seq<DrawOp<'a>> {
    let tint = page_tint(doc.page_kind);
    let hdr_y = (canvas_top + 8) as u32;
    let title_col: u32 = if doc.page_kind == 3 { 0xCC4444 } else { TEXT_WHITE };
    seq![
        DrawOp::Rect { x: (wx_u + 1) as u32, y: canvas_top, w: (w - 2) as u32, h: canvas_h, color: WIN_BG },
        DrawOp::Blend { x: (wx_u + 1) as u32, y: canvas_top, w: (w - 2) as u32, h: canvas_h, fg: tint, alpha: 14 },
        DrawOp::HLine { x: (wx_u + 1) as u32, y: canvas_top, len: (w - 2) as u32, color: tint },
        DrawOp::RoundedRect { x: (wx_u + 10) as u32, y: hdr_y, w: 28, h: 13, r: 2, color: 0x0D2A1A },
        DrawOp::Border { x: (wx_u + 10) as u32, y: hdr_y, w: 28, h: 13, color: ACCENT_TEAL },
        DrawOp::Text { x: (wx_u + 13) as u32, y: (hdr_y + 8) as u32, text: "awp", color: ACCENT_TEAL, size: TextSize::Small, clip: None },
        DrawOp::Text { x: (wx_u + 44) as u32, y: hdr_y, text: doc.title, color: title_col, size: TextSize::Large, clip: Some((wx_u + w - 10) as u32) },
    ] + (if doc.subtitle@.len() != 0 {
        seq![
            DrawOp::Text { x: (wx_u + 44) as u32, y: (hdr_y + 18) as u32, text: doc.subtitle, color: TEXT_DIM, size: TextSize::Small, clip: Some((wx_u + w - 10) as u32) },
        ]
    } else {
        Seq::empty()
    }) + seq![
        DrawOp::HLine { x: (wx_u + 10) as u32, y: (hdr_y + 32) as u32, len: (w - 20) as u32, color: PANEL_BORDER },
    ]
}

/// A HANIEL document rendered into the browser's page canvas.
pub open spec fn haniel_canvas_ops<'a>(wx_u: u32, canvas_top: u32, w: u32, canvas_h: u32, doc: &'a HanielDoc) -> Seq<DrawOp<'a>> {
    let body_y0 = (canvas_top + 46) as u32;
    let links_y0 = (if doc.body_len > 0 { body_y0 + doc.body_len * 16 + 6 } else { body_y0 as int }) as u32;
    let foot_y = (canvas_top + canvas_h - 14) as u32;
    haniel_head_ops(wx_u, canvas_top, w, canvas_h, doc) + haniel_body_ops(wx_u, w, body_y0, doc, doc.body_len as int)
        + (if doc.link_len > 0 {
        seq![
            DrawOp::HLine { x: (wx_u + 10) as u32, y: (links_y0 - 3) as u32, len: (w - 20) as u32, color: PANEL_BORDER },
        ] + haniel_links_ops(wx_u, w, links_y0, doc, doc.link_len as int)
    } else {
        Seq::empty()
    }) + seq![
        DrawOp::HLine { x: (wx_u + 10) as u32, y: (foot_y - 2) as u32, len: (w - 20) as u32, color: PANEL_BORDER },
        DrawOp::Text { x: (wx_u + 12) as u32, y: foot_y, text: "AIEONYX Sovereign Digital Infrastructure", color: 0x222240, size: TextSize::Small, clip: Some((wx_u + w / 2) as u32) },
        DrawOp::Text { x: (wx_u + w / 2 + 10) as u32, y: foot_y, text: "HANIEL compositor  PL-61", color: 0x222240, size: TextSize::Small, clip: Some((wx_u + w - 4) as u32) },
    ]
}

/// What the page canvas needs of its arguments.
pub open spec fn haniel_canvas_ok(wx_u: u32, canvas_top: u32, w: u32, canvas_h: u32, doc: &HanielDoc) -> bool {
    &&& w >= 20
    &&& wx_u + w >= 60
    &&& wx_u + w <= u32::MAX
    &&& wx_u + 44 <= u32::MAX
    &&& canvas_top + 400 <= u32::MAX
    &&& canvas_top + canvas_h >= 16
    &&& canvas_top + canvas_h <= u32::MAX
    &&& doc.body_len <= HANIEL_MAX_BODY
    &&& doc.link_len <= HANIEL_MAX_LINKS
    &&& forall|i: int|
        0 <= i < doc.body_len ==> (#[trigger] doc.body@[i]).spec_bytes().len() >= 2 ==> vstd::utf8::is_char_boundary(
            doc.body@[i].spec_bytes(),
            2,
        )
}

fn haniel_head<'a>(c: &mut Canvas<'a>, wx_u: u32, canvas_top: u32, w: u32, canvas_h: u32, doc: &'a HanielDoc)
    requires
        haniel_canvas_ok(wx_u, canvas_top, w, canvas_h, doc),
    ensures
        final(c)@ == old(c)@ + haniel_head_ops(wx_u, canvas_top, w, canvas_h, doc),
{
    let ghost start = c@;
    let tint: u32 = if doc.page_kind == 1 {
        PLUM_GLOW
    } else if doc.page_kind == 2 {
        ACCENT_TEAL
    } else if doc.page_kind == 3 {
        0xA02020
    } else {
        0x181830
    };
    let hdr_y = canvas_top + 8;
    let title_col: u32 = if doc.page_kind == 3 {
        0xCC4444
    } else {
        TEXT_WHITE
    };
    c.rect(wx_u + 1, canvas_top, w - 2, canvas_h, WIN_BG);
    c.blend(wx_u + 1, canvas_top, w - 2, canvas_h, tint, 14);
    c.hline(wx_u + 1, canvas_top, w - 2, tint);
    c.rounded(wx_u + 10, hdr_y, 28, 13, 2, 0x0D2A1A);
    c.border(wx_u + 10, hdr_y, 28, 13, ACCENT_TEAL);
    c.text(wx_u + 13, hdr_y + 8, "awp", ACCENT_TEAL);
    c.text16_clipped(wx_u + 44, hdr_y, doc.title, title_col, wx_u + w - 10);
    if !doc.subtitle.is_empty() {
        c.text_clipped(wx_u + 44, hdr_y + 18, doc.subtitle, TEXT_DIM, wx_u + w - 10);
    }
    c.hline(wx_u + 10, hdr_y + 32, w - 20, PANEL_BORDER);
    assert(c@ =~= start + haniel_head_ops(wx_u, canvas_top, w, canvas_h, doc));
}

fn haniel_body<'a>(c: &mut Canvas<'a>, wx_u: u32, w: u32, body_y0: u32, doc: &'a HanielDoc)
    requires
        w >= 20,
        wx_u + w <= u32::MAX,
        body_y0 + 200 <= u32::MAX,
        doc.body_len <= HANIEL_MAX_BODY,
        forall|i: int|
            0 <= i < doc.body_len ==> (#[trigger] doc.body@[i]).spec_bytes().len() >= 2
                ==> vstd::utf8::is_char_boundary(doc.body@[i].spec_bytes(), 2),
    ensures
        final(c)@ == old(c)@ + haniel_body_ops(wx_u, w, body_y0, doc, doc.body_len as int),
{
    let ghost start = c@;
    let mut bi: usize = 0;
    while bi < doc.body_len
        invariant
            bi <= doc.body_len <= HANIEL_MAX_BODY,
            w >= 20,
            wx_u + w <= u32::MAX,
            body_y0 + 200 <= u32::MAX,
            c@ == start + haniel_body_ops(wx_u, w, body_y0, doc, bi as int),
        decreases doc.body_len - bi,
    {
        let line = doc.body[bi];
        let ly = body_y0 + bi as u32 * 16;
        let b = line.as_bytes();
        let ghost before = c@;
        if b.len() >= 2 && b[0] == 35 && b[1] == 35 {
            c.op(DrawOp::TextTail { x: wx_u + 10, y: ly, text: line, from: 2, color: ACCENT_TEAL, clip_x: wx_u + w - 10 });
        } else if b.len() >= 2 && b[0] == 62 && b[1] == 62 {
            c.op(DrawOp::TextTail { x: wx_u + 14, y: ly, text: line, from: 2, color: ACCENT_AMBER, clip_x: wx_u + w - 10 });
        } else {
            c.text_clipped(wx_u + 14, ly, line, TEXT_WHITE, wx_u + w - 10);
        }
        assert(c@ =~= before + haniel_line_ops(wx_u, w, ly, line));
        bi = bi + 1;
    }
}

fn haniel_links<'a>(c: &mut Canvas<'a>, wx_u: u32, w: u32, links_y0: u32, doc: &'a HanielDoc)
    requires
        w >= 20,
        wx_u + w >= 60,
        wx_u + w <= u32::MAX,
        links_y0 + 100 <= u32::MAX,
        doc.link_len <= HANIEL_MAX_LINKS,
    ensures
        final(c)@ == old(c)@ + haniel_links_ops(wx_u, w, links_y0, doc, doc.link_len as int),
{
    let ghost start = c@;
    let mut li: usize = 0;
    while li < doc.link_len
        invariant
            li <= doc.link_len <= HANIEL_MAX_LINKS,
            w >= 20,
            wx_u + w >= 60,
            wx_u + w <= u32::MAX,
            links_y0 + 100 <= u32::MAX,
            c@ == start + haniel_links_ops(wx_u, w, links_y0, doc, li as int),
        decreases doc.link_len - li,
    {
        let ly = links_y0 + li as u32 * 15;
        let link = doc.links[li];
        c.rect(wx_u + 12, ly + 3, 4, 4, PLUM_GLOW);
        c.text_clipped(wx_u + 20, ly, link, PLUM_GLOW, wx_u + w - 60);
        c.text(wx_u + w - 54, ly, "[Tab+Enter]", TEXT_DIM);
        li = li + 1;
    }
}

/// Renders a HANIEL document into the browser's page canvas at `canvas_top`
/// (`canvas_h` high): header with badge, title and subtitle, the body lines,
/// the link list, and the footer.
pub fn render_haniel_canvas<'a>(c: &mut Canvas<'a>, wx_u: u32, canvas_top: u32, w: u32, canvas_h: u32, doc: &'a HanielDoc)
    requires
        haniel_canvas_ok(wx_u, canvas_top, w, canvas_h, doc),
    ensures
        final(c)@ == old(c)@ + haniel_canvas_ops(wx_u, canvas_top, w, canvas_h, doc),
{
    let ghost start = c@;
    haniel_head(c, wx_u, canvas_top, w, canvas_h, doc);
    let ghost p1 = haniel_head_ops(wx_u, canvas_top, w, canvas_h, doc);
    let body_y0 = canvas_top + 46;
    haniel_body(c, wx_u, w, body_y0, doc);
    let ghost p2 = haniel_body_ops(wx_u, w, body_y0, doc, doc.body_len as int);
    proof {
        lemma_append(start, p1, p2);
    }
    let ghost s2 = c@;
    if doc.link_len > 0 {
        let links_y0 = if doc.body_len > 0 {
            body_y0 + doc.body_len as u32 * 16 + 6
        } else {
            body_y0
        };
        c.hline(wx_u + 10, links_y0 - 3, w - 20, PANEL_BORDER);
        haniel_links(c, wx_u, w, links_y0, doc);
    }
    let ghost links_y0 = (if doc.body_len > 0 { body_y0 + doc.body_len * 16 + 6 } else { body_y0 as int }) as u32;
    let ghost p3: Seq<DrawOp<'a>> = if doc.link_len > 0 {
        seq![
            DrawOp::HLine { x: (wx_u + 10) as u32, y: (links_y0 - 3) as u32, len: (w - 20) as u32, color: PANEL_BORDER },
        ] + haniel_links_ops(wx_u, w, links_y0, doc, doc.link_len as int)
    } else {
        Seq::empty()
    };
    assert(c@ =~= s2 + p3);
    proof {
        lemma_append(start, p1 + p2, p3);
    }
    let ghost s3 = c@;
    let foot_y = canvas_top + canvas_h - 14;
    c.hline(wx_u + 10, foot_y - 2, w - 20, PANEL_BORDER);
    c.text_clipped(wx_u + 12, foot_y, "AIEONYX Sovereign Digital Infrastructure", 0x222240, wx_u + w / 2);
    c.text_clipped(wx_u + w / 2 + 10, foot_y, "HANIEL compositor  PL-61", 0x222240, wx_u + w - 4);
    let ghost p4 = seq![
        DrawOp::HLine { x: (wx_u + 10) as u32, y: (foot_y - 2) as u32, len: (w - 20) as u32, color: PANEL_BORDER },
        DrawOp::Text { x: (wx_u + 12) as u32, y: foot_y, text: "AIEONYX Sovereign Digital Infrastructure", color: 0x222240, size: TextSize::Small, clip: Some((wx_u + w / 2) as u32) },
        DrawOp::Text { x: (wx_u + w / 2 + 10) as u32, y: foot_y, text: "HANIEL compositor  PL-61", color: 0x222240, size: TextSize::Small, clip: Some((wx_u + w - 4) as u32) },
    ];
    assert(c@ =~= s3 + p4);
    proof {
        lemma_append(start, p1 + p2 + p3, p4);
    }
}
/// Width of the URL field.
pub open spec fn url_field_w(w: u32) -> u32 {
    if w > 98 { (w - 98) as u32 } else { 4 }
}

/// Height of the page canvas.
pub open spec fn page_canvas_h(h: u32) -> u32 {
    if h > 51 { (h - 51) as u32 } else { 4 }
}

/// The URL bar: navigation stubs, `awp` badge, the field, the URL (or a
/// placeholder) and the cursor.
pub open spec fn url_bar_ops<'a>(wx_u: u32, bar_y: u32, w: u32, url_buf: &'a [u8], url_len: usize, url_focused: bool) -> Seq<DrawOp<'a>> {
    let field_w = url_field_w(w);
    let border_col: u32 = if url_focused { ACCENT_TEAL } else { 0x2A2848 };
    let cur_x0 = wx_u + 94 + url_len * 8;
    let cur_max = wx_u + 90 + field_w - 6;
    let cur_x = (if cur_x0 < cur_max { cur_x0 } else { cur_max }) as u32;
    seq![
        DrawOp::Rect { x: (wx_u + 1) as u32, y: bar_y, w: (w - 2) as u32, h: 22, color: 0x0A0818 },
        DrawOp::RoundedRect { x: (wx_u + 4) as u32, y: (bar_y + 3) as u32, w: 14, h: 16, r: 2, color: 0x1A1A3A },
        DrawOp::RoundedRect { x: (wx_u + 20) as u32, y: (bar_y + 3) as u32, w: 14, h: 16, r: 2, color: 0x1A1A3A },
        DrawOp::Text { x: (wx_u + 7) as u32, y: (bar_y + 11) as u32, text: "<", color: TEXT_DIM, size: TextSize::Small, clip: None },
        DrawOp::Text { x: (wx_u + 23) as u32, y: (bar_y + 11) as u32, text: ">", color: TEXT_DIM, size: TextSize::Small, clip: None },
        DrawOp::RoundedRect { x: (wx_u + 38) as u32, y: (bar_y + 3) as u32, w: 14, h: 16, r: 2, color: 0x1A1A3A },
        DrawOp::Text { x: (wx_u + 41) as u32, y: (bar_y + 11) as u32, text: "o", color: TEXT_DIM, size: TextSize::Small, clip: None },
        DrawOp::RoundedRect { x: (wx_u + 56) as u32, y: (bar_y + 4) as u32, w: 30, h: 14, r: 2, color: 0x0D2A1A },
        DrawOp::Border { x: (wx_u + 56) as u32, y: (bar_y + 4) as u32, w: 30, h: 14, color: ACCENT_TEAL },
        DrawOp::Text { x: (wx_u + 59) as u32, y: (bar_y + 12) as u32, text: "awp", color: ACCENT_TEAL, size: TextSize::Small, clip: None },
        DrawOp::Rect { x: (wx_u + 90) as u32, y: (bar_y + 3) as u32, w: field_w, h: 16, color: 0x06060F },
        DrawOp::Border { x: (wx_u + 90) as u32, y: (bar_y + 3) as u32, w: field_w, h: 16, color: border_col },
    ] + (if url_len > 0 {
        if vstd::utf8::valid_utf8(url_buf@.take(url_len as int)) {
            seq![
                DrawOp::Slice {
                    x: (wx_u + 94) as u32,
                    y: (bar_y + 11) as u32,
                    bytes: url_buf,
                    from: 0,
                    to: url_len,
                    color: TEXT_WHITE,
                    size: TextSize::Small,
                    clip: Some((wx_u + 90 + field_w - 4) as u32),
                },
            ]
        } else {
            Seq::empty()
        }
    } else if !url_focused {
        seq![
            DrawOp::Text { x: (wx_u + 94) as u32, y: (bar_y + 11) as u32, text: "awp://", color: TEXT_DIM, size: TextSize::Small, clip: Some((wx_u + 90 + field_w - 4) as u32) },
        ]
    } else {
        Seq::empty()
    }) + (if url_focused {
        seq![
            DrawOp::Rect { x: cur_x, y: (bar_y + 10) as u32, w: 2, h: 12, color: ACCENT_TEAL },
        ]
    } else {
        Seq::empty()
    })
}

/// The new-tab splash: a small diamond, the browser's name and the hints.
pub open spec fn onyxia_splash_ops<'a>(wx_u: u32, w: u32, canvas_top: u32, canvas_h: u32) -> Seq<DrawOp<'a>> {
    let mid_y = (canvas_top + canvas_h / 2) as u32;
    let logo_x = (wx_u + w / 2 - 8) as u32;
    let logo_y = (mid_y - 30) as u32;
    seq![
        DrawOp::HLine { x: (logo_x + 7) as u32, y: logo_y, len: 2, color: PLUM_GLOW },
        DrawOp::HLine { x: (logo_x + 5) as u32, y: (logo_y + 1) as u32, len: 6, color: PLUM_GLOW },
        DrawOp::HLine { x: (logo_x + 3) as u32, y: (logo_y + 2) as u32, len: 10, color: PLUM_GLOW },
        DrawOp::HLine { x: (logo_x + 5) as u32, y: (logo_y + 3) as u32, len: 6, color: PLUM_GLOW },
        DrawOp::HLine { x: (logo_x + 7) as u32, y: (logo_y + 4) as u32, len: 2, color: PLUM_GLOW },
        DrawOp::Text { x: (wx_u + w / 2 - 38) as u32, y: (mid_y - 14) as u32, text: "Onyxia Browser", color: TEXT_DIM, size: TextSize::Small, clip: Some((wx_u + w - 8) as u32) },
        DrawOp::Text { x: (wx_u + w / 2 - 54) as u32, y: mid_y, text: "awp:// sovereign web", color: PLUM_GLOW, size: TextSize::Large, clip: Some((wx_u + w - 8) as u32) },
        DrawOp::Text { x: (wx_u + w / 2 - 76) as u32, y: (mid_y + 22) as u32, text: "Tab = focus URL  Enter = navigate  Esc = clear", color: 0x2A2848, size: TextSize::Small, clip: Some((wx_u + w - 8) as u32) },
    ]
}

/// The whole browser body.
pub open spec fn onyxia_ops<'a>(
    wx: i32,
    wy: i32,
    w: u32,
    h: u32,
    url_buf: &'a [u8],
    url_len: usize,
    url_focused: bool,
    loaded: bool,
    doc: &'a HanielDoc,
) -> Seq<DrawOp<'a>> {
    let wx_u = wx as u32;
    let wy_u = wy as u32;
    let bar_y = (wy_u + 26) as u32;
    let canvas_top = (bar_y + 23) as u32;
    let canvas_h = page_canvas_h(h);
    url_bar_ops(wx_u, bar_y, w, url_buf, url_len, url_focused) + seq![
        DrawOp::HLine { x: (wx_u + 1) as u32, y: (bar_y + 22) as u32, len: (w - 2) as u32, color: ACCENT_TEAL },
        DrawOp::Rect { x: (wx_u + 1) as u32, y: canvas_top, w: (w - 2) as u32, h: canvas_h, color: WIN_BG },
        DrawOp::Blend { x: (wx_u + 1) as u32, y: canvas_top, w: (w - 2) as u32, h: canvas_h, fg: PLUM_GLOW, alpha: 8 },
    ] + (if loaded && url_len > 0 {
        haniel_canvas_ops(wx_u, canvas_top, w, canvas_h, doc)
    } else {
        onyxia_splash_ops(wx_u, w, canvas_top, canvas_h)
    }) + seq![
        DrawOp::Rect { x: (wx_u + w - 12) as u32, y: (wy_u + h - 12) as u32, w: 12, h: 12, color: ACCENT_TEAL },
        DrawOp::Rect { x: (wx_u + w - 8) as u32, y: (wy_u + h - 8) as u32, w: 4, h: 4, color: TEXT_WHITE },
    ] + (if url_focused {
        seq![
            DrawOp::Text { x: (wx_u + w - 80) as u32, y: (bar_y + 11) as u32, text: "[focused]", color: TEXT_DIM, size: TextSize::Large, clip: None },
        ]
    } else {
        Seq::empty()
    })
}

/// What the browser needs of its arguments.
pub open spec fn onyxia_ok(
    wx: i32,
    wy: i32,
    w: u32,
    h: u32,
    url_buf: &[u8],
    url_len: usize,
    loaded: bool,
    doc: &HanielDoc,
) -> bool {
    let wx_u = wx as u32;
    let wy_u = wy as u32;
    &&& w >= 20
    &&& wx_u + w <= u32::MAX
    &&& wx_u + 94 <= u32::MAX
    &&& wx_u + w >= 80
    &&& wx_u + w / 2 >= 76
    &&& wy_u + h >= 12
    &&& wy_u + h <= u32::MAX
    &&& wy_u + 49 + page_canvas_h(h) <= u32::MAX
    &&& wy_u + 49 + 400 <= u32::MAX
    &&& url_len <= url_buf@.len()
    &&& wx_u + 94 + url_len * 8 <= u32::MAX
    &&& loaded && url_len > 0 ==> haniel_canvas_ok(wx_u, (wy_u + 49) as u32, w, page_canvas_h(h), doc)
}

fn url_bar<'a>(c: &mut Canvas<'a>, wx_u: u32, bar_y: u32, w: u32, url_buf: &'a [u8], url_len: usize, url_focused: bool)
    requires
        w >= 20,
        wx_u + w <= u32::MAX,
        wx_u + 94 <= u32::MAX,
        bar_y + 30 <= u32::MAX,
        url_len <= url_buf@.len(),
        wx_u + 94 + url_len * 8 <= u32::MAX,
    ensures
        final(c)@ == old(c)@ + url_bar_ops(wx_u, bar_y, w, url_buf, url_len, url_focused),
{
    let ghost start = c@;
    let field_w: u32 = if w > 98 {
        w - 98
    } else {
        4
    };
    let border_col: u32 = if url_focused {
        ACCENT_TEAL
    } else {
        0x2A2848
    };
    c.rect(wx_u + 1, bar_y, w - 2, 22, 0x0A0818);
    c.rounded(wx_u + 4, bar_y + 3, 14, 16, 2, 0x1A1A3A);
    c.rounded(wx_u + 20, bar_y + 3, 14, 16, 2, 0x1A1A3A);
    c.text(wx_u + 7, bar_y + 11, "<", TEXT_DIM);
    c.text(wx_u + 23, bar_y + 11, ">", TEXT_DIM);
    c.rounded(wx_u + 38, bar_y + 3, 14, 16, 2, 0x1A1A3A);
    c.text(wx_u + 41, bar_y + 11, "o", TEXT_DIM);
    c.rounded(wx_u + 56, bar_y + 4, 30, 14, 2, 0x0D2A1A);
    c.border(wx_u + 56, bar_y + 4, 30, 14, ACCENT_TEAL);
    c.text(wx_u + 59, bar_y + 12, "awp", ACCENT_TEAL);
    c.rect(wx_u + 90, bar_y + 3, field_w, 16, 0x06060F);
    c.border(wx_u + 90, bar_y + 3, field_w, 16, border_col);
    if url_len > 0 {
        match crate::bytes::str_from_utf8(url_buf.split_at(url_len).0) {
            Some(_) => {
                c.op(
                    DrawOp::Slice {
                        x: wx_u + 94,
                        y: bar_y + 11,
                        bytes: url_buf,
                        from: 0,
                        to: url_len,
                        color: TEXT_WHITE,
                        size: TextSize::Small,
                        clip: Some(wx_u + 90 + field_w - 4),
                    },
                );
            },
            None => {},
        }
    } else if !url_focused {
        c.text_clipped(wx_u + 94, bar_y + 11, "awp://", TEXT_DIM, wx_u + 90 + field_w - 4);
    }
    if url_focused {
        let cur_x0 = wx_u + 94 + url_len as u32 * 8;
        let cur_max = wx_u + 90 + field_w - 6;
        let cur_x = if cur_x0 < cur_max {
            cur_x0
        } else {
            cur_max
        };
        c.rect(cur_x, bar_y + 10, 2, 12, ACCENT_TEAL);
    }
    assert(c@ =~= start + url_bar_ops(wx_u, bar_y, w, url_buf, url_len, url_focused));
}

fn onyxia_splash<'a>(c: &mut Canvas<'a>, wx_u: u32, w: u32, canvas_top: u32, canvas_h: u32)
    requires
        wx_u + w <= u32::MAX,
        wx_u + w / 2 >= 76,
        canvas_top >= 40,
        canvas_top + canvas_h / 2 + 22 <= u32::MAX,
    ensures
        final(c)@ == old(c)@ + onyxia_splash_ops(wx_u, w, canvas_top, canvas_h),
{
    let ghost start = c@;
    let mid_y = canvas_top + canvas_h / 2;
    let logo_x = wx_u + w / 2 - 8;
    let logo_y = mid_y - 30;
    c.hline(logo_x + 7, logo_y, 2, PLUM_GLOW);
    c.hline(logo_x + 5, logo_y + 1, 6, PLUM_GLOW);
    c.hline(logo_x + 3, logo_y + 2, 10, PLUM_GLOW);
    c.hline(logo_x + 5, logo_y + 3, 6, PLUM_GLOW);
    c.hline(logo_x + 7, logo_y + 4, 2, PLUM_GLOW);
    c.text_clipped(wx_u + w / 2 - 38, mid_y - 14, "Onyxia Browser", TEXT_DIM, wx_u + w - 8);
    c.text16_clipped(wx_u + w / 2 - 54, mid_y, "awp:// sovereign web", PLUM_GLOW, wx_u + w - 8);
    c.text_clipped(wx_u + w / 2 - 76, mid_y + 22, "Tab = focus URL  Enter = navigate  Esc = clear", 0x2A2848, wx_u + w - 8);
    assert(c@ =~= start + onyxia_splash_ops(wx_u, w, canvas_top, canvas_h));
}

/// The Onyxia browser (window kind 7): the URL bar, then either the routed
/// HANIEL document (once loaded with a URL) or the new-tab splash.
#[verifier::rlimit(40)]
pub fn render_onyxia_browser<'a>(
    c: &mut Canvas<'a>,
    wx: i32,
    wy: i32,
    w: u32,
    h: u32,
    url_buf: &'a [u8],
    url_len: usize,
    url_focused: bool,
    loaded: bool,
    doc: &'a HanielDoc,
)
    requires
        onyxia_ok(wx, wy, w, h, url_buf, url_len, loaded, doc),
    ensures
        final(c)@ == old(c)@ + onyxia_ops(wx, wy, w, h, url_buf, url_len, url_focused, loaded, doc),
{
    let ghost start = c@;
    let wx_u = wx as u32;
    let wy_u = wy as u32;
    let bar_y = wy_u + 26;
    url_bar(c, wx_u, bar_y, w, url_buf, url_len, url_focused);
    let ghost p1 = url_bar_ops(wx_u, bar_y, w, url_buf, url_len, url_focused);
    let canvas_top = bar_y + 23;
    let canvas_h: u32 = if h > 51 {
        h - 51
    } else {
        4
    };
    c.hline(wx_u + 1, bar_y + 22, w - 2, ACCENT_TEAL);
    c.rect(wx_u + 1, canvas_top, w - 2, canvas_h, WIN_BG);
    c.blend(wx_u + 1, canvas_top, w - 2, canvas_h, PLUM_GLOW, 8);
    let ghost p2 = seq![
        DrawOp::HLine { x: (wx_u + 1) as u32, y: (bar_y + 22) as u32, len: (w - 2) as u32, color: ACCENT_TEAL },
        DrawOp::Rect { x: (wx_u + 1) as u32, y: canvas_top, w: (w - 2) as u32, h: canvas_h, color: WIN_BG },
        DrawOp::Blend { x: (wx_u + 1) as u32, y: canvas_top, w: (w - 2) as u32, h: canvas_h, fg: PLUM_GLOW, alpha: 8 },
    ];
    assert(c@ =~= start + p1 + p2);
    proof {
        lemma_append(start, p1, p2);
    }
    if loaded && url_len > 0 {
        render_haniel_canvas(c, wx_u, canvas_top, w, canvas_h, doc);
    } else {
        onyxia_splash(c, wx_u, w, canvas_top, canvas_h);
    }
    let ghost p3 = if loaded && url_len > 0 {
        haniel_canvas_ops(wx_u, canvas_top, w, canvas_h, doc)
    } else {
        onyxia_splash_ops(wx_u, w, canvas_top, canvas_h)
    };
    proof {
        lemma_append(start, p1 + p2, p3);
    }
    let ghost s3 = c@;
    c.rect(wx_u + w - 12, wy_u + h - 12, 12, 12, ACCENT_TEAL);
    c.rect(wx_u + w - 8, wy_u + h - 8, 4, 4, TEXT_WHITE);
    if url_focused {
        c.text16(wx_u + w - 80, bar_y + 11, "[focused]", TEXT_DIM);
    }
    let ghost p4 = seq![
        DrawOp::Rect { x: (wx_u + w - 12) as u32, y: (wy_u + h - 12) as u32, w: 12, h: 12, color: ACCENT_TEAL },
        DrawOp::Rect { x: (wx_u + w - 8) as u32, y: (wy_u + h - 8) as u32, w: 4, h: 4, color: TEXT_WHITE },
    ] + (if url_focused {
        seq![
            DrawOp::Text { x: (wx_u + w - 80) as u32, y: (bar_y + 11) as u32, text: "[focused]", color: TEXT_DIM, size: TextSize::Large, clip: None },
        ]
    } else {
        Seq::empty()
    });
    assert(c@ =~= s3 + p4);
    proof {
        lemma_append(start, p1 + p2 + p3, p4);
    }
}
/// One line of a viewed file: `content[from..to]` at row `row`, drawn when
/// it is valid UTF-8.
pub open spec fn view_line_ops<'a>(wx_u: u32, w: u32, start_y: u32, content: &'a [u8], from: int, to: int, row: int) -> Seq<DrawOp<'a>> {
    if vstd::utf8::valid_utf8(content@.subrange(from, to)) {
        seq![
            DrawOp::Slice {
                x: (wx_u + 8) as u32,
                y: (start_y + row * 18) as u32,
                bytes: content,
                from: from as usize,
                to: to as usize,
                color: TEXT_WHITE,
                size: TextSize::Small,
                clip: Some((wx_u + w - 8) as u32),
            },
        ]
    } else {
        Seq::empty()
    }
}

/// The lines of `content[..len]` from scan position `i` on, the current
/// line starting at `from` and `row` lines drawn, at most `max_rows`.
pub open spec fn view_lines_ops<'a>(
    wx_u: u32,
    w: u32,
    start_y: u32,
    content: &'a [u8],
    len: int,
    i: int,
    from: int,
    row: int,
    max_rows: int,
) -> Seq<DrawOp<'a>>
    decreases len + 1 - i,
{
    if i > len || row >= max_rows || i < 0 {
        Seq::empty()
    } else if i == len || content@[i] == 10 {
        view_line_ops(wx_u, w, start_y, content, from, i, row) + view_lines_ops(
            wx_u,
            w,
            start_y,
            content,
            len,
            i + 1,
            i + 1,
            row + 1,
            max_rows,
        )
    } else {
        view_lines_ops(wx_u, w, start_y, content, len, i + 1, from, row, max_rows)
    }
}

/// File list row `row`: the cursor bar and marker, then the name when it is
/// valid UTF-8.
pub open spec fn file_row_ops<'a>(wx_u: u32, w: u32, start_y: u32, name: &'a [u8], row: int, cursor: usize) -> Seq<DrawOp<'a>> {
    let row_y = (start_y + row * 18) as u32;
    let selected = row == cursor;
    let col: u32 = if selected { TEXT_WHITE } else { 0x888899 };
    (if selected {
        seq![
            DrawOp::Rect { x: (wx_u + 4) as u32, y: (row_y - 2) as u32, w: (w - 8) as u32, h: 18, color: PLUM_GLOW },
        ]
    } else {
        Seq::empty()
    }) + seq![
        DrawOp::Text {
            x: (wx_u + 12) as u32,
            y: (row_y + 10) as u32,
            text: if selected { ">" } else { " " },
            color: ACCENT_TEAL,
            size: TextSize::Small,
            clip: None,
        },
    ] + if vstd::utf8::valid_utf8(name@) {
        seq![
            DrawOp::Slice {
                x: (wx_u + 24) as u32,
                y: (row_y + 10) as u32,
                bytes: name,
                from: 0,
                to: name@.len() as usize,
                color: col,
                size: TextSize::Small,
                clip: Some((wx_u + w - 8) as u32),
            },
        ]
    } else {
        Seq::empty()
    }
}

pub open spec fn file_rows_ops<'a>(wx_u: u32, w: u32, start_y: u32, names: Seq<&'a [u8]>, cursor: usize, n: int) -> Seq<DrawOp<'a>>
    decreases n,
{
    if n <= 0 {
        Seq::empty()
    } else {
        file_rows_ops(wx_u, w, start_y, names, cursor, n - 1) + file_row_ops(
            wx_u,
            w,
            start_y,
            names[n - 1],
            n - 1,
            cursor,
        )
    }
}

/// The AXFS window, in list or view mode.
pub open spec fn files_window_ops<'a>(
    wx: i32,
    wy: i32,
    w: u32,
    h: u32,
    names: Seq<&'a [u8]>,
    file_count: usize,
    cursor: usize,
    content: &'a [u8],
    content_len: usize,
    viewing: bool,
) -> Seq<DrawOp<'a>> {
    let wx_u = wx as u32;
    let wy_u = wy as u32;
    let start_y = (wy_u + 28) as u32;
    let max_rows = sat_sub(h, 36) / 18;
    let n = if file_count < max_rows { file_count as int } else { max_rows as int };
    seq![
        DrawOp::Rect { x: wx_u, y: wy_u, w: w, h: h, color: 0x0A0818 },
        DrawOp::Border { x: wx_u, y: wy_u, w: w, h: h, color: GLASS_BORDER },
        DrawOp::Rect { x: wx_u, y: wy_u, w: w, h: 20, color: GLASS_PANEL },
        DrawOp::HLine { x: wx_u, y: (wy_u + 20) as u32, len: w, color: PLUM_GLOW },
    ] + if viewing {
        seq![
            DrawOp::Text { x: (wx_u + 8) as u32, y: (wy_u + 14) as u32, text: "AXFS - File View", color: 0x888899, size: TextSize::Small, clip: None },
        ] + view_lines_ops(wx_u, w, start_y, content, content_len as int, 0, 0, 0, max_rows as int)
            + seq![
            DrawOp::Text { x: (wx_u + 8) as u32, y: (wy_u + h - 14) as u32, text: "Esc: back to list", color: 0x44446A, size: TextSize::Small, clip: None },
        ]
    } else {
        seq![
            DrawOp::Text { x: (wx_u + 8) as u32, y: (wy_u + 14) as u32, text: "AXFS - Files", color: 0x888899, size: TextSize::Small, clip: None },
            DrawOp::Text { x: (wx_u + w - 120) as u32, y: (wy_u + 14) as u32, text: "[Enter=open Esc=back]", color: 0x44446A, size: TextSize::Small, clip: None },
        ] + file_rows_ops(wx_u, w, start_y, names, cursor, n) + (if file_count == 0 {
            seq![
                DrawOp::Text { x: (wx_u + 12) as u32, y: (start_y + 10) as u32, text: "[empty filesystem]", color: 0x44446A, size: TextSize::Small, clip: None },
            ]
        } else {
            Seq::empty()
        }) + seq![
            DrawOp::Text { x: (wx_u + 8) as u32, y: (wy_u + h - 14) as u32, text: "arrows: navigate  Enter: open  Esc: close", color: 0x44446A, size: TextSize::Small, clip: None },
        ]
    }
}

/// What the AXFS window needs of its arguments.
pub open spec fn files_window_ok(
    wx: i32,
    wy: i32,
    w: u32,
    h: u32,
    names: Seq<&[u8]>,
    file_count: usize,
    content: &[u8],
    content_len: usize,
    viewing: bool,
) -> bool {
    let wx_u = wx as u32;
    let wy_u = wy as u32;
    let max_rows = sat_sub(h, 36) / 18;
    &&& wx_u + w <= u32::MAX
    &&& wx_u + 24 <= u32::MAX
    &&& wy_u + h <= u32::MAX
    &&& wy_u + 48 <= u32::MAX
    &&& wy_u + h >= 14
    &&& viewing ==> content_len < content@.len() + 1 && content_len < usize::MAX && wx_u + w >= 8
    &&& !viewing ==> w >= 8 && wx_u + w >= 120 && (if file_count < max_rows { file_count as int } else { max_rows as int }) <= names.len()
}

fn view_lines<'a>(c: &mut Canvas<'a>, wx_u: u32, w: u32, start_y: u32, h: u32, content: &'a [u8], content_len: usize)
    requires
        wx_u + w <= u32::MAX,
        wx_u + 8 <= u32::MAX,
        w >= 8 || wx_u + w >= 8,
        start_y + sat_sub(h, 36) <= u32::MAX,
        start_y >= 28,
        content_len <= content@.len(),
        content_len < usize::MAX,
    ensures
        final(c)@ == old(c)@ + view_lines_ops(
            wx_u,
            w,
            start_y,
            content,
            content_len as int,
            0,
            0,
            0,
            (sat_sub(h, 36) / 18) as int,
        ),
{
    let ghost start = c@;
    let max_rows = h.saturating_sub(36) / 18;
    let ghost whole = view_lines_ops(wx_u, w, start_y, content, content_len as int, 0, 0, 0, max_rows as int);
    let mut line_start: usize = 0;
    let mut row: u32 = 0;
    let mut i: usize = 0;
    while i <= content_len && row < max_rows
        invariant
            i <= content_len + 1,
            line_start <= i,
            content_len <= content@.len(),
            content_len < usize::MAX,
            row <= max_rows,
            max_rows == sat_sub(h, 36) / 18,
            wx_u + w <= u32::MAX,
            wx_u + 8 <= u32::MAX,
            w >= 8 || wx_u + w >= 8,
            start_y + sat_sub(h, 36) <= u32::MAX,
            start + whole == c@ + view_lines_ops(
                wx_u,
                w,
                start_y,
                content,
                content_len as int,
                i as int,
                line_start as int,
                row as int,
                max_rows as int,
            ),
        decreases content_len + 1 - i,
    {
        let end = i == content_len || content[i] == 10;
        if end {
            assert(row * 18 + 18 <= sat_sub(h, 36)) by (nonlinear_arith)
                requires
                    row < max_rows,
                    max_rows == sat_sub(h, 36) / 18,
            ;
            let ghost before = c@;
            let ghost rest = view_lines_ops(
                wx_u,
                w,
                start_y,
                content,
                content_len as int,
                i + 1,
                i + 1,
                row + 1,
                max_rows as int,
            );
            let ghost this = view_line_ops(wx_u, w, start_y, content, line_start as int, i as int, row as int);
            let line = slice_range(content, line_start, i);
            match crate::bytes::str_from_utf8(line) {
                Some(_) => {
                    c.op(
                        DrawOp::Slice {
                            x: wx_u + 8,
                            y: start_y + row * 18,
                            bytes: content,
                            from: line_start,
                            to: i,
                            color: TEXT_WHITE,
                            size: TextSize::Small,
                            clip: Some(wx_u + w - 8),
                        },
                    );
                },
                None => {},
            }
            assert(c@ =~= before + this);
            proof {
                lemma_append(before, this, rest);
            }
            row = row + 1;
            line_start = i + 1;
        }
        i = i + 1;
    }
    assert(view_lines_ops(
        wx_u,
        w,
        start_y,
        content,
        content_len as int,
        i as int,
        line_start as int,
        row as int,
        max_rows as int,
    ) =~= Seq::<DrawOp<'a>>::empty());
}

/// `s[from..to]`.
fn slice_range(s: &[u8], from: usize, to: usize) -> (r: &[u8])
    requires
        from <= to <= s@.len(),
    ensures
        r@ == s@.subrange(from as int, to as int),
{
    let r = s.split_at(to).0.split_at(from).1;
    assert(r@ =~= s@.subrange(from as int, to as int));
    r
}

fn file_rows<'a>(c: &mut Canvas<'a>, wx_u: u32, w: u32, start_y: u32, names: &'a [&'a [u8]], cursor: usize, n: usize)
    requires
        n <= names@.len(),
        w >= 8,
        wx_u + w <= u32::MAX,
        wx_u + 24 <= u32::MAX,
        start_y >= 2,
        start_y + n * 18 <= u32::MAX,
    ensures
        final(c)@ == old(c)@ + file_rows_ops(wx_u, w, start_y, names@, cursor, n as int),
{
    let ghost start = c@;
    let mut fi: usize = 0;
    while fi < n
        invariant
            fi <= n <= names@.len(),
            w >= 8,
            wx_u + w <= u32::MAX,
            wx_u + 24 <= u32::MAX,
            start_y >= 2,
            start_y + n * 18 <= u32::MAX,
            c@ == start + file_rows_ops(wx_u, w, start_y, names@, cursor, fi as int),
        decreases n - fi,
    {
        assert(fi * 18 + 18 <= n * 18) by (nonlinear_arith)
            requires
                fi < n,
        ;
        let name = names[fi];
        let row_y = start_y + fi as u32 * 18;
        let selected = fi == cursor;
        let ghost before = c@;
        if selected {
            c.rect(wx_u + 4, row_y - 2, w - 8, 18, PLUM_GLOW);
        }
        let col: u32 = if selected {
            TEXT_WHITE
        } else {
            0x888899
        };
        c.text(wx_u + 12, row_y + 10, if selected { ">" } else { " " }, ACCENT_TEAL);
        match crate::bytes::str_from_utf8(name) {
            Some(_) => {
                c.op(
                    DrawOp::Slice {
                        x: wx_u + 24,
                        y: row_y + 10,
                        bytes: name,
                        from: 0,
                        to: name.len(),
                        color: col,
                        size: TextSize::Small,
                        clip: Some(wx_u + w - 8),
                    },
                );
            },
            None => {},
        }
        assert(c@ =~= before + file_row_ops(wx_u, w, start_y, names@[fi as int], fi as int, cursor));
        fi = fi + 1;
    }
}

/// The AXFS files window: the file list with a cursor (`viewing` false), or
/// the content of the open file line by line (`viewing` true).
#[verifier::rlimit(40)]
pub fn render_files_window<'a>(
    c: &mut Canvas<'a>,
    wx: i32,
    wy: i32,
    w: u32,
    h: u32,
    file_names: &'a [&'a [u8]],
    file_count: usize,
    cursor: usize,
    content: &'a [u8],
    content_len: usize,
    viewing: bool,
)
    requires
        files_window_ok(wx, wy, w, h, file_names@, file_count, content, content_len, viewing),
    ensures
        final(c)@ == old(c)@ + files_window_ops(
            wx,
            wy,
            w,
            h,
            file_names@,
            file_count,
            cursor,
            content,
            content_len,
            viewing,
        ),
{
    let ghost start = c@;
    let wx_u = wx as u32;
    let wy_u = wy as u32;
    c.rect(wx_u, wy_u, w, h, 0x0A0818);
    c.border(wx_u, wy_u, w, h, GLASS_BORDER);
    c.rect(wx_u, wy_u, w, 20, GLASS_PANEL);
    c.hline(wx_u, wy_u + 20, w, PLUM_GLOW);
    let ghost p1 = seq![
        DrawOp::Rect { x: wx_u, y: wy_u, w: w, h: h, color: 0x0A0818 },
        DrawOp::Border { x: wx_u, y: wy_u, w: w, h: h, color: GLASS_BORDER },
        DrawOp::Rect { x: wx_u, y: wy_u, w: w, h: 20, color: GLASS_PANEL },
        DrawOp::HLine { x: wx_u, y: (wy_u + 20) as u32, len: w, color: PLUM_GLOW },
    ];
    assert(c@ =~= start + p1);
    let ghost s1 = c@;
    let start_y = wy_u + 28;
    let max_rows = h.saturating_sub(36) / 18;
    if viewing {
        c.text(wx_u + 8, wy_u + 14, "AXFS - File View", 0x888899);
        let ghost t = seq![
            DrawOp::Text { x: (wx_u + 8) as u32, y: (wy_u + 14) as u32, text: "AXFS - File View", color: 0x888899, size: TextSize::Small, clip: None },
        ];
        assert(c@ =~= s1 + t);
        view_lines(c, wx_u, w, start_y, h, content, content_len);
        let ghost v = view_lines_ops(wx_u, w, start_y, content, content_len as int, 0, 0, 0, max_rows as int);
        proof {
            lemma_append(s1, t, v);
        }
        let ghost s2 = c@;
        c.text(wx_u + 8, wy_u + h - 14, "Esc: back to list", 0x44446A);
        let ghost f = seq![
            DrawOp::Text { x: (wx_u + 8) as u32, y: (wy_u + h - 14) as u32, text: "Esc: back to list", color: 0x44446A, size: TextSize::Small, clip: None },
        ];
        assert(c@ =~= s2 + f);
        proof {
            lemma_append(s1, t + v, f);
            lemma_append(start, p1, t + v + f);
        }
    } else {
        c.text(wx_u + 8, wy_u + 14, "AXFS - Files", 0x888899);
        c.text(wx_u + w - 120, wy_u + 14, "[Enter=open Esc=back]", 0x44446A);
        let ghost t = seq![
            DrawOp::Text { x: (wx_u + 8) as u32, y: (wy_u + 14) as u32, text: "AXFS - Files", color: 0x888899, size: TextSize::Small, clip: None },
            DrawOp::Text { x: (wx_u + w - 120) as u32, y: (wy_u + 14) as u32, text: "[Enter=open Esc=back]", color: 0x44446A, size: TextSize::Small, clip: None },
        ];
        assert(c@ =~= s1 + t);
        let n: usize = if file_count < max_rows as usize {
            file_count
        } else {
            max_rows as usize
        };
        assert(n * 18 + 36 <= h || n == 0) by (nonlinear_arith)
            requires
                n <= max_rows,
                max_rows == sat_sub(h, 36) / 18,
        ;
        file_rows(c, wx_u, w, start_y, file_names, cursor, n);
        let ghost r = file_rows_ops(wx_u, w, start_y, file_names@, cursor, n as int);
        proof {
            lemma_append(s1, t, r);
        }
        let ghost s2 = c@;
        if file_count == 0 {
            c.text(wx_u + 12, start_y + 10, "[empty filesystem]", 0x44446A);
        }
        c.text(wx_u + 8, wy_u + h - 14, "arrows: navigate  Enter: open  Esc: close", 0x44446A);
        let ghost f = (if file_count == 0 {
            seq![
                DrawOp::Text { x: (wx_u + 12) as u32, y: (start_y + 10) as u32, text: "[empty filesystem]", color: 0x44446A, size: TextSize::Small, clip: None },
            ]
        } else {
            Seq::empty()
        }) + seq![
            DrawOp::Text { x: (wx_u + 8) as u32, y: (wy_u + h - 14) as u32, text: "arrows: navigate  Enter: open  Esc: close", color: 0x44446A, size: TextSize::Small, clip: None },
        ];
        assert(c@ =~= s2 + f);
        proof {
            lemma_append(s1, t + r, f);
            lemma_append(start, p1, t + r + f);
        }
    }
}
/// Row `row` of the EdisonDB browser, showing entry `ei`.
pub open spec fn edb_row_ops<'a>(wx_u: u32, w: u32, body_top: u32, e: EdbEntry, row: int, is_cur: bool) -> Seq<DrawOp<'a>> {
    let ry = (body_top + row * 16) as u32;
    let tier_col: u32 = if is_cur { ACCENT_TEAL } else { TEXT_DIM };
    (if is_cur {
        seq![
            DrawOp::Rect { x: (wx_u + 2) as u32, y: ry, w: (w - 4) as u32, h: 15, color: 0x0D2A20 },
            DrawOp::Text { x: (wx_u + 4) as u32, y: (ry + 4) as u32, text: ">", color: ACCENT_TEAL, size: TextSize::Small, clip: None },
        ]
    } else {
        seq![
            DrawOp::Text { x: (wx_u + 4) as u32, y: (ry + 4) as u32, text: " ", color: TEXT_DIM, size: TextSize::Small, clip: None },
        ]
    }) + seq![
        DrawOp::Text { x: (wx_u + 14) as u32, y: (ry + 4) as u32, text: e.tier, color: tier_col, size: TextSize::Small, clip: None },
        DrawOp::Text { x: (wx_u + 28) as u32, y: (ry + 4) as u32, text: e.key, color: TEXT_WHITE, size: TextSize::Small, clip: Some((wx_u + w - 100) as u32) },
        DrawOp::Hex32 { x: (wx_u + w - 96) as u32, y: (ry + 4) as u32, value: e.value as u32, color: ACCENT_AMBER },
    ]
}

pub open spec fn edb_rows_ops<'a>(wx_u: u32, w: u32, body_top: u32, es: Seq<EdbEntry>, scroll: usize, cursor: usize, n: int) -> Seq<DrawOp<'a>>
    decreases n,
{
    if n <= 0 {
        Seq::empty()
    } else {
        let ei = scroll + n - 1;
        edb_rows_ops(wx_u, w, body_top, es, scroll, cursor, n - 1) + edb_row_ops(
            wx_u,
            w,
            body_top,
            es[ei],
            n - 1,
            ei == cursor,
        )
    }
}

/// Entry rows the browser shows: as many as fit above the input row,
/// starting at `scroll`, while entries last.
pub open spec fn edb_rows_shown(body_top: u32, input_row_y: u32, count: int, scroll: usize) -> int {
    let max_visible = if input_row_y > body_top { (input_row_y - body_top) / 16 } else { 0 };
    let left = if scroll < count { count - scroll } else { 0 };
    if max_visible < left { max_visible } else { left }
}

/// The EdisonDB browser's body.
pub open spec fn edb_browser_ops<'a>(
    wx: i32,
    wy: i32,
    w: u32,
    h: u32,
    es: Seq<EdbEntry>,
    cursor: usize,
    scroll: usize,
    input_buf: &'a [u8],
    input_len: usize,
    focused: bool,
) -> Seq<DrawOp<'a>> {
    let wx_u = wx as u32;
    let count = es.len();
    let hdr_y = (wy + 28) as u32;
    let body_top = (hdr_y + 20) as u32;
    let input_row_y = (wy + (h as i32) - 22) as u32;
    edb_head_ops(wx_u, w, hdr_y, input_row_y, count as usize) + edb_rows_ops(
        wx_u,
        w,
        body_top,
        es,
        scroll,
        cursor,
        edb_rows_shown(body_top, input_row_y, count as int, scroll),
    ) + edb_input_ops(wx_u, w, input_row_y, input_buf, input_len, focused)
}

/// What the EdisonDB browser needs of its arguments.
pub open spec fn edb_browser_ok(wx: i32, wy: i32, w: u32, h: u32, es: Seq<EdbEntry>, input_buf: &[u8], input_len: usize) -> bool {
    let wx_u = wx as u32;
    let hdr_y = (wy + 28) as u32;
    let input_row_y = (wy + (h as i32) - 22) as u32;
    &&& wy + 28 <= i32::MAX
    &&& i32::MIN <= wy + (h as i32) <= i32::MAX
    &&& i32::MIN <= wy + (h as i32) - 22 <= i32::MAX
    &&& (wy + (h as i32) - 22) as u32 == ((wy + (h as i32) - 12) as u32) - 10
    &&& (wy + (h as i32) - 22) as u32 == ((wy + (h as i32) - 8) as u32) - 14
    &&& wx_u + 120 <= u32::MAX
    &&& wx_u + w <= u32::MAX
    &&& w >= 8
    &&& wx_u + w >= 100
    &&& hdr_y + 20 <= u32::MAX
    &&& input_row_y >= 3
    &&& input_row_y + 18 <= u32::MAX
    &&& input_len <= input_buf@.len()
    &&& wx_u + 40 + input_len * 9 <= u32::MAX
}

fn edb_rows<'a>(c: &mut Canvas<'a>, wx_u: u32, w: u32, body_top: u32, entries: &'a [EdbEntry], scroll: usize, cursor: usize, n: usize)
    requires
        n == 0 || scroll + n <= entries@.len(),
        w >= 4,
        wx_u + 120 <= u32::MAX,
        wx_u + w <= u32::MAX,
        wx_u + w >= 100,
        body_top + n * 16 <= u32::MAX,
    ensures
        final(c)@ == old(c)@ + edb_rows_ops(wx_u, w, body_top, entries@, scroll, cursor, n as int),
{
    let ghost start = c@;
    let total = entries.len();
    let mut row: usize = 0;
    while row < n
        invariant
            row <= n,
            total == entries@.len(),
            n == 0 || scroll + n <= entries@.len(),
            w >= 4,
            wx_u + 120 <= u32::MAX,
            wx_u + w <= u32::MAX,
            wx_u + w >= 100,
            body_top + n * 16 <= u32::MAX,
            c@ == start + edb_rows_ops(wx_u, w, body_top, entries@, scroll, cursor, row as int),
        decreases n - row,
    {
        assert(row * 16 + 16 <= n * 16) by (nonlinear_arith)
            requires
                row < n,
        ;
        let ei = scroll + row;
        let e = &entries[ei];
        let ry = body_top + row as u32 * 16;
        let is_cur = ei == cursor;
        let ghost before = c@;
        if is_cur {
            c.rect(wx_u + 2, ry, w - 4, 15, 0x0D2A20);
            c.text(wx_u + 4, ry + 4, ">", ACCENT_TEAL);
        } else {
            c.text(wx_u + 4, ry + 4, " ", TEXT_DIM);
        }
        let tier_col: u32 = if is_cur {
            ACCENT_TEAL
        } else {
            TEXT_DIM
        };
        c.text(wx_u + 14, ry + 4, e.tier, tier_col);
        c.text_clipped(wx_u + 28, ry + 4, e.key, TEXT_WHITE, wx_u + w - 100);
        c.hex32(wx_u + w - 96, ry + 4, e.value as u32, ACCENT_AMBER);
        assert(c@ =~= before + edb_row_ops(wx_u, w, body_top, entries@[ei as int], row as int, is_cur));
        row = row + 1;
    }
}

/// The header row and the body's background.
pub open spec fn edb_head_ops<'a>(wx_u: u32, w: u32, hdr_y: u32, input_row_y: u32, count: usize) -> Seq<DrawOp<'a>> {
    seq![
        DrawOp::Rect { x: (wx_u + 1) as u32, y: hdr_y, w: (w - 2) as u32, h: 16, color: WIN_BG },
        DrawOp::Text { x: (wx_u + 8) as u32, y: (hdr_y + 2) as u32, text: "Entries:", color: TEXT_DIM, size: TextSize::Small, clip: None },
        DrawOp::Hex32 { x: (wx_u + 72) as u32, y: (hdr_y + 2) as u32, value: count as u32, color: ACCENT_TEAL },
        DrawOp::Text { x: (wx_u + 120) as u32, y: (hdr_y + 2) as u32, text: "/ 32", color: TEXT_DIM, size: TextSize::Small, clip: None },
        DrawOp::HLine { x: (wx_u + 4) as u32, y: (hdr_y + 17) as u32, len: (w - 8) as u32, color: PANEL_BORDER },
    ] + (if input_row_y > (hdr_y + 20) as u32 {
        seq![
            DrawOp::Rect { x: (wx_u + 1) as u32, y: (hdr_y + 20) as u32, w: (w - 2) as u32, h: (input_row_y - (hdr_y + 20)) as u32, color: WIN_BG },
        ]
    } else {
        Seq::empty()
    })
}

/// The input line, its cursor, the focus badge and the resize handle.
pub open spec fn edb_input_ops<'a>(wx_u: u32, w: u32, input_row_y: u32, input_buf: &'a [u8], input_len: usize, focused: bool) -> Seq<DrawOp<'a>> {
    seq![
        DrawOp::HLine { x: (wx_u + 4) as u32, y: (input_row_y - 3) as u32, len: (w - 8) as u32, color: PANEL_BORDER },
        DrawOp::Rect { x: (wx_u + 4) as u32, y: (input_row_y - 1) as u32, w: (w - 8) as u32, h: 18, color: WIN_BG },
        DrawOp::Text { x: (wx_u + 8) as u32, y: input_row_y, text: "edb>", color: ACCENT_TEAL, size: TextSize::Large, clip: None },
    ] + (if vstd::utf8::valid_utf8(input_buf@.take(input_len as int)) {
        seq![
            DrawOp::Slice {
                x: (wx_u + 40) as u32,
                y: input_row_y,
                bytes: input_buf,
                from: 0,
                to: input_len,
                color: TEXT_WHITE,
                size: TextSize::Large,
                clip: None,
            },
        ]
    } else {
        Seq::empty()
    }) + seq![
        DrawOp::Text { x: (wx_u + 40 + input_len as u32 * 9) as u32, y: input_row_y, text: "_", color: ACCENT_TEAL, size: TextSize::Large, clip: None },
    ] + (if focused {
        seq![
            DrawOp::Text { x: (wx_u + w - 80) as u32, y: input_row_y, text: "[focused]", color: TEXT_DIM, size: TextSize::Large, clip: None },
        ]
    } else {
        Seq::empty()
    }) + seq![
        DrawOp::Rect { x: (wx_u + w - 12) as u32, y: (input_row_y + 10) as u32, w: 12, h: 12, color: ACCENT_TEAL },
        DrawOp::Rect { x: (wx_u + w - 8) as u32, y: (input_row_y + 14) as u32, w: 4, h: 4, color: TEXT_WHITE },
    ]
}

fn edb_head<'a>(c: &mut Canvas<'a>, wx_u: u32, w: u32, hdr_y: u32, input_row_y: u32, count: usize)
    requires
        w >= 8,
        wx_u + 120 <= u32::MAX,
        hdr_y + 20 <= u32::MAX,
    ensures
        final(c)@ == old(c)@ + edb_head_ops(wx_u, w, hdr_y, input_row_y, count),
{
    let ghost start = c@;
    c.rect(wx_u + 1, hdr_y, w - 2, 16, WIN_BG);
    c.text(wx_u + 8, hdr_y + 2, "Entries:", TEXT_DIM);
    c.hex32(wx_u + 72, hdr_y + 2, count as u32, ACCENT_TEAL);
    c.text(wx_u + 120, hdr_y + 2, "/ 32", TEXT_DIM);
    c.hline(wx_u + 4, hdr_y + 17, w - 8, PANEL_BORDER);
    if input_row_y > hdr_y + 20 {
        c.rect(wx_u + 1, hdr_y + 20, w - 2, input_row_y - (hdr_y + 20), WIN_BG);
    }
    assert(c@ =~= start + edb_head_ops(wx_u, w, hdr_y, input_row_y, count));
}

fn edb_input<'a>(c: &mut Canvas<'a>, wx_u: u32, w: u32, input_row_y: u32, input_buf: &'a [u8], input_len: usize, focused: bool)
    requires
        w >= 8,
        wx_u + w <= u32::MAX,
        wx_u + w >= 100,
        input_row_y >= 3,
        input_row_y + 18 <= u32::MAX,
        input_len <= input_buf@.len(),
        wx_u + 40 + input_len * 9 <= u32::MAX,
    ensures
        final(c)@ == old(c)@ + edb_input_ops(wx_u, w, input_row_y, input_buf, input_len, focused),
{
    let ghost start = c@;
    c.hline(wx_u + 4, input_row_y - 3, w - 8, PANEL_BORDER);
    c.rect(wx_u + 4, input_row_y - 1, w - 8, 18, WIN_BG);
    c.text16(wx_u + 8, input_row_y, "edb>", ACCENT_TEAL);
    match crate::bytes::str_from_utf8(input_buf.split_at(input_len).0) {
        Some(_) => {
            c.op(
                DrawOp::Slice {
                    x: wx_u + 40,
                    y: input_row_y,
                    bytes: input_buf,
                    from: 0,
                    to: input_len,
                    color: TEXT_WHITE,
                    size: TextSize::Large,
                    clip: None,
                },
            );
        },
        None => {},
    }
    c.text16(wx_u + 40 + input_len as u32 * 9, input_row_y, "_", ACCENT_TEAL);
    if focused {
        c.text16(wx_u + w - 80, input_row_y, "[focused]", TEXT_DIM);
    }
    c.rect(wx_u + w - 12, input_row_y + 10, 12, 12, ACCENT_TEAL);
    c.rect(wx_u + w - 8, input_row_y + 14, 4, 4, TEXT_WHITE);
    assert(c@ =~= start + edb_input_ops(wx_u, w, input_row_y, input_buf, input_len, focused));
}

/// The EdisonDB browser (window kind 4): the entry count, one row per
/// visible entry from `scroll` with the cursor's row highlighted, and the
/// `edb>` input line.
#[verifier::rlimit(40)]
pub fn render_edb_browser<'a>(
    c: &mut Canvas<'a>,
    wx: i32,
    wy: i32,
    w: u32,
    h: u32,
    entries: &'a [EdbEntry],
    cursor: usize,
    scroll: usize,
    input_buf: &'a [u8],
    input_len: usize,
    focused: bool,
)
    requires
        edb_browser_ok(wx, wy, w, h, entries@, input_buf, input_len),
    ensures
        final(c)@ == old(c)@ + edb_browser_ops(wx, wy, w, h, entries@, cursor, scroll, input_buf, input_len, focused),
{
    let ghost start = c@;
    let wx_u = wx as u32;
    let count = entries.len();
    let hdr_y = (wy + 28) as u32;
    let input_row_y = (wy + h as i32 - 22) as u32;
    let body_top = hdr_y + 20;
    edb_head(c, wx_u, w, hdr_y, input_row_y, count);
    let ghost p1 = edb_head_ops(wx_u, w, hdr_y, input_row_y, count);
    let max_visible: usize = if input_row_y > body_top {
        ((input_row_y - body_top) / 16) as usize
    } else {
        0
    };
    let left: usize = if scroll < count {
        count - scroll
    } else {
        0
    };
    let n = if max_visible < left {
        max_visible
    } else {
        left
    };
    assert(n * 16 <= input_row_y - body_top || n == 0) by (nonlinear_arith)
        requires
            n <= max_visible,
            input_row_y > body_top ==> max_visible == (input_row_y - body_top) / 16,
            input_row_y <= body_top ==> max_visible == 0,
    ;
    edb_rows(c, wx_u, w, body_top, entries, scroll, cursor, n);
    let ghost p2 = edb_rows_ops(wx_u, w, body_top, entries@, scroll, cursor, n as int);
    proof {
        lemma_append(start, p1, p2);
    }
    edb_input(c, wx_u, w, input_row_y, input_buf, input_len, focused);
    let ghost p3 = edb_input_ops(wx_u, w, input_row_y, input_buf, input_len, focused);
    proof {
        lemma_append(start, p1 + p2, p3);
    }
    assert(n == edb_rows_shown(body_top, input_row_y, count as int, scroll));
}
/// The window frame: shadow, rounded borders, title-bar bands and sheen.
pub open spec fn window_frame_ops<'a>(wx: u32, wy: u32, w: u32, h: u32) -> Seq<DrawOp<'a>> {
    let sat_wx1 = sat_sub(wx, 1);
    let sat_wy1 = sat_sub(wy, 1);
    seq![
        DrawOp::Blend { x: (wx + 3) as u32, y: (wy + 3) as u32, w: (w + 2) as u32, h: (h + 2) as u32, fg: SHADOW, alpha: 100 },
        DrawOp::RoundedBorder { x: sat_wx1, y: sat_wy1, w: (w + 2) as u32, h: (h + 2) as u32, r: 6, color: ACCENT_TEAL },
        DrawOp::RoundedBorder { x: wx, y: wy, w: w, h: h, r: 5, color: 0x2A1A4A },
        DrawOp::Rect { x: wx, y: wy, w: w, h: 6, color: GLASS_HI },
        DrawOp::Rect { x: wx, y: (wy + 6) as u32, w: w, h: 6, color: GLASS_MID },
        DrawOp::Rect { x: wx, y: (wy + 12) as u32, w: w, h: 6, color: GLASS_LOW },
        DrawOp::Rect { x: wx, y: (wy + 18) as u32, w: w, h: 6, color: WIN_TITLE },
        DrawOp::HLine { x: (wx + 2) as u32, y: wy, len: (w - 4) as u32, color: 0x6060A0 },
        DrawOp::Blend { x: wx, y: wy, w: w, h: 24, fg: 0xFFFFFF, alpha: 8 },
    ]
}

/// The title bar's diamond mark centred at `(tx, ty)`.
pub open spec fn title_mark_ops<'a>(tx: u32, ty: u32) -> Seq<DrawOp<'a>> {
    seq![
        DrawOp::HLine { x: tx, y: (ty - 4) as u32, len: 1, color: PLUM_GLOW },
        DrawOp::HLine { x: (tx - 1) as u32, y: (ty - 3) as u32, len: 3, color: PLUM_GLOW },
        DrawOp::HLine { x: (tx - 2) as u32, y: (ty - 2) as u32, len: 5, color: PLUM_GLOW },
        DrawOp::HLine { x: (tx - 3) as u32, y: (ty - 1) as u32, len: 7, color: PLUM_GLOW },
        DrawOp::HLine { x: (tx - 4) as u32, y: ty, len: 9, color: PLUM_GLOW },
        DrawOp::HLine { x: (tx - 3) as u32, y: (ty + 1) as u32, len: 7, color: PLUM_GLOW },
        DrawOp::HLine { x: (tx - 2) as u32, y: (ty + 2) as u32, len: 5, color: PLUM_GLOW },
        DrawOp::HLine { x: (tx - 1) as u32, y: (ty + 3) as u32, len: 3, color: PLUM_GLOW },
        DrawOp::HLine { x: tx, y: (ty + 4) as u32, len: 1, color: PLUM_GLOW },
    ]
}

/// The title, the close, minimize and maximize controls, and the body.
pub open spec fn window_title_ops<'a>(wx: u32, wy: u32, w: u32, h: u32, title: &'a str) -> Seq<DrawOp<'a>> {
    seq![
        DrawOp::Text { x: (wx + 24) as u32, y: (wy + 4) as u32, text: title, color: TEXT_WHITE, size: TextSize::Large, clip: Some((wx + w - 52) as u32) },
        DrawOp::RoundedRect { x: (wx + w - 19) as u32, y: (wy + 7) as u32, w: 10, h: 10, r: 5, color: 0xC0392B },
        DrawOp::Blend { x: (wx + w - 19) as u32, y: (wy + 7) as u32, w: 10, h: 5, fg: 0xFFFFFF, alpha: 30 },
        DrawOp::RoundedRect { x: (wx + w - 37) as u32, y: (wy + 7) as u32, w: 10, h: 10, r: 5, color: 0xE67E22 },
        DrawOp::Blend { x: (wx + w - 37) as u32, y: (wy + 7) as u32, w: 10, h: 5, fg: 0xFFFFFF, alpha: 30 },
        DrawOp::RoundedRect { x: (wx + w - 55) as u32, y: (wy + 7) as u32, w: 10, h: 10, r: 5, color: 0x27AE60 },
        DrawOp::Blend { x: (wx + w - 55) as u32, y: (wy + 7) as u32, w: 10, h: 5, fg: 0xFFFFFF, alpha: 30 },
        DrawOp::HLine { x: wx, y: (wy + 24) as u32, len: w, color: ACCENT_TEAL },
        DrawOp::Rect { x: wx, y: (wy + 25) as u32, w: w, h: (h - 25) as u32, color: WIN_BG },
        DrawOp::Blend { x: wx, y: (wy + 25) as u32, w: w, h: (h - 25) as u32, fg: PLUM_GLOW, alpha: 12 },
    ]
}

pub open spec fn window_lines_ops<'a>(wx: u32, wy: u32, w: u32, lines: Seq<&'a str>, n: int) -> Seq<DrawOp<'a>>
    decreases n,
{
    if n <= 0 {
        Seq::empty()
    } else {
        let row = n - 1;
        let line = lines[n - 1];
        window_lines_ops(wx, wy, w, lines, n - 1) + seq![
            DrawOp::Text { x: (wx + 12) as u32, y: (wy + 36 + row * 18) as u32, text: line, color: TEXT_WHITE, size: TextSize::Small, clip: Some((wx + w - 8) as u32) },
        ]
    }
}

/// Text rows a window of height `h` holds.
pub open spec fn window_rows(h: u32) -> int {
    if h > 44 { (h - 44) / 18 } else { 0 }
}

/// A window at `pos` with a title and its first lines, one per text row.
pub open spec fn window_ops<'a>(pos: &WindowPos, title: &'a str, lines: Seq<&'a str>, w: u32, h: u32) -> Seq<DrawOp<'a>> {
    let wx = pos.x as u32;
    let wy = pos.y as u32;
    let m = window_rows(h);
    let n = if lines.len() < m { lines.len() as int } else { m };
    window_frame_ops(wx, wy, w, h) + title_mark_ops((wx + 10) as u32, (wy + 12) as u32) + window_title_ops(wx, wy, w, h, title)
        + window_lines_ops(wx, wy, w, lines, n) + seq![
        DrawOp::Rect { x: (wx + w - 12) as u32, y: (wy + h - 12) as u32, w: 12, h: 12, color: ACCENT_TEAL },
        DrawOp::Blend { x: (wx + w - 12) as u32, y: (wy + h - 12) as u32, w: 12, h: 6, fg: 0xFFFFFF, alpha: 30 },
        DrawOp::Rect { x: (wx + w - 8) as u32, y: (wy + h - 8) as u32, w: 4, h: 4, color: TEXT_WHITE },
    ]
}

/// What a window needs of its size and position.
pub open spec fn window_ok(pos: &WindowPos, w: u32, h: u32) -> bool {
    let wx = pos.x as u32;
    let wy = pos.y as u32;
    &&& wx + w + 5 <= u32::MAX
    &&& wy + h + 5 <= u32::MAX
    &&& wx + 24 <= u32::MAX
    &&& wy + 36 <= u32::MAX
    &&& w >= 4
    &&& h >= 25
    &&& wx + w >= 55
}

fn window_frame<'a>(c: &mut Canvas<'a>, wx: u32, wy: u32, w: u32, h: u32)
    requires
        wx + w + 5 <= u32::MAX,
        wy + h + 5 <= u32::MAX,
        wy + 24 <= u32::MAX,
        w >= 4,
    ensures
        final(c)@ == old(c)@ + window_frame_ops(wx, wy, w, h),
{
    let ghost start = c@;
    let sat_wx1 = wx.saturating_sub(1);
    let sat_wy1 = wy.saturating_sub(1);
    c.blend(wx + 3, wy + 3, w + 2, h + 2, SHADOW, 100);
    c.rounded_border(sat_wx1, sat_wy1, w + 2, h + 2, 6, ACCENT_TEAL);
    c.rounded_border(wx, wy, w, h, 5, 0x2A1A4A);
    c.rect(wx, wy, w, 6, GLASS_HI);
    c.rect(wx, wy + 6, w, 6, GLASS_MID);
    c.rect(wx, wy + 12, w, 6, GLASS_LOW);
    c.rect(wx, wy + 18, w, 6, WIN_TITLE);
    c.hline(wx + 2, wy, w - 4, 0x6060A0);
    c.blend(wx, wy, w, 24, 0xFFFFFF, 8);
    assert(c@ =~= start + window_frame_ops(wx, wy, w, h));
}

fn title_mark<'a>(c: &mut Canvas<'a>, tx: u32, ty: u32)
    requires
        tx >= 10,
        ty >= 12,
        tx + 1 <= u32::MAX,
        ty + 4 <= u32::MAX,
    ensures
        final(c)@ == old(c)@ + title_mark_ops(tx, ty),
{
    let ghost start = c@;
    c.hline(tx, ty - 4, 1, PLUM_GLOW);
    c.hline(tx - 1, ty - 3, 3, PLUM_GLOW);
    c.hline(tx - 2, ty - 2, 5, PLUM_GLOW);
    c.hline(tx - 3, ty - 1, 7, PLUM_GLOW);
    c.hline(tx - 4, ty, 9, PLUM_GLOW);
    c.hline(tx - 3, ty + 1, 7, PLUM_GLOW);
    c.hline(tx - 2, ty + 2, 5, PLUM_GLOW);
    c.hline(tx - 1, ty + 3, 3, PLUM_GLOW);
    c.hline(tx, ty + 4, 1, PLUM_GLOW);
    assert(c@ =~= start + title_mark_ops(tx, ty));
}

fn window_title<'a>(c: &mut Canvas<'a>, wx: u32, wy: u32, w: u32, h: u32, title: &'a str)
    requires
        wx + w <= u32::MAX,
        wx + 24 <= u32::MAX,
        wy + 25 <= u32::MAX,
        wx + w >= 55,
        h >= 25,
    ensures
        final(c)@ == old(c)@ + window_title_ops(wx, wy, w, h, title),
{
    let ghost start = c@;
    c.text16_clipped(wx + 24, wy + 4, title, TEXT_WHITE, wx + w - 52);
    c.rounded(wx + w - 19, wy + 7, 10, 10, 5, 0xC0392B);
    c.blend(wx + w - 19, wy + 7, 10, 5, 0xFFFFFF, 30);
    c.rounded(wx + w - 37, wy + 7, 10, 10, 5, 0xE67E22);
    c.blend(wx + w - 37, wy + 7, 10, 5, 0xFFFFFF, 30);
    c.rounded(wx + w - 55, wy + 7, 10, 10, 5, 0x27AE60);
    c.blend(wx + w - 55, wy + 7, 10, 5, 0xFFFFFF, 30);
    c.hline(wx, wy + 24, w, ACCENT_TEAL);
    c.rect(wx, wy + 25, w, h - 25, WIN_BG);
    c.blend(wx, wy + 25, w, h - 25, PLUM_GLOW, 12);
    assert(c@ =~= start + window_title_ops(wx, wy, w, h, title));
}

fn window_lines<'a>(c: &mut Canvas<'a>, wx: u32, wy: u32, w: u32, lines: &'a [&'a str], n: usize)
    requires
        n <= lines@.len(),
        wx + 12 <= u32::MAX,
        wx + w >= 8,
        wx + w <= u32::MAX,
        wy + 36 + n * 18 <= u32::MAX,
    ensures
        final(c)@ == old(c)@ + window_lines_ops(wx, wy, w, lines@, n as int),
{
    let ghost start = c@;
    let mut row: u32 = 0;
    while (row as usize) < n
        invariant
            row <= n,
            n <= lines@.len(),
            wx + 12 <= u32::MAX,
            wx + w >= 8,
            wx + w <= u32::MAX,
            wy + 36 + n * 18 <= u32::MAX,
            c@ == start + window_lines_ops(wx, wy, w, lines@, row as int),
        decreases n - row,
    {
        assert(row * 18 + 18 <= n * 18) by (nonlinear_arith)
            requires
                row < n,
        ;
        let line = lines[row as usize];
        c.text_clipped(wx + 12, wy + 36 + row * 18, line, TEXT_WHITE, wx + w - 8);
        row = row + 1;
    }
}

/// A window at `pos`: frame, title bar with its mark and controls, and
/// `lines` drawn one per text row while rows last.
#[verifier::rlimit(30)]
pub fn render_window<'a>(c: &mut Canvas<'a>, pos: &WindowPos, title: &'a str, lines: &'a [&'a str], w: u32, h: u32)
    requires
        window_ok(pos, w, h),
    ensures
        final(c)@ == old(c)@ + window_ops(pos, title, lines@, w, h),
{
    let ghost start = c@;
    let wx = pos.x as u32;
    let wy = pos.y as u32;
    window_frame(c, wx, wy, w, h);
    let ghost p1 = window_frame_ops(wx, wy, w, h);
    title_mark(c, wx + 10, wy + 12);
    let ghost p2 = title_mark_ops((wx + 10) as u32, (wy + 12) as u32);
    proof {
        lemma_append(start, p1, p2);
    }
    window_title(c, wx, wy, w, h, title);
    let ghost p3 = window_title_ops(wx, wy, w, h, title);
    proof {
        lemma_append(start, p1 + p2, p3);
    }
    let max_rows: u32 = if h > 44 {
        (h - 44) / 18
    } else {
        0
    };
    let n: usize = if lines.len() < max_rows as usize {
        lines.len()
    } else {
        max_rows as usize
    };
    assert(n == 0 || n * 18 + 44 <= h) by (nonlinear_arith)
        requires
            n <= max_rows,
            max_rows == (if h > 44 { (h - 44) / 18 } else { 0 }),
    ;
    window_lines(c, wx, wy, w, lines, n);
    let ghost p4 = window_lines_ops(wx, wy, w, lines@, n as int);
    proof {
        lemma_append(start, p1 + p2 + p3, p4);
    }
    let ghost s4 = c@;
    c.rect(wx + w - 12, wy + h - 12, 12, 12, ACCENT_TEAL);
    c.blend(wx + w - 12, wy + h - 12, 12, 6, 0xFFFFFF, 30);
    c.rect(wx + w - 8, wy + h - 8, 4, 4, TEXT_WHITE);
    let ghost p5 = seq![
        DrawOp::Rect { x: (wx + w - 12) as u32, y: (wy + h - 12) as u32, w: 12, h: 12, color: ACCENT_TEAL },
        DrawOp::Blend { x: (wx + w - 12) as u32, y: (wy + h - 12) as u32, w: 12, h: 6, fg: 0xFFFFFF, alpha: 30 },
        DrawOp::Rect { x: (wx + w - 8) as u32, y: (wy + h - 8) as u32, w: 4, h: 4, color: TEXT_WHITE },
    ];
    assert(c@ =~= s4 + p5);
    proof {
        lemma_append(start, p1 + p2 + p3 + p4, p5);
    }
}

/// The dock slot a window kind shows its indicator under.
pub open spec fn dock_slot(kind: u8) -> u32 {
    if kind == 1 {
        2
    } else if kind == 2 || kind == 4 {
        4
    } else if kind == 3 {
        6
    } else if kind == 8 {
        5
    } else if kind == 9 {
        3
    } else {
        0
    }
}

fn dock_slot_of(kind: u8) -> (r: u32)
    ensures
        r == dock_slot(kind),
{
    if kind == 1 {
        2
    } else if kind == 2 || kind == 4 {
        4
    } else if kind == 3 {
        6
    } else if kind == 8 {
        5
    } else if kind == 9 {
        3
    } else {
        0
    }
}

/// The indicator for window slot `s` (open, kind, minimized): an amber dot
/// for a minimized window, a teal one for an open one, nothing for a free
/// slot.
pub open spec fn dock_dot_ops<'a>(s: (bool, u8, bool)) -> Seq<DrawOp<'a>> {
    let dot_col: u32 = if s.2 { ACCENT_AMBER } else { ACCENT_TEAL };
    if s.0 {
        seq![
            DrawOp::Rect { x: (DOCK_X + 21 + dock_slot(s.1) * 40) as u32, y: (DOCK_Y + 6) as u32, w: 6, h: 2, color: dot_col },
        ]
    } else {
        Seq::empty()
    }
}

pub open spec fn dock_dots_ops<'a>(slots: Seq<(bool, u8, bool)>, n: int) -> Seq<DrawOp<'a>>
    decreases n,
{
    if n <= 0 {
        Seq::empty()
    } else {
        dock_dots_ops(slots, n - 1) + dock_dot_ops(slots[n - 1])
    }
}

/// The dock: its bar, the seven icons, and an indicator per open window.
pub open spec fn taskbar_ops<'a>(slots: Seq<(bool, u8, bool)>) -> Seq<DrawOp<'a>> {
    seq![
        DrawOp::Rect { x: 0, y: DOCK_Y, w: 1280, h: DOCK_H, color: 0x0A0818 },
        DrawOp::HLine { x: 0, y: DOCK_Y, len: 1280, color: 0x1A1830 },
        DrawOp::RoundedRect { x: DOCK_X, y: (DOCK_Y + 4) as u32, w: DOCK_W, h: 36, r: 10, color: 0x100E20 },
        DrawOp::RoundedBorder { x: DOCK_X, y: (DOCK_Y + 4) as u32, w: DOCK_W, h: 36, r: 10, color: 0x2A2848 },
        DrawOp::HLine { x: (DOCK_X + 10) as u32, y: (DOCK_Y + 5) as u32, len: (DOCK_W - 20) as u32, color: 0x3A3858 },
        DrawOp::Icon { id: 0, x: (DOCK_X + 8 + 0) as u32, y: (DOCK_Y + 8) as u32 },
        DrawOp::Icon { id: 1, x: (DOCK_X + 8 + 40) as u32, y: (DOCK_Y + 8) as u32 },
        DrawOp::Icon { id: 2, x: (DOCK_X + 8 + 80) as u32, y: (DOCK_Y + 8) as u32 },
        DrawOp::Icon { id: 3, x: (DOCK_X + 8 + 120) as u32, y: (DOCK_Y + 8) as u32 },
        DrawOp::Icon { id: 4, x: (DOCK_X + 8 + 160) as u32, y: (DOCK_Y + 8) as u32 },
        DrawOp::Icon { id: 5, x: (DOCK_X + 8 + 200) as u32, y: (DOCK_Y + 8) as u32 },
        DrawOp::Icon { id: 6, x: (DOCK_X + 8 + 240) as u32, y: (DOCK_Y + 8) as u32 },
    ] + dock_dots_ops(slots, slots.len() as int)
}

/// The dock along the bottom edge: seven icons and an indicator under the
/// icon of each open window (`active` is not used).
pub fn render_taskbar<'a>(c: &mut Canvas<'a>, slots: &[(bool, u8, bool)], active: usize)
    ensures
        final(c)@ == old(c)@ + taskbar_ops(slots@),
{
    let ghost start = c@;
    c.rect(0, DOCK_Y, 1280, DOCK_H, 0x0A0818);
    c.hline(0, DOCK_Y, 1280, 0x1A1830);
    c.rounded(DOCK_X, DOCK_Y + 4, DOCK_W, 36, 10, 0x100E20);
    c.rounded_border(DOCK_X, DOCK_Y + 4, DOCK_W, 36, 10, 0x2A2848);
    c.hline(DOCK_X + 10, DOCK_Y + 5, DOCK_W - 20, 0x3A3858);
    c.op(DrawOp::Icon { id: 0, x: DOCK_X + 8 + 0, y: DOCK_Y + 8 });
    c.op(DrawOp::Icon { id: 1, x: DOCK_X + 8 + 40, y: DOCK_Y + 8 });
    c.op(DrawOp::Icon { id: 2, x: DOCK_X + 8 + 80, y: DOCK_Y + 8 });
    c.op(DrawOp::Icon { id: 3, x: DOCK_X + 8 + 120, y: DOCK_Y + 8 });
    c.op(DrawOp::Icon { id: 4, x: DOCK_X + 8 + 160, y: DOCK_Y + 8 });
    c.op(DrawOp::Icon { id: 5, x: DOCK_X + 8 + 200, y: DOCK_Y + 8 });
    c.op(DrawOp::Icon { id: 6, x: DOCK_X + 8 + 240, y: DOCK_Y + 8 });
    let ghost s1 = c@;
    assert(s1 =~= start + seq![
        DrawOp::Rect { x: 0, y: DOCK_Y, w: 1280, h: DOCK_H, color: 0x0A0818 },
        DrawOp::HLine { x: 0, y: DOCK_Y, len: 1280, color: 0x1A1830 },
        DrawOp::RoundedRect { x: DOCK_X, y: (DOCK_Y + 4) as u32, w: DOCK_W, h: 36, r: 10, color: 0x100E20 },
        DrawOp::RoundedBorder { x: DOCK_X, y: (DOCK_Y + 4) as u32, w: DOCK_W, h: 36, r: 10, color: 0x2A2848 },
        DrawOp::HLine { x: (DOCK_X + 10) as u32, y: (DOCK_Y + 5) as u32, len: (DOCK_W - 20) as u32, color: 0x3A3858 },
        DrawOp::Icon { id: 0, x: (DOCK_X + 8 + 0) as u32, y: (DOCK_Y + 8) as u32 },
        DrawOp::Icon { id: 1, x: (DOCK_X + 8 + 40) as u32, y: (DOCK_Y + 8) as u32 },
        DrawOp::Icon { id: 2, x: (DOCK_X + 8 + 80) as u32, y: (DOCK_Y + 8) as u32 },
        DrawOp::Icon { id: 3, x: (DOCK_X + 8 + 120) as u32, y: (DOCK_Y + 8) as u32 },
        DrawOp::Icon { id: 4, x: (DOCK_X + 8 + 160) as u32, y: (DOCK_Y + 8) as u32 },
        DrawOp::Icon { id: 5, x: (DOCK_X + 8 + 200) as u32, y: (DOCK_Y + 8) as u32 },
        DrawOp::Icon { id: 6, x: (DOCK_X + 8 + 240) as u32, y: (DOCK_Y + 8) as u32 },
    ]);
    let mut wi: usize = 0;
    while wi < slots.len()
        invariant
            wi <= slots@.len(),
            c@ == s1 + dock_dots_ops(slots@, wi as int),
        decreases slots.len() - wi,
    {
        let s = slots[wi];
        let ghost before = c@;
        if s.0 {
            let dot_col: u32 = if s.2 {
                ACCENT_AMBER
            } else {
                ACCENT_TEAL
            };
            c.rect(DOCK_X + 21 + dock_slot_of(s.1) * 40, DOCK_Y + 6, 6, 2, dot_col);
        }
        assert(c@ =~= before + dock_dot_ops(slots@[wi as int]));
        wi = wi + 1;
    }
    proof {
        lemma_append(start, seq![
            DrawOp::Rect { x: 0, y: DOCK_Y, w: 1280, h: DOCK_H, color: 0x0A0818 },
            DrawOp::HLine { x: 0, y: DOCK_Y, len: 1280, color: 0x1A1830 },
            DrawOp::RoundedRect { x: DOCK_X, y: (DOCK_Y + 4) as u32, w: DOCK_W, h: 36, r: 10, color: 0x100E20 },
            DrawOp::RoundedBorder { x: DOCK_X, y: (DOCK_Y + 4) as u32, w: DOCK_W, h: 36, r: 10, color: 0x2A2848 },
            DrawOp::HLine { x: (DOCK_X + 10) as u32, y: (DOCK_Y + 5) as u32, len: (DOCK_W - 20) as u32, color: 0x3A3858 },
            DrawOp::Icon { id: 0, x: (DOCK_X + 8 + 0) as u32, y: (DOCK_Y + 8) as u32 },
            DrawOp::Icon { id: 1, x: (DOCK_X + 8 + 40) as u32, y: (DOCK_Y + 8) as u32 },
            DrawOp::Icon { id: 2, x: (DOCK_X + 8 + 80) as u32, y: (DOCK_Y + 8) as u32 },
            DrawOp::Icon { id: 3, x: (DOCK_X + 8 + 120) as u32, y: (DOCK_Y + 8) as u32 },
            DrawOp::Icon { id: 4, x: (DOCK_X + 8 + 160) as u32, y: (DOCK_Y + 8) as u32 },
            DrawOp::Icon { id: 5, x: (DOCK_X + 8 + 200) as u32, y: (DOCK_Y + 8) as u32 },
            DrawOp::Icon { id: 6, x: (DOCK_X + 8 + 240) as u32, y: (DOCK_Y + 8) as u32 },
        ], dock_dots_ops(slots@, slots@.len() as int));
    }
}

/// The month's abbreviation (blank for 0, `???` past December).
pub open spec fn month_label(mon: u8) -> &'static str {
    if mon == 0 {
        "   "
    } else if mon == 1 {
        "Jan"
    } else if mon == 2 {
        "Feb"
    } else if mon == 3 {
        "Mar"
    } else if mon == 4 {
        "Apr"
    } else if mon == 5 {
        "May"
    } else if mon == 6 {
        "Jun"
    } else if mon == 7 {
        "Jul"
    } else if mon == 8 {
        "Aug"
    } else if mon == 9 {
        "Sep"
    } else if mon == 10 {
        "Oct"
    } else if mon == 11 {
        "Nov"
    } else if mon == 12 {
        "Dec"
    } else {
        "???"
    }
}

fn month_of(mon: u8) -> (s: &'static str)
    ensures
        s == month_label(mon),
{
    if mon == 0 {
        "   "
    } else if mon == 1 {
        "Jan"
    } else if mon == 2 {
        "Feb"
    } else if mon == 3 {
        "Mar"
    } else if mon == 4 {
        "Apr"
    } else if mon == 5 {
        "May"
    } else if mon == 6 {
        "Jun"
    } else if mon == 7 {
        "Jul"
    } else if mon == 8 {
        "Aug"
    } else if mon == 9 {
        "Sep"
    } else if mon == 10 {
        "Oct"
    } else if mon == 11 {
        "Nov"
    } else if mon == 12 {
        "Dec"
    } else {
        "???"
    }
}

/// The character of decimal digit `d`.
pub open spec fn digit_char(d: int) -> u8 {
    (48 + d) as u8
}

/// The hour on the clock: `rtc_hour` shifted by the time-zone offset, modulo 24.
pub open spec fn local_hour(rtc_hour: u8, tz_offset: i32) -> int {
    (rtc_hour + tz_offset) % 24
}

/// The size of a time-zone offset, in hours.
pub open spec fn zone_magnitude(tz_offset: i32) -> nat {
    if tz_offset < 0 {
        (-tz_offset) as nat
    } else {
        tz_offset as nat
    }
}

/// The digits of a time-zone offset after its `UTC+` or `UTC-`: one
/// character per digit, 8 pixels apart from x = 1222.
pub open spec fn zone_digit_ops<'a>(digits: Seq<u8>, color: u32) -> Seq<DrawOp<'a>> {
    Seq::new(
        digits.len(),
        |k: int| DrawOp::Char { x: (1222 + 8 * k) as u32, y: 15, ch: digits[k], color },
    )
}

proof fn lemma_nat_digits_len(n: nat)
    ensures
        nat_digits(n).len() <= 1 + n / 10,
    decreases n,
{
    if n >= 10 {
        lemma_nat_digits_len(n / 10);
    }
}

/// Appends the digits of the time-zone offset's size.
fn zone_digits<'a>(c: &mut Canvas<'a>, tz_offset: i32, color: u32)
    requires
        tz_offset > i32::MIN,
    ensures
        final(c)@ == old(c)@ + zone_digit_ops(nat_digits(zone_magnitude(tz_offset)), color),
{
    let ghost start = c@;
    let mag: i64 = if tz_offset < 0 {
        -(tz_offset as i64)
    } else {
        tz_offset as i64
    };
    let digits = i64_decimal(mag);
    let ghost d = nat_digits(zone_magnitude(tz_offset));
    assert(digits@ == d);
    proof {
        lemma_nat_digits_len(zone_magnitude(tz_offset));
    }
    let mut k: usize = 0;
    while k < digits.len()
        invariant
            k <= digits@.len(),
            digits@ == d,
            d.len() <= 1 + zone_magnitude(tz_offset) / 10,
            zone_magnitude(tz_offset) <= 0x8000_0000,
            c@ =~= start + zone_digit_ops(d.take(k as int), color),
        decreases digits.len() - k,
    {
        let x: u32 = 1222 + 8 * (k as u32);
        c.op(DrawOp::Char { x, y: 15, ch: digits[k], color });
        assert(zone_digit_ops(d.take(k + 1), color) =~= zone_digit_ops(d.take(k as int), color).push(
            DrawOp::Char { x, y: 15, ch: d[k as int], color },
        ));
        k = k + 1;
    }
    assert(d.take(d.len() as int) =~= d);
}

/// The top bar: menu glyph, wordmark, date, local time and time zone.
pub open spec fn top_bar_ops<'a>(rtc_hour: u8, rtc_min: u8, rtc_day: u8, rtc_mon: u8, tz_offset: i32) -> Seq<DrawOp<'a>> {
    let lh = local_hour(rtc_hour, tz_offset);
    seq![
        DrawOp::Rect { x: 0, y: 0, w: 1280, h: TOP_BAR_H, color: 0x08060F },
        DrawOp::HLine { x: 0, y: 0, len: 1280, color: 0x2A2848 },
        DrawOp::HLine { x: 0, y: (TOP_BAR_H - 1) as u32, len: 1280, color: 0x1A1830 },
        DrawOp::Rect { x: 12, y: 13, w: 14, h: 2, color: TEXT_WHITE },
        DrawOp::Rect { x: 12, y: 18, w: 10, h: 2, color: TEXT_WHITE },
        DrawOp::Rect { x: 12, y: 23, w: 12, h: 2, color: TEXT_WHITE },
        DrawOp::Text { x: 582, y: 8, text: "aiXos Phoenix", color: 0x555588, size: TextSize::Large, clip: None },
        DrawOp::Text { x: 1080, y: 15, text: month_label(rtc_mon), color: 0x888899, size: TextSize::Small, clip: None },
    ] + seq![
        DrawOp::Char { x: 1112, y: 15, ch: digit_char((rtc_day / 10 % 10) as int), color: 0x888899 },
        DrawOp::Char { x: 1120, y: 15, ch: digit_char((rtc_day % 10) as int), color: 0x888899 },
        DrawOp::Text { x: 1130, y: 15, text: " ", color: 0x666688, size: TextSize::Small, clip: None },
        DrawOp::Char { x: 1138, y: 15, ch: digit_char((lh / 10) % 10), color: 0x888899 },
        DrawOp::Char { x: 1146, y: 15, ch: digit_char(lh % 10), color: 0x888899 },
        DrawOp::Text { x: 1154, y: 15, text: ":", color: 0x666688, size: TextSize::Small, clip: None },
        DrawOp::Char { x: 1162, y: 15, ch: digit_char((rtc_min / 10 % 10) as int), color: 0x888899 },
        DrawOp::Char { x: 1170, y: 15, ch: digit_char((rtc_min % 10) as int), color: 0x888899 },
    ] + (if tz_offset == 0 {
        seq![DrawOp::Text { x: 1190, y: 15, text: "UTC", color: 0x444466, size: TextSize::Small, clip: None }]
    } else if tz_offset > 0 {
        seq![DrawOp::Text { x: 1190, y: 15, text: "UTC+", color: 0x4466AA, size: TextSize::Small, clip: None }]
            + zone_digit_ops(nat_digits(zone_magnitude(tz_offset)), 0x4466AA)
    } else {
        seq![DrawOp::Text { x: 1190, y: 15, text: "UTC-", color: 0x6644AA, size: TextSize::Small, clip: None }]
            + zone_digit_ops(nat_digits(zone_magnitude(tz_offset)), 0x6644AA)
    }) + seq![DrawOp::Rect { x: 1230, y: 15, w: 6, h: 6, color: ACCENT_TEAL }]
}

/// The top bar with the date and the local time (`uptime_sec` is not shown).
#[verifier::spinoff_prover]
#[verifier::rlimit(40)]
pub fn render_top_bar_icons<'a>(
    c: &mut Canvas<'a>,
    uptime_sec: u64,
    rtc_hour: u8,
    rtc_min: u8,
    rtc_day: u8,
    rtc_mon: u8,
    tz_offset: i32,
)
    requires
        tz_offset + 255 <= i32::MAX,
        tz_offset > i32::MIN,
    ensures
        final(c)@ == old(c)@ + top_bar_ops(rtc_hour, rtc_min, rtc_day, rtc_mon, tz_offset),
{
    let ghost start = c@;
    c.rect(0, 0, 1280, TOP_BAR_H, 0x08060F);
    c.hline(0, 0, 1280, 0x2A2848);
    c.hline(0, TOP_BAR_H - 1, 1280, 0x1A1830);
    c.rect(12, 13, 14, 2, TEXT_WHITE);
    c.rect(12, 18, 10, 2, TEXT_WHITE);
    c.rect(12, 23, 12, 2, TEXT_WHITE);
    c.text16(582, 8, "aiXos Phoenix", 0x555588);
    c.text(1080, 15, month_of(rtc_mon), 0x888899);
    c.op(DrawOp::Char { x: 1112, y: 15, ch: 48 + (rtc_day / 10) % 10, color: 0x888899 });
    c.op(DrawOp::Char { x: 1120, y: 15, ch: 48 + rtc_day % 10, color: 0x888899 });
    c.text(1130, 15, " ", 0x666688);
    let sum = rtc_hour as i32 + tz_offset;
    let r = sum % 24;
    let lh: u8 = (if r < 0 {
        r + 24
    } else {
        r
    }) as u8;
    assert(lh == local_hour(rtc_hour, tz_offset));
    c.op(DrawOp::Char { x: 1138, y: 15, ch: 48 + (lh / 10) % 10, color: 0x888899 });
    c.op(DrawOp::Char { x: 1146, y: 15, ch: 48 + lh % 10, color: 0x888899 });
    c.text(1154, 15, ":", 0x666688);
    c.op(DrawOp::Char { x: 1162, y: 15, ch: 48 + (rtc_min / 10) % 10, color: 0x888899 });
    c.op(DrawOp::Char { x: 1170, y: 15, ch: 48 + rtc_min % 10, color: 0x888899 });
    if tz_offset == 0 {
        c.text(1190, 15, "UTC", 0x444466);
    } else if tz_offset > 0 {
        c.text(1190, 15, "UTC+", 0x4466AA);
        zone_digits(c, tz_offset, 0x4466AA);
    } else {
        c.text(1190, 15, "UTC-", 0x6644AA);
        zone_digits(c, tz_offset, 0x6644AA);
    }
    c.rect(1230, 15, 6, 6, ACCENT_TEAL);
    assert(c@ =~= start + top_bar_ops(rtc_hour, rtc_min, rtc_day, rtc_mon, tz_offset));
}

pub const BRAND_LOGO_W: u32 = 192;
pub const BRAND_LOGO_H: u32 = 128;

/// The boot splash: black screen, the brand logo centred above (640, 300),
/// the empty progress bar with its frame.
pub open spec fn splash_ops<'a>() -> Seq<DrawOp<'a>> {
    seq![
        DrawOp::Rect { x: 0, y: 0, w: 1280, h: 720, color: 0x00000A },
    ] + seq![DrawOp::BrandLogo { x: 544, y: 236 }] + seq![
        DrawOp::Rect { x: 440, y: 388, w: 400, h: 6, color: 0x1A1A2A },
        DrawOp::Border { x: 439, y: 387, w: 402, h: 8, color: 0x2A2A3A },
    ]
}

/// Draws the splash background, logo and empty progress bar; the progress
/// bar then advances with `render_splash_progress`.
pub fn render_splash<'a>(c: &mut Canvas<'a>)
    ensures
        final(c)@ == old(c)@ + splash_ops(),
{
    let ghost start = c@;
    let cx: u32 = 640;
    let cy: u32 = 300;
    let logo_x = cx - BRAND_LOGO_W / 2;
    let logo_y = cy - BRAND_LOGO_H / 2;
    c.rect(0, 0, 1280, 720, 0x00000A);
    c.op(DrawOp::BrandLogo { x: logo_x, y: logo_y });
    c.rect(440, 388, 400, 6, 0x1A1A2A);
    c.border(439, 387, 402, 8, 0x2A2A3A);
    assert(c@ =~= start + splash_ops());
}

/// Colour of progress-bar column `fx`: ember gold fading to dark orange.
pub open spec fn ember(fx: int) -> u32 {
    let t = fx * 255 / 400;
    let r = 255 - 57 * t / 255;
    let g = 179 - 89 * t / 255;
    let b = 71 - 41 * t / 255;
    (r * 0x1_0000 + g * 0x100 + b) as u32
}

pub open spec fn progress_ops<'a>(n: int) -> Seq<DrawOp<'a>>
    decreases n,
{
    if n <= 0 {
        Seq::empty()
    } else {
        progress_ops(n - 1) + seq![DrawOp::VLine { x: (440 + n - 1) as u32, y: 388, len: 6, color: ember(n - 1) }]
    }
}

/// The label for boot stage `stage`.
pub open spec fn stage_label(stage: u32) -> &'static str {
    if stage == 1 {
        "Hardware probe"
    } else if stage == 2 {
        "EdisonDB init"
    } else if stage == 3 {
        "AXFS init"
    } else if stage == 4 {
        "Sovereign heap"
    } else if stage == 5 {
        "Process table"
    } else if stage == 6 {
        "Desktop ready"
    } else {
        ""
    }
}

fn stage_label_of(stage: u32) -> (s: &'static str)
    ensures
        s == stage_label(stage),
        s@.len() <= 14,
        s.spec_bytes().len() <= 14,
{
    proof {
        reveal_strlit("Hardware probe");
        reveal_strlit("EdisonDB init");
        reveal_strlit("AXFS init");
        reveal_strlit("Sovereign heap");
        reveal_strlit("Process table");
        reveal_strlit("Desktop ready");
        reveal_strlit("");
        vstd::string::is_ascii_spec_bytes("Hardware probe");
        vstd::string::is_ascii_spec_bytes("EdisonDB init");
        vstd::string::is_ascii_spec_bytes("AXFS init");
        vstd::string::is_ascii_spec_bytes("Sovereign heap");
        vstd::string::is_ascii_spec_bytes("Process table");
        vstd::string::is_ascii_spec_bytes("Desktop ready");
        vstd::string::is_ascii_spec_bytes("");
    }
    if stage == 1 {
        "Hardware probe"
    } else if stage == 2 {
        "EdisonDB init"
    } else if stage == 3 {
        "AXFS init"
    } else if stage == 4 {
        "Sovereign heap"
    } else if stage == 5 {
        "Process table"
    } else if stage == 6 {
        "Desktop ready"
    } else {
        ""
    }
}

/// Bar columns filled at `stage` of six.
pub open spec fn progress_filled(stage: u32) -> int {
    400 * (if stage < 6 { stage as int } else { 6 }) / 6
}

/// The progress bar at `stage` of six, its label, and the glow on its tip.
pub open spec fn splash_progress_ops<'a>(stage: u32) -> Seq<DrawOp<'a>> {
    let filled = progress_filled(stage);
    let label = stage_label(stage);
    progress_ops(filled) + seq![
        DrawOp::Rect { x: 440, y: 402, w: 400, h: 10, color: 0x00000A },
        DrawOp::Text {
            x: (640 - label.spec_bytes().len() * 8 / 2) as u32,
            y: 402,
            text: label,
            color: 0x4A6A8A,
            size: TextSize::Small,
            clip: None,
        },
    ] + if filled > 4 {
        seq![DrawOp::Blend { x: (440 + filled - 4) as u32, y: 386, w: 8, h: 10, fg: 0xFFB347, alpha: 60 }]
    } else {
        Seq::empty()
    }
}

/// Advances the splash's progress bar to boot stage `stage` of six (1 probe,
/// 2 EdisonDB, 3 AXFS, 4 heap, 5 process table, 6 desktop).
pub fn render_splash_progress<'a>(c: &mut Canvas<'a>, stage: u32)
    ensures
        final(c)@ == old(c)@ + splash_progress_ops(stage),
{
    let ghost start = c@;
    let bar_x: u32 = 440;
    let bar_y: u32 = 388;
    let bar_w: u32 = 400;
    let bar_h: u32 = 6;
    let st = if stage < 6 {
        stage
    } else {
        6
    };
    let filled = bar_w * st / 6;
    let mut fx: u32 = 0;
    while fx < filled
        invariant
            fx <= filled,
            bar_x == 440,
            bar_y == 388,
            bar_w == 400,
            bar_h == 6,
            filled == progress_filled(stage),
            filled <= 400,
            c@ == start + progress_ops(fx as int),
        decreases filled - fx,
    {
        let t = fx * 255 / bar_w;
        assert(t <= 255) by (nonlinear_arith)
            requires
                t == fx * 255 / 400,
                fx < 400,
        ;
        let dr: u32 = (0xFF - 0xC6) * t / 255;
        let dg: u32 = (0xB3 - 0x5A) * t / 255;
        let db: u32 = (0x47 - 0x1E) * t / 255;
        assert(dr <= 57 && dg <= 89 && db <= 41) by (nonlinear_arith)
            requires
                t <= 255,
                dr == 57 * t / 255,
                dg == 89 * t / 255,
                db == 41 * t / 255,
        ;
        let r = (0xFF - dr) as u8;
        let g = (0xB3 - dg) as u8;
        let b = (0x47 - db) as u8;
        let col = ((r as u32) << 16u32) | ((g as u32) << 8u32) | (b as u32);
        let (rr, gg, bb) = (r as u32, g as u32, b as u32);
        assert(col == rr * 0x1_0000 + gg * 0x100 + bb) by (bit_vector)
            requires
                col == (rr << 16u32) | (gg << 8u32) | bb,
                rr < 256,
                gg < 256,
                bb < 256,
        ;
        c.vline(bar_x + fx, bar_y, bar_h, col);
        fx = fx + 1;
    }
    let ghost s1 = c@;
    let label_y = bar_y + bar_h + 8;
    c.rect(bar_x, label_y, bar_w, 10, 0x00000A);
    let label = stage_label_of(stage);
    let label_x = 640u32.saturating_sub((label.len() as u32 * 8) / 2);
    c.text(label_x, label_y, label, 0x4A6A8A);
    if filled > 4 {
        c.blend(bar_x + filled - 4, bar_y - 2, 8, bar_h + 4, 0xFFB347, 60);
    }
    assert(c@ =~= start + splash_progress_ops(stage));
}

/// The right panel's input-source line.
pub open spec fn right_panel_input_ops<'a>(virtio_ok: bool) -> Seq<DrawOp<'a>> {
    seq![
        DrawOp::Rect { x: 1088, y: 152, w: 180, h: 12, color: PANEL_BG },
        if virtio_ok {
            DrawOp::Text { x: 1088, y: 156, text: "virtio+uart", color: ACCENT_TEAL, size: TextSize::Small, clip: None }
        } else {
            DrawOp::Text { x: 1088, y: 156, text: "uart only", color: ACCENT_AMBER, size: TextSize::Small, clip: None }
        },
    ]
}

/// Shows which keyboard path is live.
pub fn render_right_panel_input<'a>(c: &mut Canvas<'a>, virtio_ok: bool)
    ensures
        final(c)@ == old(c)@ + right_panel_input_ops(virtio_ok),
{
    let ghost start = c@;
    c.rect(1088, 152, 180, 12, PANEL_BG);
    if virtio_ok {
        c.text(1088, 156, "virtio+uart", ACCENT_TEAL);
    } else {
        c.text(1088, 156, "uart only", ACCENT_AMBER);
    }
    assert(c@ =~= start + right_panel_input_ops(virtio_ok));
}

/// The dock's input line: the first `len` bytes of `buf` (at most all of
/// them), raw.
pub fn render_input_line<'a>(c: &mut Canvas<'a>, buf: &'a [u8], len: usize)
    ensures
        final(c)@ == old(c)@ + seq![
            DrawOp::Rect { x: 340, y: 710, w: 600, h: 10, color: DOCK_BG },
            DrawOp::Bytes {
                x: 398,
                y: 682,
                bytes: buf,
                upto: if len < buf@.len() { len } else { buf@.len() as usize },
                color: TEXT_WHITE,
            },
        ],
{
    let ghost start = c@;
    c.rect(340, 710, 600, 10, DOCK_BG);
    let n = if len < buf.len() {
        len
    } else {
        buf.len()
    };
    c.op(DrawOp::Bytes { x: 398, y: 682, bytes: buf, upto: n, color: TEXT_WHITE });
}

/// The dock's result line.
pub fn render_command_result<'a>(c: &mut Canvas<'a>, msg: &'a str)
    ensures
        final(c)@ == old(c)@ + seq![
            DrawOp::Rect { x: 340, y: 710, w: 600, h: 10, color: DOCK_BG },
            DrawOp::Text { x: 348, y: 712, text: msg, color: ACCENT_TEAL, size: TextSize::Small, clip: None },
        ],
{
    c.rect(340, 710, 600, 10, DOCK_BG);
    c.text(348, 712, msg, ACCENT_TEAL);
}

/// Clears a `w` x `h` window at `pos` (and a 2-pixel margin) to the backdrop.
pub fn clear_window_sized<'a>(c: &mut Canvas<'a>, pos: &WindowPos, w: u32, h: u32)
    requires
        w + 4 <= u32::MAX,
        h + 4 <= u32::MAX,
    ensures
        final(c)@ == old(c)@.push(
            DrawOp::Rect { x: sat_sub(pos.x as u32, 2), y: sat_sub(pos.y as u32, 2), w: (w + 4) as u32, h: (h + 4) as u32, color: DARK_BG },
        ),
{
    let wx = pos.x as u32;
    let wy = pos.y as u32;
    c.rect(wx.saturating_sub(2), wy.saturating_sub(2), w + 4, h + 4, DARK_BG);
}

/// Clears the default-size window at `pos`.
pub fn clear_window<'a>(c: &mut Canvas<'a>, pos: &WindowPos)
    ensures
        final(c)@ == old(c)@.push(
            DrawOp::Rect { x: sat_sub(pos.x as u32, 2), y: sat_sub(pos.y as u32, 2), w: (WIN_W + 10) as u32, h: (WIN_H + 4) as u32, color: DARK_BG },
        ),
{
    let wx = pos.x as u32;
    let wy = pos.y as u32;
    c.rect(wx.saturating_sub(2), wy.saturating_sub(2), WIN_W + 10, WIN_H + 4, DARK_BG);
}
/// `a + b`, or `u32::MAX` when that overflows.
pub open spec fn sat_add(a: u32, b: u32) -> u32 {
    if a + b <= u32::MAX {
        (a + b) as u32
    } else {
        u32::MAX
    }
}

pub open spec fn output_lines_ops<'a>(wx: i32, wy: i32, ww: u32, lines: Seq<&'a str>, n: int) -> Seq<DrawOp<'a>>
    decreases n,
{
    if n <= 0 {
        Seq::empty()
    } else {
        output_lines_ops(wx, wy, ww, lines, n - 1) + seq![
            DrawOp::Text {
                x: (wx + 8) as u32,
                y: (wy + 30 + (n - 1) * 20) as u32,
                text: lines[n - 1],
                color: TEXT_WHITE,
                size: TextSize::Large,
                clip: Some(sat_sub(sat_add(wx as u32, ww), 12)),
            },
        ]
    }
}

/// A shell window's output area: its background, then up to eight lines.
pub open spec fn window_output_ops<'a>(wx: i32, wy: i32, lines: Seq<&'a str>, count: usize, wh: u32, ww: u32) -> Seq<DrawOp<'a>> {
    let body_h: u32 = if wh > 45 { (wh - 45) as u32 } else { 1 };
    let n = if count > 8 { 8 } else { count as int };
    seq![DrawOp::Rect { x: (wx + 1) as u32, y: (wy + 25) as u32, w: sat_sub(ww, 4), h: body_h, color: WIN_BG }]
        + output_lines_ops(wx, wy, ww, lines, n)
}

/// What a shell window's output area needs of its arguments.
pub open spec fn window_output_ok(wx: i32, wy: i32, lines: Seq<&str>, count: usize) -> bool {
    &&& wx + 8 <= i32::MAX
    &&& wy + 30 + 8 * 20 <= i32::MAX
    &&& (if count > 8 { 8 } else { count as int }) <= lines.len()
}

/// The output area of a shell window `ww` wide and `wh` high: at most eight
/// lines, 20 pixels apart, in the 8x16 font.
pub fn render_window_output_hw<'a>(
    c: &mut Canvas<'a>,
    wx: i32,
    wy: i32,
    lines: &'a [&'a str],
    count: usize,
    wh: u32,
    ww: u32,
)
    requires
        window_output_ok(wx, wy, lines@, count),
    ensures
        final(c)@ == old(c)@ + window_output_ops(wx, wy, lines@, count, wh, ww),
{
    let ghost start = c@;
    let body_h = if wh > 45 {
        wh - 45
    } else {
        1
    };
    c.rect((wx + 1) as u32, (wy + 25) as u32, ww.saturating_sub(4), body_h, WIN_BG);
    let ghost s1 = c@;
    let n = if count > 8 {
        8
    } else {
        count
    };
    let clip = (wx as u32).saturating_add(ww).saturating_sub(12);
    let mut y = wy + 30;
    let mut idx: usize = 0;
    while idx < n
        invariant
            idx <= n <= 8,
            n <= lines@.len(),
            wx + 8 <= i32::MAX,
            wy + 30 + 8 * 20 <= i32::MAX,
            y == wy + 30 + idx * 20,
            clip == sat_sub(sat_add(wx as u32, ww), 12),
            c@ == s1 + output_lines_ops(wx, wy, ww, lines@, idx as int),
        decreases n - idx,
    {
        c.text16_clipped((wx + 8) as u32, y as u32, lines[idx], TEXT_WHITE, clip);
        y = y + 20;
        idx = idx + 1;
    }
    assert(c@ =~= start + window_output_ops(wx, wy, lines@, count, wh, ww));
}

/// The output area of a standard-width shell window `wh` high.
pub fn render_window_output_h<'a>(c: &mut Canvas<'a>, wx: i32, wy: i32, lines: &'a [&'a str], count: usize, wh: u32)
    requires
        window_output_ok(wx, wy, lines@, count),
    ensures
        final(c)@ == old(c)@ + window_output_ops(wx, wy, lines@, count, wh, 578),
{
    render_window_output_hw(c, wx, wy, lines, count, wh, 578);
}

/// The output area of a standard shell window.
pub fn render_window_output<'a>(c: &mut Canvas<'a>, wx: i32, wy: i32, lines: &'a [&'a str], count: usize)
    requires
        window_output_ok(wx, wy, lines@, count),
    ensures
        final(c)@ == old(c)@ + window_output_ops(wx, wy, lines@, count, WIN_H, 578),
{
    render_window_output_h(c, wx, wy, lines, count, WIN_H);
}

/// The output area at the default window size is the output area of a
/// 300-pixel-high, 578-pixel-wide window: `render_window_output` and
/// `render_window_output_hw(.., 300, 578)` draw the same list.
pub proof fn lemma_window_output_default(wx: i32, wy: i32, lines: Seq<&str>, count: usize)
    ensures
        window_output_ops(wx, wy, lines, count, WIN_H, 578) == window_output_ops(wx, wy, lines, count, 300, 578),
{
}

/// Row of a shell window's input line: 20 pixels above the bottom, but not
/// above the first text row.
pub open spec fn input_row(wy: i32, wh: u32) -> int {
    let y0 = wy + (wh as i32) - 20;
    if y0 < wy + 30 { wy + 30 } else { y0 }
}

/// A shell window's input line: prompt, the typed text when it is valid
/// UTF-8, the cursor, and the focus badge.
pub open spec fn window_input_ops<'a>(wx: i32, wy: i32, buf: &'a [u8], len: usize, focused: bool, wh: u32, ww: u32) -> Seq<DrawOp<'a>> {
    let y = input_row(wy, wh);
    seq![
        DrawOp::Rect { x: (wx + 4) as u32, y: (y - 2) as u32, w: sat_sub(ww, 8), h: 18, color: WIN_BG },
        DrawOp::Text { x: (wx + 8) as u32, y: (y - 2) as u32, text: "axc> ", color: ACCENT_TEAL, size: TextSize::Large, clip: None },
    ] + (if vstd::utf8::valid_utf8(buf@.take(len as int)) {
        seq![
            DrawOp::Slice {
                x: (wx + 48) as u32,
                y: y as u32,
                bytes: buf,
                from: 0,
                to: len,
                color: TEXT_WHITE,
                size: TextSize::Small,
                clip: None,
            },
        ]
    } else {
        Seq::empty()
    }) + seq![
        DrawOp::Text { x: (wx + 48 + len * 9) as u32, y: y as u32, text: "_", color: TEXT_WHITE, size: TextSize::Small, clip: None },
    ] + if focused {
        seq![
            DrawOp::Text {
                x: sat_sub((wx as u32 + ww) as u32, 80),
                y: (y - 2) as u32,
                text: "[focused]",
                color: TEXT_DIM,
                size: TextSize::Large,
                clip: None,
            },
        ]
    } else {
        Seq::empty()
    }
}

/// What a shell window's input line needs of its arguments.
pub open spec fn window_input_ok(wx: i32, wy: i32, buf: &[u8], len: usize, focused: bool, wh: u32, ww: u32) -> bool {
    &&& i32::MIN <= wy + (wh as i32) <= i32::MAX
    &&& i32::MIN + 20 <= wy + (wh as i32)
    &&& wy + 30 <= i32::MAX
    &&& len <= buf@.len()
    &&& len * 9 <= i32::MAX
    &&& wx + 48 + len * 9 <= i32::MAX
    &&& i32::MIN <= wx
    &&& focused ==> (wx as u32) + ww <= u32::MAX
}

/// The input line of a shell window `ww` wide and `wh` high.
pub fn render_window_input_hw<'a>(
    c: &mut Canvas<'a>,
    wx: i32,
    wy: i32,
    buf: &'a [u8],
    len: usize,
    focused: bool,
    wh: u32,
    ww: u32,
)
    requires
        window_input_ok(wx, wy, buf, len, focused, wh, ww),
    ensures
        final(c)@ == old(c)@ + window_input_ops(wx, wy, buf, len, focused, wh, ww),
{
    let ghost start = c@;
    let y0 = wy + wh as i32 - 20;
    let y = if y0 < wy + 30 {
        wy + 30
    } else {
        y0
    };
    c.rect((wx + 4) as u32, (y - 2) as u32, ww.saturating_sub(8), 18, WIN_BG);
    c.text16((wx + 8) as u32, (y - 2) as u32, "axc> ", ACCENT_TEAL);
    match crate::bytes::str_from_utf8(buf.split_at(len).0) {
        Some(_) => {
            c.op(
                DrawOp::Slice {
                    x: (wx + 48) as u32,
                    y: y as u32,
                    bytes: buf,
                    from: 0,
                    to: len,
                    color: TEXT_WHITE,
                    size: TextSize::Small,
                    clip: None,
                },
            );
        },
        None => {},
    }
    c.text((wx + 48 + (len as i32) * 9) as u32, y as u32, "_", TEXT_WHITE);
    if focused {
        let fx = (wx as u32 + ww).saturating_sub(80);
        c.text16(fx, (y - 2) as u32, "[focused]", TEXT_DIM);
    }
    assert(c@ =~= start + window_input_ops(wx, wy, buf, len, focused, wh, ww));
}

/// The input line of a standard-width shell window `wh` high.
pub fn render_window_input_h<'a>(c: &mut Canvas<'a>, wx: i32, wy: i32, buf: &'a [u8], len: usize, focused: bool, wh: u32)
    requires
        window_input_ok(wx, wy, buf, len, focused, wh, 580),
    ensures
        final(c)@ == old(c)@ + window_input_ops(wx, wy, buf, len, focused, wh, 580),
{
    render_window_input_hw(c, wx, wy, buf, len, focused, wh, 580);
}

/// The input line of a standard shell window.
pub fn render_window_input<'a>(c: &mut Canvas<'a>, wx: i32, wy: i32, buf: &'a [u8], len: usize, focused: bool)
    requires
        window_input_ok(wx, wy, buf, len, focused, WIN_H, 580),
    ensures
        final(c)@ == old(c)@ + window_input_ops(wx, wy, buf, len, focused, WIN_H, 580),
{
    render_window_input_h(c, wx, wy, buf, len, focused, WIN_H);
}

} // verus!
