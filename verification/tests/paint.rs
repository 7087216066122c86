use lib::gpu::commands::{
    attach_backing, attach_bytes, create_bytes, flush_bytes, hdr_bytes, resource_create_2d, resource_flush,
    scanout_bytes, set_scanout_cmd, transfer_bytes, transfer_to_host_2d, GpuCtrlHdr,
};
use lib::gpu::framebuffer::Framebuffer;
use lib::gpu::paint::{all_fit, fits, paint, paint_one};
use lib::gpu::render::{render_file_browser, render_splash, render_splash_progress, render_taskbar, render_top_bar_icons};
use lib::gpu::scene::{Canvas, DrawOp, TextSize};

fn screen(color: u32) -> Framebuffer {
    let mut fb = Framebuffer::new();
    fb.fill(color);
    fb
}

// ── The painter ──────────────────────────────────────────────────────────────

#[test]
fn paint_small_list() {
    let mut fb = screen(0x0011_2233);
    let ops = [
        DrawOp::Rect { x: 10, y: 10, w: 4, h: 3, color: 0xAA },
        DrawOp::HLine { x: 0, y: 100, len: 5, color: 0xBB },
        DrawOp::VLine { x: 50, y: 0, len: 2, color: 0xCC },
        DrawOp::Border { x: 200, y: 200, w: 10, h: 10, color: 0xDD },
        DrawOp::Text { x: 10, y: 10, text: "hi", color: 0xEE, size: TextSize::Small, clip: None },
    ];
    assert!(all_fit(&ops));
    paint(&mut fb, &ops);
    assert_eq!(fb.pixel(10, 10), 0xAA);
    assert_eq!(fb.pixel(13, 12), 0xAA);
    assert_eq!(fb.pixel(14, 12), 0x0011_2233);
    assert_eq!(fb.pixel(4, 100), 0xBB);
    assert_eq!(fb.pixel(5, 100), 0x0011_2233);
    assert_eq!(fb.pixel(50, 1), 0xCC);
    assert_eq!(fb.pixel(50, 2), 0x0011_2233);
    assert_eq!(fb.pixel(200, 205), 0xDD);
    assert_eq!(fb.pixel(209, 209), 0xDD);
    assert_eq!(fb.pixel(205, 205), 0x0011_2233);
}

#[test]
fn paint_later_ops_cover_earlier() {
    let mut fb = screen(0);
    let ops = [
        DrawOp::Rect { x: 0, y: 0, w: 20, h: 20, color: 1 },
        DrawOp::Rect { x: 5, y: 5, w: 5, h: 5, color: 2 },
    ];
    paint(&mut fb, &ops);
    assert_eq!(fb.pixel(0, 0), 1);
    assert_eq!(fb.pixel(7, 7), 2);
}

#[test]
fn paint_blend_over_white() {
    let mut fb = screen(0x00FF_FFFF);
    paint_one(&mut fb, &DrawOp::Blend { x: 0, y: 0, w: 2, h: 2, fg: 0, alpha: 255 });
    assert_eq!(fb.pixel(1, 1), 0);
    assert_eq!(fb.pixel(2, 1), 0x00FF_FFFF);
}

#[test]
fn paint_clips_at_screen_edge() {
    let mut fb = screen(0);
    paint_one(&mut fb, &DrawOp::Rect { x: 1270, y: 710, w: 100, h: 100, color: 9 });
    assert_eq!(fb.pixel(1279, 719), 9);
    assert_eq!(fb.pixel(1269, 719), 0);
}

#[test]
fn oversized_rect_does_not_fit() {
    assert!(!fits(&DrawOp::Rect { x: u32::MAX, y: 0, w: 2, h: 1, color: 0 }));
    assert!(fits(&DrawOp::Rect { x: u32::MAX, y: 0, w: 1, h: 1, color: 0 }));
    assert!(fits(&DrawOp::HLine { x: u32::MAX, y: 0, len: u32::MAX, color: 0 }));
}

// ── Rendered frames ──────────────────────────────────────────────────────────

#[test]
fn file_browser_storage_gauge_pixels() {
    let mut fb = screen(0x0123_4567);
    let mut c = Canvas::new();
    render_file_browser(&mut c, 200, 50, 600, 400, &[], 0, 0, 90, 100);
    assert!(all_fit(&c.ops));
    paint(&mut fb, &c.ops);
    assert_eq!(fb.pixel(300, 419), 0x6F5BD3);
    assert_eq!(fb.pixel(315, 419), 0x22224A);
}

#[test]
fn splash_progress_pixels() {
    let mut fb = screen(0x0123_4567);
    let mut c = Canvas::new();
    render_splash_progress(&mut c, 3);
    paint(&mut fb, &c.ops);
    assert_eq!(fb.pixel(440, 390), 0xFFB347);
    assert_eq!(fb.pixel(700, 390), 0x0123_4567);
}

#[test]
fn splash_background_and_track() {
    let mut fb = screen(0x0123_4567);
    let mut c = Canvas::new();
    render_splash(&mut c);
    paint(&mut fb, &c.ops);
    assert_eq!(fb.pixel(0, 0), 0x00000A);
    assert_eq!(fb.pixel(1279, 719), 0x00000A);
    for y in 388..394 {
        for x in 440..840 {
            assert_eq!(fb.pixel(x, y), 0x1A1A2A);
        }
    }
}

#[test]
fn taskbar_dots_pixels() {
    let mut fb = screen(0x0123_4567);
    let mut c = Canvas::new();
    render_taskbar(&mut c, &[(true, 1, true), (true, 3, false)], 0);
    paint(&mut fb, &c.ops);
    assert_eq!(fb.pixel(584, 682), 0xFFB347);
    assert_eq!(fb.pixel(744, 682), 0x1D4ED8);
}

// ── virtio-gpu command bytes ─────────────────────────────────────────────────

#[test]
fn header_bytes_little_endian() {
    let h = GpuCtrlHdr { cmd_type: 0x0101, flags: 2, fence_id: 0x0102_0304_0506_0708, ctx_id: 3, padding: 4 };
    let b = hdr_bytes(&h);
    assert_eq!(b.len(), 24);
    assert_eq!(&b[0..4], &[0x01, 0x01, 0, 0]);
    assert_eq!(&b[4..8], &[2, 0, 0, 0]);
    assert_eq!(&b[8..16], &[8, 7, 6, 5, 4, 3, 2, 1]);
    assert_eq!(&b[16..20], &[3, 0, 0, 0]);
    assert_eq!(&b[20..24], &[4, 0, 0, 0]);
}

#[test]
fn command_sizes_and_fields() {
    let c = create_bytes(&resource_create_2d(1, 2, 1280, 720));
    assert_eq!(c.len(), 40);
    assert_eq!(&c[24..40], &[1, 0, 0, 0, 2, 0, 0, 0, 0, 5, 0, 0, 0xD0, 2, 0, 0]);
    let a = attach_bytes(&attach_backing(1, 0x4400_0000, 3_686_400));
    assert_eq!(a.len(), 48);
    assert_eq!(&a[32..40], &0x4400_0000u64.to_le_bytes());
    assert_eq!(&a[40..44], &3_686_400u32.to_le_bytes());
    let s = scanout_bytes(&set_scanout_cmd(0, 1, 1280, 720));
    assert_eq!(s.len(), 48);
    assert_eq!(&s[32..36], &1280u32.to_le_bytes());
    assert_eq!(&s[44..48], &1u32.to_le_bytes());
    let t = transfer_bytes(&transfer_to_host_2d(1, 5, 6, 7, 8));
    assert_eq!(t.len(), 56);
    assert_eq!(&t[24..28], &5u32.to_le_bytes());
    assert_eq!(&t[40..48], &[0u8; 8]);
    assert_eq!(&t[48..52], &1u32.to_le_bytes());
    let f = flush_bytes(&resource_flush(1, 0, 0, 1280, 720));
    assert_eq!(f.len(), 48);
    assert_eq!(&f[0..4], &0x0104u32.to_le_bytes());
    assert_eq!(&f[40..44], &1u32.to_le_bytes());
}

#[test]
fn splash_progress_full_bar() {
    let mut fb = screen(0x0123_4567);
    let mut c = Canvas::new();
    render_splash_progress(&mut c, 9);
    paint(&mut fb, &c.ops);
    assert_eq!(fb.pixel(440, 388), 0xFFB347);
    assert_eq!(fb.pixel(439, 388), 0x0123_4567);
    assert_ne!(fb.pixel(835, 393), 0x0123_4567);
    assert_eq!(fb.pixel(844, 390), 0x0123_4567);
}

fn zone_chars(tz: i32) -> Vec<(u32, u8)> {
    let mut c = Canvas::new();
    render_top_bar_icons(&mut c, 0, 5, 30, 7, 3, tz);
    c.ops
        .iter()
        .filter_map(|op| match *op {
            DrawOp::Char { x, ch, .. } if x >= 1222 => Some((x, ch)),
            _ => None,
        })
        .collect()
}

fn zone_text(tz: i32) -> Option<&'static str> {
    let mut c = Canvas::new();
    render_top_bar_icons(&mut c, 0, 5, 30, 7, 3, tz);
    c.ops.iter().find_map(|op| match *op {
        DrawOp::Text { x: 1190, text, .. } => Some(text),
        _ => None,
    })
}

#[test]
fn time_zone_label_shows_whole_offset() {
    assert_eq!(zone_text(10), Some("UTC+"));
    assert_eq!(zone_chars(10), vec![(1222, b'1'), (1230, b'0')]);
    assert_eq!(zone_text(-5), Some("UTC-"));
    assert_eq!(zone_chars(-5), vec![(1222, b'5')]);
    assert_eq!(zone_text(-12), Some("UTC-"));
    assert_eq!(zone_chars(-12), vec![(1222, b'1'), (1230, b'2')]);
    assert_eq!(zone_text(0), Some("UTC"));
    assert!(zone_chars(0).is_empty());
}

#[test]
fn local_hour_wraps_with_offset() {
    let mut c = Canvas::new();
    render_top_bar_icons(&mut c, 0, 22, 5, 1, 1, 3);
    let digits: Vec<u8> = c
        .ops
        .iter()
        .filter_map(|op| match *op {
            DrawOp::Char { x: 1138, ch, .. } | DrawOp::Char { x: 1146, ch, .. } => Some(ch),
            _ => None,
        })
        .collect();
    assert_eq!(digits, vec![b'0', b'1']);
}
