use lib::gpu::commands::{CMD_RESOURCE_FLUSH, CMD_SET_SCANOUT, CMD_TRANSFER_TO_HOST_2D};
use lib::gpu::cursor::Cursor;
use lib::gpu::desktop::{clamp_spawn_pos, dock_icon_at, title_bar_hit};
use lib::gpu::draw::{blend_rect, draw_border, draw_rect};
use lib::gpu::framebuffer::{fb_size, Framebuffer};
use lib::gpu::virtio_gpu::VirtioGpuRegs;
use lib::gpu::virtqueue::Virtqueue;
use lib::gpu::{dump_slots, flush, init_commands, negotiated_features, read_status, SOVEREIGN_PURPLE};

#[test]
fn fb_size_matches_1280x720_argb() {
    assert_eq!(fb_size(), 1280 * 720 * 4);
}

#[test]
fn fill_rect_out_of_bounds_does_not_panic() {
    let mut fb = Framebuffer::new();
    fb.fill_rect(1275, 715, 100, 100, 0xFFFFFFFF);
    assert_eq!(fb.pixel(1279, 719), 0xFFFFFFFF);
    assert_eq!(fb.pixel(1274, 719), 0);
}

#[test]
fn sovereign_purple_matches_brand_value() {
    assert_eq!(SOVEREIGN_PURPLE, 0xFF7B4FDB);
}

#[test]
fn flush_is_noop_without_active_device() {
    assert!(flush(false, None, 0, 0, 1280, 720).is_none());
    assert!(flush(true, Some(VirtioGpuRegs { base: 0x0a00_3e00 }), 0, 0, 1280, 720).is_none());
}

#[test]
fn flush_with_device_transfers_then_flushes() {
    let (t, f) = flush(false, Some(VirtioGpuRegs { base: 0x0a00_3e00 }), 10, 20, 30, 40).unwrap();
    assert_eq!(t.hdr.cmd_type, CMD_TRANSFER_TO_HOST_2D);
    assert_eq!((t.r.x, t.r.y, t.r.width, t.r.height), (10, 20, 30, 40));
    assert_eq!(t.resource_id, 1);
    assert_eq!(f.hdr.cmd_type, CMD_RESOURCE_FLUSH);
    assert_eq!((f.r.x, f.r.y, f.r.width, f.r.height), (10, 20, 30, 40));
}

#[test]
fn gpu_init_commands_and_features() {
    let (c, a, s) = init_commands(0x4400_0000);
    assert_eq!((c.resource_id, c.width, c.height, c.format), (1, 1280, 720, 2));
    assert_eq!(a.entry.addr, 0x4400_0000);
    assert_eq!(a.entry.length, 1280 * 720 * 4);
    assert_eq!(s.hdr.cmd_type, CMD_SET_SCANOUT);
    assert_eq!(negotiated_features(0xffff_fffe), 0);
    assert_eq!(negotiated_features(0x3), 1);
    assert_eq!(read_status(None), 0);
    assert_eq!(read_status(Some(0xf)), 0xf);
}

#[test]
fn dump_slots_lists_devices() {
    let mut reads = vec![(0u32, 0u32, 0u32); 32];
    reads[30] = (0x74726976, 1, 0x12);
    reads[3] = (0x74726976, 2, 0x10);
    let out = dump_slots(&reads);
    assert_eq!(out, b"[03v2=10][1ev1=12]\n".to_vec());
    assert_eq!(dump_slots(&[]), b"\n".to_vec());
}

#[test]
fn draw_rect_and_border() {
    let mut fb = Framebuffer::new();
    draw_rect(&mut fb, 10, 10, 4, 3, 7);
    assert_eq!(fb.pixel(10, 10), 7);
    assert_eq!(fb.pixel(13, 12), 7);
    assert_eq!(fb.pixel(14, 12), 0);
    draw_border(&mut fb, 100, 100, 5, 5, 9);
    assert_eq!(fb.pixel(100, 100), 9);
    assert_eq!(fb.pixel(104, 104), 9);
    assert_eq!(fb.pixel(102, 102), 0);
}

#[test]
fn blend_mixes_channels() {
    let mut fb = Framebuffer::new();
    fb.fill(0x0000_00FF);
    blend_rect(&mut fb, 0, 0, 1, 1, 0x00FF_0000, 255);
    assert_eq!(fb.pixel(0, 0), 0x00FF_0000);
    blend_rect(&mut fb, 1, 0, 1, 1, 0x00FF_0000, 0);
    assert_eq!(fb.pixel(1, 0), 0x0000_00FF);
    blend_rect(&mut fb, 2, 0, 1, 1, 0x00FF_0000, 128);
    assert_eq!(fb.pixel(2, 0), (128 << 16) | 127);
}

#[test]
fn cursor_erase_restores_pixels() {
    let mut fb = Framebuffer::new();
    fb.fill_rect(0, 0, 64, 64, 0x123456);
    let mut cur = Cursor::new();
    cur.draw_cursor(&mut fb, 10, 10);
    assert_ne!(fb.pixel(10, 10), 0x123456);
    cur.erase_cursor(&mut fb, 10, 10);
    for y in 0..64 {
        for x in 0..64 {
            assert_eq!(fb.pixel(x, y), 0x123456);
        }
    }
}

#[test]
fn desktop_hit_tests() {
    assert_eq!(clamp_spawn_pos(0, 1000), (200, 370));
    assert_eq!(clamp_spawn_pos(300, 100), (300, 100));
    assert_eq!(dock_icon_at(483 + 10, 680), Some(0));
    assert_eq!(dock_icon_at(483 + 10 + 40 * 6 + 35, 700), Some(6));
    assert_eq!(dock_icon_at(483 + 10 + 36, 680), None);
    assert_eq!(dock_icon_at(493, 600), None);
    assert_eq!(title_bar_hit(100, 100, 400, 486, 112), 1);
    assert_eq!(title_bar_hit(100, 100, 400, 468, 112), 3);
    assert_eq!(title_bar_hit(100, 100, 400, 450, 112), 2);
    assert_eq!(title_bar_hit(100, 100, 400, 300, 112), 0);
    assert_eq!(title_bar_hit(100, 100, 400, 486, 90), 0);
}

#[test]
fn virtqueue_chains_and_polls() {
    let mut q = Virtqueue::new();
    q.add_chained(0x1000, 24, 0x2000, 24);
    assert_eq!(q.ring.avail.idx, 1);
    assert_eq!(q.ring.desc[0].addr, 0x1000);
    assert_eq!(q.ring.desc[0].next, 1);
    assert_eq!(q.ring.desc[1].addr, 0x2000);
    assert_eq!(q.poll_used(), None);
    q.ring.used.ring[0].id = 0;
    q.ring.used.idx = 1;
    assert_eq!(q.poll_used(), Some(0));
    assert_eq!(q.poll_used(), None);
}

#[test]
fn init_returns_none_in_test_build() {
    assert!(lib::gpu::virtio_gpu::probe(&[]).is_none());
    assert!(lib::gpu::virtio_gpu::probe(&[(0, 0, 0); 32]).is_none());
}
