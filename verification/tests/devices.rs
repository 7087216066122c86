use lib::gpu::ramfb::{dma_poll, fw_cfg_dma_request, ramfb_cfg, DmaPoll};
use lib::gpu::scene::{blit_icon, Canvas, DrawOp};
use lib::gpu::virtio_gpu::{probe, probe_pci};
use lib::gpu::{gpu_init_step, GpuInit};
use lib::input::{event_queue_descs, kbd_init_step, mouse_setup, KbdInit};
use lib::kernel::virtio_blk::{blk_setup_step, request_done, BlkBuffers, BlkQueue, BlkSetup, VIRTIO_BLK_T_OUT};
use lib::mmio::{MmioOp, QueueAddrs};

fn addrs() -> QueueAddrs {
    QueueAddrs { ring: 0x1_4B00_0000, desc: 0x1_4B00_0000, avail: 0x1_4B00_0100, used: 0x1_4B00_1000 }
}

#[test]
fn ramfb_records_are_big_endian() {
    let cfg = ramfb_cfg(0x4400_0000, 1280, 720);
    assert_eq!(cfg.len(), 28);
    assert_eq!(&cfg[0..8], &0x4400_0000u64.to_be_bytes());
    assert_eq!(&cfg[8..12], &0x3432_5258u32.to_be_bytes());
    assert_eq!(&cfg[12..16], &[0, 0, 0, 0]);
    assert_eq!(&cfg[16..20], &1280u32.to_be_bytes());
    assert_eq!(&cfg[20..24], &720u32.to_be_bytes());
    assert_eq!(&cfg[24..28], &5120u32.to_be_bytes());
    let req = fw_cfg_dma_request();
    assert_eq!(&req[0..4], &0x0025_0018u32.to_be_bytes());
    assert_eq!(&req[4..8], &28u32.to_be_bytes());
    assert_eq!(&req[8..16], &0x4B00_8000u64.to_be_bytes());
}

#[test]
fn ramfb_poll_verdicts() {
    assert_eq!(dma_poll(0, 5), (DmaPoll::Done, 5));
    assert_eq!(dma_poll(1, 5), (DmaPoll::Failed, 5));
    assert_eq!(dma_poll(0x18, 5), (DmaPoll::Again, 6));
    assert_eq!(dma_poll(0x18, 1_000_000), (DmaPoll::Failed, 1_000_001));
}

#[test]
fn keyboard_bring_up_v2() {
    let q = addrs();
    let (st, ops) = kbd_init_step(KbdInit::Start, 2, &q, 0);
    assert_eq!(st, KbdInit::CheckFeatures);
    assert_eq!(ops.len(), 8);
    assert_eq!(ops[1], MmioOp::Uart { byte: b'2' });
    assert_eq!(ops[7], MmioOp::Read { off: 0x070 });
    let (st, ops) = kbd_init_step(st, 2, &q, 0xb);
    assert_eq!(st, KbdInit::CheckQueueMax);
    assert_eq!(ops[1], MmioOp::Read { off: 0x034 });
    let (st, ops) = kbd_init_step(st, 2, &q, 64);
    assert_eq!(st, KbdInit::CheckDriverOk);
    assert_eq!(ops[1], MmioOp::Write { off: 0x080, value: 0x4B00_0000 });
    assert_eq!(ops[2], MmioOp::Write { off: 0x084, value: 1 });
    assert_eq!(ops[ops.len() - 2], MmioOp::Write { off: 0x070, value: 15 });
    let (st, ops) = kbd_init_step(st, 2, &q, 15);
    assert_eq!(st, KbdInit::Ready);
    assert_eq!(ops[0], MmioOp::Write { off: 0x050, value: 0 });
}

#[test]
fn keyboard_bring_up_failures() {
    let q = addrs();
    let (st, ops) = kbd_init_step(KbdInit::CheckFeatures, 2, &q, 3);
    assert_eq!(st, KbdInit::Failed);
    assert_eq!(ops, vec![MmioOp::Uart { byte: b'X' }]);
    let (st, ops) = kbd_init_step(KbdInit::CheckQueueMax, 1, &q, 0);
    assert_eq!(st, KbdInit::Failed);
    assert_eq!(ops, vec![MmioOp::Uart { byte: b'Q' }]);
    let (st, _) = kbd_init_step(KbdInit::CheckDriverOk, 1, &q, 3);
    assert_eq!(st, KbdInit::Failed);
    let (st, ops) = kbd_init_step(KbdInit::Start, 1, &q, 0);
    assert_eq!(st, KbdInit::CheckQueueMax);
    assert_eq!(ops.len(), 8);
    let (_, ops) = kbd_init_step(KbdInit::CheckQueueMax, 1, &q, 16);
    assert_eq!(ops[3], MmioOp::Write { off: 0x040, value: 0x14B000 });
}

#[test]
fn gpu_bring_up_sequence() {
    let q = addrs();
    let (st, ops) = gpu_init_step(GpuInit::Start, 0x0a00_3e00, &q, 0);
    assert_eq!(st, GpuInit::Negotiate);
    assert_eq!(ops[1], MmioOp::Uart { byte: b'0' + 0xe });
    let (st, ops) = gpu_init_step(st, 0x0a00_3e00, &q, 0xffff_ffff);
    assert_eq!(st, GpuInit::CheckFeaturesOk);
    assert_eq!(ops[0], MmioOp::Write { off: 0x020, value: 1 });
    let (st, _) = gpu_init_step(st, 0x0a00_3e00, &q, 0xb);
    assert_eq!(st, GpuInit::CheckQueueMax);
    let (st, ops) = gpu_init_step(st, 0x0a00_3e00, &q, 1024);
    assert_eq!(st, GpuInit::ReportStatus);
    assert_eq!(ops[4], MmioOp::Write { off: 0x090, value: 0x4B00_0100 });
    let (st, ops) = gpu_init_step(st, 0x0a00_3e00, &q, 0xb);
    assert_eq!(st, GpuInit::Ready);
    assert_eq!(ops[1], MmioOp::Uart { byte: b';' });
    assert_eq!(ops[3], MmioOp::Write { off: 0x070, value: 7 });
    let (st, ops) = gpu_init_step(GpuInit::CheckFeaturesOk, 0, &q, 3);
    assert_eq!(st, GpuInit::Failed);
    assert!(ops.is_empty());
}

#[test]
fn gpu_probe_finds_first_gpu() {
    let mut reads = vec![(0u32, 0u32, 0u32); 32];
    reads[7] = (0x74726976, 1, 0x10);
    reads[9] = (0x74726976, 1, 0x10);
    assert_eq!(probe(&reads).unwrap().base, 0x0a00_0000 + 7 * 0x200);
    assert!(probe(&reads[..7]).is_none());
    let pci = [(0, 0, 0), (0x74726976, 1, 0x10), (0, 0, 0), (0, 0, 0)];
    assert_eq!(probe_pci(&pci).unwrap().base, 0x1000_1000);
}

#[test]
fn blk_bring_up_and_requests() {
    let (st, ops) = blk_setup_step(BlkSetup::Start, 0x4b10_0000, 0);
    assert_eq!(st, BlkSetup::CheckFeaturesOk);
    assert_eq!(ops[1], MmioOp::Settle);
    let (st, _) = blk_setup_step(st, 0x4b10_0000, 0xb);
    assert_eq!(st, BlkSetup::CheckQueueMax);
    let (st, ops) = blk_setup_step(st, 0x4b10_0000, 1024);
    assert_eq!(st, BlkSetup::Ready);
    assert_eq!(ops[0], MmioOp::Write { off: 0x038, value: 64 });
    assert_eq!(ops[2], MmioOp::Write { off: 0x040, value: 0x4b100 });
    let (_, ops) = blk_setup_step(BlkSetup::CheckQueueMax, 0, 8);
    assert_eq!(ops[0], MmioOp::Write { off: 0x038, value: 8 });
    assert_eq!(blk_setup_step(BlkSetup::CheckQueueMax, 0, 0).0, BlkSetup::Failed);

    let mut q = BlkQueue::new();
    q.next = 62;
    let b = BlkBuffers { hdr: 0x100, buf: 0x200, status: 0x300 };
    let r = q.prepare(VIRTIO_BLK_T_OUT, 3, b);
    assert_eq!(r.descs[0].0, 62);
    assert_eq!(r.descs[1].0, 63);
    assert_eq!(r.descs[2].0, 0);
    assert_eq!(r.descs[0].1.next, 63);
    assert_eq!(r.descs[1].1.flags, 1);
    assert_eq!(r.avail_slot, 0);
    assert_eq!(r.new_avail_idx, 1);
    assert_eq!(q.next, 65);
    let r = q.prepare(0, 4, b);
    assert_eq!(r.descs[1].1.flags, 3);
    assert_eq!(r.descs[0].0, 1);
    assert_eq!(request_done(0, 9), (true, 9));
    assert_eq!(request_done(0xFF, 9), (false, 10));
    assert_eq!(request_done(0xFF, 2_000_000), (true, 2_000_000));
}

#[test]
fn pointer_bring_up() {
    let ops = mouse_setup(0x4b20_0000);
    assert_eq!(ops.len(), 10);
    assert_eq!(ops[7], MmioOp::Write { off: 0x040, value: 0x4b200 });
    let d = event_queue_descs(0x4b30_0000);
    assert_eq!(d.len(), 16);
    assert_eq!(d[3], (0x4b30_0018, 8, 2));
}

#[test]
fn icons_by_index() {
    let mut c = Canvas::new();
    blit_icon(&mut c, 3, 10, 20);
    blit_icon(&mut c, 7, 10, 20);
    assert_eq!(c.ops.len(), 1);
    assert!(matches!(c.ops[0], DrawOp::Icon { id: 3, x: 10, y: 20 }));
}
