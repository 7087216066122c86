//! The graphics stack: framebuffer, drawing primitives, cursor, virtio-gpu
//! command layout and queue, and the desktop's layout and hit tests.
use vstd::prelude::*;

pub mod framebuffer;
pub mod draw;
pub mod cursor;
pub mod commands;
pub mod virtqueue;
pub mod virtio_gpu;
pub mod scene;
pub mod desktop;
pub mod render;
pub mod ramfb;
pub mod paint;

use crate::gpu::commands::{
    GpuMemEntry, GpuRect, GpuResourceAttachBacking, GpuResourceCreate2d,
    GpuResourceFlush, GpuSetScanout, GpuTransferToHost2d, FORMAT_B8G8R8X8_UNORM, CMD_RESOURCE_FLUSH,
    CMD_TRANSFER_TO_HOST_2D, CMD_RESOURCE_CREATE_2D, CMD_RESOURCE_ATTACH_BACKING, CMD_SET_SCANOUT,
    plain_hdr,
};
use crate::gpu::virtio_gpu::{
    VirtioGpuRegs, MMIO_SCAN_SLOTS, OFF_DEVICE_FEATURES, OFF_DRIVER_FEATURES, OFF_QUEUE_DESC_HIGH,
    OFF_QUEUE_DESC_LOW, OFF_QUEUE_DEVICE_HIGH, OFF_QUEUE_DEVICE_LOW, OFF_QUEUE_DRIVER_HIGH,
    OFF_QUEUE_DRIVER_LOW, OFF_QUEUE_NUM, OFF_QUEUE_NUM_MAX, OFF_QUEUE_READY, OFF_QUEUE_SEL, OFF_STATUS,
};
use crate::mmio::{high32, hi32, lo32, low32, MmioOp, QueueAddrs};
use crate::gpu::framebuffer::{fb_size, WIDTH, HEIGHT};

verus! {

/// The brand colour.
pub const SOVEREIGN_PURPLE: u32 = 0xFF7B4FDB;

/// The host resource that backs the framebuffer, and the scanout it is shown on.
pub const RESOURCE_ID: u32 = 1;
pub const SCANOUT_ID: u32 = 0;

/// The magic value a virtio-mmio slot with a device reads.
pub const VIRTIO_MMIO_MAGIC: u32 = 0x74726976;

/// A virtio-gpu device that completed initialization.
pub struct VirtioGpu {
    pub regs: VirtioGpuRegs,
}

/// The feature bits the driver accepts of those the device offers: only VIRGL.
pub fn negotiated_features(device_features: u32) -> (f: u32)
    ensures
        f == device_features & 1,
{
    device_features & 1
}

/// The three commands that set the framebuffer up once the device is live:
/// create the host resource, back it with the framebuffer at `fb_addr`, and
/// show it on the scanout.
pub fn init_commands(fb_addr: u64) -> (cmds: (GpuResourceCreate2d, GpuResourceAttachBacking, GpuSetScanout))
    ensures
        cmds.0 == (GpuResourceCreate2d {
            hdr: plain_hdr(CMD_RESOURCE_CREATE_2D),
            resource_id: RESOURCE_ID,
            format: FORMAT_B8G8R8X8_UNORM,
            width: 1280,
            height: 720,
        }),
        cmds.1 == (GpuResourceAttachBacking {
            hdr: plain_hdr(CMD_RESOURCE_ATTACH_BACKING),
            resource_id: RESOURCE_ID,
            nr_entries: 1,
            entry: GpuMemEntry { addr: fb_addr, length: 3_686_400u32, padding: 0 },
        }),
        cmds.2 == (GpuSetScanout {
            hdr: plain_hdr(CMD_SET_SCANOUT),
            r: GpuRect { x: 0, y: 0, width: 1280, height: 720 },
            scanout_id: SCANOUT_ID,
            resource_id: RESOURCE_ID,
        }),
{
    let create = commands::resource_create_2d(RESOURCE_ID, FORMAT_B8G8R8X8_UNORM, WIDTH as u32, HEIGHT as u32);
    let attach = commands::attach_backing(RESOURCE_ID, fb_addr, fb_size());
    let scanout = commands::set_scanout_cmd(SCANOUT_ID, RESOURCE_ID, WIDTH as u32, HEIGHT as u32);
    (create, attach, scanout)
}

/// Scanout size changes need nothing: the framebuffer has a fixed size.
pub fn set_scanout(_width: u32, _height: u32) {
}

/// What flushing a rectangle sends: nothing when the framebuffer is ramfb
/// (it is scanned out directly) or no virtio-gpu device is active; otherwise a
/// transfer of the rectangle to the host resource, then a flush of it.
pub fn flush(ramfb_active: bool, active: Option<VirtioGpuRegs>, x: u32, y: u32, w: u32, h: u32) -> (r: Option<
    (GpuTransferToHost2d, GpuResourceFlush),
>)
    ensures
        (ramfb_active || active is None) ==> r is None,
        (!ramfb_active && active is Some) ==> r == Some(
            (
                GpuTransferToHost2d {
                    hdr: plain_hdr(CMD_TRANSFER_TO_HOST_2D),
                    r: GpuRect { x, y, width: w, height: h },
                    offset: 0,
                    resource_id: RESOURCE_ID,
                    padding: 0,
                },
                GpuResourceFlush {
                    hdr: plain_hdr(CMD_RESOURCE_FLUSH),
                    r: GpuRect { x, y, width: w, height: h },
                    resource_id: RESOURCE_ID,
                    padding: 0,
                },
            ),
        ),
{
    if ramfb_active {
        return None;
    }
    match active {
        Some(_) => Some(
            (
                commands::transfer_to_host_2d(RESOURCE_ID, x, y, w, h),
                commands::resource_flush(RESOURCE_ID, x, y, w, h),
            ),
        ),
        None => None,
    }
}

/// The device status register of the active device, or 0 when there is none.
pub fn read_status(active_status: Option<u32>) -> (s: u32)
    ensures
        s == match active_status {
            Some(v) => v,
            None => 0,
        },
{
    match active_status {
        Some(v) => v,
        None => 0,
    }
}

/// The lower-case hex digit for `n < 16`.
pub open spec fn hex_digit(n: int) -> u8 {
    if n < 10 {
        (48 + n) as u8
    } else {
        (87 + n) as u8
    }
}

fn nibble(n: u32) -> (d: u8)
    requires
        n < 16,
    ensures
        d == hex_digit(n as int),
{
    if n < 10 {
        (48 + n) as u8
    } else {
        (87 + n) as u8
    }
}

/// The console record for a slot with a device: `[`, the slot number in two
/// hex digits, `v`, the version's low hex digit, `=`, the device id's low two
/// hex digits, `]`.
pub open spec fn slot_record(slot: int, version: u32, device_id: u32) -> Seq<u8> {
    seq![
        91u8,
        hex_digit(slot / 16),
        hex_digit(slot % 16),
        118u8,
        hex_digit((version % 16) as int),
        61u8,
        hex_digit(((device_id / 16) % 16) as int),
        hex_digit((device_id % 16) as int),
        93u8,
    ]
}

/// The records of the slots `from..` whose magic shows a device.
pub open spec fn slot_records(reads: Seq<(u32, u32, u32)>, n: int) -> Seq<u8>
    decreases n,
{
    if n <= 0 {
        Seq::empty()
    } else {
        let (magic, version, device_id) = reads[n - 1];
        slot_records(reads, n - 1) + if magic == VIRTIO_MMIO_MAGIC {
            slot_record(n - 1, version, device_id)
        } else {
            Seq::empty()
        }
    }
}

/// The slot dump written to the console: one record for each scanned slot
/// whose magic register (`reads[slot].0`) shows a device, then a newline.
/// `reads[slot]` holds the slot's magic, version and device-id registers.
pub fn dump_slots(reads: &[(u32, u32, u32)]) -> (out: Vec<u8>)
    requires
        reads@.len() <= MMIO_SCAN_SLOTS,
    ensures
        out@ == slot_records(reads@, reads@.len() as int).push(10u8),
{
    let mut out: Vec<u8> = Vec::new();
    let mut slot: usize = 0;
    while slot < reads.len()
        invariant
            slot <= reads@.len() <= MMIO_SCAN_SLOTS,
            out@ == slot_records(reads@, slot as int),
        decreases reads.len() - slot,
    {
        let (magic, version, device_id) = reads[slot];
        if magic == VIRTIO_MMIO_MAGIC {
            let s = slot as u32;
            out.push(91u8);
            out.push(nibble(s / 16));
            out.push(nibble(s % 16));
            out.push(118u8);
            out.push(nibble(version % 16));
            out.push(61u8);
            out.push(nibble((device_id / 16) % 16));
            out.push(nibble(device_id % 16));
            out.push(93u8);
        }
        assert(out@ =~= slot_records(reads@, slot + 1));
        slot = slot + 1;
    }
    out.push(10u8);
    out
}


// ── Device bring-up ───────────────────────────────────────────────────────────

/// Where virtio-gpu bring-up stands; the checks wait for the register read
/// that the previous step asked for.
#[derive(Clone, Copy, PartialEq, Eq, Debug, Structural)]
pub enum GpuInit {
    Start,
    Negotiate,
    CheckFeaturesOk,
    CheckQueueMax,
    ReportStatus,
    Ready,
    Failed,
}

/// The queue size the driver asks for.
pub const GPU_QUEUE_SIZE: u32 = 16;

/// The console digit for a nibble: `'0'` plus its value.
pub open spec fn digit_byte(n: int) -> u8 {
    (48 + n) as u8
}

/// One step of virtio-gpu bring-up for the device at `base`: from state `st`,
/// with `read` the value of the register the previous step asked for, the
/// next state and what to do. The driver accepts only the VIRGL feature bit;
/// a refused feature set or an empty queue fail the bring-up. Once the
/// device is live the framebuffer commands (`init_commands`) follow.
pub open spec fn gpu_step(st: GpuInit, base: usize, q: QueueAddrs, read: u32) -> (GpuInit, Seq<MmioOp>) {
    match st {
        GpuInit::Start => (
            GpuInit::Negotiate,
            seq![
                MmioOp::Uart { byte: 71u8 },
                MmioOp::Uart { byte: digit_byte(((base / 256) % 16) as int) },
                MmioOp::Uart { byte: 10u8 },
                MmioOp::Write { off: OFF_STATUS, value: 0 },
                MmioOp::Write { off: OFF_STATUS, value: 1 },
                MmioOp::Write { off: OFF_STATUS, value: 3 },
                MmioOp::Read { off: OFF_DEVICE_FEATURES },
            ],
        ),
        GpuInit::Negotiate => (
            GpuInit::CheckFeaturesOk,
            seq![
                MmioOp::Write { off: OFF_DRIVER_FEATURES, value: (read % 2) as u32 },
                MmioOp::Write { off: OFF_STATUS, value: 11 },
                MmioOp::Read { off: OFF_STATUS },
            ],
        ),
        GpuInit::CheckFeaturesOk => if read % 16 < 8 {
            (GpuInit::Failed, Seq::empty())
        } else {
            (
                GpuInit::CheckQueueMax,
                seq![MmioOp::Write { off: OFF_QUEUE_SEL, value: 0 }, MmioOp::Read { off: OFF_QUEUE_NUM_MAX }],
            )
        },
        GpuInit::CheckQueueMax => if read == 0 {
            (GpuInit::Failed, Seq::empty())
        } else {
            (
                GpuInit::ReportStatus,
                seq![
                    MmioOp::Write { off: OFF_QUEUE_NUM, value: GPU_QUEUE_SIZE },
                    MmioOp::FillQueue,
                    MmioOp::Write { off: OFF_QUEUE_DESC_LOW, value: lo32(q.desc) },
                    MmioOp::Write { off: OFF_QUEUE_DESC_HIGH, value: hi32(q.desc) },
                    MmioOp::Write { off: OFF_QUEUE_DRIVER_LOW, value: lo32(q.avail) },
                    MmioOp::Write { off: OFF_QUEUE_DRIVER_HIGH, value: hi32(q.avail) },
                    MmioOp::Write { off: OFF_QUEUE_DEVICE_LOW, value: lo32(q.used) },
                    MmioOp::Write { off: OFF_QUEUE_DEVICE_HIGH, value: hi32(q.used) },
                    MmioOp::Write { off: OFF_QUEUE_READY, value: 1 },
                    MmioOp::Read { off: OFF_STATUS },
                ],
            )
        },
        GpuInit::ReportStatus => (
            GpuInit::Ready,
            seq![
                MmioOp::Uart { byte: 83u8 },
                MmioOp::Uart { byte: digit_byte((read % 16) as int) },
                MmioOp::Uart { byte: 10u8 },
                MmioOp::Write { off: OFF_STATUS, value: 7 },
            ],
        ),
        GpuInit::Ready => (GpuInit::Ready, Seq::empty()),
        GpuInit::Failed => (GpuInit::Failed, Seq::empty()),
    }
}

/// Performs the decision of one virtio-gpu bring-up step (see `gpu_step`).
pub fn gpu_init_step(st: GpuInit, base: usize, q: &QueueAddrs, read: u32) -> (r: (GpuInit, Vec<MmioOp>))
    ensures
        (r.0, r.1@) == gpu_step(st, base, *q, read),
{
    let mut ops: Vec<MmioOp> = Vec::new();
    match st {
        GpuInit::Start => {
            ops.push(MmioOp::Uart { byte: 71u8 });
            ops.push(MmioOp::Uart { byte: (48 + (base / 256) % 16) as u8 });
            ops.push(MmioOp::Uart { byte: 10u8 });
            ops.push(MmioOp::Write { off: OFF_STATUS, value: 0 });
            ops.push(MmioOp::Write { off: OFF_STATUS, value: 1 });
            ops.push(MmioOp::Write { off: OFF_STATUS, value: 3 });
            ops.push(MmioOp::Read { off: OFF_DEVICE_FEATURES });
            assert(ops@ =~= gpu_step(st, base, *q, read).1);
            (GpuInit::Negotiate, ops)
        },
        GpuInit::Negotiate => {
            let f = negotiated_features(read);
            assert(read & 1 == read % 2) by (bit_vector);
            ops.push(MmioOp::Write { off: OFF_DRIVER_FEATURES, value: f });
            ops.push(MmioOp::Write { off: OFF_STATUS, value: 11 });
            ops.push(MmioOp::Read { off: OFF_STATUS });
            assert(ops@ =~= gpu_step(st, base, *q, read).1);
            (GpuInit::CheckFeaturesOk, ops)
        },
        GpuInit::CheckFeaturesOk => {
            assert(read & 8 == 0 <==> read % 16 < 8) by (bit_vector);
            if read & 8 == 0 {
                (GpuInit::Failed, ops)
            } else {
                ops.push(MmioOp::Write { off: OFF_QUEUE_SEL, value: 0 });
                ops.push(MmioOp::Read { off: OFF_QUEUE_NUM_MAX });
                assert(ops@ =~= gpu_step(st, base, *q, read).1);
                (GpuInit::CheckQueueMax, ops)
            }
        },
        GpuInit::CheckQueueMax => {
            if read == 0 {
                return (GpuInit::Failed, ops);
            }
            ops.push(MmioOp::Write { off: OFF_QUEUE_NUM, value: GPU_QUEUE_SIZE });
            ops.push(MmioOp::FillQueue);
            ops.push(MmioOp::Write { off: OFF_QUEUE_DESC_LOW, value: low32(q.desc) });
            ops.push(MmioOp::Write { off: OFF_QUEUE_DESC_HIGH, value: high32(q.desc) });
            ops.push(MmioOp::Write { off: OFF_QUEUE_DRIVER_LOW, value: low32(q.avail) });
            ops.push(MmioOp::Write { off: OFF_QUEUE_DRIVER_HIGH, value: high32(q.avail) });
            ops.push(MmioOp::Write { off: OFF_QUEUE_DEVICE_LOW, value: low32(q.used) });
            ops.push(MmioOp::Write { off: OFF_QUEUE_DEVICE_HIGH, value: high32(q.used) });
            ops.push(MmioOp::Write { off: OFF_QUEUE_READY, value: 1 });
            ops.push(MmioOp::Read { off: OFF_STATUS });
            assert(ops@ =~= gpu_step(st, base, *q, read).1);
            (GpuInit::ReportStatus, ops)
        },
        GpuInit::ReportStatus => {
            ops.push(MmioOp::Uart { byte: 83u8 });
            ops.push(MmioOp::Uart { byte: (48 + read % 16) as u8 });
            ops.push(MmioOp::Uart { byte: 10u8 });
            ops.push(MmioOp::Write { off: OFF_STATUS, value: 7 });
            assert(ops@ =~= gpu_step(st, base, *q, read).1);
            (GpuInit::Ready, ops)
        },
        GpuInit::Ready => (GpuInit::Ready, ops),
        GpuInit::Failed => (GpuInit::Failed, ops),
    }
}

} // verus!
