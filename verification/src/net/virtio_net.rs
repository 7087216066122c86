//! The virtio-net transmit side: AWP frame layout and the TX descriptor ring.
//!
//! AWP frame:
//!   `[0..8]`   magic `AIEONYX\0`
//!   `[8..16]`  node id, u64 little-endian
//!   `[16..20]` version, u32 little-endian
//!   `[20..24]` payload length, u32 little-endian
//!   `[24..]`   payload (at most `AWP_MAX_PAYLOAD` bytes)
//!
//! Each frame goes out as two chained descriptors: the 12-byte virtio-net
//! header, then the frame.
use vstd::prelude::*;
use crate::mmio::{lo32, low32, MmioOp};
use crate::kernel::verify::{le32_bytes, le64_bytes, write_le32};

verus! {

pub const AWP_VERSION: u32 = 1;
pub const AWP_FRAME_HDR: usize = 24;
pub const AWP_MAX_PAYLOAD: usize = 232;
pub const AWP_FRAME_MAX: usize = 256;
pub const TX_QUEUE: u32 = 1;
pub const QUEUE_SIZE: usize = 16;
/// Bytes of the virtio-net header that precedes every frame.
pub const NET_HDR_LEN: u32 = 14;
/// Offset of the queue-notify register in the device's MMIO window.
pub const OFF_QUEUE_NOTIF: usize = 0x050;

/// `AIEONYX\0`.
pub open spec fn awp_magic_seq() -> Seq<u8> {
    seq![65u8, 73u8, 69u8, 79u8, 78u8, 89u8, 88u8, 0u8]
}

/// The magic that opens every AWP frame, `AIEONYX\0`.
pub const AWP_MAGIC: [u8; 8] = [65u8, 73u8, 69u8, 79u8, 78u8, 89u8, 88u8, 0u8];

/// The AWP magic bytes.
pub fn awp_magic() -> (m: [u8; 8])
    ensures
        m@ == awp_magic_seq(),
{
    let m = AWP_MAGIC;
    assert(m@ =~= awp_magic_seq());
    m
}

/// Payload bytes a frame carries.
pub open spec fn frame_payload_len(payload: Seq<u8>) -> int {
    if payload.len() < AWP_MAX_PAYLOAD {
        payload.len() as int
    } else {
        AWP_MAX_PAYLOAD as int
    }
}

/// The AWP frame for `node_id` carrying `payload` (cut to `AWP_MAX_PAYLOAD`).
pub open spec fn awp_frame(node_id: u64, payload: Seq<u8>) -> Seq<u8> {
    let n = frame_payload_len(payload);
    awp_magic_seq() + le64_bytes(node_id) + le32_bytes(AWP_VERSION) + le32_bytes(n as u32)
        + payload.take(n)
}

/// A split virtqueue descriptor.
#[derive(Clone, Copy)]
pub struct VirtqDesc {
    pub addr: u64,
    pub len: u32,
    pub flags: u16,
    pub next: u16,
}

/// The transmit side of the virtio-net device.
pub struct VirtioNet {
    live: bool,
    base: usize,
    hdr_addr: u64,
    frame_addr: u64,
    tx_next: u16,
    avail_idx: u16,
    frames_sent: u32,
    desc: Vec<VirtqDesc>,
    avail: Vec<u16>,
    frame: [u8; AWP_FRAME_MAX],
    frame_len: usize,
}

impl VirtioNet {
    pub closed spec fn live(&self) -> bool {
        self.live
    }

    pub closed spec fn base_v(&self) -> usize {
        self.base
    }

    /// The last frame built.
    pub closed spec fn frame_v(&self) -> Seq<u8> {
        self.frame@.take(self.frame_len as int)
    }

    pub closed spec fn frame_len_v(&self) -> int {
        self.frame_len as int
    }

    pub closed spec fn frames_v(&self) -> u32 {
        self.frames_sent
    }

    pub closed spec fn tx_next_v(&self) -> u16 {
        self.tx_next
    }

    pub closed spec fn avail_idx_v(&self) -> u16 {
        self.avail_idx
    }

    pub closed spec fn descs(&self) -> Seq<VirtqDesc> {
        self.desc@
    }

    pub closed spec fn avail_ring(&self) -> Seq<u16> {
        self.avail@
    }

    pub closed spec fn hdr_addr_v(&self) -> u64 {
        self.hdr_addr
    }

    pub closed spec fn frame_addr_v(&self) -> u64 {
        self.frame_addr
    }

    pub open spec fn wf(&self) -> bool {
        &&& self.descs().len() == QUEUE_SIZE
        &&& self.avail_ring().len() == QUEUE_SIZE
        &&& self.frame_len_v() <= AWP_FRAME_MAX
    }

    /// `b` is `a` after one frame for `node_id` carrying `payload` went into
    /// the ring: header descriptor chained to the frame descriptor, the head
    /// published in the available ring, all counters advanced (wrapping).
    pub open spec fn sent_rel(a: &Self, b: &Self, node_id: u64, payload: Seq<u8>) -> bool {
        let d0 = (a.tx_next_v() as int) % (QUEUE_SIZE as int);
        let d1 = (a.tx_next_v() as int + 1) % (QUEUE_SIZE as int);
        let slot = (a.avail_idx_v() as int) % (QUEUE_SIZE as int);
        let frame = awp_frame(node_id, payload);
        &&& b.live() == a.live()
        &&& b.base_v() == a.base_v()
        &&& b.hdr_addr_v() == a.hdr_addr_v()
        &&& b.frame_addr_v() == a.frame_addr_v()
        &&& b.frame_v() == frame
        &&& b.descs() == a.descs().update(
            d0,
            VirtqDesc { addr: a.hdr_addr_v(), len: NET_HDR_LEN, flags: 1, next: d1 as u16 },
        ).update(d1, VirtqDesc { addr: a.frame_addr_v(), len: frame.len() as u32, flags: 0, next: 0 })
        &&& b.avail_ring() == a.avail_ring().update(slot, d0 as u16)
        &&& b.avail_idx_v() == (if a.avail_idx_v() == 0xffff { 0 } else { (a.avail_idx_v() + 1) as u16 })
        &&& b.tx_next_v() == ((a.tx_next_v() as int + 2) % 0x1_0000) as u16
        &&& b.frames_v() == (if a.frames_v() == 0xffff_ffff { 0 } else { (a.frames_v() + 1) as u32 })
    }

    /// No device yet: nothing sent, an empty ring.
    pub fn new() -> (n: Self)
        ensures
            n.wf(),
            !n.live(),
            n.frames_v() == 0,
            n.tx_next_v() == 0,
            n.avail_idx_v() == 0,
    {
        let mut desc: Vec<VirtqDesc> = Vec::new();
        let mut avail: Vec<u16> = Vec::new();
        let mut i: usize = 0;
        while i < QUEUE_SIZE
            invariant
                i <= QUEUE_SIZE,
                desc@.len() == i,
                avail@.len() == i,
            decreases QUEUE_SIZE - i,
        {
            desc.push(VirtqDesc { addr: 0, len: 0, flags: 0, next: 0 });
            avail.push(0);
            i = i + 1;
        }
        VirtioNet {
            live: false,
            base: 0,
            hdr_addr: 0,
            frame_addr: 0,
            tx_next: 0,
            avail_idx: 0,
            frames_sent: 0,
            desc,
            avail,
            frame: [0u8; AWP_FRAME_MAX],
            frame_len: 0,
        }
    }

    /// Records a device found at `base` whose queue is set up; `hdr_addr` and
    /// `frame_addr` are the DMA addresses of the header and frame buffers.
    pub fn attach(&mut self, base: usize, hdr_addr: u64, frame_addr: u64)
        requires
            old(self).wf(),
        ensures
            final(self).wf(),
            final(self).live(),
            final(self).base_v() == base,
            final(self).hdr_addr_v() == hdr_addr,
            final(self).frame_addr_v() == frame_addr,
            final(self).frames_v() == old(self).frames_v(),
            final(self).tx_next_v() == old(self).tx_next_v(),
            final(self).avail_idx_v() == old(self).avail_idx_v(),
            final(self).descs() == old(self).descs(),
            final(self).avail_ring() == old(self).avail_ring(),
    {
        self.live = true;
        self.base = base;
        self.hdr_addr = hdr_addr;
        self.frame_addr = frame_addr;
    }

    pub fn is_live(&self) -> (r: bool)
        ensures
            r == self.live(),
    {
        self.live
    }

    pub fn frames_sent(&self) -> (n: u32)
        ensures
            n == self.frames_v(),
    {
        self.frames_sent
    }

    /// The register to write `TX_QUEUE` to after a frame was queued.
    pub fn notify_register(&self) -> (a: usize)
        requires
            self.base_v() + OFF_QUEUE_NOTIF <= usize::MAX,
        ensures
            a == self.base_v() + OFF_QUEUE_NOTIF,
    {
        self.base + OFF_QUEUE_NOTIF
    }

    /// Descriptor `i` of the transmit ring.
    pub fn desc_at(&self, i: usize) -> (d: VirtqDesc)
        requires
            self.wf(),
            i < QUEUE_SIZE,
        ensures
            d == self.descs()[i as int],
    {
        self.desc[i]
    }

    /// Entry `i` of the available ring.
    pub fn avail_at(&self, i: usize) -> (e: u16)
        requires
            self.wf(),
            i < QUEUE_SIZE,
        ensures
            e == self.avail_ring()[i as int],
    {
        self.avail[i]
    }

    /// The available index to publish.
    pub fn avail_idx(&self) -> (i: u16)
        ensures
            i == self.avail_idx_v(),
    {
        self.avail_idx
    }

    /// The last frame built.
    pub fn frame_bytes(&self) -> (f: &[u8])
        requires
            self.wf(),
        ensures
            f@ == self.frame_v(),
    {
        self.frame.as_slice().split_at(self.frame_len).0
    }

    fn build_frame(&mut self, node_id: u64, payload: &[u8])
        requires
            old(self).wf(),
        ensures
            final(self).wf(),
            final(self).frame_v() == awp_frame(node_id, payload@),
            final(self).frame_len_v() == awp_frame(node_id, payload@).len(),
            final(self).live() == old(self).live(),
            final(self).base_v() == old(self).base_v(),
            final(self).hdr_addr_v() == old(self).hdr_addr_v(),
            final(self).frame_addr_v() == old(self).frame_addr_v(),
            final(self).frames_v() == old(self).frames_v(),
            final(self).tx_next_v() == old(self).tx_next_v(),
            final(self).avail_idx_v() == old(self).avail_idx_v(),
            final(self).descs() == old(self).descs(),
            final(self).avail_ring() == old(self).avail_ring(),
    {
        let plen = if payload.len() < AWP_MAX_PAYLOAD { payload.len() } else { AWP_MAX_PAYLOAD };
        let m = awp_magic();
        crate::bytes::copy_into(&mut self.frame, 0, &m, 8);
        write_le32(&mut self.frame, 8, (node_id % 0x1_0000_0000) as u32);
        write_le32(&mut self.frame, 12, (node_id / 0x1_0000_0000) as u32);
        write_le32(&mut self.frame, 16, AWP_VERSION);
        write_le32(&mut self.frame, 20, plen as u32);
        crate::bytes::copy_into(&mut self.frame, 24, payload, plen);
        self.frame_len = AWP_FRAME_HDR + plen;
        assert(m@.take(8) =~= m@);
        assert(self.frame@.take(self.frame_len as int) =~= awp_frame(node_id, payload@));
    }

    /// Builds one AWP frame and queues it for transmission; `false` (and
    /// nothing changes) when no device is attached.
    pub fn send_awp_frame(&mut self, node_id: u64, payload: &[u8]) -> (r: bool)
        requires
            old(self).wf(),
        ensures
            final(self).wf(),
            r == old(self).live(),
            !r ==> *final(self) == *old(self),
            r ==> Self::sent_rel(old(self), final(self), node_id, payload@),
    {
        if !self.live {
            return false;
        }
        self.build_frame(node_id, payload);
        let d0 = (self.tx_next as usize) % QUEUE_SIZE;
        let d1 = (self.tx_next as usize + 1) % QUEUE_SIZE;
        let flen = self.frame_len as u32;
        self.desc.set(d0, VirtqDesc { addr: self.hdr_addr, len: NET_HDR_LEN, flags: 1, next: d1 as u16 });
        self.desc.set(d1, VirtqDesc { addr: self.frame_addr, len: flen, flags: 0, next: 0 });
        let slot = (self.avail_idx as usize) % QUEUE_SIZE;
        self.avail.set(slot, d0 as u16);
        self.avail_idx = self.avail_idx.wrapping_add(1);
        self.tx_next = self.tx_next.wrapping_add(2);
        self.frames_sent = self.frames_sent.wrapping_add(1);
        true
    }
}


// ── Device bring-up ───────────────────────────────────────────────────────────

pub const VIRTIO_MAGIC: u32 = 0x74726976;
pub const VIRTIO_V1: u32 = 0x1;
pub const NET_DEVICE_ID: u32 = 0x1;
pub const OFF_DEV_FEAT: usize = 0x010;
pub const OFF_DRV_FEAT: usize = 0x020;
pub const OFF_QUEUE_SEL: usize = 0x030;
pub const OFF_QUEUE_MAX: usize = 0x034;
pub const OFF_QUEUE_NUM: usize = 0x038;
pub const OFF_QUEUE_ALIGN: usize = 0x03c;
pub const OFF_QUEUE_PFN: usize = 0x040;
pub const OFF_STATUS: usize = 0x070;

/// Whether a slot's magic, version and device-id registers show a legacy
/// virtio-net device.
pub fn is_net_device(magic: u32, version: u32, device_id: u32) -> (r: bool)
    ensures
        r == (magic == VIRTIO_MAGIC && version == VIRTIO_V1 && device_id == NET_DEVICE_ID),
{
    magic == VIRTIO_MAGIC && version == VIRTIO_V1 && device_id == NET_DEVICE_ID
}

/// Where bringing up a network device stands.
#[derive(Clone, Copy, PartialEq, Eq, Debug, Structural)]
pub enum NetSetup {
    Start,
    CheckQueueMax,
    /// The device is live.
    Ready,
    /// The device has no transmit queue: the scan moves on to the next slot.
    Skip,
}

/// One step of bringing up a network device whose transmit ring is at
/// `ring_addr`: from state `st`, with `read` the value of the last register
/// the previous step read, the next state and what to do. No features are
/// accepted (the offered set is read and ignored); the transmit queue is
/// sized to the device's maximum, at most 16.
pub open spec fn net_step(st: NetSetup, ring_addr: u64, read: u32) -> (NetSetup, Seq<MmioOp>) {
    match st {
        NetSetup::Start => (
            NetSetup::CheckQueueMax,
            seq![
                MmioOp::Write { off: OFF_STATUS, value: 0 },
                MmioOp::Write { off: OFF_STATUS, value: 1 },
                MmioOp::Write { off: OFF_STATUS, value: 3 },
                MmioOp::Read { off: OFF_DEV_FEAT },
                MmioOp::Write { off: OFF_DRV_FEAT, value: 0 },
                MmioOp::Write { off: OFF_QUEUE_SEL, value: TX_QUEUE },
                MmioOp::Read { off: OFF_QUEUE_MAX },
            ],
        ),
        NetSetup::CheckQueueMax => if read == 0 {
            (NetSetup::Skip, Seq::empty())
        } else {
            (
                NetSetup::Ready,
                seq![
                    MmioOp::Write { off: OFF_QUEUE_NUM, value: if read < 16 { read } else { 16 } },
                    MmioOp::Write { off: OFF_QUEUE_ALIGN, value: 4096 },
                    MmioOp::Write { off: OFF_QUEUE_PFN, value: lo32(ring_addr / 4096) },
                    MmioOp::Write { off: OFF_STATUS, value: 7 },
                ],
            )
        },
        NetSetup::Ready => (NetSetup::Ready, Seq::empty()),
        NetSetup::Skip => (NetSetup::Skip, Seq::empty()),
    }
}

/// Performs the decision of one network bring-up step (see `net_step`).
pub fn net_setup_step(st: NetSetup, ring_addr: u64, read: u32) -> (r: (NetSetup, Vec<MmioOp>))
    ensures
        (r.0, r.1@) == net_step(st, ring_addr, read),
{
    let mut ops: Vec<MmioOp> = Vec::new();
    match st {
        NetSetup::Start => {
            ops.push(MmioOp::Write { off: OFF_STATUS, value: 0 });
            ops.push(MmioOp::Write { off: OFF_STATUS, value: 1 });
            ops.push(MmioOp::Write { off: OFF_STATUS, value: 3 });
            ops.push(MmioOp::Read { off: OFF_DEV_FEAT });
            ops.push(MmioOp::Write { off: OFF_DRV_FEAT, value: 0 });
            ops.push(MmioOp::Write { off: OFF_QUEUE_SEL, value: TX_QUEUE });
            ops.push(MmioOp::Read { off: OFF_QUEUE_MAX });
            assert(ops@ =~= net_step(st, ring_addr, read).1);
            (NetSetup::CheckQueueMax, ops)
        },
        NetSetup::CheckQueueMax => {
            if read == 0 {
                return (NetSetup::Skip, ops);
            }
            let qsize = if read < QUEUE_SIZE as u32 { read } else { QUEUE_SIZE as u32 };
            ops.push(MmioOp::Write { off: OFF_QUEUE_NUM, value: qsize });
            ops.push(MmioOp::Write { off: OFF_QUEUE_ALIGN, value: 4096 });
            ops.push(MmioOp::Write { off: OFF_QUEUE_PFN, value: low32(ring_addr / 4096) });
            ops.push(MmioOp::Write { off: OFF_STATUS, value: 7 });
            assert(ops@ =~= net_step(st, ring_addr, read).1);
            (NetSetup::Ready, ops)
        },
        NetSetup::Ready => (NetSetup::Ready, ops),
        NetSetup::Skip => (NetSetup::Skip, ops),
    }
}

} // verus!
