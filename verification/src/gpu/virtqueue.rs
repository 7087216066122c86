//! The virtio split queue used for GPU control commands: descriptor table,
//! available ring (driver to device) and used ring (device to driver).
use vstd::prelude::*;
use crate::gpu::virtio_gpu::{MmioWrite, VirtioGpuRegs};

verus! {

pub const QUEUE_SIZE: usize = 16;
pub const VIRTQ_DESC_F_WRITE: u16 = 2;
pub const VIRTQ_DESC_F_NEXT: u16 = 1;

#[derive(Clone, Copy)]
pub struct VirtqDesc {
    pub addr: u64,
    pub len: u32,
    pub flags: u16,
    pub next: u16,
}

pub struct VirtqAvail {
    pub flags: u16,
    pub idx: u16,
    pub ring: Vec<u16>,
    pub used_event: u16,
}

#[derive(Clone, Copy)]
pub struct VirtqUsedElem {
    pub id: u32,
    pub len: u32,
}

pub struct VirtqUsed {
    pub flags: u16,
    pub idx: u16,
    pub ring: Vec<VirtqUsedElem>,
    pub avail_event: u16,
}

pub struct VirtqueueRing {
    pub desc: Vec<VirtqDesc>,
    pub avail: VirtqAvail,
    pub used: VirtqUsed,
}

/// The ring plus the driver's bookkeeping.
pub struct Virtqueue {
    pub ring: VirtqueueRing,
    /// Next descriptor to hand out (wrapping).
    pub next_free: u16,
    /// Used-ring entries consumed so far (wrapping).
    pub last_used: u16,
}

/// `x + k` wrapped to 16 bits.
pub open spec fn wrap16(x: u16, k: int) -> u16 {
    ((x as int + k) % 0x1_0000) as u16
}

impl Virtqueue {
    pub open spec fn next_free_v(&self) -> u16 {
        self.next_free
    }

    pub open spec fn last_used_v(&self) -> u16 {
        self.last_used
    }

    pub open spec fn wf(&self) -> bool {
        &&& self.ring.desc@.len() == QUEUE_SIZE
        &&& self.ring.avail.ring@.len() == QUEUE_SIZE
        &&& self.ring.used.ring@.len() == QUEUE_SIZE
    }

    /// An empty queue.
    pub fn new() -> (q: Self)
        ensures
            q.wf(),
            q.next_free_v() == 0,
            q.last_used_v() == 0,
            q.ring.avail.idx == 0,
            q.ring.used.idx == 0,
    {
        let mut desc: Vec<VirtqDesc> = Vec::new();
        let mut avail: Vec<u16> = Vec::new();
        let mut used: Vec<VirtqUsedElem> = Vec::new();
        let mut i: usize = 0;
        while i < QUEUE_SIZE
            invariant
                i <= QUEUE_SIZE,
                desc@.len() == i,
                avail@.len() == i,
                used@.len() == i,
            decreases QUEUE_SIZE - i,
        {
            desc.push(VirtqDesc { addr: 0, len: 0, flags: 0, next: 0 });
            avail.push(0);
            used.push(VirtqUsedElem { id: 0, len: 0 });
            i = i + 1;
        }
        Virtqueue {
            ring: VirtqueueRing {
                desc,
                avail: VirtqAvail { flags: 0, idx: 0, ring: avail, used_event: 0 },
                used: VirtqUsed { flags: 0, idx: 0, ring: used, avail_event: 0 },
            },
            next_free: 0,
            last_used: 0,
        }
    }

    /// Queues one buffer (device-writable when `write`); its descriptor index.
    pub fn add_buffer(&mut self, addr: u64, len: u32, write: bool) -> (idx: u16)
        requires
            old(self).wf(),
        ensures
            final(self).wf(),
            idx == old(self).next_free_v() % QUEUE_SIZE as u16,
            final(self).ring.desc@ == old(self).ring.desc@.update(
                idx as int,
                VirtqDesc { addr, len, flags: if write { VIRTQ_DESC_F_WRITE } else { 0 }, next: 0 },
            ),
            final(self).ring.avail.ring@ == old(self).ring.avail.ring@.update(
                (old(self).ring.avail.idx % QUEUE_SIZE as u16) as int,
                idx,
            ),
            final(self).ring.avail.idx == wrap16(old(self).ring.avail.idx, 1),
            final(self).next_free_v() == wrap16(old(self).next_free_v(), 1),
            final(self).last_used_v() == old(self).last_used_v(),
            final(self).ring.used == old(self).ring.used,
    {
        let idx = self.next_free % QUEUE_SIZE as u16;
        self.ring.desc.set(
            idx as usize,
            VirtqDesc { addr, len, flags: if write { VIRTQ_DESC_F_WRITE } else { 0 }, next: 0 },
        );
        let slot = self.ring.avail.idx % QUEUE_SIZE as u16;
        self.ring.avail.ring.set(slot as usize, idx);
        self.ring.avail.idx = self.ring.avail.idx.wrapping_add(1);
        self.next_free = self.next_free.wrapping_add(1);
        idx
    }

    /// Queues a command buffer chained to a device-writable response buffer.
    pub fn add_chained(&mut self, cmd_addr: u64, cmd_len: u32, resp_addr: u64, resp_len: u32)
        requires
            old(self).wf(),
            old(self).next_free_v() < 0xffff,
        ensures
            final(self).wf(),
            ({
                let c = old(self).next_free_v() % QUEUE_SIZE as u16;
                let r = ((old(self).next_free_v() + 1) % QUEUE_SIZE as int) as u16;
                &&& final(self).ring.desc@ == old(self).ring.desc@.update(
                    c as int,
                    VirtqDesc { addr: cmd_addr, len: cmd_len, flags: VIRTQ_DESC_F_NEXT, next: r },
                ).update(r as int, VirtqDesc { addr: resp_addr, len: resp_len, flags: VIRTQ_DESC_F_WRITE, next: 0 })
                &&& final(self).ring.avail.ring@ == old(self).ring.avail.ring@.update(
                    (old(self).ring.avail.idx % QUEUE_SIZE as u16) as int,
                    c,
                )
            }),
            final(self).ring.avail.idx == wrap16(old(self).ring.avail.idx, 1),
            final(self).next_free_v() == wrap16(old(self).next_free_v(), 2),
            final(self).last_used_v() == old(self).last_used_v(),
            final(self).ring.used == old(self).ring.used,
    {
        let cmd_idx = self.next_free % QUEUE_SIZE as u16;
        let resp_idx = (self.next_free + 1) % QUEUE_SIZE as u16;
        self.ring.desc.set(
            cmd_idx as usize,
            VirtqDesc { addr: cmd_addr, len: cmd_len, flags: VIRTQ_DESC_F_NEXT, next: resp_idx },
        );
        self.ring.desc.set(
            resp_idx as usize,
            VirtqDesc { addr: resp_addr, len: resp_len, flags: VIRTQ_DESC_F_WRITE, next: 0 },
        );
        let slot = self.ring.avail.idx % QUEUE_SIZE as u16;
        self.ring.avail.ring.set(slot as usize, cmd_idx);
        self.ring.avail.idx = self.ring.avail.idx.wrapping_add(1);
        self.next_free = self.next_free.wrapping_add(2);
    }

    /// The register write that tells the device queue `queue_idx` has work.
    pub fn notify(&self, regs: &VirtioGpuRegs, queue_idx: u32) -> (w: MmioWrite)
        requires
            regs.base + crate::gpu::virtio_gpu::OFF_QUEUE_NOTIFY <= usize::MAX,
        ensures
            w.addr == regs.base + crate::gpu::virtio_gpu::OFF_QUEUE_NOTIFY,
            w.value == queue_idx,
    {
        regs.notify_queue(queue_idx)
    }

    /// The id of the next buffer the device has returned, if any.
    pub fn poll_used(&mut self) -> (r: Option<u16>)
        requires
            old(self).wf(),
        ensures
            final(self).wf(),
            final(self).ring.desc@ == old(self).ring.desc@,
            final(self).ring.avail == old(self).ring.avail,
            final(self).ring.used == old(self).ring.used,
            final(self).next_free_v() == old(self).next_free_v(),
            old(self).ring.used.idx == old(self).last_used_v() ==> r is None && final(self).last_used_v()
                == old(self).last_used_v(),
            old(self).ring.used.idx != old(self).last_used_v() ==> r == Some(
                old(self).ring.used.ring@[(old(self).last_used_v() % QUEUE_SIZE as u16) as int].id as u16,
            ) && final(self).last_used_v() == wrap16(old(self).last_used_v(), 1),
    {
        if self.ring.used.idx == self.last_used {
            return None;
        }
        let slot = self.last_used % QUEUE_SIZE as u16;
        let id = self.ring.used.ring[slot as usize].id as u16;
        self.last_used = self.last_used.wrapping_add(1);
        Some(id)
    }
}


impl Default for Virtqueue {
    /// An empty queue.
    fn default() -> (q: Self)
        ensures
            q.wf(),
            q.next_free_v() == 0,
            q.last_used_v() == 0,
            q.ring.avail.idx == 0,
            q.ring.used.idx == 0,
    {
        Self::new()
    }
}

} // verus!
