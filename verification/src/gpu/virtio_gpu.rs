//! The virtio-gpu MMIO register window.
use vstd::prelude::*;

verus! {

pub const MMIO_SCAN_BASE: usize = 0x0a00_0000;
pub const MMIO_STEP: usize = 0x200;
pub const MMIO_SCAN_SLOTS: usize = 32;
pub const OFF_STATUS: usize = 0x070;
pub const OFF_QUEUE_NOTIFY: usize = 0x050;
pub const OFF_CONFIG_SPACE: usize = 0x100;
pub const STATUS_ACKNOWLEDGE: u32 = 1;
pub const STATUS_DRIVER: u32 = 2;
pub const STATUS_DRIVER_OK: u32 = 4;
pub const STATUS_FEATURES_OK: u32 = 8;
pub const STATUS_FAILED: u32 = 128;
pub const OFF_MAGIC_VALUE: usize = 0x000;
pub const OFF_VERSION: usize = 0x004;
pub const OFF_DEVICE_ID: usize = 0x008;
pub const OFF_DEVICE_FEATURES: usize = 0x010;
pub const OFF_DRIVER_FEATURES: usize = 0x020;
pub const OFF_QUEUE_SEL: usize = 0x030;
pub const OFF_QUEUE_NUM_MAX: usize = 0x034;
pub const OFF_QUEUE_NUM: usize = 0x038;
pub const OFF_QUEUE_READY: usize = 0x044;
pub const OFF_QUEUE_DESC_LOW: usize = 0x080;
pub const OFF_QUEUE_DESC_HIGH: usize = 0x084;
pub const OFF_QUEUE_DRIVER_LOW: usize = 0x090;
pub const OFF_QUEUE_DRIVER_HIGH: usize = 0x094;
pub const OFF_QUEUE_DEVICE_LOW: usize = 0x0a0;
pub const OFF_QUEUE_DEVICE_HIGH: usize = 0x0a4;
pub const VIRTIO_MAGIC: u32 = 0x74726976;
pub const VIRTIO_VERSION: u32 = 0x1;
pub const GPU_DEVICE_ID: u32 = 0x10;

/// One 32-bit register write to perform.
#[derive(Clone, Copy)]
pub struct MmioWrite {
    pub addr: usize,
    pub value: u32,
}

/// A virtio-gpu device's register window at `base`.
#[derive(Clone, Copy)]
pub struct VirtioGpuRegs {
    pub base: usize,
}

impl VirtioGpuRegs {
    /// Start of the device-specific configuration space.
    pub fn config_space_base(&self) -> (a: usize)
        requires
            self.base + OFF_CONFIG_SPACE <= usize::MAX,
        ensures
            a == self.base + OFF_CONFIG_SPACE,
    {
        self.base + OFF_CONFIG_SPACE
    }

    /// The write that notifies queue `i`.
    pub fn notify_queue(&self, i: u32) -> (w: MmioWrite)
        requires
            self.base + OFF_QUEUE_NOTIFY <= usize::MAX,
        ensures
            w.addr == self.base + OFF_QUEUE_NOTIFY,
            w.value == i,
    {
        MmioWrite { addr: self.base + OFF_QUEUE_NOTIFY, value: i }
    }

    /// The write that sets the device status to `v`.
    pub fn set_status(&self, v: u32) -> (w: MmioWrite)
        requires
            self.base + OFF_STATUS <= usize::MAX,
        ensures
            w.addr == self.base + OFF_STATUS,
            w.value == v,
    {
        MmioWrite { addr: self.base + OFF_STATUS, value: v }
    }
}

/// Base address of MMIO slot `slot`.
pub fn slot_base(slot: usize) -> (a: usize)
    requires
        slot < MMIO_SCAN_SLOTS,
    ensures
        a == MMIO_SCAN_BASE + slot * MMIO_STEP,
{
    MMIO_SCAN_BASE + slot * MMIO_STEP
}


/// Whether a slot's magic, version and device-id registers show a
/// virtio-gpu device.
pub open spec fn spec_is_gpu(r: (u32, u32, u32)) -> bool {
    r.0 == VIRTIO_MAGIC && r.1 == VIRTIO_VERSION && r.2 == GPU_DEVICE_ID
}

/// The first of `reads[i..]` that shows a virtio-gpu device.
pub open spec fn first_gpu(reads: Seq<(u32, u32, u32)>, i: int) -> Option<int>
    decreases reads.len() - i,
{
    if i < 0 || i >= reads.len() {
        None
    } else if spec_is_gpu(reads[i]) {
        Some(i)
    } else {
        first_gpu(reads, i + 1)
    }
}

fn find_gpu(reads: &[(u32, u32, u32)]) -> (r: Option<usize>)
    ensures
        r is Some <==> first_gpu(reads@, 0) is Some,
        r matches Some(i) ==> first_gpu(reads@, 0) == Some(i as int) && i < reads@.len(),
{
    let mut i: usize = 0;
    while i < reads.len()
        invariant
            i <= reads@.len(),
            first_gpu(reads@, i as int) == first_gpu(reads@, 0),
        decreases reads.len() - i,
    {
        let (magic, version, device_id) = reads[i];
        if magic == VIRTIO_MAGIC && version == VIRTIO_VERSION && device_id == GPU_DEVICE_ID {
            return Some(i);
        }
        i = i + 1;
    }
    None
}

/// The register window of the first scanned MMIO slot that holds a
/// virtio-gpu device; `reads[slot]` are the slot's magic, version and
/// device-id registers.
pub fn probe(reads: &[(u32, u32, u32)]) -> (r: Option<VirtioGpuRegs>)
    requires
        reads@.len() <= MMIO_SCAN_SLOTS,
    ensures
        match first_gpu(reads@, 0) {
            Some(i) => r == Some(VirtioGpuRegs { base: (MMIO_SCAN_BASE + i * MMIO_STEP) as usize }),
            None => r is None,
        },
{
    match find_gpu(reads) {
        Some(i) => Some(VirtioGpuRegs { base: slot_base(i) }),
        None => None,
    }
}

/// The virtio-pci MMIO windows tried on the QEMU virt machine.
pub open spec fn pci_candidate(i: int) -> usize {
    (0x1000_0000 + i * 0x1000) as usize
}

/// The register window of the first virtio-pci candidate window that holds a
/// virtio-gpu device; `reads[i]` are the registers read at candidate `i`.
pub fn probe_pci(reads: &[(u32, u32, u32)]) -> (r: Option<VirtioGpuRegs>)
    requires
        reads@.len() <= 4,
    ensures
        match first_gpu(reads@, 0) {
            Some(i) => r == Some(VirtioGpuRegs { base: pci_candidate(i) }),
            None => r is None,
        },
{
    let candidates: [usize; 4] = [0x1000_0000, 0x1000_1000, 0x1000_2000, 0x1000_3000];
    match find_gpu(reads) {
        Some(i) => Some(VirtioGpuRegs { base: candidates[i] }),
        None => None,
    }
}

} // verus!
