//! Register-level steps that device bring-up hands to the code that owns the
//! hardware: the driver logic decides what to write and what to read next;
//! the caller performs the access and reports what a read returned.
use vstd::prelude::*;

verus! {

/// One step of device bring-up.
#[derive(Clone, Copy, PartialEq, Eq, Debug, Structural)]
pub enum MmioOp {
    /// Write `value` to the 32-bit register at `off` from the device's base.
    Write { off: usize, value: u32 },
    /// Read the 32-bit register at `off` and report the value back.
    Read { off: usize },
    /// Write one byte to the console.
    Uart { byte: u8 },
    /// Set up the queue's descriptors and available ring in memory.
    FillQueue,
    /// Let the device settle after a reset.
    Settle,
}

/// The low 32 bits of an address.
pub open spec fn lo32(x: u64) -> u32 {
    (x % 0x1_0000_0000) as u32
}

/// The high 32 bits of an address.
pub open spec fn hi32(x: u64) -> u32 {
    (x / 0x1_0000_0000) as u32
}

pub fn low32(x: u64) -> (r: u32)
    ensures
        r == lo32(x),
{
    (x % 0x1_0000_0000) as u32
}

pub fn high32(x: u64) -> (r: u32)
    ensures
        r == hi32(x),
{
    (x / 0x1_0000_0000) as u32
}

/// Addresses of a split virtqueue's parts.
#[derive(Clone, Copy)]
pub struct QueueAddrs {
    /// The whole ring (page aligned), for legacy devices.
    pub ring: u64,
    pub desc: u64,
    pub avail: u64,
    pub used: u64,
}

} // verus!
