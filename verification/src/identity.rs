//! ARPi identity: the hardware-derived node id and the ceremony domain.
use vstd::prelude::*;
use crate::kernel::{SovereignBoot, AXON_PROOF};

verus! {

/// RAM base on the QEMU virt machine, present on every boot.
pub const RAM_BASE: u64 = 0x4000_0000;
/// The fw_cfg DMA register address.
pub const FWCFG_DMA: u64 = 0x0902_0010;
pub const NODE_SEED: u64 = 0xA1E0_4153_0000_0001;

/// The node id: RAM base mixed with the shifted fw_cfg address and the seed.
pub open spec fn spec_node_id() -> u64 {
    RAM_BASE ^ (FWCFG_DMA << 16u64) ^ NODE_SEED
}

/// The hardware-derived node id (a stub, not a keypair); never zero.
pub fn node_id() -> (id: u64)
    ensures
        id == spec_node_id(),
        id != 0,
{
    let id = RAM_BASE ^ (FWCFG_DMA << 16u64) ^ NODE_SEED;
    assert(0x4000_0000u64 ^ (0x0902_0010u64 << 16u64) ^ 0xA1E0_4153_0000_0001u64 != 0) by (bit_vector);
    id
}

/// The ceremony is ready when the node id is non-zero.
pub fn ceremony_ready() -> (r: bool)
    ensures
        r == (spec_node_id() != 0),
        r,
{
    node_id() != 0
}

/// The ARPi ceremony protection domain.
pub struct ArpiCeremony;

impl ArpiCeremony {
    pub fn new() -> (a: Self) {
        ArpiCeremony
    }
}

impl SovereignBoot for ArpiCeremony {
    open spec fn live(&self) -> bool {
        true
    }

    fn handshake(&self) -> (r: bool)
        ensures
            r == (spec_node_id() != 0),
            r,
    {
        ceremony_ready()
    }

    fn proof_value(&self) -> (r: u32)
        ensures
            r == AXON_PROOF,
    {
        AXON_PROOF
    }
}


impl Default for ArpiCeremony {
    fn default() -> (d: Self)
        ensures
            d == ArpiCeremony,
    {
        Self::new()
    }
}

} // verus!
