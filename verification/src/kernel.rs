//! The sovereign kernel: boot contract, process table, heap, package gate.
use vstd::prelude::*;

pub mod verify;
pub mod proc;
pub mod heap;
pub mod boot;
pub mod virtio_blk;

verus! {

/// The sovereign proof value, the ASL boot proof `axon_main() -> 0x4153`.
pub const AXON_PROOF: u32 = 0x4153;

/// The boot-sequence contract each sovereign protection domain implements.
pub trait SovereignBoot {
    /// Whether the domain's handshake succeeds.
    spec fn live(&self) -> bool;

    /// Whether the domain is live.
    fn handshake(&self) -> (r: bool)
        ensures
            r == self.live(),
    ;

    /// The domain's proof value.
    fn proof_value(&self) -> u32;
}

/// The GENESIS protection domain: if this code runs, the kernel loaded and
/// GENESIS succeeded.
pub struct GenesisPd;

impl GenesisPd {
    pub fn new() -> (pd: Self) {
        GenesisPd
    }
}

impl SovereignBoot for GenesisPd {
    open spec fn live(&self) -> bool {
        true
    }

    fn handshake(&self) -> (r: bool) {
        true
    }

    fn proof_value(&self) -> (r: u32)
        ensures r == AXON_PROOF,
    {
        AXON_PROOF
    }
}


impl Default for GenesisPd {
    fn default() -> (d: Self)
        ensures
            d == GenesisPd,
    {
        Self::new()
    }
}

} // verus!
