//! Boot sequence: every sovereign stage must complete its handshake.
use vstd::prelude::*;
use crate::kernel::{SovereignBoot, AXON_PROOF};

verus! {

/// An IPC channel number.
pub struct IpcChannel(pub u8);

/// The GENESIS channel, 0.
pub fn genesis_channel() -> (c: IpcChannel)
    ensures
        c.0 == 0,
{
    IpcChannel(0)
}

/// The ARPi channel, 1.
pub fn arpi_channel() -> (c: IpcChannel)
    ensures
        c.0 == 1,
{
    IpcChannel(1)
}

/// The EdisonDB channel, 2.
pub fn edisondb_channel() -> (c: IpcChannel)
    ensures
        c.0 == 2,
{
    IpcChannel(2)
}

/// The HANIEL channel, 3.
pub fn haniel_channel() -> (c: IpcChannel)
    ensures
        c.0 == 3,
{
    IpcChannel(3)
}

/// Runs every stage's handshake in order; `AXON_PROOF` when all of them
/// succeed, 0 otherwise.
pub fn boot_sequence(stages: &[&dyn SovereignBoot]) -> (r: u32)
    ensures
        r == (if forall|i: int| 0 <= i < stages@.len() ==> (#[trigger] stages@[i]).live() {
            AXON_PROOF
        } else {
            0
        }),
{
    let mut all_live = true;
    let mut i: usize = 0;
    while i < stages.len()
        invariant
            i <= stages@.len(),
            all_live == forall|k: int| 0 <= k < i ==> (#[trigger] stages@[k]).live(),
        decreases stages.len() - i,
    {
        if !stages[i].handshake() {
            all_live = false;
        }
        i = i + 1;
    }
    if all_live { AXON_PROOF } else { 0 }
}

} // verus!
