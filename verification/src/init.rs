//! The init domain: BASTION-lite, boot mode, and boot orchestration.
use vstd::prelude::*;
use vstd::string::StringSliceAdditionalSpecFns;
use crate::edisondb::{log_event, spec_write, EdisonDb, Tier};
use crate::kernel::{SovereignBoot, AXON_PROOF};

verus! {

pub const SOVEREIGN_PROOF: u64 = 0x4153;

/// BASTION-lite: the policy daemon.
pub struct BastionPd;

impl BastionPd {
    pub fn new() -> (b: Self) {
        BastionPd
    }

    /// The handshake with its boot record: logs `bastion:boot` into the store
    /// (the log's outcome is ignored) and reports the domain live.
    pub fn boot_handshake(&self, db: &mut EdisonDb) -> (r: bool)
        requires
            old(db).wf(),
        ensures
            r,
            final(db).wf(),
            final(db).live() == old(db).live(),
            final(db)@ == spec_write(old(db)@, "bastion:boot".spec_bytes(), old(db)@.len() as u64, Tier::Noise).unwrap_or(
                old(db)@,
            ),
    {
        let _ = log_event(db, "bastion:boot");
        true
    }
}

impl SovereignBoot for BastionPd {
    open spec fn live(&self) -> bool {
        true
    }

    /// The running shell loop proves the daemon context is live.
    fn handshake(&self) -> (r: bool)
        ensures
            r,
    {
        true
    }

    fn proof_value(&self) -> (r: u32)
        ensures
            r == AXON_PROOF,
    {
        AXON_PROOF
    }
}

/// Node heartbeat: not wired yet.
pub fn node_heartbeat() -> (r: bool)
    ensures
        !r,
{
    false
}

/// Policy enforcement: not wired yet.
pub fn policy_enforce() -> (r: bool)
    ensures
        !r,
{
    false
}

/// How the system booted.
#[derive(Clone, Copy, PartialEq, Eq, Debug, Structural)]
pub enum BootMode {
    Live,
    Persistent,
    Install,
}

/// The boot mode; always Live for now.
pub fn detect() -> (m: BootMode)
    ensures
        m == BootMode::Live,
{
    BootMode::Live
}

/// Whether the mode keeps state across reboots.
pub fn is_persistent(mode: &BootMode) -> (r: bool)
    ensures
        r == (*mode == BootMode::Persistent),
{
    match mode {
        BootMode::Persistent => true,
        _ => false,
    }
}

/// The lines boot orchestration writes to the console, in order.
pub fn orchestrate_messages() -> (m: (&'static str, &'static str))
    ensures
        m.0@ == "aiXos Phoenix -- Sovereign Stack Initializing\n"@,
        m.1@ == "axon_main() -> 0x4153 [SOVEREIGN]\n"@,
{
    ("aiXos Phoenix -- Sovereign Stack Initializing\n", "axon_main() -> 0x4153 [SOVEREIGN]\n")
}

/// Boot orchestration's result: the sovereign proof.
pub fn orchestrate() -> (p: u64)
    ensures
        p == SOVEREIGN_PROOF,
{
    SOVEREIGN_PROOF
}


impl Default for BastionPd {
    fn default() -> (d: Self)
        ensures
            d == BastionPd,
    {
        Self::new()
    }
}

} // verus!
