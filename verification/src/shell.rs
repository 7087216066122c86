//! The sovereign shell: banner/prompt rendering and the built-in script runner.
use vstd::prelude::*;
use crate::haniel::{render_sovereign_surface, render_text};
use crate::kernel::SovereignBoot;

pub mod axon_interp;

verus! {

/// The boot banner.
pub fn boot_banner() -> (s: &'static str)
    ensures
        s@ == "aiXos Phoenix - Sovereign Stack Initializing..."@,
{
    "aiXos Phoenix - Sovereign Stack Initializing..."
}

/// The shell protection domain.
pub struct SovereignShell;

impl SovereignShell {
    pub fn new() -> (s: Self) {
        SovereignShell
    }
}

/// Presents the surface, then the boot banner; whether the banner was drawn.
pub fn render_banner() -> (r: bool)
    ensures
        !r,
{
    let _ = render_sovereign_surface();
    render_text(boot_banner())
}

/// Renders the node id label; whether it was drawn.
pub fn render_node_id(id: u64) -> (r: bool)
    ensures
        !r,
{
    render_text("node_id")
}

/// Renders `awp: live` or `awp: down`; whether it was drawn.
pub fn render_awp_status(live: bool) -> (r: bool)
    ensures
        !r,
{
    let label = if live { "awp: live" } else { "awp: down" };
    render_text(label)
}

/// Renders the proof line; whether it was drawn.
pub fn render_proof(proof_value: u32) -> (r: bool)
    ensures
        !r,
{
    render_text("axon_main() -> 0x4153")
}

/// Renders the prompt; whether it was drawn.
pub fn render_prompt() -> (r: bool)
    ensures
        !r,
{
    render_text("axos> ")
}

impl SovereignBoot for SovereignShell {
    open spec fn live(&self) -> bool {
        false
    }

    /// Live once the sovereign surface presents.
    fn handshake(&self) -> (r: bool)
        ensures
            !r,
    {
        render_sovereign_surface()
    }

    fn proof_value(&self) -> (r: u32)
        ensures
            r == 0,
    {
        0
    }
}


impl Default for SovereignShell {
    fn default() -> (d: Self)
        ensures
            d == SovereignShell,
    {
        Self::new()
    }
}

} // verus!
