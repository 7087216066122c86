//! ASL boot integration: the six sovereign protection-domain stages that run
//! alongside the boot splash.
//!
//! Each stage asks its protection domain to boot (and, for some, to prove
//! one property); the answers come in as arguments, and the integrator
//! decides what each stage proved and when boot is complete.
use vstd::prelude::*;

verus! {

/// The sovereign proof value shared by every protection domain (`AS` in ASCII).
pub const SOVEREIGN_PROOF: u64 = 0x4153;

/// Outcome of one boot stage.
#[derive(Debug, Clone, Copy, PartialEq, Eq, Structural)]
pub enum AslStageResult {
    Proven { stage: u8, proof: u64 },
    Failed,
}

impl AslStageResult {
    /// A stage is sovereign when it was proven with the sovereign proof value.
    pub open spec fn spec_is_sovereign(self) -> bool {
        self matches AslStageResult::Proven { proof, .. } && proof == SOVEREIGN_PROOF
    }

    pub fn is_sovereign(&self) -> (r: bool)
        ensures
            r == self.spec_is_sovereign(),
    {
        match self {
            AslStageResult::Proven { proof, .. } => *proof == SOVEREIGN_PROOF,
            AslStageResult::Failed => false,
        }
    }
}

/// What the protection domains answered during boot.
#[derive(Clone, Copy)]
pub struct BootOutcomes {
    /// GPU-Cap PD mapped the ramfb framebuffer.
    pub ramfb_mapped: bool,
    /// EdisonDB-PD accepted the boot signal.
    pub edb_booted: bool,
    /// Shell-PD accepted the boot signal.
    pub shell_booted: bool,
    /// Shell-PD routes `ls` to AXFS.
    pub ls_routes_to_axfs: bool,
    /// AXON-Exec-PD accepted the boot signal.
    pub axon_booted: bool,
    /// Onyxia-PD accepted the boot signal.
    pub onyxia_booted: bool,
    /// Onyxia-PD refused to navigate to an `http://` URL.
    pub http_blocked: bool,
    /// Phoenix-Desktop-PD accepted the boot signal.
    pub desktop_booted: bool,
    /// Phoenix-Desktop-PD accepted the framebuffer capability.
    pub fb_granted: bool,
    /// The proof values the EdisonDB, Onyxia and AXON-Exec domains hold.
    pub edb_proof: u64,
    pub onyxia_proof: u64,
    pub axon_exec_proof: u64,
}

/// Every domain answered as a sovereign boot needs.
pub open spec fn all_ok(o: BootOutcomes) -> bool {
    &&& o.ramfb_mapped
    &&& o.edb_booted
    &&& o.shell_booted && o.ls_routes_to_axfs
    &&& o.axon_booted
    &&& o.onyxia_booted && o.http_blocked
    &&& o.desktop_booted && o.fb_granted
    &&& o.edb_proof == SOVEREIGN_PROOF && o.onyxia_proof == SOVEREIGN_PROOF && o.axon_exec_proof
        == SOVEREIGN_PROOF
}

/// The result of a stage that proved (`ok`) or failed.
pub open spec fn stage_result(ok: bool, stage: u8) -> AslStageResult {
    if ok {
        AslStageResult::Proven { stage, proof: SOVEREIGN_PROOF }
    } else {
        AslStageResult::Failed
    }
}

/// Counts proven stages and records when boot completed.
pub struct AslBootIntegrator {
    pub stages_proven: u8,
    pub boot_complete: bool,
}

impl AslBootIntegrator {
    pub fn new() -> (i: Self)
        ensures
            i.stages_proven == 0,
            !i.boot_complete,
    {
        AslBootIntegrator { stages_proven: 0, boot_complete: false }
    }

    fn prove(&mut self, ok: bool, stage: u8) -> (r: AslStageResult)
        requires
            old(self).stages_proven < 255,
        ensures
            r == stage_result(ok, stage),
            final(self).stages_proven == old(self).stages_proven + if ok { 1int } else { 0int },
            final(self).boot_complete == old(self).boot_complete,
    {
        if ok {
            self.stages_proven = self.stages_proven + 1;
            AslStageResult::Proven { stage, proof: SOVEREIGN_PROOF }
        } else {
            AslStageResult::Failed
        }
    }

    /// Stage 1, hardware probe: proven when GPU-Cap mapped the framebuffer.
    pub fn stage1_hw_probe(&mut self, ramfb_mapped: bool) -> (r: AslStageResult)
        requires
            old(self).stages_proven < 255,
        ensures
            r == stage_result(ramfb_mapped, 1),
            final(self).stages_proven == old(self).stages_proven + if ramfb_mapped { 1int } else { 0int },
            final(self).boot_complete == old(self).boot_complete,
    {
        self.prove(ramfb_mapped, 1)
    }

    /// Stage 2: proven when EdisonDB-PD booted.
    pub fn stage2_edisondb(&mut self, edb_booted: bool) -> (r: AslStageResult)
        requires
            old(self).stages_proven < 255,
        ensures
            r == stage_result(edb_booted, 2),
            final(self).stages_proven == old(self).stages_proven + if edb_booted { 1int } else { 0int },
            final(self).boot_complete == old(self).boot_complete,
    {
        self.prove(edb_booted, 2)
    }

    /// Stage 3: proven when Shell-PD booted and routes `ls` to AXFS.
    pub fn stage3_axfs(&mut self, shell_booted: bool, ls_routes_to_axfs: bool) -> (r: AslStageResult)
        requires
            old(self).stages_proven < 255,
        ensures
            r == stage_result(shell_booted && ls_routes_to_axfs, 3),
            final(self).stages_proven == old(self).stages_proven + if shell_booted && ls_routes_to_axfs {
                1int
            } else {
                0int
            },
            final(self).boot_complete == old(self).boot_complete,
    {
        self.prove(shell_booted && ls_routes_to_axfs, 3)
    }

    /// Stage 4: proven when AXON-Exec-PD booted.
    pub fn stage4_heap(&mut self, axon_booted: bool) -> (r: AslStageResult)
        requires
            old(self).stages_proven < 255,
        ensures
            r == stage_result(axon_booted, 4),
            final(self).stages_proven == old(self).stages_proven + if axon_booted { 1int } else { 0int },
            final(self).boot_complete == old(self).boot_complete,
    {
        self.prove(axon_booted, 4)
    }

    /// Stage 5: proven when Onyxia-PD booted and blocks `http://`.
    pub fn stage5_proctable(&mut self, onyxia_booted: bool, http_blocked: bool) -> (r: AslStageResult)
        requires
            old(self).stages_proven < 255,
        ensures
            r == stage_result(onyxia_booted && http_blocked, 5),
            final(self).stages_proven == old(self).stages_proven + if onyxia_booted && http_blocked {
                1int
            } else {
                0int
            },
            final(self).boot_complete == old(self).boot_complete,
    {
        self.prove(onyxia_booted && http_blocked, 5)
    }

    /// Stage 6: the desktop booted and holds the framebuffer capability, the
    /// other domains hold the sovereign proof, and the five earlier stages
    /// were proven; then boot is complete.
    pub fn stage6_desktop(
        &mut self,
        desktop_booted: bool,
        fb_granted: bool,
        edb_proof: u64,
        onyxia_proof: u64,
        axon_exec_proof: u64,
    ) -> (r: AslStageResult)
        requires
            old(self).stages_proven < 255,
        ensures
            ({
                let ok = desktop_booted && fb_granted && edb_proof == SOVEREIGN_PROOF && onyxia_proof
                    == SOVEREIGN_PROOF && axon_exec_proof == SOVEREIGN_PROOF && old(self).stages_proven >= 5;
                &&& r == stage_result(ok, 6)
                &&& final(self).stages_proven == old(self).stages_proven + if ok { 1int } else { 0int }
                &&& final(self).boot_complete == (old(self).boot_complete || ok)
            }),
    {
        let proof_ok = edb_proof == SOVEREIGN_PROOF && onyxia_proof == SOVEREIGN_PROOF && axon_exec_proof
            == SOVEREIGN_PROOF;
        if desktop_booted && fb_granted && proof_ok && self.stages_proven >= 5 {
            self.boot_complete = true;
            self.stages_proven = self.stages_proven + 1;
            AslStageResult::Proven { stage: 6, proof: SOVEREIGN_PROOF }
        } else {
            AslStageResult::Failed
        }
    }

    /// Runs the six stages in order; whether every one of them is sovereign
    /// and boot completed. That is exactly when every domain answered as a
    /// sovereign boot needs.
    pub fn run_all_stages(&mut self, o: &BootOutcomes) -> (r: bool)
        requires
            old(self).stages_proven + 6 <= 255,
        ensures
            r == all_ok(*o),
            all_ok(*o) ==> final(self).stages_proven == old(self).stages_proven + 6 && final(self).boot_complete,
    {
        let s1 = self.stage1_hw_probe(o.ramfb_mapped);
        let s2 = self.stage2_edisondb(o.edb_booted);
        let s3 = self.stage3_axfs(o.shell_booted, o.ls_routes_to_axfs);
        let s4 = self.stage4_heap(o.axon_booted);
        let s5 = self.stage5_proctable(o.onyxia_booted, o.http_blocked);
        let s6 = self.stage6_desktop(o.desktop_booted, o.fb_granted, o.edb_proof, o.onyxia_proof, o.axon_exec_proof);
        s1.is_sovereign() && s2.is_sovereign() && s3.is_sovereign() && s4.is_sovereign() && s5.is_sovereign()
            && s6.is_sovereign() && self.boot_complete
    }

    /// The console line for a stage.
    pub fn stage_log(stage: u8) -> (s: &'static str)
        ensures
            s@ == match stage {
                1 => "[ASL] Stage 1: GPU-Cap PD — ramfb mapped\n"@,
                2 => "[ASL] Stage 2: EdisonDB-PD — ARPi auth active\n"@,
                3 => "[ASL] Stage 3: Shell-PD — AXFS route proven\n"@,
                4 => "[ASL] Stage 4: AXON-Exec-PD — scripts isolated\n"@,
                5 => "[ASL] Stage 5: Onyxia-PD — http:// blocked\n"@,
                6 => "[ASL] Stage 6: SOVEREIGN DESKTOP LIVE — proof=0x4153\n"@,
                _ => "[ASL] Unknown stage\n"@,
            },
    {
        match stage {
            1 => "[ASL] Stage 1: GPU-Cap PD — ramfb mapped\n",
            2 => "[ASL] Stage 2: EdisonDB-PD — ARPi auth active\n",
            3 => "[ASL] Stage 3: Shell-PD — AXFS route proven\n",
            4 => "[ASL] Stage 4: AXON-Exec-PD — scripts isolated\n",
            5 => "[ASL] Stage 5: Onyxia-PD — http:// blocked\n",
            6 => "[ASL] Stage 6: SOVEREIGN DESKTOP LIVE — proof=0x4153\n",
            _ => "[ASL] Unknown stage\n",
        }
    }
}


impl Default for AslBootIntegrator {
    fn default() -> (i: Self)
        ensures
            i.stages_proven == 0,
            !i.boot_complete,
    {
        Self::new()
    }
}

} // verus!
