use lib::asl::{AslBootIntegrator, AslStageResult, BootOutcomes, SOVEREIGN_PROOF};
use lib::edisondb::EdisonDb;
use lib::haniel::{HanielPd, PixelSurface, RenderRequest};
use lib::identity::{ceremony_ready, node_id, ArpiCeremony};
use lib::init::{detect, is_persistent, node_heartbeat, orchestrate, policy_enforce, BastionPd, BootMode};
use lib::kernel::{SovereignBoot, AXON_PROOF};

// ── ASL boot stages ───────────────────────────────────────────────────────────

fn sovereign() -> BootOutcomes {
    BootOutcomes {
        ramfb_mapped: true,
        edb_booted: true,
        shell_booted: true,
        ls_routes_to_axfs: true,
        axon_booted: true,
        onyxia_booted: true,
        http_blocked: true,
        desktop_booted: true,
        fb_granted: true,
        edb_proof: SOVEREIGN_PROOF,
        onyxia_proof: SOVEREIGN_PROOF,
        axon_exec_proof: SOVEREIGN_PROOF,
    }
}

#[test]
fn test_all_stages_sovereign() {
    let mut i = AslBootIntegrator::new();
    assert!(i.run_all_stages(&sovereign()));
    assert_eq!(i.stages_proven, 6);
    assert!(i.boot_complete);
}

#[test]
fn test_stage1_hw_probe() {
    let mut i = AslBootIntegrator::new();
    assert!(i.stage1_hw_probe(true).is_sovereign());
}

#[test]
fn test_stage2_edisondb() {
    let mut i = AslBootIntegrator::new();
    i.stage1_hw_probe(true);
    assert!(i.stage2_edisondb(true).is_sovereign());
}

#[test]
fn test_stage3_shell_axfs() {
    let mut i = AslBootIntegrator::new();
    i.stage1_hw_probe(true);
    i.stage2_edisondb(true);
    assert!(i.stage3_axfs(true, true).is_sovereign());
}

#[test]
fn test_stage4_axon_exec() {
    let mut i = AslBootIntegrator::new();
    i.stage1_hw_probe(true);
    i.stage2_edisondb(true);
    i.stage3_axfs(true, true);
    assert!(i.stage4_heap(true).is_sovereign());
}

#[test]
fn test_stage5_onyxia_http_blocked() {
    let mut i = AslBootIntegrator::new();
    i.stage1_hw_probe(true);
    i.stage2_edisondb(true);
    i.stage3_axfs(true, true);
    i.stage4_heap(true);
    assert!(i.stage5_proctable(true, true).is_sovereign());
}

#[test]
fn test_stage6_desktop_sovereign() {
    let mut i = AslBootIntegrator::new();
    i.run_all_stages(&sovereign());
    assert!(i.boot_complete);
}

#[test]
fn test_stage_log_messages() {
    assert!(AslBootIntegrator::stage_log(1).contains("GPU-Cap"));
    assert!(AslBootIntegrator::stage_log(6).contains("SOVEREIGN"));
    assert_eq!(AslBootIntegrator::stage_log(9), "[ASL] Unknown stage\n");
}

#[test]
fn test_sovereign_proof_constant() {
    assert_eq!(SOVEREIGN_PROOF, 0x4153);
}

#[test]
fn asl_http_allowed_fails_stage5_and_boot() {
    let mut o = sovereign();
    o.http_blocked = false;
    let mut i = AslBootIntegrator::new();
    assert!(!i.run_all_stages(&o));
    assert_eq!(i.stages_proven, 4);
    assert!(!i.boot_complete);
    let mut j = AslBootIntegrator::new();
    assert_eq!(j.stage6_desktop(true, true, SOVEREIGN_PROOF, SOVEREIGN_PROOF, SOVEREIGN_PROOF), AslStageResult::Failed);
    assert!(!AslStageResult::Proven { stage: 1, proof: 1 }.is_sovereign());
}

// ── HANIEL, identity, BASTION, boot mode ──────────────────────────────────────

#[test]
fn submit_returns_false_before_pipeline_wiring() {
    let pd = HanielPd::new();
    let request = RenderRequest { surface: PixelSurface { width: 1280, height: 720 }, frame_id: 0 };
    assert!(!pd.submit(request));
}

#[test]
fn node_id_is_nonzero() {
    assert_ne!(node_id(), 0);
}

#[test]
fn node_id_is_deterministic() {
    assert_eq!(node_id(), node_id());
    assert_eq!(node_id(), 0x4000_0000 ^ (0x0902_0010u64 << 16) ^ 0xA1E0_4153_0000_0001);
}

#[test]
fn ceremony_ready_when_node_id_nonzero() {
    assert!(ceremony_ready());
}

#[test]
fn arpi_ceremony_handshake_is_live() {
    let pd = ArpiCeremony::new();
    assert!(pd.handshake());
    assert_eq!(pd.proof_value(), AXON_PROOF);
}

#[test]
fn bastion_is_live() {
    assert!(BastionPd::new().handshake());
}

#[test]
fn bastion_boot_handshake_logs_to_db() {
    let mut db = EdisonDb::new();
    db.init();
    let n = db.count();
    assert!(BastionPd::new().boot_handshake(&mut db));
    assert_eq!(db.count(), n + 1);
}

#[test]
fn heartbeat_and_policy_stubs_return_false() {
    assert!(!node_heartbeat());
    assert!(!policy_enforce());
}

#[test]
fn detect_defaults_to_live() {
    assert!(matches!(detect(), BootMode::Live));
}

#[test]
fn live_is_not_persistent() {
    assert!(!is_persistent(&BootMode::Live));
}

#[test]
fn orchestrate_returns_proof() {
    assert_eq!(orchestrate(), 0x4153);
}

#[test]
fn defaults_match_new() {
    let i = AslBootIntegrator::default();
    assert_eq!(i.stages_proven, 0);
    assert!(!i.boot_complete);
    assert!(BastionPd::default().handshake());
    assert!(ArpiCeremony::default().handshake());
    assert!(!HanielPd::default().submit(RenderRequest { surface: PixelSurface { width: 1, height: 1 }, frame_id: 1 }));
    let q = lib::gpu::virtqueue::Virtqueue::default();
    assert_eq!(q.ring.avail.idx, 0);
    assert!(lib::kernel::GenesisPd::default().handshake());
}
