use lib::kernel::boot::{arpi_channel, boot_sequence, edisondb_channel, genesis_channel, haniel_channel};
use lib::kernel::heap::{BumpAllocator, HEAP_END, HEAP_SIZE, HEAP_START};
use lib::kernel::proc::{ProcState, ProcessTable};
use lib::kernel::verify::{
    fnv64, pack_axpkg, verify_axpkg, RejectReason, VerifyGate, CAP_AWP_SEND, CAP_DB_READ, CAP_FS_READ,
};
use lib::kernel::{GenesisPd, SovereignBoot, AXON_PROOF};

// ── GENESIS and the boot sequence ────────────────────────────────────────────

#[test]
fn axon_proof_matches_asl_boot_value() {
    assert_eq!(AXON_PROOF, 0x4153);
}

#[test]
fn genesis_pd_is_live() {
    let pd = GenesisPd::new();
    assert!(pd.handshake());
    assert_eq!(pd.proof_value(), AXON_PROOF);
}

struct AlwaysLive;
impl SovereignBoot for AlwaysLive {
    fn live(&self) -> bool {
        true
    }
    fn handshake(&self) -> bool {
        true
    }
    fn proof_value(&self) -> u32 {
        AXON_PROOF
    }
}

struct NeverLive;
impl SovereignBoot for NeverLive {
    fn live(&self) -> bool {
        false
    }
    fn handshake(&self) -> bool {
        false
    }
    fn proof_value(&self) -> u32 {
        0
    }
}

#[test]
fn proof_with_genesis_only() {
    let genesis = GenesisPd::new();
    assert_eq!(boot_sequence(&[&genesis]), AXON_PROOF);
}

#[test]
fn proof_when_all_stages_live() {
    let live = AlwaysLive;
    assert_eq!(boot_sequence(&[&live]), AXON_PROOF);
}

#[test]
fn boot_sequence_fails_when_one_stage_is_down() {
    let genesis = GenesisPd::new();
    let down = NeverLive;
    assert_eq!(boot_sequence(&[&genesis, &down]), 0);
    assert_eq!(boot_sequence(&[]), AXON_PROOF);
}

#[test]
fn ipc_channels_are_distinct() {
    assert_ne!(genesis_channel().0, arpi_channel().0);
    assert_eq!(edisondb_channel().0, 2);
    assert_eq!(haniel_channel().0, 3);
}

// ── Heap ──────────────────────────────────────────────────────────────────────

#[test]
fn heap_constants_sane() {
    assert!(HEAP_START < HEAP_END);
    assert!(HEAP_SIZE > 1024 * 1024);
    assert!(HEAP_END < 0x44000000);
}

#[test]
fn alloc_returns_aligned_ptr() {
    let mut h = BumpAllocator::new();
    h.reset();
    let p = h.alloc_block(16, 8);
    assert!(p != 0);
    assert_eq!(p % 8, 0);
}

#[test]
fn alloc_zero_returns_null() {
    let mut h = BumpAllocator::new();
    h.reset();
    let p = h.alloc_block(0, 8);
    assert_eq!(p, 0);
}

#[test]
fn two_allocs_dont_overlap() {
    let mut h = BumpAllocator::new();
    h.reset();
    let p1 = h.alloc_block(64, 8);
    let p2 = h.alloc_block(64, 8);
    assert!(p1 != 0);
    assert!(p2 != 0);
    let diff = p2 - p1;
    assert!(diff >= 64);
}

#[test]
fn bytes_used_tracks_allocations() {
    let mut h = BumpAllocator::new();
    h.reset();
    let before = h.bytes_used();
    h.alloc_block(128, 8);
    let after = h.bytes_used();
    assert!(after >= before + 128);
}

#[test]
fn alloc_zeroed_is_zero() {
    let mut h = BumpAllocator::new();
    h.reset();
    let p = h.alloc_zeroed(32, 8);
    assert!(p != 0);
    for i in 0..32 {
        assert_eq!(h.read_byte(p + i), 0);
    }
}

#[test]
fn reset_clears_state() {
    let mut h = BumpAllocator::new();
    h.reset();
    h.alloc_block(256, 8);
    h.reset();
    assert_eq!(h.bytes_used(), 0);
    assert_eq!(h.alloc_count(), 0);
}

#[test]
fn alloc_val_roundtrip() {
    let mut h = BumpAllocator::new();
    h.reset();
    let (p, n) = h.alloc_bytes(&0x4153u64.to_le_bytes());
    assert!(p != 0);
    assert_eq!(n, 8);
    let mut b = [0u8; 8];
    for i in 0..8 {
        b[i] = h.read_byte(p + i);
    }
    assert_eq!(u64::from_le_bytes(b), 0x4153);
}

#[test]
fn alloc_aligns_after_odd_sizes() {
    let mut h = BumpAllocator::new();
    let a = h.alloc_block(3, 1);
    assert_eq!(a, HEAP_START);
    let b = h.alloc_block(8, 16);
    assert_eq!(b, HEAP_START + 16);
    assert_eq!(h.bytes_used(), 24);
    assert_eq!(h.alloc_count(), 2);
    assert_eq!(h.bytes_requested(), 11);
    assert_eq!(h.bytes_free(), HEAP_END - (HEAP_START + 24));
}

#[test]
fn alloc_exhaustion_returns_null() {
    let mut h = BumpAllocator::new();
    assert_eq!(h.alloc_block(HEAP_SIZE + 1, 8), 0);
    assert_eq!(h.bytes_used(), 0);
    assert!(h.alloc_block(HEAP_SIZE, 8) != 0);
    assert_eq!(h.alloc_block(1, 1), 0);
}

// ── Process table ─────────────────────────────────────────────────────────────

fn booted() -> ProcessTable {
    let mut t = ProcessTable::new();
    t.boot_register();
    t
}

#[test]
fn test_spawn_and_count() {
    let t = booted();
    assert_eq!(t.proc_count(), 3);
}

#[test]
fn test_scheduler_tick_advances() {
    let mut t = booted();
    let t0 = t.tick_total();
    t.scheduler_tick();
    assert!(t.tick_total() > t0);
}

#[test]
fn test_kill_non_kernel() {
    let mut t = booted();
    assert!(t.kill(1));
    assert!(!t.kill(0));
}

#[test]
fn test_spawn_user_proc() {
    let mut t = booted();
    let pid = t.spawn(b"myproc", ProcState::Ready, 128);
    assert!(pid.is_some());
    assert_eq!(t.proc_count(), 4);
}

#[test]
fn test_proc_at_snapshot() {
    let t = booted();
    let p = t.proc_at(0).unwrap();
    assert_eq!(p.name_str(), "[kernel]");
    assert_eq!(p.state, ProcState::Running);
    assert_eq!(p.priority, 0);
}

#[test]
fn process_table_fills_up() {
    let mut t = booted();
    for _ in 0..5 {
        assert!(t.spawn(b"worker", ProcState::Ready, 1).is_some());
    }
    assert_eq!(t.proc_count(), 8);
    assert!(t.spawn(b"overflow", ProcState::Ready, 1).is_none());
    assert_eq!(t.proc_count(), 8);
}

#[test]
fn kill_marks_dead_and_keeps_count() {
    let mut t = booted();
    assert!(t.kill(2));
    assert_eq!(t.proc_count(), 3);
    assert_eq!(t.proc_at(2).unwrap().state, ProcState::Dead);
    assert!(t.kill(2));
    assert!(!t.kill(200));
}

// ── Package verification ──────────────────────────────────────────────────────

fn make_pkg(name: &[u8], script: &[u8], caps: u32) -> [u8; 512] {
    let mut buf = [0u8; 512];
    pack_axpkg(name, script, caps, &mut buf).unwrap();
    buf
}

#[test]
fn test_valid_package() {
    let buf = make_pkg(b"hello", b"print \"hello world\"", 0);
    let result = verify_axpkg(&buf[..4 + 1 + 4 + 5 + 4 + 19 + 8]);
    assert!(result.is_pass());
}

#[test]
fn test_invalid_magic() {
    let mut buf = make_pkg(b"test", b"print \"x\"", 0);
    buf[0] = b'X';
    let result = verify_axpkg(&buf[..4 + 1 + 4 + 4 + 4 + 9 + 8]);
    assert_eq!(result.reject_reason(), Some(RejectReason::InvalidMagic));
}

#[test]
fn test_hash_mismatch() {
    let mut buf = make_pkg(b"test", b"print \"hello\"", 0);
    let script_start = 9 + 4 + 4;
    buf[script_start] ^= 0xFF;
    let result = verify_axpkg(&buf[..4 + 1 + 4 + 4 + 4 + 13 + 8]);
    assert_eq!(result.reject_reason(), Some(RejectReason::HashMismatch));
}

#[test]
fn test_awp_capability_violation() {
    let buf = make_pkg(b"bad", b"awp hello", 0);
    let result = verify_axpkg(&buf[..4 + 1 + 4 + 3 + 4 + 9 + 8]);
    assert_eq!(result.reject_reason(), Some(RejectReason::CapabilityViolation));
}

#[test]
fn test_awp_capability_declared() {
    let buf = make_pkg(b"ok", b"awp hello", CAP_AWP_SEND);
    let result = verify_axpkg(&buf[..4 + 1 + 4 + 2 + 4 + 9 + 8]);
    assert!(result.is_pass());
}

#[test]
fn test_too_short() {
    let result = verify_axpkg(b"AXP");
    assert_eq!(result.reject_reason(), Some(RejectReason::TooShort));
}

#[test]
fn test_pack_verify_roundtrip() {
    let name = b"sovereign";
    let script = b"let x = 42\nprint x";
    let caps = CAP_FS_READ | CAP_DB_READ;
    let mut buf = [0u8; 512];
    let len = pack_axpkg(name, script, caps, &mut buf).unwrap();
    let result = verify_axpkg(&buf[..len]);
    assert!(result.is_pass());
    if let VerifyGate::Pass { name: n, script: s, caps: c } = result {
        assert_eq!(n, name);
        assert_eq!(s, script);
        assert_eq!(c, caps);
    }
}

#[test]
fn pack_refuses_small_buffer() {
    let mut buf = [0u8; 16];
    assert!(pack_axpkg(b"name", b"print 1", 0, &mut buf).is_none());
}

#[test]
fn fnv64_known_values() {
    assert_eq!(fnv64(b""), 0xcbf2_9ce4_8422_2325);
    assert_eq!(fnv64(b"a"), 0xaf63_dc4c_8601_ec8c);
}

#[test]
fn verify_rejects_version_and_long_name() {
    let mut buf = make_pkg(b"v", b"print 1", 0);
    buf[4] = 2;
    let len = 4 + 1 + 4 + 1 + 4 + 7 + 8;
    assert_eq!(verify_axpkg(&buf[..len]).reject_reason(), Some(RejectReason::VersionMismatch));
    let mut long = [0u8; 64];
    long[0..4].copy_from_slice(b"AXPK");
    long[4] = 1;
    long[5..9].copy_from_slice(&65u32.to_le_bytes());
    assert_eq!(verify_axpkg(&long).reject_reason(), Some(RejectReason::NameTooLong));
    long[5..9].copy_from_slice(&60u32.to_le_bytes());
    assert_eq!(verify_axpkg(&long).reject_reason(), Some(RejectReason::TooShort));
    assert_eq!(RejectReason::NameTooLong.as_str(), "package name too long (max 64)");
    assert_eq!(RejectReason::TooShort.as_str(), "package too short");
}

#[test]
fn scheduler_tick_stays_when_nothing_runnable() {
    let mut t = ProcessTable::new();
    let pid = t.scheduler_tick();
    assert_eq!(pid, 0);
    assert_eq!(t.current_pid(), 0);
    assert_eq!(t.tick_total(), 1);
    assert_eq!(t.proc_count(), 0);
    for i in 0..8 {
        assert!(t.proc_at(i).is_none());
    }
}

#[test]
fn alloc8_refuses_oversized_request() {
    let mut h = BumpAllocator::new();
    assert_eq!(h.alloc8(usize::MAX - 3), 0);
    assert_eq!(h.alloc_count(), 0);
    assert_eq!(h.alloc_block(usize::MAX, 8), 0);
    assert!(h.alloc8(8) != 0);
}
