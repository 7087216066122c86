//! The `.axpkg` verify-before-run gate.
//!
//! No `.axpkg` package runs without passing `verify_axpkg`. Wire format:
//!   `[0..4]`   magic `AXPK`
//!   `[4]`      version (1)
//!   `[5..9]`   name length, u32 little-endian (at most 64)
//!   `[9..N]`   package name
//!   `[N..N+4]` capability mask, u32 little-endian
//!   `[N+4..M]` script bytes
//!   `[M..M+8]` FNV-1a 64 hash of name + capability bytes + script, u64 little-endian
//!
//! Capabilities are deny-by-default: a script that uses `awp ` must declare
//! `CAP_AWP_SEND`.
use vstd::prelude::*;
use crate::bytes::{ascii_bytes, lit};

verus! {

pub const CAP_AWP_SEND: u32 = 1;
pub const CAP_FS_READ: u32 = 2;
pub const CAP_FS_WRITE: u32 = 4;
pub const CAP_DB_READ: u32 = 8;
pub const CAP_DB_WRITE: u32 = 16;
pub const CAP_SPAWN: u32 = 32;

pub const AXPKG_VERSION: u8 = 1;
/// Bytes of the FNV-64 trailer.
pub const HASH_TRAILER: usize = 8;
/// Longest accepted package name.
pub const MAX_NAME_LEN: usize = 64;
/// Shortest possible package: header, empty name, caps, empty script, trailer.
pub const MIN_LEN: usize = 21;

pub const FNV_OFFSET: u64 = 0xcbf2_9ce4_8422_2325;
pub const FNV_PRIME: u64 = 0x0000_0100_0000_01B3;

/// The package magic, `AXPK`.
pub open spec fn magic() -> Seq<u8> {
    seq![65u8, 88u8, 80u8, 75u8]
}

/// Reason a package was rejected.
#[derive(Copy, Clone, PartialEq, Eq, Debug, Structural)]
pub enum RejectReason {
    TooShort,
    InvalidMagic,
    VersionMismatch,
    NameTooLong,
    HashMismatch,
    /// The script uses a feature its capability mask does not declare.
    CapabilityViolation,
}

impl RejectReason {
    pub fn as_str(self) -> (r: &'static str)
        ensures
            r@ == match self {
                RejectReason::TooShort => "package too short"@,
                RejectReason::InvalidMagic => "invalid magic (not AXPK)"@,
                RejectReason::VersionMismatch => "unsupported version"@,
                RejectReason::NameTooLong => "package name too long (max 64)"@,
                RejectReason::HashMismatch => "FNV-64 hash mismatch — tampered"@,
                RejectReason::CapabilityViolation => "capability violation — undeclared feature used"@,
            },
    {
        match self {
            RejectReason::TooShort => "package too short",
            RejectReason::InvalidMagic => "invalid magic (not AXPK)",
            RejectReason::VersionMismatch => "unsupported version",
            RejectReason::NameTooLong => "package name too long (max 64)",
            RejectReason::HashMismatch => "FNV-64 hash mismatch — tampered",
            RejectReason::CapabilityViolation => "capability violation — undeclared feature used",
        }
    }
}

/// Result of `verify_axpkg`: the verified package's parts, borrowed from the
/// input, or the reason for rejection.
pub enum VerifyGate<'a> {
    Pass { name: &'a [u8], script: &'a [u8], caps: u32 },
    Reject(RejectReason),
}

/// What a gate result says.
pub enum GateView {
    Pass { name: Seq<u8>, script: Seq<u8>, caps: u32 },
    Reject(RejectReason),
}

impl<'a> VerifyGate<'a> {
    pub open spec fn view(&self) -> GateView {
        match self {
            VerifyGate::Pass { name, script, caps } => GateView::Pass {
                name: name@,
                script: script@,
                caps: *caps,
            },
            VerifyGate::Reject(r) => GateView::Reject(*r),
        }
    }

    pub fn is_pass(&self) -> (r: bool)
        ensures
            r == (self.view() is Pass),
    {
        match self {
            VerifyGate::Pass { .. } => true,
            VerifyGate::Reject(_) => false,
        }
    }

    pub fn reject_reason(&self) -> (r: Option<RejectReason>)
        ensures
            r == match self.view() {
                GateView::Reject(x) => Some(x),
                GateView::Pass { .. } => None,
            },
    {
        match self {
            VerifyGate::Reject(r) => Some(*r),
            VerifyGate::Pass { .. } => None,
        }
    }
}

// ── FNV-1a ────────────────────────────────────────────────────────────────────

pub open spec fn fnv_step(h: u64, b: u8) -> u64 {
    (h ^ (b as u64)).wrapping_mul(FNV_PRIME)
}

/// FNV-1a 64 of `s`, continuing from state `h`.
pub open spec fn fnv_from(h: u64, s: Seq<u8>) -> u64
    decreases s.len(),
{
    if s.len() == 0 {
        h
    } else {
        fnv_step(fnv_from(h, s.drop_last()), s.last())
    }
}

/// FNV-1a 64-bit hash.
pub open spec fn spec_fnv64(s: Seq<u8>) -> u64 {
    fnv_from(FNV_OFFSET, s)
}

/// FNV-1a 64-bit hash — the sovereign integrity primitive.
pub fn fnv64(data: &[u8]) -> (h: u64)
    ensures
        h == spec_fnv64(data@),
{
    let mut hash: u64 = FNV_OFFSET;
    let mut i: usize = 0;
    while i < data.len()
        invariant
            i <= data@.len(),
            hash == fnv_from(FNV_OFFSET, data@.take(i as int)),
        decreases data.len() - i,
    {
        assert(data@.take(i + 1).drop_last() =~= data@.take(i as int));
        hash = (hash ^ (data[i] as u64)).wrapping_mul(FNV_PRIME);
        i = i + 1;
    }
    assert(data@.take(i as int) =~= data@);
    hash
}

// ── Little-endian fields ──────────────────────────────────────────────────────

pub open spec fn le32(s: Seq<u8>, i: int) -> int {
    s[i] + s[i + 1] * 0x100 + s[i + 2] * 0x1_0000 + s[i + 3] * 0x100_0000
}

pub open spec fn le64(s: Seq<u8>, i: int) -> int {
    le32(s, i) + le32(s, i + 4) * 0x1_0000_0000
}

pub open spec fn le32_bytes(x: u32) -> Seq<u8> {
    seq![
        (x % 0x100) as u8,
        ((x / 0x100) % 0x100) as u8,
        ((x / 0x1_0000) % 0x100) as u8,
        (x / 0x100_0000) as u8,
    ]
}

pub open spec fn le64_bytes(x: u64) -> Seq<u8> {
    le32_bytes((x % 0x1_0000_0000) as u32) + le32_bytes((x / 0x1_0000_0000) as u32)
}

fn read_le32(s: &[u8], i: usize) -> (r: u32)
    requires
        i + 4 <= s@.len(),
    ensures
        r == le32(s@, i as int),
{
    s[i] as u32 + s[i + 1] as u32 * 0x100 + s[i + 2] as u32 * 0x1_0000 + s[i + 3] as u32 * 0x100_0000
}

pub(crate) fn read_le64(s: &[u8], i: usize) -> (r: u64)
    requires
        i + 8 <= s@.len(),
    ensures
        r == le64(s@, i as int),
{
    let n = s.len();
    assert(i + 8 <= n);
    let lo = read_le32(s, i) as u64;
    let hi = read_le32(s, i + 4) as u64;
    lo + hi * 0x1_0000_0000
}

// ── Admission ─────────────────────────────────────────────────────────────────

/// The script contains the `awp ` statement (which needs `CAP_AWP_SEND`).
pub open spec fn uses_awp(script: Seq<u8>) -> bool {
    exists|i: int| 0 <= i && i + 4 <= script.len() && #[trigger] script.subrange(i, i + 4) == ascii_bytes("awp "@)
}

/// Declared name length of a package.
pub open spec fn name_len_of(d: Seq<u8>) -> int {
    le32(d, 5)
}

/// The verdict on a package, step by step: length, magic, version, name
/// length, room for the fields, the FNV-64 trailer over name + capability
/// bytes + script, and the capability audit.
pub open spec fn spec_verify(d: Seq<u8>) -> GateView {
    if d.len() < MIN_LEN {
        GateView::Reject(RejectReason::TooShort)
    } else if d.take(4) != magic() {
        GateView::Reject(RejectReason::InvalidMagic)
    } else if d[4] != AXPKG_VERSION {
        GateView::Reject(RejectReason::VersionMismatch)
    } else if name_len_of(d) > MAX_NAME_LEN {
        GateView::Reject(RejectReason::NameTooLong)
    } else if d.len() < 9 + name_len_of(d) + 4 + HASH_TRAILER {
        GateView::Reject(RejectReason::TooShort)
    } else {
        let nl = name_len_of(d);
        let name = d.subrange(9, 9 + nl);
        let caps = le32(d, 9 + nl) as u32;
        let script = d.subrange(13 + nl, d.len() - 8);
        if spec_fnv64(d.subrange(9, d.len() - 8)) != le64(d, d.len() - 8) {
            GateView::Reject(RejectReason::HashMismatch)
        } else if uses_awp(script) && caps & CAP_AWP_SEND == 0 {
            GateView::Reject(RejectReason::CapabilityViolation)
        } else {
            GateView::Pass { name, script, caps }
        }
    }
}

/// Checks whether the script contains `awp `.
fn script_uses_awp(script: &[u8]) -> (r: bool)
    ensures
        r == uses_awp(script@),
{
    proof {
        reveal_strlit("awp ");
    }
    let needle = lit("awp ");
    if script.len() < needle.len() {
        return false;
    }
    let last = script.len() - needle.len();
    let mut i: usize = 0;
    while i <= last
        invariant
            last + 4 == script@.len(),
            needle@ == ascii_bytes("awp "@),
            needle@.len() == 4,
            forall|k: int| 0 <= k < i ==> #[trigger] script@.subrange(k, k + 4) != needle@,
        decreases script.len() - i,
    {
        if crate::bytes::slice_eq(&script[i..i + needle.len()], needle) {
            return true;
        }
        i = i + 1;
    }
    proof {
        assert forall|k: int| 0 <= k && k + 4 <= script@.len() implies #[trigger] script@.subrange(k, k + 4) != ascii_bytes("awp "@) by {
            assert(k < i);
        }
    }
    false
}

/// Verifies a raw `.axpkg`. On success the parts borrow from `data`.
pub fn verify_axpkg(data: &[u8]) -> (g: VerifyGate<'_>)
    ensures
        g.view() == spec_verify(data@),
{
    if data.len() < MIN_LEN {
        return VerifyGate::Reject(RejectReason::TooShort);
    }
    let m: [u8; 4] = [65u8, 88u8, 80u8, 75u8];
    assert(m@ =~= magic());
    assert(data@.subrange(0, 4) == data@.take(4));
    if !crate::bytes::slice_eq(&data[0..4], &m) {
        return VerifyGate::Reject(RejectReason::InvalidMagic);
    }
    if data[4] != AXPKG_VERSION {
        return VerifyGate::Reject(RejectReason::VersionMismatch);
    }
    let name_len = read_le32(data, 5) as usize;
    if name_len > MAX_NAME_LEN {
        return VerifyGate::Reject(RejectReason::NameTooLong);
    }
    let name_start: usize = 9;
    let name_end = name_start + name_len;
    let caps_start = name_end;
    let caps_end = caps_start + 4;
    let script_start = caps_end;
    if data.len() < caps_end + HASH_TRAILER {
        return VerifyGate::Reject(RejectReason::TooShort);
    }
    let script_end = data.len() - HASH_TRAILER;
    let name = &data[name_start..name_end];
    let caps = read_le32(data, caps_start);
    let script = &data[script_start..script_end];
    let stored_hash = read_le64(data, script_end);
    // name + capability bytes + script are contiguous in the package
    let hash = fnv64(&data[name_start..script_end]);
    if hash != stored_hash {
        return VerifyGate::Reject(RejectReason::HashMismatch);
    }
    if script_uses_awp(script) && (caps & CAP_AWP_SEND == 0) {
        return VerifyGate::Reject(RejectReason::CapabilityViolation);
    }
    VerifyGate::Pass { name, script, caps }
}

// ── Packing ───────────────────────────────────────────────────────────────────

/// Names longer than `MAX_NAME_LEN` are cut to it.
pub open spec fn packed_name(name: Seq<u8>) -> Seq<u8> {
    if name.len() <= MAX_NAME_LEN {
        name
    } else {
        name.take(MAX_NAME_LEN as int)
    }
}

/// The bytes of a package built from its parts.
pub open spec fn spec_pack(name: Seq<u8>, script: Seq<u8>, caps: u32) -> Seq<u8> {
    let n = packed_name(name);
    let body = n + le32_bytes(caps) + script;
    magic() + seq![AXPKG_VERSION] + le32_bytes(n.len() as u32) + body + le64_bytes(spec_fnv64(body))
}

pub(crate) fn write_le32(out: &mut [u8], at: usize, x: u32)
    requires
        at + 4 <= old(out)@.len(),
    ensures
        final(out)@ == old(out)@.subrange(0, at as int) + le32_bytes(x) + old(out)@.subrange(
            at + 4,
            old(out)@.len() as int,
        ),
{
    out[at] = (x % 0x100) as u8;
    out[at + 1] = ((x / 0x100) % 0x100) as u8;
    out[at + 2] = ((x / 0x1_0000) % 0x100) as u8;
    out[at + 3] = (x / 0x100_0000) as u8;
    assert(out@ =~= old(out)@.subrange(0, at as int) + le32_bytes(x) + old(out)@.subrange(
        at + 4,
        old(out)@.len() as int,
    ));
}

/// Writes header, name, capability mask and script; returns where the
/// trailer goes.
fn pack_fields(n: &[u8], script: &[u8], caps: u32, out: &mut [u8]) -> (hash_off: usize)
    requires
        n@.len() <= MAX_NAME_LEN,
        13 + n@.len() + script@.len() + 8 <= old(out)@.len(),
    ensures
        hash_off == 13 + n@.len() + script@.len(),
        final(out)@.len() == old(out)@.len(),
        final(out)@.take(hash_off as int) == magic() + seq![AXPKG_VERSION] + le32_bytes(
            n@.len() as u32,
        ) + n@ + le32_bytes(caps) + script@,
        final(out)@.skip(hash_off as int) == old(out)@.skip(hash_off as int),
{
    let ghost o = out@;
    let name_len = n.len();
    let m: [u8; 4] = [65u8, 88u8, 80u8, 75u8];
    crate::bytes::copy_into(out, 0, &m, 4);
    out[4] = AXPKG_VERSION;
    write_le32(out, 5, name_len as u32);
    crate::bytes::copy_into(out, 9, n, name_len);
    let caps_off = 9 + name_len;
    write_le32(out, caps_off, caps);
    let script_off = caps_off + 4;
    crate::bytes::copy_into(out, script_off, script, script.len());
    let hash_off = script_off + script.len();
    assert(m@ =~= magic());
    assert(m@.take(4) =~= m@);
    assert(n@.take(name_len as int) =~= n@);
    assert(script@.take(script@.len() as int) =~= script@);
    assert(out@.take(hash_off as int) =~= magic() + seq![AXPKG_VERSION] + le32_bytes(
        name_len as u32,
    ) + n@ + le32_bytes(caps) + script@);
    assert(out@.skip(hash_off as int) =~= o.skip(hash_off as int));
    hash_off
}

pub proof fn lemma_le32_roundtrip(x: u32, s: Seq<u8>, i: int)
    requires
        0 <= i,
        i + 4 <= s.len(),
        s.subrange(i, i + 4) == le32_bytes(x),
    ensures
        le32(s, i) == x,
{
    assert(s[i] == le32_bytes(x)[0]);
    assert(s[i + 1] == le32_bytes(x)[1]);
    assert(s[i + 2] == le32_bytes(x)[2]);
    assert(s[i + 3] == le32_bytes(x)[3]);
    let a = x % 0x100;
    let b = (x / 0x100) % 0x100;
    let c = (x / 0x1_0000) % 0x100;
    let d = x / 0x100_0000;
    assert(a + b * 0x100 + c * 0x1_0000 + d * 0x100_0000 == x) by (nonlinear_arith)
        requires
            a == x % 0x100,
            b == (x / 0x100) % 0x100,
            c == (x / 0x1_0000) % 0x100,
            d == x / 0x100_0000,
            x < 0x1_0000_0000,
    ;
}

pub proof fn lemma_le64_roundtrip(x: u64, s: Seq<u8>, i: int)
    requires
        0 <= i,
        i + 8 <= s.len(),
        s.subrange(i, i + 8) == le64_bytes(x),
    ensures
        le64(s, i) == x,
{
    let lo = (x % 0x1_0000_0000) as u32;
    let hi = (x / 0x1_0000_0000) as u32;
    assert(s.subrange(i, i + 4) =~= le64_bytes(x).subrange(0, 4));
    assert(le64_bytes(x).subrange(0, 4) =~= le32_bytes(lo));
    assert(s.subrange(i + 4, i + 8) =~= le64_bytes(x).subrange(4, 8));
    assert(le64_bytes(x).subrange(4, 8) =~= le32_bytes(hi));
    lemma_le32_roundtrip(lo, s, i);
    lemma_le32_roundtrip(hi, s, i + 4);
    assert(lo + hi * 0x1_0000_0000 == x) by (nonlinear_arith)
        requires
            lo == x % 0x1_0000_0000,
            hi == x / 0x1_0000_0000,
    ;
}

/// Packing then verifying gives back the (possibly shortened) name, the
/// script and the capability mask, unless the script uses `awp` without
/// declaring `CAP_AWP_SEND`.
pub proof fn lemma_pack_verify_roundtrip(name: Seq<u8>, script: Seq<u8>, caps: u32)
    ensures
        spec_verify(spec_pack(name, script, caps)) == if uses_awp(script) && caps & CAP_AWP_SEND == 0 {
            GateView::Reject(RejectReason::CapabilityViolation)
        } else {
            GateView::Pass { name: packed_name(name), script, caps }
        },
{
    let n = packed_name(name);
    let nl = n.len() as int;
    let body = n + le32_bytes(caps) + script;
    let d = spec_pack(name, script, caps);
    assert(d.len() == 21 + nl + script.len());
    assert(d.take(4) =~= magic());
    assert(d[4] == AXPKG_VERSION);
    assert(d.subrange(5, 9) =~= le32_bytes(nl as u32));
    lemma_le32_roundtrip(nl as u32, d, 5);
    assert(name_len_of(d) == nl);
    assert(d.subrange(9, 9 + nl) =~= n);
    assert(d.subrange(9 + nl, 13 + nl) =~= le32_bytes(caps));
    lemma_le32_roundtrip(caps, d, 9 + nl);
    assert(d.subrange(13 + nl, d.len() - 8) =~= script);
    assert(d.subrange(9, d.len() - 8) =~= body);
    assert(d.subrange(d.len() - 8, d.len() as int) =~= le64_bytes(spec_fnv64(body)));
    lemma_le64_roundtrip(spec_fnv64(body), d, d.len() - 8);
}

/// Builds a package into `out`; returns its length, or `None` when `out` is too
/// small (then `out` is left as it was).
pub fn pack_axpkg(name: &[u8], script: &[u8], caps: u32, out: &mut [u8]) -> (r: Option<usize>)
    requires
        script@.len() + 85 <= usize::MAX,
    ensures
        r is None <==> old(out)@.len() < spec_pack(name@, script@, caps).len(),
        r is None ==> final(out)@ == old(out)@,
        r matches Some(total) ==> {
            &&& total == spec_pack(name@, script@, caps).len()
            &&& final(out)@.len() == old(out)@.len()
            &&& final(out)@.take(total as int) == spec_pack(name@, script@, caps)
            &&& final(out)@.skip(total as int) == old(out)@.skip(total as int)
        },
{
    let name_len = if name.len() < MAX_NAME_LEN { name.len() } else { MAX_NAME_LEN };
    let n = &name[0..name_len];
    assert(n@ == packed_name(name@)) by {
        if name@.len() <= MAX_NAME_LEN {
            assert(n@ =~= name@);
        }
    }
    let total = 4 + 1 + 4 + name_len + 4 + script.len() + HASH_TRAILER;
    if out.len() < total {
        return None;
    }
    let ghost o = out@;
    let hash_off = pack_fields(n, script, caps, out);
    let ghost head = out@.take(hash_off as int);
    let ghost o2 = out@;
    let ghost body = n@ + le32_bytes(caps) + script@;
    let ghost pre = magic() + seq![AXPKG_VERSION] + le32_bytes(n@.len() as u32);
    assert(pre.len() == 9);
    assert(head =~= pre + body);
    assert(out@.subrange(9, hash_off as int) =~= head.subrange(9, hash_off as int));
    assert(out@.subrange(9, hash_off as int) =~= body);
    let hash = fnv64(&out[9..hash_off]);
    write_le32(out, hash_off, (hash % 0x1_0000_0000) as u32);
    write_le32(out, hash_off + 4, (hash / 0x1_0000_0000) as u32);
    assert(out@.take(hash_off as int) =~= head);
    assert(out@.subrange(hash_off as int, total as int) =~= le64_bytes(hash));
    assert(out@.take(total as int) =~= head + le64_bytes(hash));
    assert(out@.take(total as int) =~= spec_pack(name@, script@, caps));
    assert(out@.skip(total as int) =~= o2.skip(total as int));
    assert(o2.skip(total as int) =~= o2.skip(hash_off as int).skip(8));
    assert(o.skip(total as int) =~= o.skip(hash_off as int).skip(8));
    assert(out@.skip(total as int) =~= o.skip(total as int));
    Some(total)
}

} // verus!
