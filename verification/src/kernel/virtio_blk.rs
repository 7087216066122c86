//! The sovereign store on the virtio block device: sector 0 holds the store
//! header, the data sectors after it hold fixed-size key/value entries.
//!
//! The device I/O (probing, reading and writing sectors) happens outside;
//! this module decides what a sector means and what a write changes.
use vstd::prelude::*;
use crate::kernel::verify::{le32_bytes, le64, le64_bytes, lemma_le64_roundtrip, read_le64};
use crate::mmio::{lo32, low32, MmioOp};

verus! {

pub const SECTOR_SIZE: usize = 512;
/// The header magic of a formatted store, `AXSOV001`.
pub const SOV_MAGIC: [u8; 8] = [65u8, 88u8, 83u8, 79u8, 86u8, 48u8, 48u8, 49u8];
pub const MAX_ENTRIES: usize = 180;
pub const ENTRY_SIZE: usize = 40;
pub const KEY_SIZE: usize = 32;
pub const ENTRIES_PER_SECTOR: usize = 12;
pub const DATA_SECTOR_START: usize = 1;
pub const DATA_SECTOR_COUNT: usize = 15;

/// The magic, version and device-id register values of a legacy virtio
/// block device.
pub const VIRTIO_MAGIC: u32 = 0x74726976;
pub const VIRTIO_V1: u32 = 0x1;
pub const BLK_DEVICE_ID: u32 = 0x2;

pub open spec fn sov_magic() -> Seq<u8> {
    seq![65u8, 88u8, 83u8, 79u8, 86u8, 48u8, 48u8, 49u8]
}

/// Whether the identification registers of a slot show the sovereign disk.
pub fn is_blk_device(magic: u32, version: u32, device_id: u32) -> (r: bool)
    ensures
        r == (magic == VIRTIO_MAGIC && version == VIRTIO_V1 && device_id == BLK_DEVICE_ID),
{
    magic == VIRTIO_MAGIC && version == VIRTIO_V1 && device_id == BLK_DEVICE_ID
}

// ── Header sector ─────────────────────────────────────────────────────────────

/// Sector 0 of a store formatted for `node_id`: magic, node id (LE),
/// an entry count of zero (LE), and zeros.
pub open spec fn formatted_header(node_id: u64) -> Seq<u8> {
    sov_magic() + le64_bytes(node_id) + le32_bytes(0) + Seq::new(492, |i: int| 0u8)
}

/// A store is valid when sector 0 starts with the magic.
pub open spec fn header_valid(sec: Seq<u8>) -> bool {
    sec.len() >= 8 && sec.take(8) == sov_magic()
}

/// Whether sector 0 holds a formatted store.
pub fn store_valid(sector0: &[u8]) -> (r: bool)
    ensures
        r == header_valid(sector0@),
{
    if sector0.len() < 8 {
        return false;
    }
    let mut i: usize = 0;
    while i < 8
        invariant
            i <= 8 <= sector0@.len(),
            forall|j: int| 0 <= j < i ==> sector0@[j] == sov_magic()[j],
        decreases 8 - i,
    {
        if sector0[i] != SOV_MAGIC[i] {
            return false;
        }
        i = i + 1;
    }
    assert(sector0@.take(8) =~= sov_magic());
    true
}

pub(crate) fn push_le32(out: &mut Vec<u8>, x: u32)
    ensures
        final(out)@ == old(out)@ + le32_bytes(x),
{
    out.push((x % 0x100) as u8);
    out.push(((x / 0x100) % 0x100) as u8);
    out.push(((x / 0x1_0000) % 0x100) as u8);
    out.push((x / 0x100_0000) as u8);
    assert(out@ =~= old(out)@ + le32_bytes(x));
}

pub(crate) fn push_le64(out: &mut Vec<u8>, x: u64)
    ensures
        final(out)@ == old(out)@ + le64_bytes(x),
{
    push_le32(out, (x % 0x1_0000_0000) as u32);
    push_le32(out, (x / 0x1_0000_0000) as u32);
    assert(out@ =~= old(out)@ + le64_bytes(x));
}

/// The header sector that formats a store for `node_id`.
pub fn store_format(node_id: u64) -> (sec: Vec<u8>)
    ensures
        sec@ == formatted_header(node_id),
{
    let mut sec: Vec<u8> = Vec::new();
    let mut i: usize = 0;
    while i < 8
        invariant
            i <= 8,
            sec@ == sov_magic().take(i as int),
        decreases 8 - i,
    {
        sec.push(SOV_MAGIC[i]);
        assert(sov_magic().take(i + 1) =~= sov_magic().take(i as int).push(sov_magic()[i as int]));
        i = i + 1;
    }
    assert(sov_magic().take(8) =~= sov_magic());
    push_le64(&mut sec, node_id);
    push_le32(&mut sec, 0);
    let ghost head = sec@;
    let mut j: usize = 0;
    while j < 492
        invariant
            j <= 492,
            sec@ == head + Seq::new(j as nat, |k: int| 0u8),
        decreases 492 - j,
    {
        sec.push(0u8);
        assert(sec@ =~= head + Seq::new((j + 1) as nat, |k: int| 0u8));
        j = j + 1;
    }
    sec
}

/// A freshly formatted store is valid.
pub proof fn lemma_format_is_valid(node_id: u64)
    ensures
        header_valid(formatted_header(node_id)),
        formatted_header(node_id).len() == SECTOR_SIZE,
{
    assert(formatted_header(node_id).take(8) =~= sov_magic());
}

// ── Data sectors ──────────────────────────────────────────────────────────────

/// How many bytes of a key take part in matching and storing.
pub open spec fn klen(key: Seq<u8>) -> int {
    if key.len() < KEY_SIZE {
        key.len() as int
    } else {
        KEY_SIZE as int
    }
}

/// The key field of entry `e`.
pub open spec fn entry_key(sec: Seq<u8>, e: int) -> Seq<u8> {
    sec.subrange(e * 40, e * 40 + 32)
}

/// An entry whose first key byte is zero is empty.
pub open spec fn entry_empty(sec: Seq<u8>, e: int) -> bool {
    sec[e * 40] == 0
}

/// A stored key field matches `key` when its first `klen` bytes are the
/// key's and, unless all 32 bytes are used, the next byte is zero.
pub open spec fn key_matches(k: Seq<u8>, key: Seq<u8>) -> bool {
    &&& k.take(klen(key)) == key.take(klen(key))
    &&& (klen(key) == KEY_SIZE || k[klen(key)] == 0)
}

/// Looking up `key` from entry `e` on: the scan stops at the first empty entry.
pub open spec fn lookup_from(sec: Seq<u8>, key: Seq<u8>, e: int) -> Option<u64>
    decreases ENTRIES_PER_SECTOR - e,
{
    if e < 0 || e >= ENTRIES_PER_SECTOR {
        None
    } else if entry_empty(sec, e) {
        None
    } else if key_matches(entry_key(sec, e), key) {
        Some(le64(sec, e * 40 + 32) as u64)
    } else {
        lookup_from(sec, key, e + 1)
    }
}

/// The entry a write of `key` goes to, from entry `e` on: the first one that
/// matches the key or is empty.
pub open spec fn write_slot(sec: Seq<u8>, key: Seq<u8>, e: int) -> Option<int>
    decreases ENTRIES_PER_SECTOR - e,
{
    if e < 0 || e >= ENTRIES_PER_SECTOR {
        None
    } else if key_matches(entry_key(sec, e), key) || entry_empty(sec, e) {
        Some(e)
    } else {
        write_slot(sec, key, e + 1)
    }
}

/// The key field stored for `key`: its first `klen` bytes, zero-padded.
pub open spec fn stored_key(key: Seq<u8>) -> Seq<u8> {
    key.take(klen(key)) + Seq::new((KEY_SIZE - klen(key)) as nat, |i: int| 0u8)
}

/// The sector with entry `e` set to `key` and `value`.
pub open spec fn write_entry(sec: Seq<u8>, e: int, key: Seq<u8>, value: u64) -> Seq<u8> {
    sec.subrange(0, e * 40) + stored_key(key) + le64_bytes(value) + sec.subrange(e * 40 + 40, sec.len() as int)
}

/// Whether the key field at `off` matches `key`.
fn entry_matches(sec: &[u8], off: usize, key: &[u8]) -> (r: bool)
    requires
        off + 32 <= sec@.len(),
    ensures
        r == key_matches(sec@.subrange(off as int, off + 32), key@),
{
    let ghost k = sec@.subrange(off as int, off + 32);
    let n = sec.len();
    let kl = if key.len() < KEY_SIZE {
        key.len()
    } else {
        KEY_SIZE
    };
    let mut i: usize = 0;
    while i < kl
        invariant
            kl == klen(key@),
            i <= kl <= 32,
            off + 32 <= sec@.len(),
            n == sec@.len(),
            k == sec@.subrange(off as int, off + 32),
            kl <= key@.len(),
            forall|j: int| 0 <= j < i ==> k[j] == key@[j],
        decreases kl - i,
    {
        if sec[off + i] != key[i] {
            assert(k.take(kl as int)[i as int] != key@.take(kl as int)[i as int]);
            return false;
        }
        i = i + 1;
    }
    assert(k.take(kl as int) =~= key@.take(kl as int));
    kl == KEY_SIZE || sec[off + kl] == 0
}

/// The value stored under `key` in one data sector, if any.
pub fn sector_lookup(sec: &[u8], key: &[u8]) -> (r: Option<u64>)
    requires
        sec@.len() == SECTOR_SIZE,
    ensures
        r == lookup_from(sec@, key@, 0),
{
    let mut e: usize = 0;
    while e < ENTRIES_PER_SECTOR
        invariant
            e <= ENTRIES_PER_SECTOR,
            sec@.len() == SECTOR_SIZE,
            lookup_from(sec@, key@, e as int) == lookup_from(sec@, key@, 0),
        decreases ENTRIES_PER_SECTOR - e,
    {
        let off = e * ENTRY_SIZE;
        if sec[off] == 0 {
            return None;
        }
        if entry_matches(sec, off, key) {
            return Some(read_le64(sec, off + KEY_SIZE));
        }
        e = e + 1;
    }
    None
}

/// The entry of one data sector a write of `key` goes to, if any.
fn sector_slot(sec: &[u8], key: &[u8]) -> (r: Option<usize>)
    requires
        sec@.len() == SECTOR_SIZE,
    ensures
        r is Some <==> write_slot(sec@, key@, 0) is Some,
        r matches Some(e) ==> write_slot(sec@, key@, 0) == Some(e as int) && e < ENTRIES_PER_SECTOR,
{
    let mut e: usize = 0;
    while e < ENTRIES_PER_SECTOR
        invariant
            e <= ENTRIES_PER_SECTOR,
            sec@.len() == SECTOR_SIZE,
            write_slot(sec@, key@, e as int) == write_slot(sec@, key@, 0),
        decreases ENTRIES_PER_SECTOR - e,
    {
        let off = e * ENTRY_SIZE;
        if entry_matches(sec, off, key) || sec[off] == 0 {
            return Some(e);
        }
        e = e + 1;
    }
    None
}

/// The sector with entry `e` set to `key` and `value`.
fn sector_with_entry(sec: &[u8], e: usize, key: &[u8], value: u64) -> (r: Vec<u8>)
    requires
        sec@.len() == SECTOR_SIZE,
        e < ENTRIES_PER_SECTOR,
    ensures
        r@ == write_entry(sec@, e as int, key@, value),
{
    let off = e * ENTRY_SIZE;
    let kl = if key.len() < KEY_SIZE {
        key.len()
    } else {
        KEY_SIZE
    };
    let mut out: Vec<u8> = Vec::new();
    let mut i: usize = 0;
    while i < off
        invariant
            i <= off,
            off + 40 <= sec@.len(),
            out@ == sec@.subrange(0, i as int),
        decreases off - i,
    {
        out.push(sec[i]);
        assert(out@ =~= sec@.subrange(0, i + 1));
        i = i + 1;
    }
    let ghost a = out@;
    let mut j: usize = 0;
    while j < kl
        invariant
            j <= kl <= key@.len(),
            kl == klen(key@),
            out@ == a + key@.subrange(0, j as int),
        decreases kl - j,
    {
        out.push(key[j]);
        assert(out@ =~= a + key@.subrange(0, j + 1));
        j = j + 1;
    }
    let ghost b = out@;
    while j < KEY_SIZE
        invariant
            kl <= j <= KEY_SIZE,
            out@ == b + Seq::new((j - kl) as nat, |k: int| 0u8),
        decreases KEY_SIZE - j,
    {
        out.push(0u8);
        assert(out@ =~= b + Seq::new((j + 1 - kl) as nat, |k: int| 0u8));
        j = j + 1;
    }
    assert(out@ =~= a + stored_key(key@));
    push_le64(&mut out, value);
    let ghost c = out@;
    let mut t: usize = off + ENTRY_SIZE;
    while t < SECTOR_SIZE
        invariant
            off + 40 <= t <= SECTOR_SIZE,
            sec@.len() == SECTOR_SIZE,
            out@ == c + sec@.subrange(off + 40, t as int),
        decreases SECTOR_SIZE - t,
    {
        out.push(sec[t]);
        assert(out@ =~= c + sec@.subrange(off + 40, t + 1));
        t = t + 1;
    }
    out
}


// ── The store across the data sectors ────────────────────────────────────────

/// The data sectors as byte sequences.
pub open spec fn image_view(img: Seq<Vec<u8>>) -> Seq<Seq<u8>> {
    img.map_values(|v: Vec<u8>| v@)
}

/// The data area: `DATA_SECTOR_COUNT` sectors of `SECTOR_SIZE` bytes.
pub open spec fn image_wf(secs: Seq<Seq<u8>>) -> bool {
    &&& secs.len() == DATA_SECTOR_COUNT
    &&& forall|s: int| 0 <= s < secs.len() ==> #[trigger] secs[s].len() == SECTOR_SIZE
}

/// Looking up `key` from data sector `s` on, sector by sector.
pub open spec fn store_lookup(secs: Seq<Seq<u8>>, key: Seq<u8>, s: int) -> Option<u64>
    decreases secs.len() - s,
{
    if s < 0 || s >= secs.len() {
        None
    } else {
        match lookup_from(secs[s], key, 0) {
            Some(v) => Some(v),
            None => store_lookup(secs, key, s + 1),
        }
    }
}

/// Where a write of `key` goes, from data sector `s` on: the first sector
/// with an entry that matches the key or is empty, and that entry.
pub open spec fn store_target(secs: Seq<Seq<u8>>, key: Seq<u8>, s: int) -> Option<(int, int)>
    decreases secs.len() - s,
{
    if s < 0 || s >= secs.len() {
        None
    } else {
        match write_slot(secs[s], key, 0) {
            Some(e) => Some((s, e)),
            None => store_target(secs, key, s + 1),
        }
    }
}

/// The data sectors after writing `key = value`; `None` when no entry matches
/// the key and none is empty.
pub open spec fn store_after_write(secs: Seq<Seq<u8>>, key: Seq<u8>, value: u64) -> Option<Seq<Seq<u8>>> {
    match store_target(secs, key, 0) {
        Some((s, e)) => Some(secs.update(s, write_entry(secs[s], e, key, value))),
        None => None,
    }
}

/// The value stored under `key` in the data sectors, if any.
pub fn store_read(image: &Vec<Vec<u8>>, key: &[u8]) -> (r: Option<u64>)
    requires
        image_wf(image_view(image@)),
    ensures
        r == store_lookup(image_view(image@), key@, 0),
{
    let ghost v = image_view(image@);
    let mut s: usize = 0;
    while s < image.len()
        invariant
            v == image_view(image@),
            image_wf(v),
            s <= image@.len() == v.len(),
            store_lookup(v, key@, s as int) == store_lookup(v, key@, 0),
        decreases image.len() - s,
    {
        assert(image@[s as int]@ == v[s as int]);
        match sector_lookup(image[s].as_slice(), key) {
            Some(x) => {
                return Some(x);
            },
            None => {},
        }
        s = s + 1;
    }
    None
}

/// Writes `key = value` into the first entry that holds the key or is empty;
/// returns the index of the data sector that changed, `None` when the store
/// is full.
pub fn store_write(image: &mut Vec<Vec<u8>>, key: &[u8], value: u64) -> (r: Option<usize>)
    requires
        image_wf(image_view(old(image)@)),
    ensures
        image_wf(image_view(final(image)@)),
        match store_target(image_view(old(image)@), key@, 0) {
            Some((s, e)) => r == Some(s as usize) && Some(image_view(final(image)@)) == store_after_write(
                image_view(old(image)@),
                key@,
                value,
            ),
            None => r is None && image_view(final(image)@) == image_view(old(image)@),
        },
{
    let ghost v = image_view(image@);
    let mut s: usize = 0;
    while s < image.len()
        invariant
            v == image_view(image@),
            image@ == old(image)@,
            image_wf(v),
            s <= image@.len() == v.len(),
            store_target(v, key@, s as int) == store_target(v, key@, 0),
        decreases image.len() - s,
    {
        assert(image@[s as int]@ == v[s as int]);
        match sector_slot(image[s].as_slice(), key) {
            Some(e) => {
                let new_sec = sector_with_entry(image[s].as_slice(), e, key, value);
                image.set(s, new_sec);
                assert(image_view(image@) =~= v.update(s as int, write_entry(v[s as int], e as int, key@, value)));
                assert(store_target(v, key@, s as int) == Some((s as int, e as int)));
                assert(store_after_write(v, key@, value) == Some(v.update(s as int, write_entry(v[s as int], e as int, key@, value))));
                return Some(s);
            },
            None => {},
        }
        s = s + 1;
    }
    None
}

// ── Read after write ──────────────────────────────────────────────────────────

proof fn lemma_no_slot_no_hit(sec: Seq<u8>, key: Seq<u8>, e: int)
    requires
        0 <= e,
        write_slot(sec, key, e) is None,
    ensures
        lookup_from(sec, key, e) is None,
    decreases ENTRIES_PER_SECTOR - e,
{
    if e < ENTRIES_PER_SECTOR {
        lemma_no_slot_no_hit(sec, key, e + 1);
    }
}

proof fn lemma_written_entry_found(sec: Seq<u8>, key: Seq<u8>, value: u64, i: int, j: int)
    requires
        sec.len() == SECTOR_SIZE,
        0 <= i <= j < ENTRIES_PER_SECTOR,
        write_slot(sec, key, i) == Some(j),
        key.len() > 0,
        key[0] != 0,
    ensures
        lookup_from(write_entry(sec, j, key, value), key, i) == Some(value),
    decreases j - i,
{
    let new = write_entry(sec, j, key, value);
    assert(new.len() == SECTOR_SIZE);
    if i == j {
        let sk = stored_key(key);
        assert(entry_key(new, j) =~= sk);
        assert(new[j * 40] == sk[0]);
        assert(sk[0] == key[0]);
        assert(sk.take(klen(key)) =~= key.take(klen(key)));
        assert(key_matches(sk, key));
        assert(new.subrange(j * 40 + 32, j * 40 + 40) =~= le64_bytes(value));
        lemma_le64_roundtrip(value, new, j * 40 + 32);
    } else {
        assert(!(key_matches(entry_key(sec, i), key) || entry_empty(sec, i)));
        assert(entry_key(new, i) =~= entry_key(sec, i));
        assert(new[i * 40] == sec[i * 40]);
        lemma_written_entry_found(sec, key, value, i + 1, j);
    }
}

proof fn lemma_store_found_from(secs: Seq<Seq<u8>>, key: Seq<u8>, value: u64, t: int)
    requires
        image_wf(secs),
        key.len() > 0,
        key[0] != 0,
        0 <= t,
        store_target(secs, key, t) is Some,
        store_target(secs, key, t) == store_target(secs, key, 0),
    ensures
        store_lookup(store_after_write(secs, key, value)->0, key, t) == Some(value),
    decreases secs.len() - t,
{
    let (s, e) = store_target(secs, key, 0)->0;
    let new = store_after_write(secs, key, value)->0;
    lemma_target_in_range(secs, key, 0);
    lemma_target_in_range(secs, key, t);
    if t == s {
        assert(write_slot(secs[s], key, 0) == Some(e));
        assert(0 <= e < ENTRIES_PER_SECTOR) by {
            lemma_slot_in_range(secs[s], key, 0);
        }
        lemma_written_entry_found(secs[s], key, value, 0, e);
        assert(new[s] == write_entry(secs[s], e, key, value));
    } else {
        assert(t < secs.len());
        assert(write_slot(secs[t], key, 0) is None);
        lemma_no_slot_no_hit(secs[t], key, 0);
        assert(new[t] == secs[t]);
        lemma_store_found_from(secs, key, value, t + 1);
    }
}

proof fn lemma_slot_in_range(sec: Seq<u8>, key: Seq<u8>, e: int)
    requires
        0 <= e,
        write_slot(sec, key, e) is Some,
    ensures
        e <= write_slot(sec, key, e)->0 < ENTRIES_PER_SECTOR,
    decreases ENTRIES_PER_SECTOR - e,
{
    if e < ENTRIES_PER_SECTOR && !(key_matches(entry_key(sec, e), key) || entry_empty(sec, e)) {
        lemma_slot_in_range(sec, key, e + 1);
    }
}

/// Reading a key after a write of it that found room gives back the written
/// value, for any key whose first byte is not zero (an entry whose first byte
/// is zero reads as empty).
pub proof fn lemma_store_read_after_write(secs: Seq<Seq<u8>>, key: Seq<u8>, value: u64)
    requires
        image_wf(secs),
        key.len() > 0,
        key[0] != 0,
        store_after_write(secs, key, value) is Some,
    ensures
        image_wf(store_after_write(secs, key, value)->0),
        store_lookup(store_after_write(secs, key, value)->0, key, 0) == Some(value),
{
    let (s, e) = store_target(secs, key, 0)->0;
    lemma_target_in_range(secs, key, 0);
    lemma_slot_in_range(secs[s], key, 0);
    let new = store_after_write(secs, key, value)->0;
    assert(write_entry(secs[s], e, key, value).len() == SECTOR_SIZE);
    assert forall|k: int| 0 <= k < new.len() implies #[trigger] new[k].len() == SECTOR_SIZE by {
        if k != s {
            assert(new[k] == secs[k]);
        }
    }
    lemma_store_found_from(secs, key, value, 0);
}

proof fn lemma_target_in_range(secs: Seq<Seq<u8>>, key: Seq<u8>, t: int)
    requires
        0 <= t,
        store_target(secs, key, t) is Some,
    ensures
        match store_target(secs, key, t) {
            Some((s, e)) => t <= s < secs.len() && write_slot(secs[s], key, 0) == Some(e),
            None => false,
        },
    decreases secs.len() - t,
{
    if t < secs.len() && write_slot(secs[t], key, 0) is None {
        lemma_target_in_range(secs, key, t + 1);
    }
}


// ── Device bring-up and requests ──────────────────────────────────────────────

pub const OFF_DEV_FEAT: usize = 0x010;
pub const OFF_DRV_FEAT: usize = 0x020;
pub const OFF_QUEUE_SEL: usize = 0x030;
pub const OFF_QUEUE_MAX: usize = 0x034;
pub const OFF_QUEUE_NUM: usize = 0x038;
pub const OFF_QUEUE_ALIGN: usize = 0x03c;
pub const OFF_QUEUE_PFN: usize = 0x040;
pub const OFF_QUEUE_NOTIF: usize = 0x050;
pub const OFF_STATUS: usize = 0x070;
/// The largest queue the driver uses.
pub const BLK_QUEUE_SIZE: usize = 64;
pub const VIRTIO_BLK_T_IN: u32 = 0;
pub const VIRTIO_BLK_T_OUT: u32 = 1;

/// Where block-device bring-up stands.
#[derive(Clone, Copy, PartialEq, Eq, Debug, Structural)]
pub enum BlkSetup {
    Start,
    CheckFeaturesOk,
    CheckQueueMax,
    Ready,
    Failed,
}

/// One step of block-device bring-up: from state `st`, with `read` the value
/// of the last register the previous step read, the next state and what to
/// do. The driver accepts no features (the offered set is read and ignored),
/// and sizes the queue to the device's maximum, at most 64.
pub open spec fn blk_step(st: BlkSetup, ring_addr: u64, read: u32) -> (BlkSetup, Seq<MmioOp>) {
    match st {
        BlkSetup::Start => (
            BlkSetup::CheckFeaturesOk,
            seq![
                MmioOp::Write { off: OFF_STATUS, value: 0 },
                MmioOp::Settle,
                MmioOp::Write { off: OFF_STATUS, value: 1 },
                MmioOp::Write { off: OFF_STATUS, value: 3 },
                MmioOp::Read { off: OFF_DEV_FEAT },
                MmioOp::Write { off: OFF_DRV_FEAT, value: 0 },
                MmioOp::Write { off: OFF_STATUS, value: 11 },
                MmioOp::Read { off: OFF_STATUS },
            ],
        ),
        BlkSetup::CheckFeaturesOk => if read % 16 < 8 {
            (BlkSetup::Failed, Seq::empty())
        } else {
            (
                BlkSetup::CheckQueueMax,
                seq![MmioOp::Write { off: OFF_QUEUE_SEL, value: 0 }, MmioOp::Read { off: OFF_QUEUE_MAX }],
            )
        },
        BlkSetup::CheckQueueMax => if read == 0 {
            (BlkSetup::Failed, Seq::empty())
        } else {
            (
                BlkSetup::Ready,
                seq![
                    MmioOp::Write { off: OFF_QUEUE_NUM, value: if read < 64 { read } else { 64 } },
                    MmioOp::Write { off: OFF_QUEUE_ALIGN, value: 4096 },
                    MmioOp::Write { off: OFF_QUEUE_PFN, value: lo32(ring_addr / 4096) },
                    MmioOp::FillQueue,
                    MmioOp::Write { off: OFF_STATUS, value: 15 },
                ],
            )
        },
        BlkSetup::Ready => (BlkSetup::Ready, Seq::empty()),
        BlkSetup::Failed => (BlkSetup::Failed, Seq::empty()),
    }
}

/// Performs the decision of one block-device bring-up step (see `blk_step`).
pub fn blk_setup_step(st: BlkSetup, ring_addr: u64, read: u32) -> (r: (BlkSetup, Vec<MmioOp>))
    ensures
        (r.0, r.1@) == blk_step(st, ring_addr, read),
{
    let mut ops: Vec<MmioOp> = Vec::new();
    match st {
        BlkSetup::Start => {
            ops.push(MmioOp::Write { off: OFF_STATUS, value: 0 });
            ops.push(MmioOp::Settle);
            ops.push(MmioOp::Write { off: OFF_STATUS, value: 1 });
            ops.push(MmioOp::Write { off: OFF_STATUS, value: 3 });
            ops.push(MmioOp::Read { off: OFF_DEV_FEAT });
            ops.push(MmioOp::Write { off: OFF_DRV_FEAT, value: 0 });
            ops.push(MmioOp::Write { off: OFF_STATUS, value: 11 });
            ops.push(MmioOp::Read { off: OFF_STATUS });
            assert(ops@ =~= blk_step(st, ring_addr, read).1);
            (BlkSetup::CheckFeaturesOk, ops)
        },
        BlkSetup::CheckFeaturesOk => {
            assert(read & 8 == 0 <==> read % 16 < 8) by (bit_vector);
            if read & 8 == 0 {
                (BlkSetup::Failed, ops)
            } else {
                ops.push(MmioOp::Write { off: OFF_QUEUE_SEL, value: 0 });
                ops.push(MmioOp::Read { off: OFF_QUEUE_MAX });
                assert(ops@ =~= blk_step(st, ring_addr, read).1);
                (BlkSetup::CheckQueueMax, ops)
            }
        },
        BlkSetup::CheckQueueMax => {
            if read == 0 {
                return (BlkSetup::Failed, ops);
            }
            let qsize = if read < BLK_QUEUE_SIZE as u32 { read } else { BLK_QUEUE_SIZE as u32 };
            ops.push(MmioOp::Write { off: OFF_QUEUE_NUM, value: qsize });
            ops.push(MmioOp::Write { off: OFF_QUEUE_ALIGN, value: 4096 });
            ops.push(MmioOp::Write { off: OFF_QUEUE_PFN, value: low32(ring_addr / 4096) });
            ops.push(MmioOp::FillQueue);
            ops.push(MmioOp::Write { off: OFF_STATUS, value: 15 });
            assert(ops@ =~= blk_step(st, ring_addr, read).1);
            (BlkSetup::Ready, ops)
        },
        BlkSetup::Ready => (BlkSetup::Ready, ops),
        BlkSetup::Failed => (BlkSetup::Failed, ops),
    }
}

/// A split-queue descriptor.
#[derive(Clone, Copy, PartialEq, Eq, Debug, Structural)]
pub struct BlkDesc {
    pub addr: u64,
    pub len: u32,
    pub flags: u16,
    pub next: u16,
}

/// The DMA addresses of a request's header, data buffer and status byte.
#[derive(Clone, Copy)]
pub struct BlkBuffers {
    pub hdr: u64,
    pub buf: u64,
    pub status: u64,
}

/// A request ready to be published: the header to write, three descriptors
/// with the slots they go to, and the available-ring slot and index.
pub struct BlkRequest {
    pub req_type: u32,
    pub sector: u64,
    pub descs: Vec<(usize, BlkDesc)>,
    pub avail_slot: usize,
    pub new_avail_idx: u16,
}

/// The driver's indices into the request queue: the next free descriptor
/// and the available index (both wrapping at 2^16).
pub struct BlkQueue {
    pub next: u16,
    pub avail_idx: u16,
}

/// The three chained descriptors of a request starting at descriptor `next`:
/// the header (device-readable), the sector buffer (device-writable for a
/// read), and the status byte (device-writable).
pub open spec fn request_descs(next: u16, is_write: bool, b: BlkBuffers) -> Seq<(usize, BlkDesc)> {
    let d0 = (next as int % 64) as usize;
    let d1 = ((next + 1) % 64) as usize;
    let d2 = ((next + 2) % 64) as usize;
    seq![
        (d0, BlkDesc { addr: b.hdr, len: 16, flags: 1, next: d1 as u16 }),
        (d1, BlkDesc { addr: b.buf, len: SECTOR_SIZE as u32, flags: if is_write { 1 } else { 3 }, next: d2 as u16 }),
        (d2, BlkDesc { addr: b.status, len: 1, flags: 2, next: 0 }),
    ]
}

impl BlkQueue {
    pub fn new() -> (q: Self)
        ensures
            q.next == 0 && q.avail_idx == 0,
    {
        BlkQueue { next: 0, avail_idx: 0 }
    }

    /// Prepares a request of type `req_type` (`VIRTIO_BLK_T_OUT` writes) for
    /// `sector`; the queue moves on by three descriptors and one available
    /// entry.
    pub fn prepare(&mut self, req_type: u32, sector: u64, b: BlkBuffers) -> (r: BlkRequest)
        ensures
            r.req_type == req_type,
            r.sector == sector,
            r.descs@ == request_descs(old(self).next, req_type == VIRTIO_BLK_T_OUT, b),
            r.avail_slot == old(self).avail_idx % 64,
            r.new_avail_idx == (old(self).avail_idx + 1) % 0x1_0000,
            final(self).avail_idx == r.new_avail_idx,
            final(self).next == (old(self).next + 3) % 0x1_0000,
    {
        let n = self.next as usize;
        let d0 = n % BLK_QUEUE_SIZE;
        let d1 = (n + 1) % BLK_QUEUE_SIZE;
        let d2 = (n + 2) % BLK_QUEUE_SIZE;
        let is_write = req_type == VIRTIO_BLK_T_OUT;
        let data_flags: u16 = if is_write { 1 } else { 3 };
        let mut descs: Vec<(usize, BlkDesc)> = Vec::new();
        descs.push((d0, BlkDesc { addr: b.hdr, len: 16, flags: 1, next: d1 as u16 }));
        descs.push((d1, BlkDesc { addr: b.buf, len: SECTOR_SIZE as u32, flags: data_flags, next: d2 as u16 }));
        descs.push((d2, BlkDesc { addr: b.status, len: 1, flags: 2, next: 0 }));
        assert(descs@ =~= request_descs(old(self).next, is_write, b));
        let avail_slot = (self.avail_idx as usize) % BLK_QUEUE_SIZE;
        self.avail_idx = self.avail_idx.wrapping_add(1);
        self.next = self.next.wrapping_add(3);
        BlkRequest { req_type, sector, descs, avail_slot, new_avail_idx: self.avail_idx }
    }
}

/// How many reads of the status byte are made before giving up on a request.
pub const COMPLETION_TRIES: u32 = 2_000_000;

/// Whether to stop waiting for a request, given the status byte (0xFF until
/// the device answers) and how many reads came before; the new count.
pub fn request_done(status: u8, tries: u32) -> (r: (bool, u32))
    requires
        tries <= COMPLETION_TRIES,
    ensures
        status != 0xFF ==> r == (true, tries),
        status == 0xFF && tries >= COMPLETION_TRIES ==> r == (true, tries),
        status == 0xFF && tries < COMPLETION_TRIES ==> r == (false, (tries + 1) as u32),
{
    if status != 0xFF {
        return (true, tries);
    }
    if tries >= COMPLETION_TRIES {
        return (true, tries);
    }
    (false, tries + 1)
}

} // verus!
