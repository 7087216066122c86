//! EdisonDB: the sovereign in-memory tiered key-value store (at most
//! `MAX_ENTRIES` entries; writing an existing key updates it in place).
use vstd::prelude::*;
use crate::bytes::{ascii_bytes, slice_eq};
use vstd::string::StringSliceAdditionalSpecFns;

verus! {

pub const MAX_ENTRIES: usize = 32;

/// Retention tier of an entry.
#[derive(Clone, Copy, PartialEq, Eq, Debug, Structural)]
pub enum Tier {
    Critical,
    Personal,
    Noise,
}

struct Entry {
    key: &'static str,
    value: u64,
    tier: Tier,
}

/// The store. Keys are compared by their bytes.
pub struct EdisonDb {
    entries: Vec<Entry>,
    initialized: bool,
}

/// One entry as the store holds it: key bytes, value, tier.
pub type EntryView = (Seq<u8>, u64, Tier);

/// Position of `key` in the entries, if present.
pub open spec fn index_of_key(s: Seq<EntryView>, key: Seq<u8>) -> Option<int> {
    if exists|i: int| 0 <= i < s.len() && #[trigger] s[i].0 == key {
        Some(choose|i: int| 0 <= i < s.len() && #[trigger] s[i].0 == key)
    } else {
        None
    }
}

/// The value stored under `key`.
pub open spec fn lookup(s: Seq<EntryView>, key: Seq<u8>) -> Option<u64> {
    match index_of_key(s, key) {
        Some(i) => Some(s[i].1),
        None => None,
    }
}

/// No key occurs twice.
pub open spec fn keys_unique(s: Seq<EntryView>) -> bool {
    forall|i: int, j: int| 0 <= i < s.len() && 0 <= j < s.len() && i != j ==> s[i].0 != s[j].0
}

/// The entries after writing `(key, value, tier)`: an existing key is updated in
/// place, a new key is appended when there is room; `None` when the store is full.
pub open spec fn spec_write(s: Seq<EntryView>, key: Seq<u8>, value: u64, tier: Tier) -> Option<Seq<EntryView>> {
    match index_of_key(s, key) {
        Some(i) => Some(s.update(i, (key, value, tier))),
        None => if s.len() >= MAX_ENTRIES {
            None
        } else {
            Some(s.push((key, value, tier)))
        },
    }
}

impl EdisonDb {
    pub closed spec fn view(&self) -> Seq<EntryView> {
        self.entries@.map_values(|e: Entry| (e.key.spec_bytes(), e.value, e.tier))
    }

    pub closed spec fn live(&self) -> bool {
        self.initialized
    }

    /// The store's invariant: bounded and free of duplicate keys.
    pub open spec fn wf(&self) -> bool {
        self.view().len() <= MAX_ENTRIES && keys_unique(self.view())
    }

    /// An empty, not yet initialized store.
    pub fn new() -> (db: Self)
        ensures
            db.wf(),
            db@ == Seq::<EntryView>::empty(),
            !db.live(),
    {
        let db = EdisonDb { entries: Vec::new(), initialized: false };
        assert(db@ =~= Seq::<EntryView>::empty());
        db
    }

    /// Initializes the store once, seeding `boot:proof = 0x4153` (Critical).
    pub fn init(&mut self)
        requires
            old(self).wf(),
        ensures
            final(self).wf(),
            final(self).live(),
            old(self).live() ==> final(self)@ == old(self)@,
            !old(self).live() ==> final(self)@ == spec_write(
                old(self)@,
                ascii_bytes("boot:proof"@),
                0x4153,
                Tier::Critical,
            ).unwrap_or(old(self)@),
    {
        if self.initialized {
            return;
        }
        self.initialized = true;
        proof {
            reveal_strlit("boot:proof");
            vstd::string::is_ascii_spec_bytes("boot:proof");
        }
        assert("boot:proof".spec_bytes() =~= ascii_bytes("boot:proof"@));
        self.write("boot:proof", 0x4153, Tier::Critical);
    }

    fn find(&self, key: &str) -> (r: Option<usize>)
        requires
            self.wf(),
        ensures
            r == match index_of_key(self@, key.spec_bytes()) {
                Some(i) => Some(i as usize),
                None => None::<usize>,
            },
            r matches Some(i) ==> i < self@.len(),
    {
        let kb = key.as_bytes();
        let mut i: usize = 0;
        while i < self.entries.len()
            invariant
                self.wf(),
                kb@ == key.spec_bytes(),
                i <= self@.len(),
                self@.len() == self.entries@.len(),
                forall|k: int| 0 <= k < i ==> #[trigger] self@[k].0 != key.spec_bytes(),
            decreases self.entries.len() - i,
        {
            assert(self@[i as int].0 == self.entries@[i as int].key.spec_bytes());
            if slice_eq(self.entries[i].key.as_bytes(), kb) {
                assert(self@[i as int].0 == key.spec_bytes());
                let ghost c = choose|c: int| 0 <= c < self@.len() && #[trigger] self@[c].0 == key.spec_bytes();
                assert(c == i);
                return Some(i);
            }
            i = i + 1;
        }
        None
    }

    /// Writes (or overwrites) an entry; `false` when the store is full.
    pub fn write(&mut self, key: &'static str, value: u64, tier: Tier) -> (r: bool)
        requires
            old(self).wf(),
        ensures
            final(self).wf(),
            final(self).live() == old(self).live(),
            r == spec_write(old(self)@, key.spec_bytes(), value, tier) is Some,
            r ==> final(self)@ == spec_write(old(self)@, key.spec_bytes(), value, tier)->0,
            !r ==> final(self)@ == old(self)@,
    {
        match self.find(key) {
            Some(i) => {
                self.entries.set(i, Entry { key, value, tier });
                assert(self@ =~= old(self)@.update(i as int, (key.spec_bytes(), value, tier)));
                assert(keys_unique(self@)) by {
                    assert forall|a: int, b: int| 0 <= a < self@.len() && 0 <= b < self@.len() && a != b implies self@[a].0 != self@[b].0 by {
                        if a != i && b != i {
                            assert(self@[a] == old(self)@[a]);
                            assert(self@[b] == old(self)@[b]);
                        } else if a == i {
                            assert(self@[b] == old(self)@[b]);
                            assert(old(self)@[i as int].0 == key.spec_bytes());
                        } else {
                            assert(self@[a] == old(self)@[a]);
                            assert(old(self)@[i as int].0 == key.spec_bytes());
                        }
                    }
                }
                true
            },
            None => {
                if self.entries.len() >= MAX_ENTRIES {
                    return false;
                }
                self.entries.push(Entry { key, value, tier });
                assert(self@ =~= old(self)@.push((key.spec_bytes(), value, tier)));
                assert(keys_unique(self@)) by {
                    assert forall|a: int, b: int| 0 <= a < self@.len() && 0 <= b < self@.len() && a != b implies self@[a].0 != self@[b].0 by {
                        if a < old(self)@.len() && b < old(self)@.len() {
                            assert(self@[a] == old(self)@[a]);
                            assert(self@[b] == old(self)@[b]);
                        } else if a < old(self)@.len() {
                            assert(self@[a] == old(self)@[a]);
                        } else {
                            assert(self@[b] == old(self)@[b]);
                        }
                    }
                }
                true
            },
        }
    }

    /// The value stored under `key`.
    pub fn read(&self, key: &str) -> (r: Option<u64>)
        requires
            self.wf(),
        ensures
            r == lookup(self@, key.spec_bytes()),
    {
        match self.find(key) {
            Some(i) => Some(self.entries[i].value),
            None => None,
        }
    }

    /// Number of entries.
    pub fn count(&self) -> (n: usize)
        ensures
            n == self@.len(),
    {
        self.entries.len()
    }

    pub fn is_live(&self) -> (r: bool)
        ensures
            r == self.live(),
    {
        self.initialized
    }
}

/// Logs an event: writes the event key with the current entry count as its
/// value, in the Noise tier.
pub fn log_event(db: &mut EdisonDb, event: &'static str) -> (r: bool)
    requires
        old(db).wf(),
    ensures
        final(db).wf(),
        final(db).live() == old(db).live(),
        r == spec_write(old(db)@, event.spec_bytes(), old(db)@.len() as u64, Tier::Noise) is Some,
        r ==> final(db)@ == spec_write(old(db)@, event.spec_bytes(), old(db)@.len() as u64, Tier::Noise)->0,
        !r ==> final(db)@ == old(db)@,
{
    let n = db.count() as u64;
    db.write(event, n, Tier::Noise)
}

/// A read after a successful write gives back the written value, and leaves
/// every other key as it was.
pub proof fn lemma_read_after_write(s: Seq<EntryView>, key: Seq<u8>, value: u64, tier: Tier, other: Seq<u8>)
    requires
        keys_unique(s),
        spec_write(s, key, value, tier) is Some,
    ensures
        lookup(spec_write(s, key, value, tier)->0, key) == Some(value),
        other != key ==> lookup(spec_write(s, key, value, tier)->0, other) == lookup(s, other),
{
    let t = spec_write(s, key, value, tier)->0;
    match index_of_key(s, key) {
        Some(i) => {
            assert(t[i].0 == key);
            let c = choose|c: int| 0 <= c < t.len() && #[trigger] t[c].0 == key;
            assert(c == i) by {
                if c != i {
                    assert(t[c] == s[c]);
                }
            }
            if other != key {
                if exists|k: int| 0 <= k < s.len() && #[trigger] s[k].0 == other {
                    let k = choose|k: int| 0 <= k < s.len() && #[trigger] s[k].0 == other;
                    assert(t[k].0 == other);
                    let k2 = choose|k2: int| 0 <= k2 < t.len() && #[trigger] t[k2].0 == other;
                    assert(k2 == k) by {
                        assert(t[k2] == s[k2]);
                    }
                } else {
                    assert forall|k: int| 0 <= k < t.len() implies #[trigger] t[k].0 != other by {
                        if k != i {
                            assert(t[k] == s[k]);
                        }
                    }
                }
            }
        },
        None => {
            assert(t[s.len() as int].0 == key);
            let c = choose|c: int| 0 <= c < t.len() && #[trigger] t[c].0 == key;
            assert(c == s.len()) by {
                if c < s.len() {
                    assert(t[c] == s[c]);
                }
            }
            if other != key {
                if exists|k: int| 0 <= k < s.len() && #[trigger] s[k].0 == other {
                    let k = choose|k: int| 0 <= k < s.len() && #[trigger] s[k].0 == other;
                    assert(t[k].0 == other);
                    let k2 = choose|k2: int| 0 <= k2 < t.len() && #[trigger] t[k2].0 == other;
                    assert(k2 == k) by {
                        if k2 < s.len() {
                            assert(t[k2] == s[k2]);
                        }
                    }
                } else {
                    assert forall|k: int| 0 <= k < t.len() implies #[trigger] t[k].0 != other by {
                        if k < s.len() {
                            assert(t[k] == s[k]);
                        }
                    }
                }
            }
        },
    }
}


/// Writing a key the store already holds always succeeds and keeps the number
/// of entries: writing the same key twice takes the space of one entry.
pub proof fn lemma_rewrite_keeps_count(s: Seq<EntryView>, key: Seq<u8>, v1: u64, t1: Tier, v2: u64, t2: Tier)
    requires
        keys_unique(s),
        spec_write(s, key, v1, t1) is Some,
    ensures
        ({
            let s1 = spec_write(s, key, v1, t1)->0;
            &&& spec_write(s1, key, v2, t2) is Some
            &&& spec_write(s1, key, v2, t2)->0.len() == s1.len()
        }),
{
    lemma_read_after_write(s, key, v1, t1, key);
}

} // verus!
