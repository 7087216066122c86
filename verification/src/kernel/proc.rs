//! Cooperative process table.
//!
//! Single-core, cooperative: processes yield voluntarily. The table holds
//! `MAX_PROCS` slots; each scheduler tick advances the tick counter and hands
//! the CPU to the next Ready (or Running) slot in round-robin order.
//!
//! PID 0 is the kernel: always Running, never killed, never demoted.
use vstd::prelude::*;
use vstd::string::StringSliceAdditionalSpecFns;
use vstd::utf8::valid_utf8;
use crate::bytes::{copy_into, utf8_or_unknown};

verus! {

pub const MAX_PROCS: usize = 8;
/// Bytes of a process name slot.
pub const PROC_NAME_CAP: usize = 16;
/// Longest name `spawn` keeps.
pub const PROC_NAME_MAX: usize = 15;

/// Cooperative process state.
#[derive(Clone, Copy, PartialEq, Eq, Debug, Structural)]
pub enum ProcState {
    /// Slot unused.
    Empty,
    /// Waiting to run.
    Ready,
    /// Currently executing.
    Running,
    /// Waiting on I/O or an event.
    Blocked,
    /// Exited or killed.
    Dead,
}

/// A fixed-size process descriptor.
#[derive(Clone, Copy)]
pub struct ProcDesc {
    pub pid: u8,
    pub state: ProcState,
    /// 0 is the highest priority, 255 the lowest.
    pub priority: u8,
    /// Scheduler ticks consumed.
    pub ticks: u64,
    /// Voluntary yields.
    pub yields: u32,
    /// ASCII name, zero-padded.
    pub name: [u8; PROC_NAME_CAP],
    pub name_len: usize,
}

impl ProcDesc {
    pub open spec fn name_seq(self) -> Seq<u8> {
        self.name@.take(self.name_len as int)
    }

    /// The unused descriptor.
    pub open spec fn is_blank(self) -> bool {
        &&& self.pid == 0
        &&& self.state == ProcState::Empty
        &&& self.priority == 128
        &&& self.ticks == 0
        &&& self.yields == 0
        &&& self.name_len == 0
        &&& self.name@ == Seq::new(PROC_NAME_CAP as nat, |j: int| 0u8)
    }

    pub fn empty() -> (d: Self)
        ensures
            d.is_blank(),
    {
        let d = ProcDesc {
            pid: 0,
            state: ProcState::Empty,
            priority: 128,
            ticks: 0,
            yields: 0,
            name: [0u8; PROC_NAME_CAP],
            name_len: 0,
        };
        assert(d.name@ =~= Seq::new(PROC_NAME_CAP as nat, |j: int| 0u8));
        d
    }

    /// The name as text, `"?"` when it is not valid UTF-8.
    pub fn name_str(&self) -> (r: &str)
        requires
            self.name_len <= PROC_NAME_CAP,
        ensures
            valid_utf8(self.name_seq()) ==> r.spec_bytes() == self.name_seq(),
            !valid_utf8(self.name_seq()) ==> r@ == "?"@,
    {
        let b = self.name.as_slice().split_at(self.name_len).0;
        assert(b@ =~= self.name_seq());
        utf8_or_unknown(b)
    }
}

/// Ready or Running: a slot the scheduler may hand the CPU to.
pub open spec fn runnable(s: ProcState) -> bool {
    s == ProcState::Ready || s == ProcState::Running
}

/// The first runnable slot among `(cur + k) % MAX_PROCS, ..., (cur + MAX_PROCS) % MAX_PROCS`.
pub open spec fn scan_from(p: Seq<ProcDesc>, cur: int, k: int) -> Option<int>
    decreases MAX_PROCS + 1 - k,
{
    if k < 1 || k > MAX_PROCS {
        None
    } else if runnable(p[(cur + k) % (MAX_PROCS as int)].state) {
        Some((cur + k) % (MAX_PROCS as int))
    } else {
        scan_from(p, cur, k + 1)
    }
}

/// The slot the scheduler moves to from `cur`: the next runnable slot in
/// round-robin order (possibly `cur` itself); when no slot is runnable it
/// stays on `cur`.
pub open spec fn next_slot(p: Seq<ProcDesc>, cur: int) -> int {
    match scan_from(p, cur, 1) {
        Some(i) => i,
        None => cur,
    }
}

/// How many steps forward, cyclically, slot `n` lies from slot `cur`; a
/// full turn (`MAX_PROCS`) when `n` is `cur`.
pub open spec fn cyc_dist(cur: int, n: int) -> int {
    if n > cur {
        n - cur
    } else {
        n - cur + MAX_PROCS
    }
}

/// First slot at or after `i` in state Empty.
pub open spec fn first_empty(p: Seq<ProcDesc>, i: int) -> Option<int>
    decreases p.len() - i,
{
    if i < 0 || i >= p.len() {
        None
    } else if p[i].state == ProcState::Empty {
        Some(i)
    } else {
        first_empty(p, i + 1)
    }
}

/// First non-Empty slot at or after `i` holding `pid`.
pub open spec fn first_with_pid(p: Seq<ProcDesc>, pid: u8, i: int) -> Option<int>
    decreases p.len() - i,
{
    if i < 0 || i >= p.len() {
        None
    } else if p[i].pid == pid && p[i].state != ProcState::Empty {
        Some(i)
    } else {
        first_with_pid(p, pid, i + 1)
    }
}

/// Number of non-Empty slots.
pub open spec fn live_count(p: Seq<ProcDesc>) -> nat
    decreases p.len(),
{
    if p.len() == 0 {
        0
    } else {
        live_count(p.drop_last()) + if p.last().state != ProcState::Empty {
            1nat
        } else {
            0nat
        }
    }
}

/// A freshly spawned descriptor: the name cut to `PROC_NAME_MAX` bytes and
/// zero-padded, no ticks, no yields.
pub open spec fn spawned(d: ProcDesc, pid: u8, state: ProcState, priority: u8, name: Seq<u8>) -> bool {
    let n = if name.len() < PROC_NAME_MAX { name.len() as int } else { PROC_NAME_MAX as int };
    &&& d.pid == pid
    &&& d.state == state
    &&& d.priority == priority
    &&& d.ticks == 0
    &&& d.yields == 0
    &&& d.name_len == n
    &&& d.name@ == name.take(n) + Seq::new((PROC_NAME_CAP - n) as nat, |j: int| 0u8)
}

/// The slot's descriptor after the tick's accounting: a Running slot is
/// charged one tick.
pub open spec fn charged(d: ProcDesc) -> ProcDesc {
    if d.state == ProcState::Running {
        ProcDesc { ticks: (d.ticks + 1) as u64, ..d }
    } else {
        d
    }
}

/// The slot left behind by a switch: a Running non-kernel process yields
/// (back to Ready, one more yield); the kernel and non-Running slots stay.
pub open spec fn yielded(d: ProcDesc) -> ProcDesc {
    if d.pid != 0 && d.state == ProcState::Running {
        ProcDesc { state: ProcState::Ready, yields: (d.yields + 1) as u32, ..d }
    } else {
        d
    }
}

/// Slots and current index after one scheduler tick from slots `p` at `cur`.
pub open spec fn tick_slots(p: Seq<ProcDesc>, cur: int) -> (Seq<ProcDesc>, int) {
    let p0 = p.update(cur, charged(p[cur]));
    let nx = next_slot(p0, cur);
    if nx == cur {
        (p0, cur)
    } else {
        (p0.update(cur, yielded(p0[cur])).update(nx, ProcDesc { state: ProcState::Running, ..p0[nx] }), nx)
    }
}

/// The process table.
pub struct ProcessTable {
    procs: Vec<ProcDesc>,
    count: usize,
    current: usize,
    tick_total: u64,
    next_pid: u8,
}

impl ProcessTable {
    /// The slots.
    pub closed spec fn slots(&self) -> Seq<ProcDesc> {
        self.procs@
    }

    /// The spawn counter (`proc_count`).
    pub closed spec fn count_v(&self) -> nat {
        self.count as nat
    }

    /// Index of the current slot.
    pub closed spec fn current_v(&self) -> int {
        self.current as int
    }

    pub closed spec fn ticks_v(&self) -> nat {
        self.tick_total as nat
    }

    /// The PID the next spawn hands out.
    pub closed spec fn next_pid_v(&self) -> u8 {
        self.next_pid
    }

    /// The table's invariant: `MAX_PROCS` slots, a current slot, names that
    /// fit, and no slot charged more ticks than have passed.
    pub open spec fn wf(&self) -> bool {
        &&& self.slots().len() == MAX_PROCS
        &&& 0 <= self.current_v() < MAX_PROCS
        &&& forall|i: int|
            0 <= i < MAX_PROCS ==> (#[trigger] self.slots()[i]).name_len <= PROC_NAME_MAX
                && self.slots()[i].ticks <= self.ticks_v()
    }

    /// The spawn counter equals the number of non-Empty slots.
    pub open spec fn count_consistent(&self) -> bool {
        self.count_v() == live_count(self.slots())
    }

    /// `b` is `a` after `spawn(name, state, priority)` returned `r`.
    pub open spec fn spawn_rel(a: &Self, b: &Self, name: Seq<u8>, state: ProcState, priority: u8, r: Option<u8>) -> bool {
        match first_empty(a.slots(), 0) {
            None => r is None && b.slots() == a.slots() && b.count_v() == a.count_v() && b.current_v()
                == a.current_v() && b.ticks_v() == a.ticks_v() && b.next_pid_v() == a.next_pid_v(),
            Some(i) => {
                &&& r == Some(a.next_pid_v())
                &&& b.slots() == a.slots().update(i, b.slots()[i])
                &&& spawned(b.slots()[i], a.next_pid_v(), state, priority, name)
                &&& b.count_v() == a.count_v() + 1
                &&& b.current_v() == a.current_v()
                &&& b.ticks_v() == a.ticks_v()
                &&& b.next_pid_v() == (if a.next_pid_v() == 255 { 0 } else { (a.next_pid_v() + 1) as u8 })
            },
        }
    }

    /// An empty table: every slot unused, no ticks, PIDs from 0.
    pub fn new() -> (t: Self)
        ensures
            t.wf(),
            t.count_consistent(),
            forall|i: int| 0 <= i < MAX_PROCS ==> (#[trigger] t.slots()[i]).is_blank(),
            t.count_v() == 0,
            t.current_v() == 0,
            t.ticks_v() == 0,
            t.next_pid_v() == 0,
    {
        let mut procs: Vec<ProcDesc> = Vec::new();
        let mut i: usize = 0;
        while i < MAX_PROCS
            invariant
                i <= MAX_PROCS,
                procs@.len() == i,
                forall|k: int| 0 <= k < i ==> (#[trigger] procs@[k]).is_blank(),
            decreases MAX_PROCS - i,
        {
            procs.push(ProcDesc::empty());
            i = i + 1;
        }
        let t = ProcessTable { procs, count: 0, current: 0, tick_total: 0, next_pid: 0 };
        proof {
            lemma_live_count_blank(t.procs@);
        }
        t
    }

    fn find_empty(&self) -> (r: Option<usize>)
        requires
            self.wf(),
        ensures
            r == match first_empty(self.slots(), 0) {
                Some(i) => Some(i as usize),
                None => None::<usize>,
            },
    {
        let mut i: usize = 0;
        while i < MAX_PROCS
            invariant
                self.wf(),
                i <= MAX_PROCS,
                first_empty(self.slots(), 0) == first_empty(self.slots(), i as int),
            decreases MAX_PROCS - i,
        {
            if self.procs[i].state == ProcState::Empty {
                return Some(i);
            }
            i = i + 1;
        }
        None
    }

    /// Registers a process; its PID, or `None` when no slot is free.
    pub fn spawn(&mut self, name: &[u8], state: ProcState, priority: u8) -> (r: Option<u8>)
        requires
            old(self).wf(),
            old(self).count_v() < usize::MAX,
        ensures
            final(self).wf(),
            Self::spawn_rel(old(self), final(self), name@, state, priority, r),
            old(self).count_consistent() && state != ProcState::Empty ==> final(self).count_consistent(),
    {
        let slot = match self.find_empty() {
            Some(s) => s,
            None => {
                return None;
            },
        };
        proof {
            lemma_first_empty_found(self.slots(), 0);
        }
        let pid = self.next_pid;
        self.next_pid = self.next_pid.wrapping_add(1);
        let mut desc = ProcDesc::empty();
        desc.pid = pid;
        desc.state = state;
        desc.priority = priority;
        let nlen = if name.len() < PROC_NAME_MAX { name.len() } else { PROC_NAME_MAX };
        copy_into(&mut desc.name, 0, name, nlen);
        desc.name_len = nlen;
        assert(desc.name@ =~= name@.take(nlen as int) + Seq::new(
            (PROC_NAME_CAP - nlen) as nat,
            |j: int| 0u8,
        ));
        let ghost before = self.procs@;
        self.procs.set(slot, desc);
        self.count = self.count + 1;
        proof {
            lemma_live_count_update(before, slot as int, desc);
            assert(self.slots() =~= before.update(slot as int, self.slots()[slot as int]));
        }
        Some(pid)
    }

    fn find_pid(&self, pid: u8) -> (r: Option<usize>)
        requires
            self.wf(),
        ensures
            r == match first_with_pid(self.slots(), pid, 0) {
                Some(i) => Some(i as usize),
                None => None::<usize>,
            },
    {
        let mut i: usize = 0;
        while i < MAX_PROCS
            invariant
                self.wf(),
                i <= MAX_PROCS,
                first_with_pid(self.slots(), pid, 0) == first_with_pid(self.slots(), pid, i as int),
            decreases MAX_PROCS - i,
        {
            if self.procs[i].pid == pid && self.procs[i].state != ProcState::Empty {
                return Some(i);
            }
            i = i + 1;
        }
        None
    }

    /// Kills a process by PID: its slot becomes Dead. PID 0, the kernel,
    /// cannot be killed; `false` also when no live slot holds `pid`.
    pub fn kill(&mut self, pid: u8) -> (r: bool)
        requires
            old(self).wf(),
        ensures
            final(self).wf(),
            final(self).count_v() == old(self).count_v(),
            final(self).current_v() == old(self).current_v(),
            final(self).ticks_v() == old(self).ticks_v(),
            final(self).next_pid_v() == old(self).next_pid_v(),
            pid == 0 ==> !r && final(self).slots() == old(self).slots(),
            pid != 0 ==> match first_with_pid(old(self).slots(), pid, 0) {
                None => !r && final(self).slots() == old(self).slots(),
                Some(i) => r && final(self).slots() == old(self).slots().update(
                    i,
                    ProcDesc { state: ProcState::Dead, ..old(self).slots()[i] },
                ),
            },
            forall|i: int|
                0 <= i < MAX_PROCS && (#[trigger] old(self).slots()[i]).pid == 0 ==> final(self).slots()[i]
                    == old(self).slots()[i],
            old(self).count_consistent() ==> final(self).count_consistent(),
    {
        if pid == 0 {
            return false;
        }
        match self.find_pid(pid) {
            None => false,
            Some(i) => {
                proof {
                    lemma_first_with_pid_found(self.slots(), pid, 0);
                }
                let ghost before = self.procs@;
                let mut d = self.procs[i];
                d.state = ProcState::Dead;
                self.procs.set(i, d);
                proof {
                    lemma_live_count_update(before, i as int, d);
                }
                true
            },
        }
    }

    fn scan_next(&self, cur: usize) -> (n: usize)
        requires
            self.wf(),
            cur < MAX_PROCS,
        ensures
            n == next_slot(self.slots(), cur as int),
            n < MAX_PROCS,
    {
        let mut k: usize = 1;
        while k <= MAX_PROCS
            invariant
                self.wf(),
                cur < MAX_PROCS,
                1 <= k <= MAX_PROCS + 1,
                scan_from(self.slots(), cur as int, 1) == scan_from(self.slots(), cur as int, k as int),
            decreases MAX_PROCS + 1 - k,
        {
            let idx = (cur + k) % MAX_PROCS;
            let s = self.procs[idx].state;
            if s == ProcState::Ready || s == ProcState::Running {
                return idx;
            }
            k = k + 1;
        }
        cur
    }

    /// One cooperative scheduling step; the PID now Running.
    pub fn scheduler_tick(&mut self) -> (r: u8)
        requires
            old(self).wf(),
            old(self).ticks_v() < u64::MAX,
            ({
                let p = old(self).slots();
                let cur = old(self).current_v();
                next_slot(p, cur) != cur && p[cur].pid != 0 && p[cur].state == ProcState::Running
                    ==> p[cur].yields < u32::MAX
            }),
        ensures
            final(self).wf(),
            final(self).ticks_v() == old(self).ticks_v() + 1,
            (final(self).slots(), final(self).current_v()) == tick_slots(
                old(self).slots(),
                old(self).current_v(),
            ),
            final(self).count_v() == old(self).count_v(),
            final(self).next_pid_v() == old(self).next_pid_v(),
            r == final(self).slots()[final(self).current_v()].pid,
            final(self).slots()[final(self).current_v()].state == ProcState::Running
                || final(self).current_v() == old(self).current_v(),
            forall|i: int|
                0 <= i < MAX_PROCS && (#[trigger] old(self).slots()[i]).pid == 0 && old(self).slots()[i].state
                    == ProcState::Running ==> final(self).slots()[i].state == ProcState::Running,
            (forall|i: int| 0 <= i < MAX_PROCS ==> !runnable(#[trigger] old(self).slots()[i].state))
                ==> final(self).slots() == old(self).slots() && final(self).current_v() == old(self).current_v(),
            old(self).count_consistent() ==> final(self).count_consistent(),
            runnable(old(self).slots()[(old(self).current_v() + 1) % (MAX_PROCS as int)].state)
                ==> final(self).current_v() == (old(self).current_v() + 1) % (MAX_PROCS as int),
            forall|l: int|
                1 <= l < cyc_dist(old(self).current_v(), final(self).current_v()) ==> !runnable(
                    #[trigger] old(self).slots()[(old(self).current_v() + l) % (MAX_PROCS as int)].state,
                ),
    {
        self.tick_total = self.tick_total + 1;
        let cur = self.current;
        let ghost p = self.procs@;
        if self.procs[cur].state == ProcState::Running {
            let mut d = self.procs[cur];
            d.ticks = d.ticks + 1;
            self.procs.set(cur, d);
        }
        let ghost p0 = self.procs@;
        proof {
            assert(p0 =~= p.update(cur as int, charged(p[cur as int])));
            lemma_live_count_update(p, cur as int, charged(p[cur as int]));
        }
        let next = self.scan_next(cur);
        proof {
            lemma_scan_same_states(p, p0, cur as int, 1);
            lemma_next_slot_round_robin(p, cur as int);
        }
        if next != cur {
            if self.procs[cur].pid != 0 && self.procs[cur].state == ProcState::Running {
                let mut d = self.procs[cur];
                d.state = ProcState::Ready;
                d.yields = d.yields + 1;
                self.procs.set(cur, d);
            }
            let ghost p1 = self.procs@;
            proof {
                assert(p1 =~= p0.update(cur as int, yielded(p0[cur as int])));
                lemma_live_count_update(p0, cur as int, yielded(p0[cur as int]));
            }
            let mut e = self.procs[next];
            e.state = ProcState::Running;
            self.procs.set(next, e);
            self.current = next;
            proof {
                lemma_live_count_update(p1, next as int, e);
                lemma_scan_runnable(p0, cur as int, 1);
                if forall|i: int| 0 <= i < MAX_PROCS ==> !runnable(#[trigger] p[i].state) {
                    assert(!runnable(p[cur as int].state));
                    assert(p0 =~= p);
                    assert(!runnable(p[next as int].state));
                }
            }
        } else {
            proof {
                if forall|i: int| 0 <= i < MAX_PROCS ==> !runnable(#[trigger] p[i].state) {
                    assert(!runnable(p[cur as int].state));
                    assert(p0 =~= p);
                }
            }
        }
        self.procs[self.current].pid
    }

    /// Snapshot of slot `idx`; `None` for an unused slot or an index past the table.
    pub fn proc_at(&self, idx: usize) -> (r: Option<ProcDesc>)
        requires
            self.wf(),
        ensures
            idx >= MAX_PROCS ==> r is None,
            idx < MAX_PROCS ==> r == (if self.slots()[idx as int].state == ProcState::Empty {
                None::<ProcDesc>
            } else {
                Some(self.slots()[idx as int])
            }),
    {
        if idx >= MAX_PROCS {
            return None;
        }
        let p = self.procs[idx];
        if p.state == ProcState::Empty {
            None
        } else {
            Some(p)
        }
    }

    /// Number of processes spawned into the table.
    pub fn proc_count(&self) -> (n: usize)
        ensures
            n == self.count_v(),
    {
        self.count
    }

    /// The global tick counter.
    pub fn tick_total(&self) -> (n: u64)
        ensures
            n == self.ticks_v(),
    {
        self.tick_total
    }

    /// PID of the current slot.
    pub fn current_pid(&self) -> (pid: u8)
        requires
            self.wf(),
        ensures
            pid == self.slots()[self.current_v()].pid,
    {
        self.procs[self.current]
            .pid
    }

    /// Registers the three system processes: `[kernel]` (Running, priority
    /// 0), `[shell]` and `[desktop]` (Ready, priority 64), in that order.
    pub fn boot_register(&mut self)
        requires
            old(self).wf(),
            old(self).count_v() + 3 <= usize::MAX,
        ensures
            final(self).wf(),
            exists|t1: Self, t2: Self, r1: Option<u8>, r2: Option<u8>, r3: Option<u8>|
                {
                    &&& #[trigger] Self::spawn_rel(
                        old(self),
                        &t1,
                        crate::bytes::ascii_bytes("[kernel]"@),
                        ProcState::Running,
                        0,
                        r1,
                    )
                    &&& #[trigger] Self::spawn_rel(
                        &t1,
                        &t2,
                        crate::bytes::ascii_bytes("[shell]"@),
                        ProcState::Ready,
                        64,
                        r2,
                    )
                    &&& #[trigger] Self::spawn_rel(
                        &t2,
                        final(self),
                        crate::bytes::ascii_bytes("[desktop]"@),
                        ProcState::Ready,
                        64,
                        r3,
                    )
                },
            old(self).count_consistent() ==> final(self).count_consistent(),
    {
        proof {
            reveal_strlit("[kernel]");
            reveal_strlit("[shell]");
            reveal_strlit("[desktop]");
        }
        let r1 = self.spawn(crate::bytes::lit("[kernel]"), ProcState::Running, 0);
        let ghost t1 = *self;
        let r2 = self.spawn(crate::bytes::lit("[shell]"), ProcState::Ready, 64);
        let ghost t2 = *self;
        let r3 = self.spawn(crate::bytes::lit("[desktop]"), ProcState::Ready, 64);
        assert(Self::spawn_rel(
            old(self),
            &t1,
            crate::bytes::ascii_bytes("[kernel]"@),
            ProcState::Running,
            0,
            r1,
        ));
    }
}

proof fn lemma_first_empty_found(p: Seq<ProcDesc>, i: int)
    requires
        first_empty(p, i) is Some,
    ensures
        i <= first_empty(p, i)->0 < p.len(),
        p[first_empty(p, i)->0].state == ProcState::Empty,
    decreases p.len() - i,
{
    if 0 <= i < p.len() && p[i].state != ProcState::Empty {
        lemma_first_empty_found(p, i + 1);
    }
}

proof fn lemma_first_with_pid_found(p: Seq<ProcDesc>, pid: u8, i: int)
    requires
        first_with_pid(p, pid, i) is Some,
    ensures
        i <= first_with_pid(p, pid, i)->0 < p.len(),
        p[first_with_pid(p, pid, i)->0].pid == pid,
        p[first_with_pid(p, pid, i)->0].state != ProcState::Empty,
    decreases p.len() - i,
{
    if 0 <= i < p.len() && !(p[i].pid == pid && p[i].state != ProcState::Empty) {
        lemma_first_with_pid_found(p, pid, i + 1);
    }
}

proof fn lemma_scan_runnable(p: Seq<ProcDesc>, cur: int, k: int)
    requires
        scan_from(p, cur, k) is Some,
        0 <= cur,
    ensures
        0 <= scan_from(p, cur, k)->0 < MAX_PROCS,
        runnable(p[scan_from(p, cur, k)->0].state),
    decreases MAX_PROCS + 1 - k,
{
    if 1 <= k <= MAX_PROCS && !runnable(p[(cur + k) % (MAX_PROCS as int)].state) {
        lemma_scan_runnable(p, cur, k + 1);
    }
}

/// The round-robin search reads only the slots' states.
proof fn lemma_scan_same_states(p: Seq<ProcDesc>, q: Seq<ProcDesc>, cur: int, k: int)
    requires
        p.len() == q.len() == MAX_PROCS,
        forall|i: int| 0 <= i < MAX_PROCS ==> (#[trigger] p[i]).state == q[i].state,
        0 <= cur,
    ensures
        scan_from(p, cur, k) == scan_from(q, cur, k),
    decreases MAX_PROCS + 1 - k,
{
    if 1 <= k <= MAX_PROCS {
        let j = (cur + k) % (MAX_PROCS as int);
        assert(p[j].state == q[j].state);
        lemma_scan_same_states(p, q, cur, k + 1);
    }
}

/// What the search from step `k` finds: the slot `j` steps after `cur`, the
/// first runnable one from step `k` on; none when no slot from step `k` to a
/// full turn is runnable.
proof fn lemma_scan_first(p: Seq<ProcDesc>, cur: int, k: int) -> (j: int)
    requires
        1 <= k,
        0 <= cur < MAX_PROCS,
    ensures
        scan_from(p, cur, k) matches Some(i) ==> {
            &&& k <= j <= MAX_PROCS
            &&& i == (cur + j) % (MAX_PROCS as int)
            &&& runnable(p[i].state)
            &&& forall|l: int| k <= l < j ==> !runnable(#[trigger] p[(cur + l) % (MAX_PROCS as int)].state)
        },
        scan_from(p, cur, k) is None ==> forall|l: int|
            k <= l <= MAX_PROCS ==> !runnable(#[trigger] p[(cur + l) % (MAX_PROCS as int)].state),
    decreases MAX_PROCS + 1 - k,
{
    if k > MAX_PROCS {
        k
    } else if runnable(p[(cur + k) % (MAX_PROCS as int)].state) {
        k
    } else {
        let j = lemma_scan_first(p, cur, k + 1);
        assert forall|l: int| k <= l <= MAX_PROCS && scan_from(p, cur, k) is None implies !runnable(
            #[trigger] p[(cur + l) % (MAX_PROCS as int)].state,
        ) by {
            if l > k {
                assert(k + 1 <= l);
            }
        }
        j
    }
}

/// The scheduler's choice is round-robin: from `cur` it moves to the first
/// runnable slot after it in cyclic order. So the slot right after `cur` is
/// chosen whenever it is runnable, no runnable slot is passed over, a slot
/// other than `cur` is chosen only when it is runnable, and `cur` is kept
/// only when no other slot is runnable.
pub proof fn lemma_next_slot_round_robin(p: Seq<ProcDesc>, cur: int)
    requires
        p.len() == MAX_PROCS,
        0 <= cur < MAX_PROCS,
    ensures
        0 <= next_slot(p, cur) < MAX_PROCS,
        runnable(p[(cur + 1) % (MAX_PROCS as int)].state) ==> next_slot(p, cur) == (cur + 1) % (
        MAX_PROCS as int),
        forall|l: int|
            1 <= l < cyc_dist(cur, next_slot(p, cur)) ==> !runnable(
                #[trigger] p[(cur + l) % (MAX_PROCS as int)].state,
            ),
        next_slot(p, cur) != cur ==> runnable(p[next_slot(p, cur)].state),
{
    let j = lemma_scan_first(p, cur, 1);
    let n = next_slot(p, cur);
    match scan_from(p, cur, 1) {
        Some(i) => {
            assert(n == i);
            if j < MAX_PROCS {
                assert(cyc_dist(cur, n) == j);
            } else {
                assert(n == cur);
            }
        },
        None => {
            assert(n == cur);
        },
    }
}

proof fn lemma_scan_none(p: Seq<ProcDesc>, cur: int, k: int, j: int)
    requires
        scan_from(p, cur, k) is None,
        1 <= k <= j <= MAX_PROCS,
    ensures
        !runnable(p[(cur + j) % (MAX_PROCS as int)].state),
    decreases j - k,
{
    if k < j {
        lemma_scan_none(p, cur, k + 1, j);
    }
}

/// Some runnable slot means the round-robin search finds one.
proof fn lemma_scan_covers(p: Seq<ProcDesc>, cur: int, i: int)
    requires
        0 <= cur < MAX_PROCS,
        0 <= i < MAX_PROCS,
        runnable(p[i].state),
    ensures
        scan_from(p, cur, 1) is Some,
{
    let j = if i > cur { i - cur } else { i - cur + MAX_PROCS };
    assert((cur + j) % (MAX_PROCS as int) == i);
    if scan_from(p, cur, 1) is None {
        lemma_scan_none(p, cur, 1, j);
    }
}

proof fn lemma_live_count_blank(p: Seq<ProcDesc>)
    requires
        forall|k: int| 0 <= k < p.len() ==> (#[trigger] p[k]).is_blank(),
    ensures
        live_count(p) == 0,
    decreases p.len(),
{
    if p.len() > 0 {
        lemma_live_count_blank(p.drop_last());
    }
}

/// Replacing slot `i` changes the live count by the change in that slot alone.
proof fn lemma_live_count_update(p: Seq<ProcDesc>, i: int, d: ProcDesc)
    requires
        0 <= i < p.len(),
    ensures
        live_count(p.update(i, d)) + (if p[i].state != ProcState::Empty {
            1int
        } else {
            0int
        }) == live_count(p) + (if d.state != ProcState::Empty {
            1int
        } else {
            0int
        }),
    decreases p.len(),
{
    let q = p.update(i, d);
    if i == p.len() - 1 {
        assert(q.drop_last() =~= p.drop_last());
    } else {
        assert(q.drop_last() =~= p.drop_last().update(i, d));
        lemma_live_count_update(p.drop_last(), i, d);
    }
}

} // verus!
