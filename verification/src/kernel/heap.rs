//! Bump allocator over the sovereign heap arena.
//!
//! Addresses run from `HEAP_START` to `HEAP_END`; allocation moves a bump
//! pointer forward and never frees, except that `reset` frees the whole arena.
//! Address 0 stands for the null pointer (zero-sized request or out of memory).
use vstd::prelude::*;
use vstd::arithmetic::power2::pow2;

verus! {

pub const HEAP_START: usize = 0x4100_0000;
pub const HEAP_END: usize = 0x43F0_0000;
pub const HEAP_SIZE: usize = 0x02F0_0000;

/// A power of two that fits the machine word.
pub open spec fn is_pow2(a: usize) -> bool {
    exists|n: nat| n < usize::BITS && a == pow2(n)
}

/// `r` is the first multiple of `a` at or after `x`.
pub open spec fn aligned_up(r: int, x: int, a: int) -> bool {
    r % a == 0 && x <= r < x + a
}

proof fn lemma_align_up(x: usize, a: usize)
    requires
        is_pow2(a),
        x + a - 1 <= usize::MAX,
    ensures
        aligned_up(((x + a - 1) as usize & !((a - 1) as usize)) as int, x as int, a as int),
{
    let n = choose|n: nat| n < usize::BITS && a == pow2(n);
    vstd::arithmetic::power2::lemma_pow2_pos(n);
    let m = (a - 1) as usize;
    let y = (x + m) as usize;
    let r = y & !m;
    assert(r & m == 0 && r <= y && y - r <= m) by (bit_vector)
        requires
            y == x + m,
            r == y & !m,
    ;
    vstd::bits::lemma_usize_low_bits_mask_is_mod(r, n);
    assert(m == vstd::bits::low_bits_mask(n) as usize);
}

/// The allocator: the arena's bytes, the bump pointer, and counters.
pub struct BumpAllocator {
    mem: Vec<u8>,
    bump: usize,
    count: usize,
    requested: usize,
}

impl BumpAllocator {
    /// The arena's bytes; the byte at address `a` is `memory()[a - HEAP_START]`.
    pub closed spec fn memory(&self) -> Seq<u8> {
        self.mem@
    }

    /// The bump pointer: the first address not yet handed out.
    pub closed spec fn bump_v(&self) -> int {
        self.bump as int
    }

    pub closed spec fn count_v(&self) -> int {
        self.count as int
    }

    pub closed spec fn requested_v(&self) -> int {
        self.requested as int
    }

    /// The allocator's invariant: the bump pointer stays in the heap and the
    /// counters never exceed what was handed out.
    pub open spec fn wf(&self) -> bool {
        &&& self.memory().len() == HEAP_SIZE
        &&& HEAP_START <= self.bump_v() <= HEAP_END
        &&& 0 <= self.count_v() <= self.bump_v() - HEAP_START
        &&& 0 <= self.requested_v() <= self.bump_v() - HEAP_START
    }

    /// `b` is `a` after `alloc_block(size, align)` returned `r`.
    pub open spec fn alloc_rel(a: &Self, b: &Self, size: usize, align: usize, r: usize) -> bool {
        let fits = exists|p: int| aligned_up(p, a.bump_v(), align as int) && p + size <= HEAP_END;
        if size == 0 || !fits {
            r == 0 && b.bump_v() == a.bump_v() && b.count_v() == a.count_v() && b.requested_v()
                == a.requested_v()
        } else {
            &&& aligned_up(r as int, a.bump_v(), align as int)
            &&& b.bump_v() == r + size
            &&& b.count_v() == a.count_v() + 1
            &&& b.requested_v() == a.requested_v() + size
        }
    }

    /// A fresh arena: all zero, nothing handed out.
    pub fn new() -> (h: Self)
        ensures
            h.wf(),
            h.bump_v() == HEAP_START,
            h.count_v() == 0,
            h.requested_v() == 0,
            h.memory() == Seq::new(HEAP_SIZE as nat, |i: int| 0u8),
    {
        let mem = vec![0u8; HEAP_SIZE];
        let h = BumpAllocator { mem, bump: HEAP_START, count: 0, requested: 0 };
        assert(h.memory() =~= Seq::new(HEAP_SIZE as nat, |i: int| 0u8));
        h
    }

    /// Allocates `size` bytes aligned to `align`; the block's address, or 0
    /// for a zero-sized request or when the heap is exhausted.
    pub fn alloc_block(&mut self, size: usize, align: usize) -> (r: usize)
        requires
            old(self).wf(),
            is_pow2(align),
            old(self).bump_v() + align - 1 <= usize::MAX,
        ensures
            final(self).wf(),
            Self::alloc_rel(old(self), final(self), size, align, r),
            final(self).memory() == old(self).memory(),
            r != 0 ==> HEAP_START <= r && r + size <= HEAP_END && (r as int) % (align as int) == 0,
    {
        if size == 0 {
            return 0;
        }
        proof {
            let n = choose|n: nat| n < usize::BITS && align == pow2(n);
            vstd::arithmetic::power2::lemma_pow2_pos(n);
        }
        let mask = align - 1;
        let aligned = (self.bump + mask) & !mask;
        proof {
            lemma_align_up(self.bump, align);
        }
        let fits = aligned <= HEAP_END && size <= HEAP_END - aligned;
        if !fits {
            assert forall|p: int| aligned_up(p, old(self).bump_v(), align as int) implies !(p + size
                <= HEAP_END) by {
                lemma_aligned_unique(p, aligned as int, self.bump as int, align as int);
            }
            return 0;
        }
        self.bump = aligned + size;
        self.count = self.count + 1;
        self.requested = self.requested + size;
        aligned
    }

    /// `alloc_block(size, 8)`.
    pub fn alloc8(&mut self, size: usize) -> (r: usize)
        requires
            old(self).wf(),
        ensures
            final(self).wf(),
            Self::alloc_rel(old(self), final(self), size, 8, r),
            final(self).memory() == old(self).memory(),
    {
        proof {
            vstd::arithmetic::power2::lemma2_to64();
            assert(8 == pow2(3));
        }
        self.alloc_block(size, 8)
    }

    /// `alloc_block`, then the block is filled with zeros.
    pub fn alloc_zeroed(&mut self, size: usize, align: usize) -> (r: usize)
        requires
            old(self).wf(),
            is_pow2(align),
            old(self).bump_v() + align - 1 <= usize::MAX,
        ensures
            final(self).wf(),
            Self::alloc_rel(old(self), final(self), size, align, r),
            r == 0 ==> final(self).memory() == old(self).memory(),
            r != 0 ==> final(self).memory() == old(self).memory().subrange(0, r - HEAP_START) + Seq::new(
                size as nat,
                |i: int| 0u8,
            ) + old(self).memory().subrange(r + size - HEAP_START, HEAP_SIZE as int),
    {
        let r = self.alloc_block(size, align);
        if r != 0 {
            let off = r - HEAP_START;
            let mut i: usize = 0;
            while i < size
                invariant
                    self.wf(),
                    off + size <= HEAP_SIZE,
                    off == r - HEAP_START,
                    old(self).memory().len() == HEAP_SIZE,
                    i <= size,
                    Self::alloc_rel(old(self), self, size, align, r),
                    self.memory() =~= old(self).memory().subrange(0, off as int) + Seq::new(
                        i as nat,
                        |j: int| 0u8,
                    ) + old(self).memory().subrange(off + i, HEAP_SIZE as int),
                decreases size - i,
            {
                self.mem.set(off + i, 0);
                i = i + 1;
            }
        }
        r
    }

    /// `alloc_block(data.len(), 1)`, then `data` is copied into the block; the
    /// block's address (0 when nothing was allocated) and `data.len()`.
    pub fn alloc_bytes(&mut self, data: &[u8]) -> (r: (usize, usize))
        requires
            old(self).wf(),
        ensures
            final(self).wf(),
            Self::alloc_rel(old(self), final(self), data@.len() as usize, 1, r.0),
            r.1 == data@.len(),
            r.0 == 0 ==> final(self).memory() == old(self).memory(),
            r.0 != 0 ==> final(self).memory() == old(self).memory().subrange(0, r.0 - HEAP_START) + data@
                + old(self).memory().subrange(r.0 + data@.len() - HEAP_START, HEAP_SIZE as int),
    {
        proof {
            vstd::arithmetic::power2::lemma2_to64();
            assert(1 == pow2(0));
        }
        let r = self.alloc_block(data.len(), 1);
        if r != 0 {
            let off = r - HEAP_START;
            let n = data.len();
            let mut i: usize = 0;
            while i < n
                invariant
                    self.wf(),
                    n == data@.len(),
                    off + n <= HEAP_SIZE,
                    off == r - HEAP_START,
                    old(self).memory().len() == HEAP_SIZE,
                    i <= n,
                    Self::alloc_rel(old(self), self, data@.len() as usize, 1, r),
                    self.memory() =~= old(self).memory().subrange(0, off as int) + data@.take(i as int)
                        + old(self).memory().subrange(off + i, HEAP_SIZE as int),
                decreases n - i,
            {
                self.mem.set(off + i, data[i]);
                i = i + 1;
            }
            assert(data@.take(n as int) =~= data@);
        }
        (r, data.len())
    }

    /// Space for `count` elements of `elem_size` bytes aligned to `align`
    /// (the element type's size and alignment).
    pub fn alloc_slice(&mut self, elem_size: usize, elem_align: usize, count: usize) -> (r: usize)
        requires
            old(self).wf(),
            is_pow2(elem_align),
            elem_size * count <= usize::MAX,
            old(self).bump_v() + elem_align - 1 <= usize::MAX,
        ensures
            final(self).wf(),
            Self::alloc_rel(old(self), final(self), (elem_size * count) as usize, elem_align, r),
            final(self).memory() == old(self).memory(),
    {
        self.alloc_block(elem_size * count, elem_align)
    }

    /// Frees the whole arena (its bytes are left as they are).
    pub fn reset(&mut self)
        requires
            old(self).wf(),
        ensures
            final(self).wf(),
            final(self).bump_v() == HEAP_START,
            final(self).count_v() == 0,
            final(self).requested_v() == 0,
            final(self).memory() == old(self).memory(),
    {
        self.bump = HEAP_START;
        self.count = 0;
        self.requested = 0;
    }

    /// Bytes handed out so far, alignment padding included.
    pub fn bytes_used(&self) -> (n: usize)
        requires
            self.wf(),
        ensures
            n == self.bump_v() - HEAP_START,
    {
        self.bump - HEAP_START
    }

    /// Bytes left in the heap.
    pub fn bytes_free(&self) -> (n: usize)
        requires
            self.wf(),
        ensures
            n == HEAP_END - self.bump_v(),
    {
        if self.bump > HEAP_END {
            0
        } else {
            HEAP_END - self.bump
        }
    }

    /// Number of successful allocations.
    pub fn alloc_count(&self) -> (n: usize)
        ensures
            n == self.count_v(),
    {
        self.count
    }

    /// Bytes requested by successful allocations (padding excluded).
    pub fn bytes_requested(&self) -> (n: usize)
        ensures
            n == self.requested_v(),
    {
        self.requested
    }

    /// The byte at address `addr`.
    pub fn read_byte(&self, addr: usize) -> (b: u8)
        requires
            self.wf(),
            HEAP_START <= addr < HEAP_END,
        ensures
            b == self.memory()[addr - HEAP_START],
    {
        self.mem[addr - HEAP_START]
    }
}

proof fn lemma_aligned_unique(p: int, q: int, x: int, a: int)
    requires
        a > 0,
        aligned_up(p, x, a),
        aligned_up(q, x, a),
    ensures
        p == q,
{
    assert(p == a * (p / a)) by (nonlinear_arith)
        requires
            p % a == 0,
            a > 0,
    ;
    assert(q == a * (q / a)) by (nonlinear_arith)
        requires
            q % a == 0,
            a > 0,
    ;
    let kp = p / a;
    let kq = q / a;
    assert(kp == kq) by (nonlinear_arith)
        requires
            p == a * kp,
            q == a * kq,
            x <= p < x + a,
            x <= q < x + a,
            a > 0,
    ;
}

/// Blocks handed out one after another never overlap: the second starts at
/// or after the end of the first, and both lie inside the heap.
pub proof fn lemma_allocs_disjoint(
    h0: &BumpAllocator,
    h1: &BumpAllocator,
    h2: &BumpAllocator,
    s1: usize,
    a1: usize,
    r1: usize,
    s2: usize,
    a2: usize,
    r2: usize,
)
    requires
        h0.wf(),
        BumpAllocator::alloc_rel(h0, h1, s1, a1, r1),
        BumpAllocator::alloc_rel(h1, h2, s2, a2, r2),
        r1 != 0,
        r2 != 0,
    ensures
        r1 + s1 <= r2,
        HEAP_START <= r1,
        r2 + s2 <= HEAP_END,
{
    let p = choose|p: int| aligned_up(p, h1.bump_v(), a2 as int) && p + s2 <= HEAP_END;
    lemma_aligned_unique(p, r2 as int, h1.bump_v(), a2 as int);
}


/// Every successful allocation adds at least its size to the bytes in use;
/// a refused one adds nothing.
pub proof fn lemma_alloc_grows_used(a: &BumpAllocator, b: &BumpAllocator, size: usize, align: usize, r: usize)
    requires
        a.wf(),
        BumpAllocator::alloc_rel(a, b, size, align, r),
    ensures
        r != 0 ==> b.bump_v() >= a.bump_v() + size,
        r == 0 ==> b.bump_v() == a.bump_v(),
{
}

} // verus!
