//! Byte-string helpers shared by the text-producing parts of the stack.
use vstd::prelude::*;
use vstd::string::StringSliceAdditionalSpecFns;
use vstd::utf8::valid_utf8;

verus! {

/// The bytes of an ASCII character sequence.
pub open spec fn ascii_bytes(cs: Seq<char>) -> Seq<u8> {
    cs.map_values(|c: char| c as u8)
}

/// The bytes of an ASCII string literal.
pub fn lit(s: &str) -> (b: &[u8])
    requires
        vstd::string::is_ascii(s),
    ensures
        b@ == ascii_bytes(s@),
{
    proof {
        vstd::string::is_ascii_spec_bytes(s);
    }
    let b = s.as_bytes();
    assert(b@ =~= ascii_bytes(s@));
    b
}

/// Byte-wise equality of two slices.
pub fn slice_eq(a: &[u8], b: &[u8]) -> (r: bool)
    ensures
        r == (a@ == b@),
{
    if a.len() != b.len() {
        return false;
    }
    let mut i: usize = 0;
    while i < a.len()
        invariant
            a.len() == b.len(),
            i <= a.len(),
            a@.take(i as int) == b@.take(i as int),
        decreases a.len() - i,
    {
        if a[i] != b[i] {
            assert(a@[i as int] != b@[i as int]);
            return false;
        }
        assert(a@.take(i + 1) =~= a@.take(i as int).push(a@[i as int]));
        assert(b@.take(i + 1) =~= b@.take(i as int).push(b@[i as int]));
        i = i + 1;
    }
    assert(a@ =~= a@.take(i as int));
    assert(b@ =~= b@.take(i as int));
    true
}

/// Copies `src[0..n]` into `dst[at..at + n]`.
pub fn copy_into(dst: &mut [u8], at: usize, src: &[u8], n: usize)
    requires
        n <= src@.len(),
        at + n <= old(dst)@.len(),
    ensures
        final(dst)@.len() == old(dst)@.len(),
        final(dst)@ == old(dst)@.subrange(0, at as int) + src@.take(n as int) + old(dst)@.subrange(
            at + n,
            old(dst)@.len() as int,
        ),
{
    let dlen = dst.len();
    let mut i: usize = 0;
    while i < n
        invariant
            dlen == dst@.len(),
            i <= n,
            n <= src@.len(),
            at + n <= old(dst)@.len(),
            dst@.len() == old(dst)@.len(),
            dst@ =~= old(dst)@.subrange(0, at as int) + src@.take(i as int) + old(dst)@.subrange(
                at + i,
                old(dst)@.len() as int,
            ),
        decreases n - i,
    {
        dst[at + i] = src[i];
        i = i + 1;
    }
}

/// Appending `s` to an output that holds at most `cap` bytes: what fits is kept,
/// the rest is dropped.
pub open spec fn push_capped(o: Seq<u8>, s: Seq<u8>, cap: int) -> Seq<u8> {
    if o.len() + s.len() <= cap {
        o + s
    } else {
        o + s.take(cap - o.len())
    }
}

/// Appends `s` after the first `len` bytes of `out`, keeping at most
/// `out.len() - 1` bytes in all; returns the new length.
pub fn append_capped(out: &mut [u8], len: usize, s: &[u8]) -> (new_len: usize)
    requires
        len < old(out)@.len(),
    ensures
        final(out)@.len() == old(out)@.len(),
        new_len < final(out)@.len(),
        final(out)@.take(new_len as int) == push_capped(
            old(out)@.take(len as int),
            s@,
            old(out)@.len() - 1,
        ),
        final(out)@.skip(new_len as int) == old(out)@.skip(new_len as int),
        len <= new_len,
        final(out)@.take(len as int) == old(out)@.take(len as int),
{
    let ghost o = out@.take(len as int);
    let cap = out.len() - 1;
    let mut n = len;
    let mut i: usize = 0;
    while i < s.len() && n < cap
        invariant
            cap + 1 == out@.len() == old(out)@.len(),
            i <= s@.len(),
            n < out@.len(),
            o.len() + i == n,
            o == old(out)@.take(len as int),
            out@.take(n as int) =~= o + s@.take(i as int),
            out@.skip(n as int) == old(out)@.skip(n as int),
            len <= n,
        decreases s.len() - i,
    {
        let ghost before = out@.take(n as int);
        let ghost prev = out@;
        out[n] = s[i];
        assert(out@.skip(n + 1) =~= prev.skip(n + 1));
        assert(prev.skip(n + 1) =~= prev.skip(n as int).skip(1));
        assert(old(out)@.skip(n + 1) =~= old(out)@.skip(n as int).skip(1));
        assert(out@.take(n + 1) =~= before.push(s@[i as int]));
        assert(s@.take(i + 1) =~= s@.take(i as int).push(s@[i as int]));
        n = n + 1;
        i = i + 1;
    }
    assert(out@.take(n as int) =~= push_capped(o, s@, cap as int));
    assert(out@.take(len as int) =~= (o + s@.take(i as int)).take(len as int));
    n
}

/// `core::str::from_utf8`: the bytes as a string slice when they are valid
/// UTF-8, `None` otherwise. The string's bytes are exactly the input bytes.
#[verifier::external_body]
pub(crate) fn str_from_utf8(b: &[u8]) -> (r: Option<&str>)
    ensures
        r is Some <==> valid_utf8(b@),
        r matches Some(s) ==> s.spec_bytes() == b@,
{
    core::str::from_utf8(b).ok()
}

/// The bytes as text, or `"?"` when they are not valid UTF-8.
pub fn utf8_or_unknown(b: &[u8]) -> (r: &str)
    ensures
        valid_utf8(b@) ==> r.spec_bytes() == b@,
        !valid_utf8(b@) ==> r@ == "?"@,
{
    match str_from_utf8(b) {
        Some(s) => s,
        None => "?",
    }
}

} // verus!
