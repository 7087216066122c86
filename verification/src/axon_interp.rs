//! AXON `.ax` script interpreter: flat scripts of `print`, `let`, `awp` and
//! comments, executed with fixed-size buffers and no heap-backed state.
//!
//! Supported statements:
//!   `print "text"`   print a string literal
//!   `print expr`     print the value of an expression
//!   `let x = expr`   assign an integer (literal, variable, or `a + b`, `a - b`, `a * b`)
//!   `awp payload`    hand a payload to the AWP transport, if one is given
//!   `// comment`, `# comment`, `fn ...`, `return ...` are skipped.
use vstd::prelude::*;
use crate::bytes::{append_capped, ascii_bytes, lit, push_capped};

verus! {

pub const MAX_LINES: usize = 64;
pub const MAX_VARS: usize = 16;
pub const VAR_NAME_LEN: usize = 32;
pub const OUTPUT_BUF: usize = 2048;
/// Bytes of `AxResult::error_msg`.
pub const ERROR_MSG_LEN: usize = 64;

// ── Output model ──────────────────────────────────────────────────────────────


/// Decimal digits of a natural number, most significant first.
pub open spec fn nat_digits(n: nat) -> Seq<u8>
    decreases n,
{
    if n < 10 {
        seq![(48 + n) as u8]
    } else {
        nat_digits(n / 10).push((48 + n % 10) as u8)
    }
}

/// The text that `push_i64` renders for `n`. The most negative value has no
/// positive counterpart and renders as a bare minus sign.
pub open spec fn i64_text(n: i64) -> Seq<u8> {
    if n < 0 {
        if n == i64::MIN {
            seq![45u8]
        } else {
            seq![45u8] + nat_digits((-n) as nat)
        }
    } else {
        nat_digits(n as nat)
    }
}

/// The decimal rendering of `n` (see `i64_text`).
pub fn i64_decimal(n: i64) -> (t: Vec<u8>)
    ensures
        t@ == i64_text(n),
{
    let mut out: Vec<u8> = Vec::new();
    let mut n = n;
    let ghost n0 = n;
    if n < 0 {
        out.push(45u8);
        n = 0i64.wrapping_sub(n);
    }
    if n == 0 {
        out.push(48u8);
        assert(nat_digits(0) =~= seq![48u8]);
        assert(out@ =~= i64_text(n0));
        return out;
    }
    if n < 0 {
        // only the most negative value stays negative after negation
        assert(out@ =~= i64_text(n0));
        return out;
    }
    let ghost m0 = n as nat;
    let mut tmp: Vec<u8> = Vec::new();
    while n > 0
        invariant
            n >= 0,
            nat_digits(m0) =~= (if n > 0 { nat_digits(n as nat) } else { seq![] }) + tmp@.reverse(),
        decreases n,
    {
        let d = (48 + n % 10) as u8;
        let ghost old_tmp = tmp@;
        tmp.push(d);
        assert(tmp@.reverse() =~= seq![d] + old_tmp.reverse());
        let ghost m = n as nat;
        n = n / 10;
        proof {
            if m >= 10 {
                assert(nat_digits(m) == nat_digits(m / 10).push((48 + m % 10) as u8));
            } else {
                assert(nat_digits(m) =~= seq![(48 + m) as u8]);
            }
        }
    }
    let ghost head = out@;
    let mut i = tmp.len();
    while i > 0
        invariant
            i <= tmp.len(),
            out@ =~= head + tmp@.reverse().take(tmp.len() - i),
        decreases i,
    {
        i = i - 1;
        out.push(tmp[i]);
        assert(tmp@.reverse().take(tmp.len() - i) =~= tmp@.reverse().take(tmp.len() - i - 1).push(
            tmp@[i as int],
        ));
    }
    assert(tmp@.reverse().take(tmp.len() as int) =~= nat_digits(m0));
    proof {
        if n0 < 0 {
            assert(head =~= seq![45u8]);
        } else {
            assert(head =~= seq![]);
        }
    }
    out
}

// ── Variable slot ─────────────────────────────────────────────────────────────

#[derive(Clone, Copy)]
pub struct AxVar {
    pub name: [u8; VAR_NAME_LEN],
    pub name_len: usize,
    pub value: i64,
}

impl AxVar {
    pub open spec fn wf(self) -> bool {
        self.name_len <= VAR_NAME_LEN
    }

    /// The variable's name, as the interpreter reads it.
    pub open spec fn name_seq(self) -> Seq<u8> {
        self.name@.subrange(0, self.name_len as int)
    }

    pub fn empty() -> (v: Self)
        ensures
            v.name_len == 0,
            v.value == 0,
            forall|i: int| 0 <= i < VAR_NAME_LEN ==> v.name[i] == 0u8,
    {
        AxVar { name: [0u8; VAR_NAME_LEN], name_len: 0, value: 0 }
    }
}

/// Every slot of a variable table is well formed.
pub open spec fn vars_wf(vars: Seq<AxVar>) -> bool {
    forall|i: int| 0 <= i < vars.len() ==> (#[trigger] vars[i]).wf()
}

// ── Interpreter state ─────────────────────────────────────────────────────────

pub struct AxInterp {
    pub vars: [AxVar; MAX_VARS],
    pub var_count: usize,
}

/// A table of unused variable slots: every name is all zero bytes, with
/// length 0, and every value is 0.
pub open spec fn all_empty(vars: Seq<AxVar>) -> bool {
    forall|i: int|
        0 <= i < vars.len() ==> {
            &&& (#[trigger] vars[i]).name_len == 0
            &&& vars[i].value == 0
            &&& forall|k: int| 0 <= k < VAR_NAME_LEN ==> vars[i].name[k] == 0u8
        }
}

fn empty_vars() -> (vars: [AxVar; MAX_VARS])
    ensures
        all_empty(vars@),
        vars_wf(vars@),
{
    [AxVar::empty(); MAX_VARS]
}

impl AxInterp {
    pub open spec fn wf(&self) -> bool {
        vars_wf(self.vars@)
    }

    pub fn new() -> (s: Self)
        ensures
            s.wf(),
            all_empty(s.vars@),
            s.var_count == 0,
    {
        Self { vars: empty_vars(), var_count: 0 }
    }

    pub fn reset(&mut self)
        ensures
            final(self).wf(),
            all_empty(final(self).vars@),
            final(self).var_count == 0,
    {
        self.vars = empty_vars();
        self.var_count = 0;
    }
}

// ── Result ────────────────────────────────────────────────────────────────────

pub struct AxResult {
    pub output: [u8; OUTPUT_BUF],
    pub output_len: usize,
    pub lines_executed: usize,
    pub error: bool,
    pub error_line: usize,
    pub error_msg: [u8; ERROR_MSG_LEN],
    pub error_msg_len: usize,
}

/// What a result holds, as a reader of it sees it.
pub struct ResultView {
    pub output: Seq<u8>,
    pub lines_executed: nat,
    pub error: bool,
    pub error_line: nat,
    pub error_msg: Seq<u8>,
}

/// The most output bytes a result keeps.
pub open spec fn out_cap() -> int {
    OUTPUT_BUF - 1
}

impl ResultView {
    pub open spec fn fresh() -> ResultView {
        ResultView { output: seq![], lines_executed: 0, error: false, error_line: 0, error_msg: seq![] }
    }

    pub open spec fn push(self, s: Seq<u8>) -> ResultView {
        ResultView { output: push_capped(self.output, s, out_cap()), ..self }
    }

    pub open spec fn fail(self, line_num: nat, msg: Seq<u8>) -> ResultView {
        ResultView {
            error: true,
            error_line: line_num,
            error_msg: if msg.len() <= 63 { msg } else { msg.take(63) },
            ..self
        }
    }

    pub open spec fn wf(self) -> bool {
        &&& self.output.len() <= out_cap()
        &&& self.error_msg.len() < ERROR_MSG_LEN
    }
}

impl AxResult {
    pub open spec fn wf(&self) -> bool {
        &&& self.output_len < OUTPUT_BUF
        &&& self.error_msg_len < ERROR_MSG_LEN
    }

    pub open spec fn out(&self) -> Seq<u8> {
        self.output@.subrange(0, self.output_len as int)
    }

    pub open spec fn view(&self) -> ResultView {
        ResultView {
            output: self.out(),
            lines_executed: self.lines_executed as nat,
            error: self.error,
            error_line: self.error_line as nat,
            error_msg: self.error_msg@.subrange(0, self.error_msg_len as int),
        }
    }

    pub fn new() -> (r: Self)
        ensures
            r.wf(),
            r.view() == ResultView::fresh(),
    {
        let r = AxResult {
            output: [0u8; OUTPUT_BUF],
            output_len: 0,
            lines_executed: 0,
            error: false,
            error_line: 0,
            error_msg: [0u8; ERROR_MSG_LEN],
            error_msg_len: 0,
        };
        assert(r.view().output =~= seq![]);
        assert(r.view().error_msg =~= seq![]);
        r
    }

    /// Appends `s`, keeping what fits in the output buffer.
    pub fn push_str(&mut self, s: &[u8])
        requires
            old(self).wf(),
        ensures
            final(self).wf(),
            final(self).view() == old(self).view().push(s@),
            forall|k: int|
                final(self).output_len <= k < OUTPUT_BUF ==> final(self).output[k] == old(
                    self,
                ).output[k],
            final(self).error_msg == old(self).error_msg,
            final(self).error_msg_len == old(self).error_msg_len,
            final(self).lines_executed == old(self).lines_executed,
            final(self).error == old(self).error,
            final(self).error_line == old(self).error_line,
    {
        let ghost o = self.out();
        let ghost before = self.output@;
        assert(self.output@.take(self.output_len as int) == o);
        self.output_len = append_capped(&mut self.output, self.output_len, s);
        assert(self.out() == self.output@.take(self.output_len as int));
        assert forall|k: int| self.output_len <= k < OUTPUT_BUF implies self.output[k]
            == before[k] by {
            assert(self.output@.skip(self.output_len as int)[k - self.output_len] == before.skip(
                self.output_len as int,
            )[k - self.output_len]);
        }
    }

    pub fn push_newline(&mut self)
        requires
            old(self).wf(),
        ensures
            final(self).wf(),
            final(self).view() == old(self).view().push(seq![10u8]),
            old(self).output_len == OUTPUT_BUF - 1 ==> *final(self) == *old(self),
            forall|k: int|
                final(self).output_len <= k < OUTPUT_BUF ==> final(self).output[k] == old(
                    self,
                ).output[k],
            final(self).error_msg == old(self).error_msg,
            final(self).error_msg_len == old(self).error_msg_len,
            final(self).lines_executed == old(self).lines_executed,
            final(self).error == old(self).error,
            final(self).error_line == old(self).error_line,
    {
        let ghost o = self.out();
        if self.output_len < OUTPUT_BUF - 1 {
            self.output[self.output_len] = 10u8;
            self.output_len = self.output_len + 1;
        }
        assert(self.out() =~= push_capped(o, seq![10u8], out_cap()));
    }

    /// Appends the decimal rendering of `n`.
    pub fn push_i64(&mut self, n: i64)
        requires
            old(self).wf(),
        ensures
            final(self).wf(),
            final(self).view() == old(self).view().push(i64_text(n)),
    {
        let text = i64_decimal(n);
        self.push_str(text.as_slice());
    }

    pub fn set_error(&mut self, line_num: usize, msg: &[u8])
        requires
            old(self).wf(),
        ensures
            final(self).wf(),
            final(self).view() == old(self).view().fail(line_num as nat, msg@),
            final(self).output == old(self).output,
            final(self).output_len == old(self).output_len,
    {
        self.error = true;
        self.error_line = line_num;
        let len = if msg.len() < 63 { msg.len() } else { 63 };
        let mut i: usize = 0;
        while i < len
            invariant
                i <= len,
                len <= 63,
                len <= msg.len(),
                forall|k: int| 0 <= k < i ==> self.error_msg[k] == msg@[k],
                self.output == old(self).output,
                self.output_len == old(self).output_len,
                self.error_msg_len == old(self).error_msg_len,
                self.error == true,
                self.error_line == line_num,
                self.lines_executed == old(self).lines_executed,
            decreases len - i,
        {
            self.error_msg[i] = msg[i];
            i = i + 1;
        }
        self.error_msg_len = len;
        assert(self.error_msg@.subrange(0, len as int) =~= (if msg@.len() <= 63 { msg@ } else { msg@.take(63) }));
    }

    pub fn as_str(&self) -> (r: &[u8])
        requires
            self.wf(),
        ensures
            r@ == self.out(),
    {
        self.output.as_slice().split_at(self.output_len).0
    }

    pub fn error_str(&self) -> (r: &[u8])
        requires
            self.wf(),
        ensures
            r@ == self.view().error_msg,
    {
        self.error_msg.as_slice().split_at(self.error_msg_len).0
    }
}

// ── Parser helpers ────────────────────────────────────────────────────────────

/// Space or tab: stripped from the front of a line.
pub open spec fn is_lead_ws(b: u8) -> bool {
    b == 32u8 || b == 9u8
}

/// Space, tab, CR or LF: stripped from the back of a line.
pub open spec fn is_trail_ws(b: u8) -> bool {
    b == 32u8 || b == 9u8 || b == 13u8 || b == 10u8
}

pub open spec fn trim_start(s: Seq<u8>) -> Seq<u8>
    decreases s.len(),
{
    if s.len() > 0 && is_lead_ws(s[0]) {
        trim_start(s.drop_first())
    } else {
        s
    }
}

pub open spec fn trim_end(s: Seq<u8>) -> Seq<u8>
    decreases s.len(),
{
    if s.len() > 0 && is_trail_ws(s.last()) {
        trim_end(s.drop_last())
    } else {
        s
    }
}

/// `s` without leading spaces/tabs and trailing spaces/tabs/CR/LF.
pub open spec fn spec_trim(s: Seq<u8>) -> Seq<u8> {
    trim_end(trim_start(s))
}

pub proof fn lemma_trim_start_len(s: Seq<u8>)
    ensures
        trim_start(s).len() <= s.len(),
    decreases s.len(),
{
    if s.len() > 0 && is_lead_ws(s[0]) {
        lemma_trim_start_len(s.drop_first());
    }
}

pub proof fn lemma_trim_end_len(s: Seq<u8>)
    ensures
        trim_end(s).len() <= s.len(),
    decreases s.len(),
{
    if s.len() > 0 && is_trail_ws(s.last()) {
        lemma_trim_end_len(s.drop_last());
    }
}

/// Trimming never lengthens.
pub proof fn lemma_trim_len(s: Seq<u8>)
    ensures
        spec_trim(s).len() <= s.len(),
{
    lemma_trim_start_len(s);
    lemma_trim_end_len(trim_start(s));
}

pub fn trim(s: &[u8]) -> (r: &[u8])
    ensures
        r@ == spec_trim(s@),
{
    let mut start: usize = 0;
    assert(s@.subrange(0, s@.len() as int) =~= s@);
    while start < s.len() && (s[start] == 32u8 || s[start] == 9u8)
        invariant
            start <= s@.len(),
            trim_start(s@) == trim_start(s@.subrange(start as int, s@.len() as int)),
        decreases s.len() - start,
    {
        assert(s@.subrange(start as int, s@.len() as int).drop_first() =~= s@.subrange(
            start + 1,
            s@.len() as int,
        ));
        start = start + 1;
    }
    let mut end: usize = s.len();
    while end > start && (s[end - 1] == 32u8 || s[end - 1] == 9u8 || s[end - 1] == 13u8 || s[end
        - 1] == 10u8)
        invariant
            start <= end <= s@.len(),
            trim_start(s@) == s@.subrange(start as int, s@.len() as int),
            spec_trim(s@) == trim_end(s@.subrange(start as int, end as int)),
        decreases end - start,
    {
        assert(s@.subrange(start as int, end as int).drop_last() =~= s@.subrange(
            start as int,
            end - 1,
        ));
        end = end - 1;
    }
    &s[start..end]
}

pub open spec fn spec_starts_with(s: Seq<u8>, prefix: Seq<u8>) -> bool {
    s.len() >= prefix.len() && s.take(prefix.len() as int) == prefix
}

pub fn starts_with(s: &[u8], prefix: &[u8]) -> (r: bool)
    ensures
        r == spec_starts_with(s@, prefix@),
{
    if s.len() < prefix.len() {
        return false;
    }
    crate::bytes::slice_eq(&s[0..prefix.len()], prefix)
}

pub fn bytes_eq(a: &[u8], b: &[u8]) -> (r: bool)
    ensures
        r == (a@ == b@),
{
    crate::bytes::slice_eq(a, b)
}

pub open spec fn is_digit(b: u8) -> bool {
    48u8 <= b <= 57u8
}

pub open spec fn all_digits(d: Seq<u8>) -> bool {
    forall|i: int| 0 <= i < d.len() ==> is_digit(#[trigger] d[i])
}

/// Decimal value of a digit string.
pub open spec fn digits_value(d: Seq<u8>) -> nat
    decreases d.len(),
{
    if d.len() == 0 {
        0
    } else {
        digits_value(d.drop_last()) * 10 + (d.last() - 48) as nat
    }
}

/// Decimal value of a digit string, computed in 64-bit wrapping arithmetic.
pub open spec fn digits_wrapping(d: Seq<u8>) -> i64
    decreases d.len(),
{
    if d.len() == 0 {
        0
    } else {
        digits_wrapping(d.drop_last()).wrapping_mul(10).wrapping_add((d.last() - 48) as i64)
    }
}

/// The sign and the digit part of a trimmed literal.
pub open spec fn literal_parts(t: Seq<u8>) -> (bool, Seq<u8>) {
    if t.len() > 0 && t[0] == 45u8 {
        (true, t.drop_first())
    } else {
        (false, t)
    }
}

/// An integer literal: optional `-` and at least one decimal digit, surrounded by
/// blanks. Values that do not fit wrap around modulo 2^64.
pub open spec fn spec_parse_i64(s: Seq<u8>) -> Option<i64> {
    let t = spec_trim(s);
    let (neg, d) = literal_parts(t);
    if t.len() == 0 || d.len() == 0 || !all_digits(d) {
        None
    } else {
        let v = digits_wrapping(d);
        Some(if neg { 0i64.wrapping_sub(v) } else { v })
    }
}

/// For digit strings whose value fits, the wrapping computation is exact.
pub proof fn lemma_digits_exact(d: Seq<u8>)
    requires
        all_digits(d),
        digits_value(d) <= i64::MAX,
    ensures
        digits_wrapping(d) == digits_value(d),
    decreases d.len(),
{
    if d.len() > 0 {
        let p = d.drop_last();
        assert(all_digits(p)) by {
            assert forall|i: int| 0 <= i < p.len() implies is_digit(#[trigger] p[i]) by {
                assert(p[i] == d[i]);
            }
        }
        assert(is_digit(d[d.len() - 1]));
        lemma_digits_exact(p);
        let x = digits_value(p);
        assert(x * 10 <= i64::MAX);
        vstd::arithmetic::div_mod::lemma_small_mod((x * 10) as nat, 0x1_0000_0000_0000_0000nat);
    }
}

pub fn parse_i64(s: &[u8]) -> (r: Option<i64>)
    ensures
        r == spec_parse_i64(s@),
        ({
            let (neg, d) = literal_parts(spec_trim(s@));
            r is Some && digits_value(d) <= i64::MAX ==> r == Some(
                if neg { -digits_value(d) } else { digits_value(d) as int } as i64,
            )
        }),
{
    let t = trim(s);
    if t.len() == 0 {
        return None;
    }
    let neg = t[0] == 45u8;
    let digits = if neg { &t[1..t.len()] } else { t };
    assert(literal_parts(t@) == (neg, digits@)) by {
        if neg {
            assert(digits@ =~= t@.drop_first());
        }
    }
    if digits.len() == 0 {
        return None;
    }
    let mut val: i64 = 0;
    let mut i: usize = 0;
    while i < digits.len()
        invariant
            i <= digits@.len(),
            spec_trim(s@).len() > 0,
            literal_parts(spec_trim(s@)) == (neg, digits@),
            all_digits(digits@.take(i as int)),
            val == digits_wrapping(digits@.take(i as int)),
        decreases digits.len() - i,
    {
        let c = digits[i];
        if c < 48u8 || c > 57u8 {
            assert(!is_digit(digits@[i as int]));
            assert(!all_digits(digits@));
            assert(spec_parse_i64(s@) is None);
            return None;
        }
        assert(digits@.take(i + 1).drop_last() =~= digits@.take(i as int));
        assert(all_digits(digits@.take(i + 1))) by {
            assert forall|k: int| 0 <= k < i + 1 implies is_digit(#[trigger] digits@.take(i + 1)[k]) by {
                if k < i {
                    assert(digits@.take(i + 1)[k] == digits@.take(i as int)[k]);
                }
            }
        }
        val = val.wrapping_mul(10).wrapping_add((c - 48u8) as i64);
        i = i + 1;
    }
    assert(digits@.take(i as int) =~= digits@);
    proof {
        if digits_value(digits@) <= i64::MAX {
            lemma_digits_exact(digits@);
        }
    }
    Some(if neg { 0i64.wrapping_sub(val) } else { val })
}

// ── Variable operations ───────────────────────────────────────────────────────

/// What the interpreter sees of a variable table: each slot's name and value.
/// A slot with an empty name is unused.
pub open spec fn vars_view(vars: Seq<AxVar>) -> Seq<(Seq<u8>, i64)> {
    vars.map_values(|v: AxVar| (v.name_seq(), v.value))
}

/// Index of the first slot at or after `i` named `key`.
pub open spec fn first_named(vs: Seq<(Seq<u8>, i64)>, key: Seq<u8>, i: int) -> Option<int>
    decreases vs.len() - i,
{
    if i < 0 || i >= vs.len() {
        None
    } else if vs[i].0 == key {
        Some(i)
    } else {
        first_named(vs, key, i + 1)
    }
}

/// Index of the first unused slot at or after `i`.
pub open spec fn first_unused(vs: Seq<(Seq<u8>, i64)>, i: int) -> Option<int>
    decreases vs.len() - i,
{
    if i < 0 || i >= vs.len() {
        None
    } else if vs[i].0.len() == 0 {
        Some(i)
    } else {
        first_unused(vs, i + 1)
    }
}

/// The value of the first variable named `name`.
pub open spec fn spec_find_var(vs: Seq<(Seq<u8>, i64)>, name: Seq<u8>) -> Option<i64> {
    match first_named(vs, name, 0) {
        Some(k) => Some(vs[k].1),
        None => None,
    }
}

/// Names are kept to their first `VAR_NAME_LEN` bytes.
pub open spec fn var_key(name: Seq<u8>) -> Seq<u8> {
    if name.len() <= VAR_NAME_LEN {
        name
    } else {
        name.take(VAR_NAME_LEN as int)
    }
}

/// Assigning `value` to `name`: the first slot with that name is updated, else
/// the first unused slot takes it; `None` when every slot is taken by others.
pub open spec fn spec_set_var(vs: Seq<(Seq<u8>, i64)>, name: Seq<u8>, value: i64) -> Option<
    Seq<(Seq<u8>, i64)>,
> {
    set_named(vs, var_key(name), value)
}

/// Assigning `value` under the (already shortened) name `key`.
pub open spec fn set_named(vs: Seq<(Seq<u8>, i64)>, key: Seq<u8>, value: i64) -> Option<
    Seq<(Seq<u8>, i64)>,
> {
    match first_named(vs, key, 0) {
        Some(k) => Some(vs.update(k, (key, value))),
        None => match first_unused(vs, 0) {
            Some(k) => Some(vs.update(k, (key, value))),
            None => None,
        },
    }
}

proof fn lemma_first_named_spec(vs: Seq<(Seq<u8>, i64)>, key: Seq<u8>, i: int)
    requires
        0 <= i,
    ensures
        first_named(vs, key, i) matches Some(k) ==> i <= k < vs.len() && vs[k].0 == key && forall|j: int|
            i <= j < k ==> (#[trigger] vs[j]).0 != key,
        first_named(vs, key, i) is None ==> forall|j: int| i <= j < vs.len() ==> (#[trigger] vs[j]).0 != key,
    decreases vs.len() - i,
{
    if i < vs.len() && vs[i].0 != key {
        lemma_first_named_spec(vs, key, i + 1);
    }
}

proof fn lemma_first_unused_spec(vs: Seq<(Seq<u8>, i64)>, i: int)
    requires
        0 <= i,
    ensures
        first_unused(vs, i) matches Some(k) ==> i <= k < vs.len() && vs[k].0.len() == 0,
    decreases vs.len() - i,
{
    if i < vs.len() && vs[i].0.len() != 0 {
        lemma_first_unused_spec(vs, i + 1);
    }
}

/// A slot named `key` with no earlier slot of that name is what a lookup of
/// `key` finds.
proof fn lemma_first_named_at(vs: Seq<(Seq<u8>, i64)>, key: Seq<u8>, k: int, i: int)
    requires
        0 <= i <= k < vs.len(),
        vs[k].0 == key,
        forall|j: int| i <= j < k ==> (#[trigger] vs[j]).0 != key,
    ensures
        first_named(vs, key, i) == Some(k),
    decreases k - i,
{
    if i < k {
        assert(vs[i].0 != key);
        lemma_first_named_at(vs, key, k, i + 1);
    }
}

/// Rewriting a slot whose old and new names both differ from `other` does not
/// change where a lookup of `other` lands.
proof fn lemma_first_named_update_other(
    vs: Seq<(Seq<u8>, i64)>,
    k: int,
    entry: (Seq<u8>, i64),
    other: Seq<u8>,
    i: int,
)
    requires
        0 <= k < vs.len(),
        0 <= i,
        vs[k].0 != other,
        entry.0 != other,
    ensures
        first_named(vs.update(k, entry), other, i) == first_named(vs, other, i),
    decreases vs.len() - i,
{
    if i < vs.len() {
        lemma_first_named_update_other(vs, k, entry, other, i + 1);
    }
}

/// Reading a variable right after assigning it: when the assignment of `value`
/// to `key` succeeds, a lookup of `key` gives `value`, and a lookup of any
/// other non-empty name gives what it gave before.
pub proof fn lemma_set_then_find(vs: Seq<(Seq<u8>, i64)>, key: Seq<u8>, value: i64, other: Seq<u8>)
    requires
        set_named(vs, key, value) is Some,
    ensures
        spec_find_var(set_named(vs, key, value)->0, key) == Some(value),
        other != key && other.len() > 0 ==> spec_find_var(set_named(vs, key, value)->0, other)
            == spec_find_var(vs, other),
{
    let nv = set_named(vs, key, value)->0;
    lemma_first_named_spec(vs, key, 0);
    lemma_first_unused_spec(vs, 0);
    let k = match first_named(vs, key, 0) {
        Some(k) => k,
        None => first_unused(vs, 0)->0,
    };
    assert(nv == vs.update(k, (key, value)));
    assert forall|j: int| 0 <= j < k implies (#[trigger] nv[j]).0 != key by {
        assert(nv[j] == vs[j]);
    }
    lemma_first_named_at(nv, key, k, 0);
    if other != key && other.len() > 0 {
        assert(vs[k].0 != other);
        lemma_first_named_update_other(vs, k, (key, value), other, 0);
        lemma_first_named_spec(vs, other, 0);
    }
}

/// The same law for a name as `set_var` and `find_var` take it: after a
/// successful assignment, looking up the stored name (the first
/// `VAR_NAME_LEN` bytes) gives the value, and other names are untouched.
pub proof fn lemma_assign_then_read(vs: Seq<(Seq<u8>, i64)>, name: Seq<u8>, value: i64, other: Seq<u8>)
    requires
        spec_set_var(vs, name, value) is Some,
    ensures
        spec_find_var(spec_set_var(vs, name, value)->0, var_key(name)) == Some(value),
        name.len() <= VAR_NAME_LEN ==> spec_find_var(spec_set_var(vs, name, value)->0, name) == Some(
            value,
        ),
        other != var_key(name) && other.len() > 0 ==> spec_find_var(spec_set_var(vs, name, value)->0, other)
            == spec_find_var(vs, other),
{
    lemma_set_then_find(vs, var_key(name), value, other);
}

fn name_is(v: &AxVar, name: &[u8]) -> (r: bool)
    requires
        v.wf(),
    ensures
        r == (v.name_seq() == name@),
{
    if v.name_len != name.len() {
        return false;
    }
    crate::bytes::slice_eq(v.name.as_slice().split_at(v.name_len).0, name)
}

pub fn find_var(vars: &[AxVar], name: &[u8]) -> (r: Option<i64>)
    requires
        vars_wf(vars@),
    ensures
        r == spec_find_var(vars_view(vars@), name@),
{
    let ghost vs = vars_view(vars@);
    let mut i: usize = 0;
    while i < vars.len()
        invariant
            i <= vars@.len(),
            vars_wf(vars@),
            vs == vars_view(vars@),
            first_named(vs, name@, 0) == first_named(vs, name@, i as int),
        decreases vars.len() - i,
    {
        assert(vars@[i as int].wf());
        if name_is(&vars[i], name) {
            return Some(vars[i].value);
        }
        i = i + 1;
    }
    None
}

pub fn set_var(vars: &mut [AxVar; MAX_VARS], name: &[u8], value: i64) -> (r: bool)
    requires
        vars_wf(old(vars)@),
    ensures
        vars_wf(final(vars)@),
        r == spec_set_var(vars_view(old(vars)@), name@, value) is Some,
        r ==> vars_view(final(vars)@) == spec_set_var(vars_view(old(vars)@), name@, value)->0,
        !r ==> final(vars)@ == old(vars)@,
{
    let nlen = if name.len() < VAR_NAME_LEN { name.len() } else { VAR_NAME_LEN };
    let key = &name[0..nlen];
    let ghost vs = vars_view(vars@);
    assert(key@ == var_key(name@)) by {
        if name@.len() <= VAR_NAME_LEN {
            assert(key@ =~= name@);
        }
    }
    // update existing
    let mut i: usize = 0;
    while i < MAX_VARS
        invariant
            i <= MAX_VARS,
            vars_wf(vars@),
            vs == vars_view(vars@),
            vars@ == old(vars)@,
            key@ == var_key(name@),
            nlen <= VAR_NAME_LEN,
            key@.len() == nlen,
            first_named(vs, key@, 0) == first_named(vs, key@, i as int),
        decreases MAX_VARS - i,
    {
        assert(vars@[i as int].wf());
        if name_is(&vars[i], key) {
            vars[i].value = value;
            assert(vars_view(vars@) =~= vs.update(i as int, (key@, value)));
            return true;
        }
        i = i + 1;
    }
    // new slot
    let mut j: usize = 0;
    while j < MAX_VARS
        invariant
            j <= MAX_VARS,
            nlen <= VAR_NAME_LEN,
            key@.len() == nlen,
            vars_wf(vars@),
            vs == vars_view(vars@),
            vars@ == old(vars)@,
            key@ == var_key(name@),
            first_named(vs, key@, 0) is None,
            first_unused(vs, 0) == first_unused(vs, j as int),
        decreases MAX_VARS - j,
    {
        assert(vars@[j as int].wf());
        if vars[j].name_len == 0 {
            assert(vs[j as int].0.len() == 0);
            let mut v = vars[j];
            crate::bytes::copy_into(&mut v.name, 0, key, nlen);
            v.name_len = nlen;
            v.value = value;
            assert(v.name_seq() =~= key@);
            vars[j] = v;
            assert(vars_view(vars@) =~= vs.update(j as int, (key@, value)));
            assert(vars_wf(vars@)) by {
                assert forall|k: int| 0 <= k < MAX_VARS implies (#[trigger] vars@[k]).wf() by {
                    if k != j {
                        assert(vars@[k] == old(vars)@[k]);
                    }
                }
            }
            return true;
        }
        assert(vs[j as int].0.len() != 0);
        j = j + 1;
    }
    false
}

// ── Expression evaluator ──────────────────────────────────────────────────────

/// An arithmetic operator byte: `+`, `-` or `*`.
pub open spec fn is_op_byte(b: u8) -> bool {
    b == 43u8 || b == 45u8 || b == 42u8
}

/// The last byte before position `p` that is not a space or tab, if any.
pub open spec fn prev_nonblank(e: Seq<u8>, p: int) -> Option<u8>
    decreases p,
{
    if p <= 0 || p > e.len() {
        None
    } else if is_lead_ws(e[p - 1]) {
        prev_nonblank(e, p - 1)
    } else {
        Some(e[p - 1])
    }
}

/// Whether `e` splits at position `p` as the binary operator `op`: the byte is
/// `op` and is not the first byte; a `-` is binary only after an operand (a
/// `-` at the start or after another operator is the sign of a literal).
pub open spec fn splits_at(e: Seq<u8>, op: u8, p: int) -> bool {
    &&& 1 <= p < e.len()
    &&& e[p] == op
    &&& (op != 45u8 || (prev_nonblank(e, p) matches Some(b) && !is_op_byte(b)))
}

/// The last position `p` with `1 <= p < k` where `e` splits at `op`.
pub open spec fn last_op_below(e: Seq<u8>, op: u8, k: int) -> Option<int>
    decreases k,
{
    if k <= 1 || k > e.len() {
        None
    } else if splits_at(e, op, k - 1) {
        Some(k - 1)
    } else {
        last_op_below(e, op, k - 1)
    }
}

/// Where an expression splits at operator `op`: the last position where it
/// splits (see `splits_at`).
pub open spec fn spec_find_op(e: Seq<u8>, op: u8) -> Option<int> {
    last_op_below(e, op, e.len() as int)
}

pub proof fn lemma_last_op_bounds(e: Seq<u8>, op: u8, k: int)
    ensures
        last_op_below(e, op, k) matches Some(p) ==> 1 <= p < k && p < e.len() && e[p] == op,
    decreases k,
{
    if k > 1 && k <= e.len() && !splits_at(e, op, k - 1) {
        lemma_last_op_bounds(e, op, k - 1);
    }
}

/// Combines the two operand values of a binary operator (64-bit wrapping).
pub open spec fn apply_op(op: u8, l: Option<i64>, r: Option<i64>) -> Option<i64> {
    match (l, r) {
        (Some(a), Some(b)) => if op == 43u8 {
            Some(a.wrapping_add(b))
        } else if op == 45u8 {
            Some(a.wrapping_sub(b))
        } else {
            Some(a.wrapping_mul(b))
        },
        _ => None,
    }
}

/// Value of an expression: a literal, else a split at the last `+`, else at the
/// last binary `-`, else at the last `*` (operands evaluated recursively), else
/// a variable; the empty expression has no value.
pub open spec fn spec_eval(expr: Seq<u8>, vs: Seq<(Seq<u8>, i64)>) -> Option<i64>
    decreases expr.len(),
{
    let e = spec_trim(expr);
    if spec_parse_i64(e) is Some {
        spec_parse_i64(e)
    } else if spec_find_op(e, 43u8) is Some {
        let p = spec_find_op(e, 43u8)->0;
        proof {
            lemma_trim_len(expr);
            lemma_last_op_bounds(e, 43u8, e.len() as int);
            lemma_trim_len(e.take(p));
            lemma_trim_len(e.skip(p + 1));
        }
        apply_op(
            43u8,
            spec_eval(spec_trim(e.take(p)), vs),
            spec_eval(spec_trim(e.skip(p + 1)), vs),
        )
    } else if spec_find_op(e, 45u8) is Some {
        let p = spec_find_op(e, 45u8)->0;
        proof {
            lemma_trim_len(expr);
            lemma_last_op_bounds(e, 45u8, e.len() as int);
            lemma_trim_len(e.take(p));
            lemma_trim_len(e.skip(p + 1));
        }
        apply_op(
            45u8,
            spec_eval(spec_trim(e.take(p)), vs),
            spec_eval(spec_trim(e.skip(p + 1)), vs),
        )
    } else if spec_find_op(e, 42u8) is Some {
        let p = spec_find_op(e, 42u8)->0;
        proof {
            lemma_trim_len(expr);
            lemma_last_op_bounds(e, 42u8, e.len() as int);
            lemma_trim_len(e.take(p));
            lemma_trim_len(e.skip(p + 1));
        }
        apply_op(
            42u8,
            spec_eval(spec_trim(e.take(p)), vs),
            spec_eval(spec_trim(e.skip(p + 1)), vs),
        )
    } else if e.len() == 0 {
        None
    } else {
        spec_find_var(vs, e)
    }
}

/// The last byte before `p` that is not a space or tab.
fn prev_nonblank_at(expr: &[u8], p: usize) -> (r: Option<u8>)
    requires
        p <= expr@.len(),
    ensures
        r == prev_nonblank(expr@, p as int),
{
    let mut i = p;
    while i > 0
        invariant
            i <= p <= expr@.len(),
            prev_nonblank(expr@, p as int) == prev_nonblank(expr@, i as int),
        decreases i,
    {
        let b = expr[i - 1];
        if !(b == 32u8 || b == 9u8) {
            return Some(b);
        }
        i = i - 1;
    }
    None
}

fn find_op(expr: &[u8], op: u8) -> (r: Option<usize>)
    ensures
        r matches Some(p) ==> spec_find_op(expr@, op) == Some(p as int),
        r is None ==> spec_find_op(expr@, op) is None,
{
    let mut i = expr.len();
    while i > 0
        invariant
            i <= expr@.len(),
            spec_find_op(expr@, op) == last_op_below(expr@, op, i as int),
        decreases i,
    {
        i = i - 1;
        if expr[i] == op && i != 0 {
            if op != 45u8 {
                return Some(i);
            }
            match prev_nonblank_at(expr, i) {
                Some(b) => {
                    if !(b == 43u8 || b == 45u8 || b == 42u8) {
                        return Some(i);
                    }
                },
                None => {},
            }
        }
    }
    None
}

/// Evaluates a literal, a variable, or a binary operation `a op b`.
pub fn eval_expr(expr: &[u8], vars: &[AxVar]) -> (r: Option<i64>)
    requires
        vars_wf(vars@),
    ensures
        r == spec_eval(expr@, vars_view(vars@)),
    decreases expr@.len(),
{
    let e = trim(expr);
    proof {
        lemma_trim_len(expr@);
    }
    let lit_val = parse_i64(e);
    if lit_val.is_some() {
        return lit_val;
    }
    let ops: [u8; 3] = [43u8, 45u8, 42u8];
    let elen = e.len();
    let mut k: usize = 0;
    while k < 3
        invariant
            k <= 3,
            ops@ == seq![43u8, 45u8, 42u8],
            e@ == spec_trim(expr@),
            e@.len() <= expr@.len(),
            vars_wf(vars@),
            spec_parse_i64(e@) is None,
            k >= 1 ==> spec_find_op(e@, 43u8) is None,
            k >= 2 ==> spec_find_op(e@, 45u8) is None,
            k >= 3 ==> spec_find_op(e@, 42u8) is None,
            elen == e@.len(),
        decreases 3 - k,
    {
        let op = ops[k];
        if let Some(pos) = find_op(e, op) {
            proof {
                lemma_last_op_bounds(e@, op, e@.len() as int);
            }
            assert(pos < elen);
            let lhs = trim(&e[0..pos]);
            let rhs = trim(&e[pos + 1..elen]);
            assert(e@.subrange(0, pos as int) == e@.take(pos as int));
            assert(e@.subrange(pos + 1, e@.len() as int) == e@.skip(pos + 1));
            proof {
                lemma_trim_len(e@.take(pos as int));
                lemma_trim_len(e@.skip(pos + 1));
            }
            let l = match eval_expr(lhs, vars) {
                Some(v) => v,
                None => return None,
            };
            let r = match eval_expr(rhs, vars) {
                Some(v) => v,
                None => return None,
            };
            return Some(
                if op == 43u8 {
                    l.wrapping_add(r)
                } else if op == 45u8 {
                    l.wrapping_sub(r)
                } else {
                    l.wrapping_mul(r)
                },
            );
        }
        k = k + 1;
    }
    if e.len() == 0 {
        return None;
    }
    find_var(vars, e)
}

// ── AWP transport ─────────────────────────────────────────────────────────────

/// `f` answers `r` when asked to send `p` for node `id`.
pub open spec fn answers<F: Fn(u64, &[u8]) -> bool>(f: F, id: u64, p: Seq<u8>, r: bool) -> bool {
    exists|s: &[u8]| s@ == p && #[trigger] call_ensures(f, (id, s), r)
}

/// A transport may be called with any node id and payload. Its answers are
/// not assumed to be repeatable: each call may answer either way.
pub open spec fn transport_ok<F: Fn(u64, &[u8]) -> bool>(f: F) -> bool {
    forall|id: u64, s: &[u8]| call_requires(f, (id, s))
}

pub open spec fn transport_ok_opt<F: Fn(u64, &[u8]) -> bool>(cb: Option<F>) -> bool {
    cb matches Some(f) ==> transport_ok(f)
}

/// The transport's answer on one line: `None` when there is no transport.
pub open spec fn line_answer<F: Fn(u64, &[u8]) -> bool>(cb: Option<F>, r: bool) -> Option<bool> {
    match cb {
        Some(_) => Some(r),
        None => None,
    }
}

/// The transport's answers, by line number: `None` when there is no transport.
pub open spec fn with_answers<F: Fn(u64, &[u8]) -> bool>(cb: Option<F>, ans: spec_fn(nat) -> bool) -> Option<
    spec_fn(nat) -> bool,
> {
    match cb {
        Some(_) => Some(ans),
        None => None,
    }
}

/// Two answer tables agree on the lines numbered below `n`.
pub open spec fn agrees(a: spec_fn(nat) -> bool, b: spec_fn(nat) -> bool, n: nat) -> bool {
    forall|k: nat| k < n ==> #[trigger] a(k) == b(k)
}

// ── Line executor ─────────────────────────────────────────────────────────────

pub open spec fn first_index_of(s: Seq<u8>, b: u8, i: int) -> Option<int>
    decreases s.len() - i,
{
    if i < 0 || i >= s.len() {
        None
    } else if s[i] == b {
        Some(i)
    } else {
        first_index_of(s, b, i + 1)
    }
}

pub open spec fn newline() -> Seq<u8> {
    seq![10u8]
}

/// `print "text"` prints the text; `print expr` prints its value, or reports it
/// undefined.
pub open spec fn spec_print_line(line: Seq<u8>, vs: Seq<(Seq<u8>, i64)>, st: ResultView) -> ResultView {
    let arg = spec_trim(line.skip(6));
    if arg.len() >= 2 && arg[0] == 34u8 && arg.last() == 34u8 {
        st.push(arg.subrange(1, arg.len() - 1)).push(newline())
    } else {
        match spec_eval(arg, vs) {
            Some(v) => st.push(i64_text(v)).push(newline()),
            None => st.push(ascii_bytes("undefined: "@)).push(arg).push(newline()),
        }
    }
}

/// `let name = expr` assigns the value of `expr`; malformed or failing
/// assignments set the error.
pub open spec fn spec_let_line(
    line: Seq<u8>,
    vs: Seq<(Seq<u8>, i64)>,
    st: ResultView,
    line_num: nat,
) -> (Seq<(Seq<u8>, i64)>, ResultView) {
    let rest = spec_trim(line.skip(4));
    match first_index_of(rest, 61u8, 0) {
        None => (vs, st.fail(line_num, ascii_bytes("let: missing '='"@))),
        Some(eq) => {
            let name = spec_trim(rest.take(eq));
            let expr = spec_trim(rest.skip(eq + 1));
            if name.len() == 0 {
                (vs, st.fail(line_num, ascii_bytes("let: empty variable name"@)))
            } else {
                match spec_eval(expr, vs) {
                    None => (vs, st.fail(line_num, ascii_bytes("let: undefined expression"@))),
                    Some(v) => match spec_set_var(vs, name, v) {
                        Some(vs2) => (vs2, st),
                        None => (vs, st.fail(line_num, ascii_bytes("let: variable slots full"@))),
                    },
                }
            }
        },
    }
}

/// `awp payload` hands the payload to the transport and reports the outcome.
/// `ans` is the transport's answer (`None` without a transport).
pub open spec fn spec_awp_line(line: Seq<u8>, st: ResultView, ans: Option<bool>) -> ResultView {
    let payload = spec_trim(line.skip(4));
    match ans {
        Some(sent) => if sent {
            st.push(ascii_bytes("awp: sent "@)).push(payload).push(newline())
        } else {
            st.push(ascii_bytes("awp: not live\n"@))
        },
        None => st.push(ascii_bytes("awp: no transport\n"@)),
    }
}

/// What a trimmed line hands to the transport: the payload of an `awp` line.
pub open spec fn awp_payload(line: Seq<u8>) -> Option<Seq<u8>> {
    if line.len() > 0 && !spec_starts_with(line, ascii_bytes("//"@)) && !spec_starts_with(line, ascii_bytes("#"@))
        && !spec_starts_with(line, ascii_bytes("print "@)) && !spec_starts_with(line, ascii_bytes("let "@))
        && spec_starts_with(line, ascii_bytes("awp "@)) {
        Some(spec_trim(line.skip(4)))
    } else {
        None
    }
}

/// The effect of one trimmed, non-empty line on the variables and the result;
/// `ans` is what the transport answered if the line handed it a payload.
pub open spec fn spec_exec_line(
    line: Seq<u8>,
    vs: Seq<(Seq<u8>, i64)>,
    st: ResultView,
    ans: Option<bool>,
    line_num: nat,
) -> (Seq<(Seq<u8>, i64)>, ResultView) {
    if spec_starts_with(line, ascii_bytes("//"@)) || spec_starts_with(line, ascii_bytes("#"@)) {
        (vs, st)
    } else if spec_starts_with(line, ascii_bytes("print "@)) {
        (vs, spec_print_line(line, vs, st))
    } else if spec_starts_with(line, ascii_bytes("let "@)) {
        spec_let_line(line, vs, st, line_num)
    } else if spec_starts_with(line, ascii_bytes("awp "@)) {
        (vs, spec_awp_line(line, st, ans))
    } else if spec_starts_with(line, ascii_bytes("fn "@)) || spec_starts_with(
        line,
        ascii_bytes("return "@),
    ) {
        (vs, st)
    } else {
        (vs, st.push(ascii_bytes("unknown: "@)).push(line).push(newline()))
    }
}

/// `out` is what line `line` (numbered `n`) does to variables `vs` and result
/// `st` when the transport answered `r`, which is an answer the transport can
/// give if the line handed it a payload.
pub open spec fn line_outcome<F: Fn(u64, &[u8]) -> bool>(
    cb: Option<F>,
    id: u64,
    line: Seq<u8>,
    vs: Seq<(Seq<u8>, i64)>,
    st: ResultView,
    n: nat,
    r: bool,
    out: (Seq<(Seq<u8>, i64)>, ResultView),
) -> bool {
    &&& out == spec_exec_line(line, vs, st, line_answer(cb, r), n)
    &&& (cb matches Some(f) ==> (awp_payload(line) matches Some(p) ==> answers(f, id, p, r)))
}

fn position_of(s: &[u8], b: u8) -> (r: Option<usize>)
    ensures
        r matches Some(i) ==> first_index_of(s@, b, 0) == Some(i as int) && i < s@.len(),
        r is None ==> first_index_of(s@, b, 0) is None,
{
    let mut i: usize = 0;
    while i < s.len()
        invariant
            i <= s@.len(),
            first_index_of(s@, b, 0) == first_index_of(s@, b, i as int),
        decreases s.len() - i,
    {
        if s[i] == b {
            return Some(i);
        }
        i = i + 1;
    }
    None
}

fn send_awp<F: Fn(u64, &[u8]) -> bool + Copy>(f: F, id: u64, payload: &[u8]) -> (r: bool)
    requires
        transport_ok(f),
    ensures
        answers(f, id, payload@, r),
{
    f(id, payload)
}

fn exec_print(line: &[u8], vars: &[AxVar; MAX_VARS], result: &mut AxResult)
    requires
        old(result).wf(),
        vars_wf(vars@),
        line@.len() >= 6,
    ensures
        final(result).wf(),
        final(result).view() == spec_print_line(line@, vars_view(vars@), old(result).view()),
{
    let arg = trim(&line[6..line.len()]);
    assert(line@.subrange(6, line@.len() as int) == line@.skip(6));
    if arg.len() >= 2 && arg[0] == 34u8 && arg[arg.len() - 1] == 34u8 {
        result.push_str(&arg[1..arg.len() - 1]);
        result.push_newline();
    } else {
        match eval_expr(arg, vars.as_slice()) {
            Some(v) => {
                result.push_i64(v);
                result.push_newline();
            },
            None => {
                proof {
                    reveal_strlit("undefined: ");
                }
                result.push_str(lit("undefined: "));
                result.push_str(arg);
                result.push_newline();
            },
        }
    }
}

fn exec_let(line: &[u8], vars: &mut [AxVar; MAX_VARS], result: &mut AxResult, line_num: usize)
    requires
        old(result).wf(),
        vars_wf(old(vars)@),
        line@.len() >= 4,
    ensures
        final(result).wf(),
        vars_wf(final(vars)@),
        (vars_view(final(vars)@), final(result).view()) == spec_let_line(
            line@,
            vars_view(old(vars)@),
            old(result).view(),
            line_num as nat,
        ),
{
    let rest = trim(&line[4..line.len()]);
    assert(line@.subrange(4, line@.len() as int) == line@.skip(4));
    let rlen = rest.len();
    let eq = match position_of(rest, 61u8) {
        Some(eq) => eq,
        None => {
            proof {
                reveal_strlit("let: missing '='");
            }
            result.set_error(line_num, lit("let: missing '='"));
            return;
        },
    };
    let name = trim(&rest[0..eq]);
    let expr = trim(&rest[eq + 1..rlen]);
    assert(rest@.subrange(0, eq as int) == rest@.take(eq as int));
    assert(rest@.subrange(eq + 1, rest@.len() as int) == rest@.skip(eq + 1));
    if name.len() == 0 {
        proof {
            reveal_strlit("let: empty variable name");
        }
        result.set_error(line_num, lit("let: empty variable name"));
        return;
    }
    let value = match eval_expr(expr, vars.as_slice()) {
        Some(v) => v,
        None => {
            proof {
                reveal_strlit("let: undefined expression");
            }
            result.set_error(line_num, lit("let: undefined expression"));
            return;
        },
    };
    if !set_var(vars, name, value) {
        proof {
            reveal_strlit("let: variable slots full");
        }
        result.set_error(line_num, lit("let: variable slots full"));
    }
}

fn exec_awp<F: Fn(u64, &[u8]) -> bool + Copy>(
    line: &[u8],
    result: &mut AxResult,
    awp_node_id: u64,
    awp_send: Option<F>,
)
    requires
        old(result).wf(),
        line@.len() >= 4,
        transport_ok_opt(awp_send),
    ensures
        final(result).wf(),
        exists|r: bool|
            {
                &&& final(result).view() == spec_awp_line(line@, old(result).view(), line_answer(awp_send, r))
                &&& (awp_send matches Some(f) ==> answers(f, awp_node_id, spec_trim(line@.skip(4)), r))
            },
{
    let payload = trim(&line[4..line.len()]);
    assert(line@.subrange(4, line@.len() as int) == line@.skip(4));
    match awp_send {
        Some(f) => {
            let sent = send_awp(f, awp_node_id, payload);
            assert(line_answer(awp_send, sent) == Some(sent));
            if sent {
                proof {
                    reveal_strlit("awp: sent ");
                }
                result.push_str(lit("awp: sent "));
                result.push_str(payload);
                result.push_newline();
            } else {
                proof {
                    reveal_strlit("awp: not live\n");
                }
                result.push_str(lit("awp: not live\n"));
            }
            assert(result.view() == spec_awp_line(line@, old(result).view(), line_answer(awp_send, sent)));
        },
        None => {
            proof {
                reveal_strlit("awp: no transport\n");
            }
            result.push_str(lit("awp: no transport\n"));
            assert(result.view() == spec_awp_line(line@, old(result).view(), line_answer(awp_send, false)));
        },
    }
}

/// Executes one trimmed line against the variables, appending to `result`.
pub fn exec_line<F: Fn(u64, &[u8]) -> bool + Copy>(
    line: &[u8],
    vars: &mut [AxVar; MAX_VARS],
    result: &mut AxResult,
    awp_node_id: u64,
    awp_send: Option<F>,
    line_num: usize,
)
    requires
        old(result).wf(),
        vars_wf(old(vars)@),
        transport_ok_opt(awp_send),
    ensures
        final(result).wf(),
        vars_wf(final(vars)@),
        exists|r: bool|
            line_outcome(
                awp_send,
                awp_node_id,
                line@,
                vars_view(old(vars)@),
                old(result).view(),
                line_num as nat,
                r,
                (vars_view(final(vars)@), final(result).view()),
            ),
{
    proof {
        reveal_strlit("//");
        reveal_strlit("#");
        reveal_strlit("print ");
        reveal_strlit("let ");
        reveal_strlit("awp ");
        reveal_strlit("fn ");
        reveal_strlit("return ");
    }
    let ghost vs0 = vars_view(vars@);
    let ghost st0 = result.view();
    let ghost n = line_num as nat;
    if starts_with(line, lit("//")) || starts_with(line, lit("#")) {
        assert(awp_payload(line@) is None);
        assert(line_outcome(awp_send, awp_node_id, line@, vs0, st0, n, false, (vars_view(vars@), result.view())));
        return;
    }
    if starts_with(line, lit("print ")) {
        assert(ascii_bytes("print "@).len() == 6);
        exec_print(line, vars, result);
        assert(awp_payload(line@) is None);
        assert(line_outcome(awp_send, awp_node_id, line@, vs0, st0, n, false, (vars_view(vars@), result.view())));
        return;
    }
    if starts_with(line, lit("let ")) {
        assert(ascii_bytes("let "@).len() == 4);
        exec_let(line, vars, result, line_num);
        assert(awp_payload(line@) is None);
        assert(line_outcome(awp_send, awp_node_id, line@, vs0, st0, n, false, (vars_view(vars@), result.view())));
        return;
    }
    if starts_with(line, lit("awp ")) {
        assert(ascii_bytes("awp "@).len() == 4);
        exec_awp(line, result, awp_node_id, awp_send);
        let ghost r = choose|r: bool|
            {
                &&& result.view() == spec_awp_line(line@, st0, line_answer(awp_send, r))
                &&& (awp_send matches Some(f) ==> answers(f, awp_node_id, spec_trim(line@.skip(4)), r))
            };
        assert(awp_payload(line@) == Some(spec_trim(line@.skip(4))));
        assert(line_outcome(awp_send, awp_node_id, line@, vs0, st0, n, r, (vars_view(vars@), result.view())));
        return;
    }
    if starts_with(line, lit("fn ")) || starts_with(line, lit("return ")) {
        assert(awp_payload(line@) is None);
        assert(line_outcome(awp_send, awp_node_id, line@, vs0, st0, n, false, (vars_view(vars@), result.view())));
        return;
    }
    proof {
        reveal_strlit("unknown: ");
    }
    result.push_str(lit("unknown: "));
    result.push_str(line);
    result.push_newline();
    assert(awp_payload(line@) is None);
    assert(line_outcome(awp_send, awp_node_id, line@, vs0, st0, n, false, (vars_view(vars@), result.view())));
}

// ── Main entry points ─────────────────────────────────────────────────────────

/// Index of the first `\n` at or after `i`, or the length when there is none.
pub open spec fn next_newline(s: Seq<u8>, i: int) -> int
    decreases s.len() - i,
{
    if i < 0 || i >= s.len() {
        s.len() as int
    } else if s[i] == 10u8 {
        i
    } else {
        next_newline(s, i + 1)
    }
}

pub proof fn lemma_next_newline_bounds(s: Seq<u8>, i: int)
    requires
        0 <= i <= s.len(),
    ensures
        i <= next_newline(s, i) <= s.len(),
    decreases s.len() - i,
{
    if i < s.len() && s[i] != 10u8 {
        lemma_next_newline_bounds(s, i + 1);
    }
}

pub open spec fn count_line(st: ResultView) -> ResultView {
    ResultView { lines_executed: st.lines_executed + 1, ..st }
}

/// The answer on line `k`, from a table of answers by line number.
pub open spec fn answer_at(tr: Option<spec_fn(nat) -> bool>, k: nat) -> Option<bool> {
    match tr {
        Some(a) => Some(a(k)),
        None => None,
    }
}

/// Where line `k` of `script` starts (past the end when there are fewer lines).
pub open spec fn line_start_at(script: Seq<u8>, k: nat) -> int
    decreases k,
{
    if k == 0 {
        0
    } else {
        next_newline(script, line_start_at(script, (k - 1) as nat)) + 1
    }
}

/// The payload line `k` of `script` hands to the transport, if any.
pub open spec fn awp_payload_at(script: Seq<u8>, k: nat) -> Option<Seq<u8>> {
    let start = line_start_at(script, k);
    if 0 <= start <= script.len() {
        awp_payload(spec_trim(script.subrange(start, next_newline(script, start))))
    } else {
        None
    }
}

/// Each answer in `ans` for the lines below `n` is one the transport can give
/// for that line's payload.
pub open spec fn genuine<F: Fn(u64, &[u8]) -> bool>(
    cb: Option<F>,
    id: u64,
    script: Seq<u8>,
    ans: spec_fn(nat) -> bool,
    n: nat,
) -> bool {
    cb matches Some(f) ==> forall|k: nat|
        k < n && #[trigger] awp_payload_at(script, k) is Some ==> answers(f, id, awp_payload_at(script, k)->0, ans(k))
}

/// `out` (variables and result) is what running `script` from variables `vs`
/// gives when the transport answered as `ans` on the lines below `n`: the
/// answers are ones the transport can give, and the run reads no other.
pub open spec fn run_outcome<F: Fn(u64, &[u8]) -> bool>(
    cb: Option<F>,
    id: u64,
    script: Seq<u8>,
    vs: Seq<(Seq<u8>, i64)>,
    ans: spec_fn(nat) -> bool,
    n: nat,
    out: (Seq<(Seq<u8>, i64)>, ResultView),
) -> bool {
    &&& genuine(cb, id, script, ans, n)
    &&& forall|a2: spec_fn(nat) -> bool|
        #![trigger spec_run(script, 0, 0, vs, ResultView::fresh(), with_answers(cb, a2))]
        agrees(a2, ans, n) ==> out == spec_run(script, 0, 0, vs, ResultView::fresh(), with_answers(cb, a2))
}

/// Runs the lines of `script` from byte `start` on, numbering them from
/// `line_num`: at most `MAX_LINES` lines are read, blank lines are skipped, and
/// the first line that sets the error ends the run.
pub open spec fn spec_run(
    script: Seq<u8>,
    start: int,
    line_num: nat,
    vs: Seq<(Seq<u8>, i64)>,
    st: ResultView,
    tr: Option<spec_fn(nat) -> bool>,
) -> (Seq<(Seq<u8>, i64)>, ResultView)
    decreases script.len() - start,
{
    if start < 0 || start > script.len() || line_num >= MAX_LINES {
        (vs, st)
    } else {
        let end = next_newline(script, start);
        proof {
            lemma_next_newline_bounds(script, start);
        }
        let line = spec_trim(script.subrange(start, end));
        let (vs2, st2) = if line.len() > 0 {
            spec_exec_line(line, vs, st, answer_at(tr, line_num), line_num)
        } else {
            (vs, st)
        };
        if line.len() > 0 && st2.error {
            (vs2, st2)
        } else {
            let st3 = if line.len() > 0 { count_line(st2) } else { st2 };
            if end >= script.len() {
                (vs2, st3)
            } else {
                spec_run(script, end + 1, line_num + 1, vs2, st3, tr)
            }
        }
    }
}

/// A table of `MAX_VARS` unused slots.
pub open spec fn empty_table() -> Seq<(Seq<u8>, i64)> {
    Seq::new(MAX_VARS as nat, |i: int| (Seq::<u8>::empty(), 0i64))
}

fn run_lines<F: Fn(u64, &[u8]) -> bool + Copy>(
    script: &[u8],
    vars: &mut [AxVar; MAX_VARS],
    awp_node_id: u64,
    awp_send: Option<F>,
) -> (result: AxResult)
    requires
        vars_wf(old(vars)@),
        transport_ok_opt(awp_send),
    ensures
        result.wf(),
        vars_wf(final(vars)@),
        exists|ans: spec_fn(nat) -> bool, n: nat|
            run_outcome(
                awp_send,
                awp_node_id,
                script@,
                vars_view(old(vars)@),
                ans,
                n,
                (vars_view(final(vars)@), result.view()),
            ),
{
    let ghost vs0 = vars_view(vars@);
    let ghost mut ans: spec_fn(nat) -> bool = |k: nat| false;
    let mut result = AxResult::new();
    let mut line_start: usize = 0;
    let mut line_num: usize = 0;
    while line_start <= script.len() && line_num < MAX_LINES
        invariant
            result.wf(),
            vars_wf(vars@),
            transport_ok_opt(awp_send),
            vs0 == vars_view(old(vars)@),
            line_num <= MAX_LINES,
            result.lines_executed <= line_num,
            line_start == line_start_at(script@, line_num as nat),
            genuine(awp_send, awp_node_id, script@, ans, line_num as nat),
            forall|a2: spec_fn(nat) -> bool|
                #![trigger spec_run(script@, 0, 0, vs0, ResultView::fresh(), with_answers(awp_send, a2))]
                agrees(a2, ans, line_num as nat) ==> spec_run(
                    script@,
                    line_start as int,
                    line_num as nat,
                    vars_view(vars@),
                    result.view(),
                    with_answers(awp_send, a2),
                ) == spec_run(script@, 0, 0, vs0, ResultView::fresh(), with_answers(awp_send, a2)),
        decreases script.len() + 1 - line_start,
    {
        let ghost vs_b = vars_view(vars@);
        let ghost st_b = result.view();
        let ghost ans_b = ans;
        let mut line_end = line_start;
        while line_end < script.len() && script[line_end] != 10u8
            invariant
                line_start <= line_end <= script@.len(),
                next_newline(script@, line_start as int) == next_newline(script@, line_end as int),
            decreases script.len() - line_end,
        {
            line_end = line_end + 1;
        }
        assert(next_newline(script@, line_end as int) == line_end);
        proof {
            lemma_next_newline_bounds(script@, line_start as int);
        }
        let line = trim(&script[line_start..line_end]);
        assert(line@ == spec_trim(script@.subrange(line_start as int, line_end as int)));
        assert(awp_payload_at(script@, line_num as nat) == awp_payload(line@));
        if line.len() != 0 {
            exec_line(line, vars, &mut result, awp_node_id, awp_send, line_num);
            let ghost r = choose|r: bool|
                line_outcome(
                    awp_send,
                    awp_node_id,
                    line@,
                    vs_b,
                    st_b,
                    line_num as nat,
                    r,
                    (vars_view(vars@), result.view()),
                );
            proof {
                ans = |k: nat| if k == line_num as nat { r } else { ans_b(k) };
                assert forall|a2: spec_fn(nat) -> bool| agrees(a2, ans, (line_num + 1) as nat) implies agrees(
                    a2,
                    ans_b,
                    line_num as nat,
                ) && answer_at(with_answers(awp_send, a2), line_num as nat) == line_answer(awp_send, r) by {
                    assert forall|k: nat| k < line_num as nat implies #[trigger] a2(k) == ans_b(k) by {
                        assert(a2(k) == ans(k));
                    }
                    assert(a2(line_num as nat) == ans(line_num as nat));
                }
                assert forall|k: nat|
                    k < (line_num + 1) as nat && #[trigger] awp_payload_at(script@, k) is Some implies (
                    awp_send matches Some(f) ==> answers(f, awp_node_id, awp_payload_at(script@, k)->0, ans(k))) by {
                    if k < line_num as nat {
                        assert(ans(k) == ans_b(k));
                    }
                }
            }
            if result.error {
                proof {
                    assert forall|a2: spec_fn(nat) -> bool| agrees(a2, ans, (line_num + 1) as nat) implies (
                    vars_view(vars@), result.view()) == spec_run(
                        script@,
                        0,
                        0,
                        vs0,
                        ResultView::fresh(),
                        with_answers(awp_send, a2),
                    ) by {
                        assert(agrees(a2, ans_b, line_num as nat));
                    }
                    assert(run_outcome(
                        awp_send,
                        awp_node_id,
                        script@,
                        vs0,
                        ans,
                        (line_num + 1) as nat,
                        (vars_view(vars@), result.view()),
                    ));
                }
                return result;
            }
            result.lines_executed = result.lines_executed + 1;
        } else {
            proof {
                assert forall|a2: spec_fn(nat) -> bool| agrees(a2, ans, (line_num + 1) as nat) implies agrees(
                    a2,
                    ans_b,
                    line_num as nat,
                ) by {
                    assert forall|k: nat| k < line_num as nat implies #[trigger] a2(k) == ans_b(k) by {
                        assert(a2(k) == ans(k));
                    }
                }
            }
        }
        if line_end >= script.len() {
            proof {
                assert forall|a2: spec_fn(nat) -> bool| agrees(a2, ans, (line_num + 1) as nat) implies (
                vars_view(vars@), result.view()) == spec_run(
                    script@,
                    0,
                    0,
                    vs0,
                    ResultView::fresh(),
                    with_answers(awp_send, a2),
                ) by {
                    assert(agrees(a2, ans_b, line_num as nat));
                }
                assert(run_outcome(
                    awp_send,
                    awp_node_id,
                    script@,
                    vs0,
                    ans,
                    (line_num + 1) as nat,
                    (vars_view(vars@), result.view()),
                ));
            }
            return result;
        }
        proof {
            assert forall|a2: spec_fn(nat) -> bool| agrees(a2, ans, (line_num + 1) as nat) implies spec_run(
                script@,
                (line_end + 1) as int,
                (line_num + 1) as nat,
                vars_view(vars@),
                result.view(),
                with_answers(awp_send, a2),
            ) == spec_run(script@, 0, 0, vs0, ResultView::fresh(), with_answers(awp_send, a2)) by {
                assert(agrees(a2, ans_b, line_num as nat));
            }
        }
        line_start = line_end + 1;
        line_num = line_num + 1;
    }
    proof {
        assert forall|a2: spec_fn(nat) -> bool| agrees(a2, ans, line_num as nat) implies (
        vars_view(vars@), result.view()) == spec_run(
            script@,
            0,
            0,
            vs0,
            ResultView::fresh(),
            with_answers(awp_send, a2),
        ) by {
        }
        assert(run_outcome(
            awp_send,
            awp_node_id,
            script@,
            vs0,
            ans,
            line_num as nat,
            (vars_view(vars@), result.view()),
        ));
    }
    result
}

/// Executes a script with fresh variables. `awp_send` is the AWP transport,
/// called as `(node id, payload)`; with `None`, `awp` lines report that there
/// is no transport.
pub fn exec<F: Fn(u64, &[u8]) -> bool + Copy>(
    script: &[u8],
    awp_node_id: u64,
    awp_send: Option<F>,
) -> (result: AxResult)
    requires
        transport_ok_opt(awp_send),
    ensures
        result.wf(),
        exists|ans: spec_fn(nat) -> bool, n: nat, vs: Seq<(Seq<u8>, i64)>|
            run_outcome(awp_send, awp_node_id, script@, empty_table(), ans, n, (vs, result.view())),
{
    let mut vars = empty_vars();
    assert forall|i: int| 0 <= i < MAX_VARS implies #[trigger] vars_view(vars@)[i] == empty_table()[i] by {
        assert(vars@[i].name@.subrange(0, 0) =~= Seq::<u8>::empty());
    }
    assert(vars_view(vars@) =~= empty_table());
    run_lines(script, &mut vars, awp_node_id, awp_send)
}

/// Executes a script against a persistent interpreter state (REPL sessions):
/// variables set by earlier scripts stay visible.
pub fn exec_with_state<F: Fn(u64, &[u8]) -> bool + Copy>(
    script: &[u8],
    interp: &mut AxInterp,
    awp_node_id: u64,
    awp_send: Option<F>,
) -> (result: AxResult)
    requires
        old(interp).wf(),
        transport_ok_opt(awp_send),
    ensures
        result.wf(),
        final(interp).wf(),
        final(interp).var_count == old(interp).var_count,
        exists|ans: spec_fn(nat) -> bool, n: nat|
            run_outcome(
                awp_send,
                awp_node_id,
                script@,
                vars_view(old(interp).vars@),
                ans,
                n,
                (vars_view(final(interp).vars@), result.view()),
            ),
{
    run_lines(script, &mut interp.vars, awp_node_id, awp_send)
}

/// Pushing `a` and then `b` is pushing `a + b`.
pub proof fn lemma_push_assoc(o: Seq<u8>, a: Seq<u8>, b: Seq<u8>)
    requires
        o.len() <= out_cap(),
    ensures
        push_capped(push_capped(o, a, out_cap()), b, out_cap()) =~= push_capped(o, a + b, out_cap()),
{
}

// ── Laws of the expression evaluator ─────────────────────────────────────────
// Expressions built from integer literals and binary operators, with any
// blanks around the operators, take their value by the usual arithmetic:
// `*` binds tighter than `+` and `-`, and operators of the same level group
// to the left. Arithmetic is 64-bit wrapping.

/// Spaces and tabs only.
pub open spec fn blanks(w: Seq<u8>) -> bool {
    forall|i: int| 0 <= i < w.len() ==> is_lead_ws(#[trigger] w[i])
}

/// An integer literal: an optional minus sign and decimal digits whose value
/// fits in 64 bits.
pub open spec fn lit_ok(d: Seq<u8>) -> bool {
    d.len() > 0 && all_digits(d) && digits_value(d) <= i64::MAX
}

/// The text of a literal: `d`, after a minus sign when `neg`.
pub open spec fn lit_text(neg: bool, d: Seq<u8>) -> Seq<u8> {
    if neg {
        seq![45u8] + d
    } else {
        d
    }
}

/// The value of a literal.
pub open spec fn lit_value(neg: bool, d: Seq<u8>) -> i64 {
    (if neg {
        -(digits_value(d) as int)
    } else {
        digits_value(d) as int
    }) as i64
}

/// `l`, blanks `w1`, the operator byte `op`, blanks `w2`, then `r`.
pub open spec fn binop_text(l: Seq<u8>, w1: Seq<u8>, op: u8, w2: Seq<u8>, r: Seq<u8>) -> Seq<u8> {
    l + w1 + seq![op] + w2 + r
}

/// `a op b` in 64-bit wrapping arithmetic (`+`, `-`, else `*`).
pub open spec fn arith(op: u8, a: i64, b: i64) -> i64 {
    if op == 43u8 {
        a.wrapping_add(b)
    } else if op == 45u8 {
        a.wrapping_sub(b)
    } else {
        a.wrapping_mul(b)
    }
}

/// The value of `a op1 b op2 c`: `*` first, then left to right.
pub open spec fn value3(op1: u8, op2: u8, a: i64, b: i64, c: i64) -> i64 {
    if op2 == 42u8 && op1 != 42u8 {
        arith(op1, a, arith(42u8, b, c))
    } else {
        arith(op2, arith(op1, a, b), c)
    }
}

/// An expression text that starts with a literal (a sign or a digit) and ends
/// with a digit.
pub open spec fn literal_ends(e: Seq<u8>) -> bool {
    &&& e.len() > 0
    &&& (e[0] == 45u8 || is_digit(e[0]))
    &&& is_digit(e.last())
}

proof fn lemma_trim_start_keeps(s: Seq<u8>)
    requires
        s.len() > 0,
        !is_lead_ws(s[0]),
    ensures
        trim_start(s) == s,
{
}

proof fn lemma_trim_end_keeps(s: Seq<u8>)
    requires
        s.len() > 0,
        !is_trail_ws(s.last()),
    ensures
        trim_end(s) == s,
{
}

proof fn lemma_trim_end_blanks(x: Seq<u8>, w: Seq<u8>)
    requires
        blanks(w),
    ensures
        trim_end(x + w) == trim_end(x),
    decreases w.len(),
{
    if w.len() > 0 {
        assert(is_lead_ws(w[w.len() - 1]));
        assert((x + w).last() == w.last());
        assert((x + w).drop_last() =~= x + w.drop_last());
        assert(blanks(w.drop_last())) by {
            assert forall|i: int| 0 <= i < w.drop_last().len() implies is_lead_ws(#[trigger] w.drop_last()[i]) by {
                assert(w.drop_last()[i] == w[i]);
            }
        }
        lemma_trim_end_blanks(x, w.drop_last());
    } else {
        assert(x + w =~= x);
    }
}

proof fn lemma_trim_start_blanks(w: Seq<u8>, x: Seq<u8>)
    requires
        blanks(w),
    ensures
        trim_start(w + x) == trim_start(x),
    decreases w.len(),
{
    if w.len() > 0 {
        assert(is_lead_ws(w[0]));
        assert((w + x)[0] == w[0]);
        assert((w + x).drop_first() =~= w.drop_first() + x);
        assert(blanks(w.drop_first())) by {
            assert forall|i: int| 0 <= i < w.drop_first().len() implies is_lead_ws(#[trigger] w.drop_first()[i]) by {
                assert(w.drop_first()[i] == w[i + 1]);
            }
        }
        lemma_trim_start_blanks(w.drop_first(), x);
    } else {
        assert(w + x =~= x);
    }
}

/// A text that starts with a literal and ends with a digit is its own trim,
/// also with blanks after it or before it.
proof fn lemma_trim_literal_ends(e: Seq<u8>, w: Seq<u8>)
    requires
        literal_ends(e),
        blanks(w),
    ensures
        spec_trim(e) == e,
        spec_trim(e + w) == e,
        spec_trim(w + e) == e,
{
    lemma_trim_start_keeps(e);
    lemma_trim_end_keeps(e);
    assert((e + w)[0] == e[0]);
    lemma_trim_start_keeps(e + w);
    lemma_trim_end_blanks(e, w);
    lemma_trim_start_blanks(w, e);
}

/// `prev_nonblank` looks only at the bytes before `q`.
proof fn lemma_prev_nonblank_prefix(a: Seq<u8>, b: Seq<u8>, q: int)
    requires
        0 <= q <= a.len(),
        q <= b.len(),
        forall|j: int| 0 <= j < q ==> a[j] == b[j],
    ensures
        prev_nonblank(a, q) == prev_nonblank(b, q),
    decreases q,
{
    if q > 0 {
        assert(a[q - 1] == b[q - 1]);
        lemma_prev_nonblank_prefix(a, b, q - 1);
    }
}

/// Walking back over blanks from `q` to `a`, the byte before `a` is found.
proof fn lemma_prev_nonblank_over(e: Seq<u8>, a: int, q: int)
    requires
        1 <= a <= q <= e.len(),
        !is_lead_ws(e[a - 1]),
        forall|j: int| a <= j < q ==> is_lead_ws(#[trigger] e[j]),
    ensures
        prev_nonblank(e, q) == Some(e[a - 1]),
    decreases q - a,
{
    if q > a {
        assert(is_lead_ws(e[q - 1]));
        lemma_prev_nonblank_over(e, a, q - 1);
    }
}

/// Inside a text `y` placed at `off` in `e`, with `y[0]` not blank, the last
/// non-blank byte before a position is the one `y` alone has.
proof fn lemma_prev_nonblank_shift(e: Seq<u8>, y: Seq<u8>, off: int, m: int)
    requires
        0 <= off,
        1 <= m <= y.len(),
        off + y.len() <= e.len(),
        forall|j: int| 0 <= j < y.len() ==> e[off + j] == #[trigger] y[j],
        !is_lead_ws(y[0]),
    ensures
        prev_nonblank(e, off + m) == prev_nonblank(y, m),
    decreases m,
{
    assert(e[off + m - 1] == y[m - 1]);
    if is_lead_ws(y[m - 1]) {
        lemma_prev_nonblank_shift(e, y, off, m - 1);
    }
}

proof fn lemma_last_op_spec(e: Seq<u8>, op: u8, k: int)
    requires
        k <= e.len(),
    ensures
        last_op_below(e, op, k) matches Some(p) ==> 1 <= p < k && splits_at(e, op, p) && forall|q: int|
            p < q < k ==> !#[trigger] splits_at(e, op, q),
        last_op_below(e, op, k) is None ==> forall|q: int| 1 <= q < k ==> !#[trigger] splits_at(e, op, q),
    decreases k,
{
    if k > 1 && !splits_at(e, op, k - 1) {
        lemma_last_op_spec(e, op, k - 1);
    }
}

proof fn lemma_last_op_is(e: Seq<u8>, op: u8, k: int, p: int)
    requires
        1 <= p < k <= e.len(),
        splits_at(e, op, p),
        forall|q: int| p < q < k ==> !#[trigger] splits_at(e, op, q),
    ensures
        last_op_below(e, op, k) == Some(p),
    decreases k,
{
    if k - 1 != p {
        assert(!splits_at(e, op, k - 1));
        lemma_last_op_is(e, op, k - 1, p);
    }
}

proof fn lemma_last_op_none(e: Seq<u8>, op: u8, k: int)
    requires
        k <= e.len(),
        forall|q: int| 1 <= q < k ==> !#[trigger] splits_at(e, op, q),
    ensures
        last_op_below(e, op, k) is None,
    decreases k,
{
    if k > 1 {
        assert(!splits_at(e, op, k - 1));
        lemma_last_op_none(e, op, k - 1);
    }
}

/// A literal's text starts with a literal and ends with a digit, and no
/// operator splits it.
proof fn lemma_literal_shape(neg: bool, d: Seq<u8>, op: u8)
    requires
        lit_ok(d),
        is_op_byte(op),
    ensures
        literal_ends(lit_text(neg, d)),
        spec_find_op(lit_text(neg, d), op) is None,
{
    let t = lit_text(neg, d);
    assert(is_digit(d[d.len() - 1]));
    assert(t.last() == d.last());
    if !neg {
        assert(is_digit(d[0]));
    }
    assert forall|q: int| 1 <= q < t.len() implies !#[trigger] splits_at(t, op, q) by {
        if neg {
            assert(t[q] == d[q - 1]);
            assert(is_digit(d[q - 1]));
        } else {
            assert(is_digit(d[q]));
        }
    }
    lemma_last_op_none(t, op, t.len() as int);
}

/// A literal evaluates to its value.
pub proof fn lemma_eval_literal(neg: bool, d: Seq<u8>, vs: Seq<(Seq<u8>, i64)>)
    requires
        lit_ok(d),
    ensures
        spec_parse_i64(lit_text(neg, d)) == Some(lit_value(neg, d)),
        spec_eval(lit_text(neg, d), vs) == Some(lit_value(neg, d)),
{
    let t = lit_text(neg, d);
    lemma_literal_shape(neg, d, 43u8);
    lemma_trim_literal_ends(t, seq![]);
    assert(is_digit(d[0]));
    if neg {
        assert(t.drop_first() =~= d);
    }
    assert(literal_parts(t) == (neg, d));
    lemma_digits_exact(d);
}

/// Where an operator splits `x w1 op w2 y`: at its last split inside `y`,
/// else at the middle operator when it is `op2`, else where it splits `x`.
#[verifier::spinoff_prover]
#[verifier::rlimit(40)]
proof fn lemma_find_op_binop(x: Seq<u8>, w1: Seq<u8>, op: u8, w2: Seq<u8>, y: Seq<u8>, op2: u8)
    requires
        literal_ends(x),
        literal_ends(y),
        blanks(w1),
        blanks(w2),
        is_op_byte(op),
        is_op_byte(op2),
    ensures
        spec_find_op(binop_text(x, w1, op, w2, y), op2) == match spec_find_op(y, op2) {
            Some(j) => Some(x.len() + w1.len() + 1 + w2.len() + j),
            None => if op2 == op {
                Some(x.len() + w1.len() as int)
            } else {
                spec_find_op(x, op2)
            },
        },
{
    let e = binop_text(x, w1, op, w2, y);
    let xl = x.len() as int;
    let p = xl + w1.len();
    let off = p + 1 + w2.len();
    let len = e.len() as int;
    assert(len == off + y.len());
    assert forall|q: int| 0 <= q < xl implies e[q] == #[trigger] x[q] by {}
    assert forall|q: int| xl <= q < p implies #[trigger] e[q] == w1[q - xl] && is_lead_ws(e[q]) by {
        assert(is_lead_ws(w1[q - xl]));
    }
    assert(e[p] == op);
    assert forall|q: int| p < q < off implies #[trigger] e[q] == w2[q - p - 1] && is_lead_ws(e[q]) by {
        assert(is_lead_ws(w2[q - p - 1]));
    }
    assert forall|j: int| 0 <= j < y.len() implies e[off + j] == #[trigger] y[j] by {}
    assert(is_digit(x[xl - 1]));
    // the byte before the middle operator, and before `y`
    lemma_prev_nonblank_over(e, xl, p);
    lemma_prev_nonblank_over(e, p + 1, off);
    // splits inside `x` are splits of `e`
    assert forall|q: int| 1 <= q < xl implies #[trigger] splits_at(e, op2, q) == splits_at(x, op2, q) by {
        lemma_prev_nonblank_prefix(e, x, q);
    }
    assert forall|q: int| xl <= q < off && q != p implies !#[trigger] splits_at(e, op2, q) by {}
    assert(splits_at(e, op2, p) == (op2 == op));
    assert(!splits_at(e, op2, off));
    assert forall|q: int| off < q < len implies #[trigger] splits_at(e, op2, q) == splits_at(
        y,
        op2,
        q - off,
    ) by {
        lemma_prev_nonblank_shift(e, y, off, q - off);
    }
    lemma_last_op_spec(y, op2, y.len() as int);
    lemma_last_op_spec(x, op2, xl);
    match spec_find_op(y, op2) {
        Some(j) => {
            assert forall|q: int| off + j < q < len implies !#[trigger] splits_at(e, op2, q) by {
                assert(!splits_at(y, op2, q - off));
            }
            lemma_last_op_is(e, op2, len, off + j);
        },
        None => {
            assert forall|q: int| off <= q < len implies !#[trigger] splits_at(e, op2, q) by {
                if q > off {
                    assert(!splits_at(y, op2, q - off));
                }
            }
            if op2 == op {
                assert forall|q: int| p < q < len implies !#[trigger] splits_at(e, op2, q) by {}
                lemma_last_op_is(e, op2, len, p);
            } else {
                match spec_find_op(x, op2) {
                    Some(i) => {
                        assert forall|q: int| i < q < len implies !#[trigger] splits_at(e, op2, q) by {
                            if q < xl {
                                assert(!splits_at(x, op2, q));
                            }
                        }
                        lemma_last_op_is(e, op2, len, i);
                    },
                    None => {
                        assert forall|q: int| 1 <= q < len implies !#[trigger] splits_at(e, op2, q) by {
                            if q < xl {
                                assert(!splits_at(x, op2, q));
                            }
                        }
                        lemma_last_op_none(e, op2, len);
                    },
                }
            }
        },
    }
}

/// Adding a difference is subtracting from a sum, in wrapping arithmetic.
proof fn lemma_wrapping_add_sub(a: i64, b: i64, c: i64)
    ensures
        a.wrapping_add(b.wrapping_sub(c)) == a.wrapping_add(b).wrapping_sub(c),
{
}

/// `l op r` for two literals is `binop_text` of them; it starts with a
/// literal, ends with a digit, is no literal itself, and splits only at the
/// operator.
#[verifier::spinoff_prover]
#[verifier::rlimit(40)]
proof fn lemma_two_shape(
    neg1: bool,
    d1: Seq<u8>,
    w1: Seq<u8>,
    op: u8,
    w2: Seq<u8>,
    neg2: bool,
    d2: Seq<u8>,
    o: u8,
)
    requires
        lit_ok(d1),
        lit_ok(d2),
        blanks(w1),
        blanks(w2),
        is_op_byte(op),
        is_op_byte(o),
    ensures
        literal_ends(binop_text(lit_text(neg1, d1), w1, op, w2, lit_text(neg2, d2))),
        spec_parse_i64(binop_text(lit_text(neg1, d1), w1, op, w2, lit_text(neg2, d2))) is None,
        spec_find_op(binop_text(lit_text(neg1, d1), w1, op, w2, lit_text(neg2, d2)), o) == if o == op {
            Some(lit_text(neg1, d1).len() + w1.len() as int)
        } else {
            None::<int>
        },
{
    let l1 = lit_text(neg1, d1);
    let l2 = lit_text(neg2, d2);
    let e = binop_text(l1, w1, op, w2, l2);
    lemma_literal_shape(neg1, d1, o);
    lemma_literal_shape(neg2, d2, o);
    lemma_find_op_binop(l1, w1, op, w2, l2, o);
    assert(e[0] == l1[0]);
    assert(e.last() == l2.last());
    lemma_trim_literal_ends(e, seq![]);
    let p = l1.len() + w1.len() as int;
    assert(e[p] == op);
    let (neg, rest) = literal_parts(e);
    let idx = if e[0] == 45u8 { p - 1 } else { p as int };
    assert(rest[idx] == op);
    assert(!is_digit(rest[idx]));
}

/// Two literals around an operator, with any blanks beside it, evaluate to the
/// operator applied to their values.
#[verifier::spinoff_prover]
#[verifier::rlimit(40)]
pub proof fn lemma_eval_two(
    neg1: bool,
    d1: Seq<u8>,
    w1: Seq<u8>,
    op: u8,
    w2: Seq<u8>,
    neg2: bool,
    d2: Seq<u8>,
    vs: Seq<(Seq<u8>, i64)>,
)
    requires
        lit_ok(d1),
        lit_ok(d2),
        blanks(w1),
        blanks(w2),
        is_op_byte(op),
    ensures
        spec_eval(binop_text(lit_text(neg1, d1), w1, op, w2, lit_text(neg2, d2)), vs) == Some(
            arith(op, lit_value(neg1, d1), lit_value(neg2, d2)),
        ),
{
    let l1 = lit_text(neg1, d1);
    let l2 = lit_text(neg2, d2);
    let e = binop_text(l1, w1, op, w2, l2);
    lemma_two_shape(neg1, d1, w1, op, w2, neg2, d2, 43u8);
    lemma_two_shape(neg1, d1, w1, op, w2, neg2, d2, 45u8);
    lemma_two_shape(neg1, d1, w1, op, w2, neg2, d2, 42u8);
    lemma_trim_literal_ends(e, seq![]);
    lemma_literal_shape(neg1, d1, op);
    lemma_literal_shape(neg2, d2, op);
    lemma_trim_literal_ends(l1, w1);
    lemma_trim_literal_ends(l2, w2);
    lemma_eval_literal(neg1, d1, vs);
    lemma_eval_literal(neg2, d2, vs);
    let p = l1.len() + w1.len() as int;
    assert(e.take(p) =~= l1 + w1);
    assert(e.skip(p + 1) =~= w2 + l2);
}

/// The text `a op1 b op2 c` of three literals, with blanks `w1`..`w4` around
/// the operators.
pub open spec fn three_text(
    a: Seq<u8>,
    w1: Seq<u8>,
    op1: u8,
    w2: Seq<u8>,
    b: Seq<u8>,
    w3: Seq<u8>,
    op2: u8,
    w4: Seq<u8>,
    c: Seq<u8>,
) -> Seq<u8> {
    binop_text(binop_text(a, w1, op1, w2, b), w3, op2, w4, c)
}

#[verifier::spinoff_prover]
#[verifier::rlimit(40)]
proof fn lemma_three_shape(
    neg1: bool,
    d1: Seq<u8>,
    w1: Seq<u8>,
    op1: u8,
    w2: Seq<u8>,
    neg2: bool,
    d2: Seq<u8>,
    w3: Seq<u8>,
    op2: u8,
    w4: Seq<u8>,
    neg3: bool,
    d3: Seq<u8>,
    o: u8,
)
    requires
        lit_ok(d1),
        lit_ok(d2),
        lit_ok(d3),
        blanks(w1),
        blanks(w2),
        blanks(w3),
        blanks(w4),
        is_op_byte(op1),
        is_op_byte(op2),
        is_op_byte(o),
    ensures
        ({
            let e = three_text(lit_text(neg1, d1), w1, op1, w2, lit_text(neg2, d2), w3, op2, w4, lit_text(neg3, d3));
            let p1 = lit_text(neg1, d1).len() + w1.len();
            let p2 = binop_text(lit_text(neg1, d1), w1, op1, w2, lit_text(neg2, d2)).len() + w3.len();
            &&& spec_trim(e) == e
            &&& spec_parse_i64(e) is None
            &&& spec_find_op(e, o) == if o == op2 {
                Some(p2 as int)
            } else if o == op1 {
                Some(p1 as int)
            } else {
                None::<int>
            }
        }),
{
    let l1 = lit_text(neg1, d1);
    let l2 = lit_text(neg2, d2);
    let l3 = lit_text(neg3, d3);
    let e2 = binop_text(l1, w1, op1, w2, l2);
    let e = binop_text(e2, w3, op2, w4, l3);
    let p1 = l1.len() + w1.len() as int;
    lemma_two_shape(neg1, d1, w1, op1, w2, neg2, d2, o);
    lemma_literal_shape(neg3, d3, o);
    lemma_find_op_binop(e2, w3, op2, w4, l3, o);
    assert(e[0] == e2[0]);
    assert(e.last() == l3.last());
    lemma_trim_literal_ends(e, seq![]);
    assert(e[p1] == op1);
    let rest = literal_parts(e).1;
    let idx = if e[0] == 45u8 { p1 - 1 } else { p1 };
    assert(rest[idx] == op1);
    assert(!is_digit(rest[idx]));
}

/// The pieces of `l1 w1 op1 w2 l2 w3 op2 w4 l3` around each operator.
proof fn lemma_three_pieces(
    l1: Seq<u8>,
    w1: Seq<u8>,
    op1: u8,
    w2: Seq<u8>,
    l2: Seq<u8>,
    w3: Seq<u8>,
    op2: u8,
    w4: Seq<u8>,
    l3: Seq<u8>,
)
    ensures
        ({
            let e2 = binop_text(l1, w1, op1, w2, l2);
            let e = binop_text(e2, w3, op2, w4, l3);
            let p1 = l1.len() + w1.len() as int;
            let p2 = e2.len() + w3.len() as int;
            &&& e.take(p2) == e2 + w3
            &&& e.skip(p2 + 1) == w4 + l3
            &&& e.take(p1) == l1 + w1
            &&& e.skip(p1 + 1) == w2 + binop_text(l2, w3, op2, w4, l3)
        }),
{
    let e2 = binop_text(l1, w1, op1, w2, l2);
    let e = binop_text(e2, w3, op2, w4, l3);
    let p1 = l1.len() + w1.len() as int;
    let p2 = e2.len() + w3.len() as int;
    assert(e.take(p2) =~= e2 + w3);
    assert(e.skip(p2 + 1) =~= w4 + l3);
    assert(e.take(p1) =~= l1 + w1);
    assert(e.skip(p1 + 1) =~= w2 + binop_text(l2, w3, op2, w4, l3));
}

proof fn lemma_piece_left(x: Seq<u8>, w: Seq<u8>, vs: Seq<(Seq<u8>, i64)>)
    requires
        literal_ends(x),
        blanks(w),
    ensures
        spec_eval(spec_trim(x + w), vs) == spec_eval(x, vs),
{
    lemma_trim_literal_ends(x, w);
}

proof fn lemma_piece_right(w: Seq<u8>, y: Seq<u8>, vs: Seq<(Seq<u8>, i64)>)
    requires
        literal_ends(y),
        blanks(w),
    ensures
        spec_eval(spec_trim(w + y), vs) == spec_eval(y, vs),
{
    lemma_trim_literal_ends(y, w);
}

/// The evaluation of a trimmed, non-literal text that the second operator
/// `op2` splits at `p2` and the first, `op1`, at `p1`, from the values of the
/// pieces around each.
#[verifier::spinoff_prover]
#[verifier::rlimit(40)]
proof fn lemma_eval_two_splits(
    e: Seq<u8>,
    vs: Seq<(Seq<u8>, i64)>,
    op1: u8,
    op2: u8,
    p1: int,
    p2: int,
    a: i64,
    b: i64,
    c: i64,
)
    requires
        is_op_byte(op1),
        is_op_byte(op2),
        spec_trim(e) == e,
        spec_parse_i64(e) is None,
        forall|o: u8|
            is_op_byte(o) ==> #[trigger] spec_find_op(e, o) == if o == op2 {
                Some(p2)
            } else if o == op1 {
                Some(p1)
            } else {
                None::<int>
            },
        spec_eval(spec_trim(e.take(p2)), vs) == Some(arith(op1, a, b)),
        spec_eval(spec_trim(e.skip(p2 + 1)), vs) == Some(c),
        spec_eval(spec_trim(e.take(p1)), vs) == Some(a),
        spec_eval(spec_trim(e.skip(p1 + 1)), vs) == Some(arith(op2, b, c)),
    ensures
        spec_eval(e, vs) == Some(value3(op1, op2, a, b, c)),
{
    assert(is_op_byte(43u8) && is_op_byte(45u8) && is_op_byte(42u8));
    assert(spec_find_op(e, 43u8) == spec_find_op(e, 43u8));
    assert(spec_find_op(e, 45u8) == spec_find_op(e, 45u8));
    assert(spec_find_op(e, 42u8) == spec_find_op(e, 42u8));
    lemma_wrapping_add_sub(a, b, c);
}

/// Three literals joined by two operators evaluate by the usual rules: `*`
/// before `+` and `-`, and otherwise left to right. So `a - b + c` is
/// `(a - b) + c`, `a - b - c` is `(a - b) - c`, `a + b * c` is `a + (b * c)`
/// and `a * b - c` is `(a * b) - c`, whatever blanks stand around the
/// operators and whatever the literals' signs.
#[verifier::spinoff_prover]
#[verifier::rlimit(40)]
pub proof fn lemma_eval_three(
    neg1: bool,
    d1: Seq<u8>,
    w1: Seq<u8>,
    op1: u8,
    w2: Seq<u8>,
    neg2: bool,
    d2: Seq<u8>,
    w3: Seq<u8>,
    op2: u8,
    w4: Seq<u8>,
    neg3: bool,
    d3: Seq<u8>,
    vs: Seq<(Seq<u8>, i64)>,
)
    requires
        lit_ok(d1),
        lit_ok(d2),
        lit_ok(d3),
        blanks(w1),
        blanks(w2),
        blanks(w3),
        blanks(w4),
        is_op_byte(op1),
        is_op_byte(op2),
    ensures
        spec_eval(
            three_text(lit_text(neg1, d1), w1, op1, w2, lit_text(neg2, d2), w3, op2, w4, lit_text(neg3, d3)),
            vs,
        ) == Some(value3(op1, op2, lit_value(neg1, d1), lit_value(neg2, d2), lit_value(neg3, d3))),
{
    let l1 = lit_text(neg1, d1);
    let l2 = lit_text(neg2, d2);
    let l3 = lit_text(neg3, d3);
    let a = lit_value(neg1, d1);
    let b = lit_value(neg2, d2);
    let c = lit_value(neg3, d3);
    let e2 = binop_text(l1, w1, op1, w2, l2);
    let e = binop_text(e2, w3, op2, w4, l3);
    let p1 = l1.len() + w1.len() as int;
    let p2 = e2.len() + w3.len() as int;
    assert forall|o: u8| is_op_byte(o) implies #[trigger] spec_find_op(e, o) == if o == op2 {
        Some(p2)
    } else if o == op1 {
        Some(p1)
    } else {
        None::<int>
    } by {
        lemma_three_shape(neg1, d1, w1, op1, w2, neg2, d2, w3, op2, w4, neg3, d3, o);
    }
    lemma_three_shape(neg1, d1, w1, op1, w2, neg2, d2, w3, op2, w4, neg3, d3, 43u8);
    let tail = binop_text(l2, w3, op2, w4, l3);
    lemma_two_shape(neg1, d1, w1, op1, w2, neg2, d2, 43u8);
    lemma_two_shape(neg2, d2, w3, op2, w4, neg3, d3, 43u8);
    lemma_literal_shape(neg1, d1, 43u8);
    lemma_literal_shape(neg3, d3, 43u8);
    lemma_three_pieces(l1, w1, op1, w2, l2, w3, op2, w4, l3);
    lemma_piece_left(e2, w3, vs);
    lemma_piece_right(w4, l3, vs);
    lemma_piece_left(l1, w1, vs);
    lemma_piece_right(w2, tail, vs);
    lemma_eval_two(neg1, d1, w1, op1, w2, neg2, d2, vs);
    lemma_eval_two(neg2, d2, w3, op2, w4, neg3, d3, vs);
    lemma_eval_literal(neg1, d1, vs);
    lemma_eval_literal(neg3, d3, vs);
    lemma_eval_two_splits(e, vs, op1, op2, p1, p2, a, b, c);
}

/// A variable name: ASCII letters and underscores.
pub open spec fn name_ok(n: Seq<u8>) -> bool {
    &&& n.len() > 0
    &&& forall|i: int|
        0 <= i < n.len() ==> {
            let b = #[trigger] n[i];
            (65u8 <= b <= 90u8) || (97u8 <= b <= 122u8) || b == 95u8
        }
}

/// A variable name evaluates to the value stored under it, and to nothing
/// when no slot holds it.
pub proof fn lemma_eval_name(n: Seq<u8>, vs: Seq<(Seq<u8>, i64)>)
    requires
        name_ok(n),
    ensures
        spec_eval(n, vs) == spec_find_var(vs, n),
{
    let b0 = n[0];
    let bl = n[n.len() - 1];
    assert(!is_lead_ws(b0));
    assert(!is_trail_ws(bl));
    lemma_trim_start_keeps(n);
    lemma_trim_end_keeps(n);
    assert(!is_digit(b0));
    assert(literal_parts(n) == (false, n));
    assert forall|o: u8, q: int| 1 <= q < n.len() && is_op_byte(o) implies !#[trigger] splits_at(n, o, q) by {
        let b = n[q];
        assert((65u8 <= b <= 90u8) || (97u8 <= b <= 122u8) || b == 95u8);
    }
    assert forall|o: u8| is_op_byte(o) implies #[trigger] spec_find_op(n, o) is None by {
        lemma_last_op_none(n, o, n.len() as int);
    }
    assert(is_op_byte(43u8) && is_op_byte(45u8) && is_op_byte(42u8));
    assert(spec_find_op(n, 43u8) is None);
    assert(spec_find_op(n, 45u8) is None);
    assert(spec_find_op(n, 42u8) is None);
}

/// `let` then reading the name in an expression: after a successful
/// assignment of `value` to a name of at most `VAR_NAME_LEN` bytes, the name
/// evaluates to `value`.
pub proof fn lemma_assign_then_eval(vs: Seq<(Seq<u8>, i64)>, n: Seq<u8>, value: i64)
    requires
        name_ok(n),
        n.len() <= VAR_NAME_LEN,
        spec_set_var(vs, n, value) is Some,
    ensures
        spec_eval(n, spec_set_var(vs, n, value)->0) == Some(value),
{
    lemma_assign_then_read(vs, n, value, n);
    lemma_eval_name(n, spec_set_var(vs, n, value)->0);
}

} // verus!
