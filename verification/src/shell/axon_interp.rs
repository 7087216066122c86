//! The shell's built-in AXON script interpreter (the compact bare-metal
//! subset): `print "text"`, `print var`, `let x = N`, `let x = var`,
//! `awp payload` and `//` comments.
use vstd::prelude::*;
use crate::axon_interp::{
    agrees, all_digits, answer_at, answers, digits_wrapping, first_index_of, first_named, first_unused,
    i64_decimal, i64_text, line_answer, line_start_at, literal_parts, next_newline, lemma_next_newline_bounds, newline,
    set_named, spec_find_var, spec_starts_with, spec_trim, starts_with, transport_ok,
    transport_ok_opt, trim, with_answers,
};
use crate::bytes::{append_capped, ascii_bytes, lit, push_capped};

verus! {

pub const MAX_LINES: usize = 32;
pub const MAX_VARS: usize = 8;
pub const VAR_NAME_LEN: usize = 16;
pub const OUTPUT_BUF: usize = 512;

/// One interpreter variable slot.
#[derive(Clone, Copy)]
pub struct AxVar {
    pub name: [u8; VAR_NAME_LEN],
    pub name_len: usize,
    pub value: i64,
}

impl AxVar {
    pub open spec fn wf(self) -> bool {
        self.name_len <= VAR_NAME_LEN
    }

    pub open spec fn name_seq(self) -> Seq<u8> {
        self.name@.subrange(0, self.name_len as int)
    }

    fn empty() -> (v: Self)
        ensures
            v.name_len == 0,
            v.value == 0,
    {
        AxVar { name: [0u8; VAR_NAME_LEN], name_len: 0, value: 0 }
    }
}

pub open spec fn vars_wf(vars: Seq<AxVar>) -> bool {
    forall|i: int| 0 <= i < vars.len() ==> (#[trigger] vars[i]).wf()
}

/// Each slot's name and value; an empty name marks an unused slot.
pub open spec fn vars_view(vars: Seq<AxVar>) -> Seq<(Seq<u8>, i64)> {
    vars.map_values(|v: AxVar| (v.name_seq(), v.value))
}

/// Interpreter result.
pub struct AxResult {
    pub output: [u8; OUTPUT_BUF],
    pub output_len: usize,
    pub lines_executed: usize,
    pub error: bool,
    pub error_line: usize,
}

/// What a result holds, as a reader of it sees it.
pub struct ShellResultView {
    pub output: Seq<u8>,
    pub lines_executed: nat,
    pub error: bool,
    pub error_line: nat,
}

pub open spec fn out_cap() -> int {
    OUTPUT_BUF - 1
}

impl ShellResultView {
    pub open spec fn fresh() -> ShellResultView {
        ShellResultView { output: seq![], lines_executed: 0, error: false, error_line: 0 }
    }

    pub open spec fn push(self, s: Seq<u8>) -> ShellResultView {
        ShellResultView { output: push_capped(self.output, s, out_cap()), ..self }
    }

    pub open spec fn fail(self, line_num: nat) -> ShellResultView {
        ShellResultView { error: true, error_line: line_num, ..self }
    }
}

impl AxResult {
    pub open spec fn wf(&self) -> bool {
        self.output_len < OUTPUT_BUF
    }

    pub open spec fn out(&self) -> Seq<u8> {
        self.output@.subrange(0, self.output_len as int)
    }

    pub open spec fn view(&self) -> ShellResultView {
        ShellResultView {
            output: self.out(),
            lines_executed: self.lines_executed as nat,
            error: self.error,
            error_line: self.error_line as nat,
        }
    }

    fn new() -> (r: Self)
        ensures
            r.wf(),
            r.view() == ShellResultView::fresh(),
    {
        let r = AxResult {
            output: [0u8; OUTPUT_BUF],
            output_len: 0,
            lines_executed: 0,
            error: false,
            error_line: 0,
        };
        assert(r.view().output =~= seq![]);
        r
    }

    fn push_str(&mut self, s: &[u8])
        requires
            old(self).wf(),
        ensures
            final(self).wf(),
            final(self).view() == old(self).view().push(s@),
    {
        assert(self.output@.take(self.output_len as int) == self.out());
        self.output_len = append_capped(&mut self.output, self.output_len, s);
        assert(self.out() == self.output@.take(self.output_len as int));
    }

    fn push_newline(&mut self)
        requires
            old(self).wf(),
        ensures
            final(self).wf(),
            final(self).view() == old(self).view().push(newline()),
    {
        let nl: [u8; 1] = [10u8];
        assert(nl@ =~= newline());
        self.push_str(&nl);
    }

    fn push_i64(&mut self, n: i64)
        requires
            old(self).wf(),
        ensures
            final(self).wf(),
            final(self).view() == old(self).view().push(i64_text(n)),
    {
        let text = i64_decimal(n);
        self.push_str(text.as_slice());
    }

    /// The output produced so far.
    pub fn as_str(&self) -> (r: &[u8])
        requires
            self.wf(),
        ensures
            r@ == self.out(),
    {
        self.output.as_slice().split_at(self.output_len).0
    }
}

// ── Parser helpers ─────────────────────────────────────────────────────────────

/// An integer literal: optional `-` followed by decimal digits (possibly none,
/// which reads as 0), surrounded by blanks; 64-bit wrapping arithmetic.
pub open spec fn spec_parse_i64(s: Seq<u8>) -> Option<i64> {
    let t = spec_trim(s);
    let (neg, d) = literal_parts(t);
    if t.len() == 0 || !all_digits(d) {
        None
    } else {
        let v = digits_wrapping(d);
        Some(if neg { 0i64.wrapping_sub(v) } else { v })
    }
}

fn parse_i64(s: &[u8]) -> (r: Option<i64>)
    ensures
        r == spec_parse_i64(s@),
{
    let t = trim(s);
    if t.len() == 0 {
        return None;
    }
    let neg = t[0] == 45u8;
    let digits = if neg { &t[1..t.len()] } else { t };
    assert(literal_parts(t@) == (neg, digits@)) by {
        if neg {
            assert(digits@ =~= t@.drop_first());
        }
    }
    let mut val: i64 = 0;
    let mut i: usize = 0;
    while i < digits.len()
        invariant
            i <= digits@.len(),
            spec_trim(s@).len() > 0,
            literal_parts(spec_trim(s@)) == (neg, digits@),
            all_digits(digits@.take(i as int)),
            val == digits_wrapping(digits@.take(i as int)),
        decreases digits.len() - i,
    {
        let c = digits[i];
        if c < 48u8 || c > 57u8 {
            assert(!crate::axon_interp::is_digit(digits@[i as int]));
            assert(!all_digits(digits@));
            return None;
        }
        assert(digits@.take(i + 1).drop_last() =~= digits@.take(i as int));
        assert(all_digits(digits@.take(i + 1))) by {
            assert forall|k: int| 0 <= k < i + 1 implies crate::axon_interp::is_digit(
                #[trigger] digits@.take(i + 1)[k],
            ) by {
                if k < i {
                    assert(digits@.take(i + 1)[k] == digits@.take(i as int)[k]);
                }
            }
        }
        val = val.wrapping_mul(10).wrapping_add((c - 48u8) as i64);
        i = i + 1;
    }
    assert(digits@.take(i as int) =~= digits@);
    Some(if neg { 0i64.wrapping_sub(val) } else { val })
}

fn name_is(v: &AxVar, name: &[u8]) -> (r: bool)
    requires
        v.wf(),
    ensures
        r == (v.name_seq() == name@),
{
    if v.name_len != name.len() {
        return false;
    }
    crate::bytes::slice_eq(v.name.as_slice().split_at(v.name_len).0, name)
}

fn find_var(vars: &[AxVar], name: &[u8]) -> (r: Option<i64>)
    requires
        vars_wf(vars@),
    ensures
        r == spec_find_var(vars_view(vars@), name@),
{
    let ghost vs = vars_view(vars@);
    let mut i: usize = 0;
    while i < vars.len()
        invariant
            i <= vars@.len(),
            vars_wf(vars@),
            vs == vars_view(vars@),
            first_named(vs, name@, 0) == first_named(vs, name@, i as int),
        decreases vars.len() - i,
    {
        assert(vars@[i as int].wf());
        if name_is(&vars[i], name) {
            return Some(vars[i].value);
        }
        i = i + 1;
    }
    None
}

/// Names are kept to their first `VAR_NAME_LEN` bytes.
pub open spec fn var_key(name: Seq<u8>) -> Seq<u8> {
    if name.len() <= VAR_NAME_LEN {
        name
    } else {
        name.take(VAR_NAME_LEN as int)
    }
}

/// Assigns `value` to `name`; when every slot is taken by another name the
/// assignment is dropped.
fn set_var(vars: &mut [AxVar; MAX_VARS], name: &[u8], value: i64)
    requires
        vars_wf(old(vars)@),
    ensures
        vars_wf(final(vars)@),
        vars_view(final(vars)@) == match set_named(vars_view(old(vars)@), var_key(name@), value) {
            Some(vs2) => vs2,
            None => vars_view(old(vars)@),
        },
{
    let nlen = if name.len() < VAR_NAME_LEN { name.len() } else { VAR_NAME_LEN };
    let key = &name[0..nlen];
    let ghost vs = vars_view(vars@);
    assert(key@ == var_key(name@)) by {
        if name@.len() <= VAR_NAME_LEN {
            assert(key@ =~= name@);
        }
    }
    let mut i: usize = 0;
    while i < MAX_VARS
        invariant
            i <= MAX_VARS,
            vars_wf(vars@),
            vs == vars_view(vars@),
            vars@ == old(vars)@,
            key@ == var_key(name@),
            nlen <= VAR_NAME_LEN,
            key@.len() == nlen,
            first_named(vs, key@, 0) == first_named(vs, key@, i as int),
        decreases MAX_VARS - i,
    {
        assert(vars@[i as int].wf());
        if name_is(&vars[i], key) {
            vars[i].value = value;
            assert(vars_view(vars@) =~= vs.update(i as int, (key@, value)));
            return;
        }
        i = i + 1;
    }
    let mut j: usize = 0;
    while j < MAX_VARS
        invariant
            j <= MAX_VARS,
            nlen <= VAR_NAME_LEN,
            key@.len() == nlen,
            vars_wf(vars@),
            vs == vars_view(vars@),
            vars@ == old(vars)@,
            key@ == var_key(name@),
            first_named(vs, key@, 0) is None,
            first_unused(vs, 0) == first_unused(vs, j as int),
        decreases MAX_VARS - j,
    {
        assert(vars@[j as int].wf());
        if vars[j].name_len == 0 {
            let mut v = vars[j];
            crate::bytes::copy_into(&mut v.name, 0, key, nlen);
            v.name_len = nlen;
            v.value = value;
            assert(v.name_seq() =~= key@);
            vars[j] = v;
            assert(vars_view(vars@) =~= vs.update(j as int, (key@, value)));
            assert(vars_wf(vars@)) by {
                assert forall|k: int| 0 <= k < MAX_VARS implies (#[trigger] vars@[k]).wf() by {
                    if k != j {
                        assert(vars@[k] == old(vars)@[k]);
                    }
                }
            }
            return;
        }
        j = j + 1;
    }
}

// ── Line semantics ────────────────────────────────────────────────────────────

/// `print "text"` prints the text; `print var` prints the variable's value, or
/// reports it undefined.
pub open spec fn spec_print_line(line: Seq<u8>, vs: Seq<(Seq<u8>, i64)>, st: ShellResultView) -> ShellResultView {
    let arg = spec_trim(line.skip(6));
    if arg.len() >= 2 && arg[0] == 34u8 && arg.last() == 34u8 {
        st.push(arg.subrange(1, arg.len() - 1)).push(newline())
    } else {
        match spec_find_var(vs, arg) {
            Some(v) => st.push(i64_text(v)).push(newline()),
            None => st.push(ascii_bytes("undefined: "@)).push(arg).push(newline()),
        }
    }
}

/// `let name = N` or `let name = var`; a missing `=` or an unknown source sets
/// the error.
pub open spec fn spec_let_line(
    line: Seq<u8>,
    vs: Seq<(Seq<u8>, i64)>,
    st: ShellResultView,
    line_num: nat,
) -> (Seq<(Seq<u8>, i64)>, ShellResultView) {
    let rest = spec_trim(line.skip(4));
    match first_index_of(rest, 61u8, 0) {
        None => (vs, st.fail(line_num)),
        Some(eq) => {
            let name = spec_trim(rest.take(eq));
            let src = spec_trim(rest.skip(eq + 1));
            let value = if spec_parse_i64(src) is Some {
                spec_parse_i64(src)
            } else {
                spec_find_var(vs, src)
            };
            match value {
                None => (vs, st.fail(line_num)),
                Some(v) => match set_named(vs, var_key(name), v) {
                    Some(vs2) => (vs2, st),
                    None => (vs, st),
                },
            }
        },
    }
}

/// `awp payload` hands the payload to the transport and reports its answer
/// `ans` (`None` without a transport).
pub open spec fn spec_awp_line(line: Seq<u8>, st: ShellResultView, ans: Option<bool>) -> ShellResultView {
    let payload = spec_trim(line.skip(4));
    match ans {
        Some(sent) => if sent {
            st.push(ascii_bytes("awp: sent "@)).push(payload).push(newline())
        } else {
            st.push(ascii_bytes("awp: not live\n"@))
        },
        None => st.push(ascii_bytes("awp: no transport\n"@)),
    }
}

/// What a trimmed line hands to the transport: the payload of an `awp` line.
pub open spec fn awp_payload(line: Seq<u8>) -> Option<Seq<u8>> {
    if line.len() > 0 && !spec_starts_with(line, ascii_bytes("//"@)) && !spec_starts_with(
        line,
        ascii_bytes("print "@),
    ) && !spec_starts_with(line, ascii_bytes("let "@)) && spec_starts_with(line, ascii_bytes("awp "@)) {
        Some(spec_trim(line.skip(4)))
    } else {
        None
    }
}

/// The effect of one trimmed, non-empty line; `ans` is what the transport
/// answered if the line handed it a payload.
pub open spec fn spec_exec_line(
    line: Seq<u8>,
    vs: Seq<(Seq<u8>, i64)>,
    st: ShellResultView,
    ans: Option<bool>,
    line_num: nat,
) -> (Seq<(Seq<u8>, i64)>, ShellResultView) {
    if spec_starts_with(line, ascii_bytes("//"@)) {
        (vs, st)
    } else if spec_starts_with(line, ascii_bytes("print "@)) {
        (vs, spec_print_line(line, vs, st))
    } else if spec_starts_with(line, ascii_bytes("let "@)) {
        spec_let_line(line, vs, st, line_num)
    } else if spec_starts_with(line, ascii_bytes("awp "@)) {
        (vs, spec_awp_line(line, st, ans))
    } else if spec_starts_with(line, ascii_bytes("fn "@)) || spec_starts_with(
        line,
        ascii_bytes("return "@),
    ) {
        (vs, st)
    } else {
        (vs, st.push(ascii_bytes("unknown: "@)).push(line).push(newline()))
    }
}

/// `out` is what line `line` (numbered `n`) does to variables `vs` and result
/// `st` when the transport answered `r`, which is an answer the transport can
/// give if the line handed it a payload.
pub open spec fn line_outcome<F: Fn(u64, &[u8]) -> bool>(
    cb: Option<F>,
    id: u64,
    line: Seq<u8>,
    vs: Seq<(Seq<u8>, i64)>,
    st: ShellResultView,
    n: nat,
    r: bool,
    out: (Seq<(Seq<u8>, i64)>, ShellResultView),
) -> bool {
    &&& out == spec_exec_line(line, vs, st, line_answer(cb, r), n)
    &&& (cb matches Some(f) ==> (awp_payload(line) matches Some(p) ==> answers(f, id, p, r)))
}

fn position_of(s: &[u8], b: u8) -> (r: Option<usize>)
    ensures
        r matches Some(i) ==> first_index_of(s@, b, 0) == Some(i as int) && i < s@.len(),
        r is None ==> first_index_of(s@, b, 0) is None,
{
    let mut i: usize = 0;
    while i < s.len()
        invariant
            i <= s@.len(),
            first_index_of(s@, b, 0) == first_index_of(s@, b, i as int),
        decreases s.len() - i,
    {
        if s[i] == b {
            return Some(i);
        }
        i = i + 1;
    }
    None
}

fn exec_print(line: &[u8], vars: &[AxVar; MAX_VARS], result: &mut AxResult)
    requires
        old(result).wf(),
        vars_wf(vars@),
        line@.len() >= 6,
    ensures
        final(result).wf(),
        final(result).view() == spec_print_line(line@, vars_view(vars@), old(result).view()),
{
    let arg = trim(&line[6..line.len()]);
    assert(line@.subrange(6, line@.len() as int) == line@.skip(6));
    if arg.len() >= 2 && arg[0] == 34u8 && arg[arg.len() - 1] == 34u8 {
        result.push_str(&arg[1..arg.len() - 1]);
        result.push_newline();
    } else {
        match find_var(vars.as_slice(), arg) {
            Some(v) => {
                result.push_i64(v);
                result.push_newline();
            },
            None => {
                proof {
                    reveal_strlit("undefined: ");
                }
                result.push_str(lit("undefined: "));
                result.push_str(arg);
                result.push_newline();
            },
        }
    }
}

fn exec_let(line: &[u8], vars: &mut [AxVar; MAX_VARS], result: &mut AxResult, line_num: usize)
    requires
        old(result).wf(),
        vars_wf(old(vars)@),
        line@.len() >= 4,
    ensures
        final(result).wf(),
        vars_wf(final(vars)@),
        (vars_view(final(vars)@), final(result).view()) == spec_let_line(
            line@,
            vars_view(old(vars)@),
            old(result).view(),
            line_num as nat,
        ),
{
    let rest = trim(&line[4..line.len()]);
    assert(line@.subrange(4, line@.len() as int) == line@.skip(4));
    let rlen = rest.len();
    let eq = match position_of(rest, 61u8) {
        Some(eq) => eq,
        None => {
            result.error = true;
            result.error_line = line_num;
            return;
        },
    };
    let name = trim(&rest[0..eq]);
    let src = trim(&rest[eq + 1..rlen]);
    assert(rest@.subrange(0, eq as int) == rest@.take(eq as int));
    assert(rest@.subrange(eq + 1, rest@.len() as int) == rest@.skip(eq + 1));
    let value = match parse_i64(src) {
        Some(n) => n,
        None => match find_var(vars.as_slice(), src) {
            Some(v) => v,
            None => {
                result.error = true;
                result.error_line = line_num;
                return;
            },
        },
    };
    set_var(vars, name, value);
}

fn send_awp<F: Fn(u64, &[u8]) -> bool + Copy>(f: F, id: u64, payload: &[u8]) -> (r: bool)
    requires
        transport_ok(f),
    ensures
        answers(f, id, payload@, r),
{
    f(id, payload)
}

fn exec_awp<F: Fn(u64, &[u8]) -> bool + Copy>(
    line: &[u8],
    result: &mut AxResult,
    awp_node_id: u64,
    awp_send: Option<F>,
)
    requires
        old(result).wf(),
        line@.len() >= 4,
        transport_ok_opt(awp_send),
    ensures
        final(result).wf(),
        exists|r: bool|
            {
                &&& final(result).view() == spec_awp_line(line@, old(result).view(), line_answer(awp_send, r))
                &&& (awp_send matches Some(f) ==> answers(f, awp_node_id, spec_trim(line@.skip(4)), r))
            },
{
    let payload = trim(&line[4..line.len()]);
    assert(line@.subrange(4, line@.len() as int) == line@.skip(4));
    match awp_send {
        Some(f) => {
            let sent = send_awp(f, awp_node_id, payload);
            assert(line_answer(awp_send, sent) == Some(sent));
            if sent {
                proof {
                    reveal_strlit("awp: sent ");
                }
                result.push_str(lit("awp: sent "));
                result.push_str(payload);
                result.push_newline();
            } else {
                proof {
                    reveal_strlit("awp: not live\n");
                }
                result.push_str(lit("awp: not live\n"));
            }
            assert(result.view() == spec_awp_line(line@, old(result).view(), line_answer(awp_send, sent)));
        },
        None => {
            proof {
                reveal_strlit("awp: no transport\n");
            }
            result.push_str(lit("awp: no transport\n"));
            assert(result.view() == spec_awp_line(line@, old(result).view(), line_answer(awp_send, false)));
        },
    }
}

fn exec_line<F: Fn(u64, &[u8]) -> bool + Copy>(
    line: &[u8],
    vars: &mut [AxVar; MAX_VARS],
    result: &mut AxResult,
    awp_node_id: u64,
    awp_send: Option<F>,
    line_num: usize,
)
    requires
        old(result).wf(),
        vars_wf(old(vars)@),
        transport_ok_opt(awp_send),
    ensures
        final(result).wf(),
        vars_wf(final(vars)@),
        exists|r: bool|
            line_outcome(
                awp_send,
                awp_node_id,
                line@,
                vars_view(old(vars)@),
                old(result).view(),
                line_num as nat,
                r,
                (vars_view(final(vars)@), final(result).view()),
            ),
{
    proof {
        reveal_strlit("//");
        reveal_strlit("print ");
        reveal_strlit("let ");
        reveal_strlit("awp ");
        reveal_strlit("fn ");
        reveal_strlit("return ");
    }
    let ghost vs0 = vars_view(vars@);
    let ghost st0 = result.view();
    let ghost n = line_num as nat;
    if starts_with(line, lit("//")) {
        assert(awp_payload(line@) is None);
        assert(line_outcome(awp_send, awp_node_id, line@, vs0, st0, n, false, (vars_view(vars@), result.view())));
        return;
    }
    if starts_with(line, lit("print ")) {
        assert(ascii_bytes("print "@).len() == 6);
        exec_print(line, vars, result);
        assert(awp_payload(line@) is None);
        assert(line_outcome(awp_send, awp_node_id, line@, vs0, st0, n, false, (vars_view(vars@), result.view())));
        return;
    }
    if starts_with(line, lit("let ")) {
        assert(ascii_bytes("let "@).len() == 4);
        exec_let(line, vars, result, line_num);
        assert(awp_payload(line@) is None);
        assert(line_outcome(awp_send, awp_node_id, line@, vs0, st0, n, false, (vars_view(vars@), result.view())));
        return;
    }
    if starts_with(line, lit("awp ")) {
        assert(ascii_bytes("awp "@).len() == 4);
        exec_awp(line, result, awp_node_id, awp_send);
        let ghost r = choose|r: bool|
            {
                &&& result.view() == spec_awp_line(line@, st0, line_answer(awp_send, r))
                &&& (awp_send matches Some(f) ==> answers(f, awp_node_id, spec_trim(line@.skip(4)), r))
            };
        assert(awp_payload(line@) == Some(spec_trim(line@.skip(4))));
        assert(line_outcome(awp_send, awp_node_id, line@, vs0, st0, n, r, (vars_view(vars@), result.view())));
        return;
    }
    if starts_with(line, lit("fn ")) || starts_with(line, lit("return ")) {
        assert(awp_payload(line@) is None);
        assert(line_outcome(awp_send, awp_node_id, line@, vs0, st0, n, false, (vars_view(vars@), result.view())));
        return;
    }
    proof {
        reveal_strlit("unknown: ");
    }
    result.push_str(lit("unknown: "));
    result.push_str(line);
    result.push_newline();
    assert(awp_payload(line@) is None);
    assert(line_outcome(awp_send, awp_node_id, line@, vs0, st0, n, false, (vars_view(vars@), result.view())));
}

// ── Main interpreter ───────────────────────────────────────────────────────────

pub open spec fn count_line(st: ShellResultView) -> ShellResultView {
    ShellResultView { lines_executed: st.lines_executed + 1, ..st }
}

/// Runs the lines of `script` from byte `start` on (at most `MAX_LINES` lines
/// in all); blank lines are skipped and an error ends the run.
pub open spec fn spec_run(
    script: Seq<u8>,
    start: int,
    line_num: nat,
    vs: Seq<(Seq<u8>, i64)>,
    st: ShellResultView,
    tr: Option<spec_fn(nat) -> bool>,
) -> (Seq<(Seq<u8>, i64)>, ShellResultView)
    decreases script.len() - start,
{
    if start < 0 || start > script.len() || line_num >= MAX_LINES {
        (vs, st)
    } else {
        let end = next_newline(script, start);
        proof {
            lemma_next_newline_bounds(script, start);
        }
        let line = spec_trim(script.subrange(start, end));
        let (vs2, st2) = if line.len() > 0 {
            spec_exec_line(line, vs, st, answer_at(tr, line_num), line_num)
        } else {
            (vs, st)
        };
        if line.len() > 0 && st2.error {
            (vs2, st2)
        } else {
            let st3 = if line.len() > 0 { count_line(st2) } else { st2 };
            if end >= script.len() {
                (vs2, st3)
            } else {
                spec_run(script, end + 1, line_num + 1, vs2, st3, tr)
            }
        }
    }
}

/// The payload line `k` of `script` hands to the transport, if any.
pub open spec fn awp_payload_at(script: Seq<u8>, k: nat) -> Option<Seq<u8>> {
    let start = line_start_at(script, k);
    if 0 <= start <= script.len() {
        awp_payload(spec_trim(script.subrange(start, next_newline(script, start))))
    } else {
        None
    }
}

/// Each answer in `ans` for the lines below `n` is one the transport can give
/// for that line's payload.
pub open spec fn genuine<F: Fn(u64, &[u8]) -> bool>(
    cb: Option<F>,
    id: u64,
    script: Seq<u8>,
    ans: spec_fn(nat) -> bool,
    n: nat,
) -> bool {
    cb matches Some(f) ==> forall|k: nat|
        k < n && #[trigger] awp_payload_at(script, k) is Some ==> answers(f, id, awp_payload_at(script, k)->0, ans(k))
}

/// `out` is what running `script` with fresh variables gives when the
/// transport answered as `ans` on the lines below `n`: the answers are ones
/// the transport can give, and the run reads no other.
pub open spec fn run_outcome<F: Fn(u64, &[u8]) -> bool>(
    cb: Option<F>,
    id: u64,
    script: Seq<u8>,
    ans: spec_fn(nat) -> bool,
    n: nat,
    out: (Seq<(Seq<u8>, i64)>, ShellResultView),
) -> bool {
    &&& genuine(cb, id, script, ans, n)
    &&& forall|a2: spec_fn(nat) -> bool|
        #![trigger spec_run(script, 0, 0, empty_table(), ShellResultView::fresh(), with_answers(cb, a2))]
        agrees(a2, ans, n) ==> out == spec_run(
            script,
            0,
            0,
            empty_table(),
            ShellResultView::fresh(),
            with_answers(cb, a2),
        )
}

/// `MAX_VARS` unused slots.
pub open spec fn empty_table() -> Seq<(Seq<u8>, i64)> {
    Seq::new(MAX_VARS as nat, |i: int| (Seq::<u8>::empty(), 0i64))
}

/// Executes AXON script bytes with fresh variables. `awp_send` is the AWP
/// transport, called as `(node id, payload)`.
pub fn exec<F: Fn(u64, &[u8]) -> bool + Copy>(
    script: &[u8],
    awp_node_id: u64,
    awp_send: Option<F>,
) -> (result: AxResult)
    requires
        transport_ok_opt(awp_send),
    ensures
        result.wf(),
        exists|ans: spec_fn(nat) -> bool, n: nat, vs: Seq<(Seq<u8>, i64)>|
            run_outcome(awp_send, awp_node_id, script@, ans, n, (vs, result.view())),
{
    let mut result = AxResult::new();
    let mut vars = [AxVar::empty(); MAX_VARS];
    assert forall|i: int| 0 <= i < MAX_VARS implies #[trigger] vars_view(vars@)[i] == empty_table()[i] by {
        assert(vars@[i].name@.subrange(0, 0) =~= Seq::<u8>::empty());
    }
    assert(vars_view(vars@) =~= empty_table());
    let ghost vs0 = empty_table();
    let ghost mut ans: spec_fn(nat) -> bool = |k: nat| false;
    let mut line_start: usize = 0;
    let mut line_num: usize = 0;
    while line_start <= script.len() && line_num < MAX_LINES
        invariant
            result.wf(),
            vars_wf(vars@),
            transport_ok_opt(awp_send),
            vs0 == empty_table(),
            line_num <= MAX_LINES,
            result.lines_executed <= line_num,
            line_start == line_start_at(script@, line_num as nat),
            genuine(awp_send, awp_node_id, script@, ans, line_num as nat),
            forall|a2: spec_fn(nat) -> bool|
                #![trigger spec_run(script@, 0, 0, vs0, ShellResultView::fresh(), with_answers(awp_send, a2))]
                agrees(a2, ans, line_num as nat) ==> spec_run(
                    script@,
                    line_start as int,
                    line_num as nat,
                    vars_view(vars@),
                    result.view(),
                    with_answers(awp_send, a2),
                ) == spec_run(script@, 0, 0, vs0, ShellResultView::fresh(), with_answers(awp_send, a2)),
        decreases script.len() + 1 - line_start,
    {
        let ghost vs_b = vars_view(vars@);
        let ghost st_b = result.view();
        let ghost ans_b = ans;
        let mut line_end = line_start;
        while line_end < script.len() && script[line_end] != 10u8
            invariant
                line_start <= line_end <= script@.len(),
                next_newline(script@, line_start as int) == next_newline(script@, line_end as int),
            decreases script.len() - line_end,
        {
            line_end = line_end + 1;
        }
        assert(next_newline(script@, line_end as int) == line_end);
        proof {
            lemma_next_newline_bounds(script@, line_start as int);
        }
        let line = trim(&script[line_start..line_end]);
        assert(line@ == spec_trim(script@.subrange(line_start as int, line_end as int)));
        assert(awp_payload_at(script@, line_num as nat) == awp_payload(line@));
        if line.len() != 0 {
            exec_line(line, &mut vars, &mut result, awp_node_id, awp_send, line_num);
            let ghost r = choose|r: bool|
                line_outcome(
                    awp_send,
                    awp_node_id,
                    line@,
                    vs_b,
                    st_b,
                    line_num as nat,
                    r,
                    (vars_view(vars@), result.view()),
                );
            proof {
                ans = |k: nat| if k == line_num as nat { r } else { ans_b(k) };
                assert forall|a2: spec_fn(nat) -> bool| agrees(a2, ans, (line_num + 1) as nat) implies agrees(
                    a2,
                    ans_b,
                    line_num as nat,
                ) && answer_at(with_answers(awp_send, a2), line_num as nat) == line_answer(awp_send, r) by {
                    assert forall|k: nat| k < line_num as nat implies #[trigger] a2(k) == ans_b(k) by {
                        assert(a2(k) == ans(k));
                    }
                    assert(a2(line_num as nat) == ans(line_num as nat));
                }
                assert forall|k: nat|
                    k < (line_num + 1) as nat && #[trigger] awp_payload_at(script@, k) is Some implies (
                    awp_send matches Some(f) ==> answers(f, awp_node_id, awp_payload_at(script@, k)->0, ans(k))) by {
                    if k < line_num as nat {
                        assert(ans(k) == ans_b(k));
                    }
                }
            }
            if result.error {
                proof {
                    assert forall|a2: spec_fn(nat) -> bool| agrees(a2, ans, (line_num + 1) as nat) implies (
                    vars_view(vars@), result.view()) == spec_run(
                        script@,
                        0,
                        0,
                        vs0,
                        ShellResultView::fresh(),
                        with_answers(awp_send, a2),
                    ) by {
                        assert(agrees(a2, ans_b, line_num as nat));
                    }
                    assert(run_outcome(
                        awp_send,
                        awp_node_id,
                        script@,
                        ans,
                        (line_num + 1) as nat,
                        (vars_view(vars@), result.view()),
                    ));
                }
                return result;
            }
            result.lines_executed = result.lines_executed + 1;
        } else {
            proof {
                assert forall|a2: spec_fn(nat) -> bool| agrees(a2, ans, (line_num + 1) as nat) implies agrees(
                    a2,
                    ans_b,
                    line_num as nat,
                ) by {
                    assert forall|k: nat| k < line_num as nat implies #[trigger] a2(k) == ans_b(k) by {
                        assert(a2(k) == ans(k));
                    }
                }
            }
        }
        if line_end >= script.len() {
            proof {
                assert forall|a2: spec_fn(nat) -> bool| agrees(a2, ans, (line_num + 1) as nat) implies (
                vars_view(vars@), result.view()) == spec_run(
                    script@,
                    0,
                    0,
                    vs0,
                    ShellResultView::fresh(),
                    with_answers(awp_send, a2),
                ) by {
                    assert(agrees(a2, ans_b, line_num as nat));
                }
                assert(run_outcome(
                    awp_send,
                    awp_node_id,
                    script@,
                    ans,
                    (line_num + 1) as nat,
                    (vars_view(vars@), result.view()),
                ));
            }
            return result;
        }
        proof {
            assert forall|a2: spec_fn(nat) -> bool| agrees(a2, ans, (line_num + 1) as nat) implies spec_run(
                script@,
                (line_end + 1) as int,
                (line_num + 1) as nat,
                vars_view(vars@),
                result.view(),
                with_answers(awp_send, a2),
            ) == spec_run(script@, 0, 0, vs0, ShellResultView::fresh(), with_answers(awp_send, a2)) by {
                assert(agrees(a2, ans_b, line_num as nat));
            }
        }
        line_start = line_end + 1;
        line_num = line_num + 1;
    }
    proof {
        assert(run_outcome(
            awp_send,
            awp_node_id,
            script@,
            ans,
            line_num as nat,
            (vars_view(vars@), result.view()),
        ));
    }
    result
}

} // verus!
