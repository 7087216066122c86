use lib::axon_interp::{eval_expr, exec, AxInterp, AxResult, AxVar, MAX_VARS, OUTPUT_BUF, VAR_NAME_LEN};

fn no_vars() -> [AxVar; MAX_VARS] {
    [AxVar::empty(); MAX_VARS]
}

fn accept(_node: u64, _payload: &[u8]) -> bool {
    true
}

// ── Expressions ──────────────────────────────────────────────────────────────

#[test]
fn eval_negative_right_operand() {
    assert_eq!(eval_expr(b"3 * -2", &no_vars()), Some(-6));
    assert_eq!(eval_expr(b"4 - -1", &no_vars()), Some(5));
}

#[test]
fn eval_empty_is_none() {
    assert_eq!(eval_expr(b"", &no_vars()), None);
    assert_eq!(eval_expr(b"   ", &no_vars()), None);
}

#[test]
fn eval_left_to_right_chain() {
    assert_eq!(eval_expr(b"10 - 2 - 3", &no_vars()), Some(5));
}

#[test]
fn eval_precedence() {
    assert_eq!(eval_expr(b"1 + 2 * 3", &no_vars()), Some(7));
}

#[test]
fn eval_literal_and_variable() {
    let mut vars = no_vars();
    vars[0].name[0] = b'x';
    vars[0].name_len = 1;
    vars[0].value = 41;
    assert_eq!(eval_expr(b"-7", &vars), Some(-7));
    assert_eq!(eval_expr(b"x + 1", &vars), Some(42));
    assert_eq!(eval_expr(b"y", &vars), None);
}

// ── Results ──────────────────────────────────────────────────────────────────

#[test]
fn push_str_keeps_bytes_past_output() {
    let mut r = AxResult::new();
    r.output[10] = 7;
    r.error_msg[5] = 9;
    r.push_str(b"abc");
    assert_eq!(r.output_len, 3);
    assert_eq!(&r.output[..3], b"abc");
    assert_eq!(r.output[10], 7);
    assert_eq!(r.error_msg[5], 9);
    assert_eq!(r.error_msg_len, 0);
}

#[test]
fn push_str_drops_what_does_not_fit() {
    let mut r = AxResult::new();
    let big = vec![b'z'; OUTPUT_BUF + 10];
    r.push_str(&big);
    assert_eq!(r.output_len, OUTPUT_BUF - 1);
    assert_eq!(r.output[OUTPUT_BUF - 1], 0);
}

#[test]
fn push_newline_on_full_buffer_changes_nothing() {
    let mut r = AxResult::new();
    let big = vec![b'z'; OUTPUT_BUF];
    r.push_str(&big);
    r.output[OUTPUT_BUF - 1] = 3;
    r.push_newline();
    assert_eq!(r.output_len, OUTPUT_BUF - 1);
    assert_eq!(r.output[OUTPUT_BUF - 1], 3);
    let mut s = AxResult::new();
    s.push_newline();
    assert_eq!(s.output_len, 1);
    assert_eq!(s.output[0], b'\n');
}

// ── Interpreter state ────────────────────────────────────────────────────────

#[test]
fn reset_clears_names() {
    let mut it = AxInterp::new();
    it.vars[2].name = [b'q'; VAR_NAME_LEN];
    it.vars[2].name_len = 3;
    it.vars[2].value = 5;
    it.var_count = 1;
    it.reset();
    assert_eq!(it.var_count, 0);
    for v in it.vars.iter() {
        assert_eq!(v.name, [0u8; VAR_NAME_LEN]);
        assert_eq!(v.name_len, 0);
        assert_eq!(v.value, 0);
    }
}

// ── Scripts ──────────────────────────────────────────────────────────────────

#[test]
fn script_prints_product_with_negative() {
    let r = exec::<fn(u64, &[u8]) -> bool>(b"let a = 3 * -2\nprint a\n", 0, None);
    assert!(!r.error);
    assert_eq!(&r.output[..r.output_len], b"-6\n");
}

#[test]
fn script_awp_with_transport() {
    let r = exec(b"awp hello\n", 7, Some(accept as fn(u64, &[u8]) -> bool));
    assert!(!r.error);
    assert_eq!(&r.output[..r.output_len], b"awp: sent hello\n");
}
