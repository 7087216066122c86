use lib::bytes::utf8_or_unknown;
use lib::kernel::SovereignBoot;
use lib::shell::axon_interp::exec;
use lib::shell::{boot_banner, render_awp_status, render_banner, render_prompt, SovereignShell};

type NoTransport = fn(u64, &[u8]) -> bool;

#[test]
fn shell_not_live_before_haniel_wiring() {
    assert!(!SovereignShell::new().handshake());
}

#[test]
fn awp_status_stub_always_false() {
    assert!(!render_awp_status(false));
    assert!(!render_awp_status(true));
}

#[test]
fn shell_banner_and_render_stubs() {
    assert_eq!(boot_banner(), "aiXos Phoenix - Sovereign Stack Initializing...");
    assert!(!render_banner());
    assert!(!render_prompt());
    assert_eq!(SovereignShell::new().proof_value(), 0);
}

#[test]
fn print_string_literal() {
    let script = b"print \"hello sovereign\"\n";
    let r = exec::<NoTransport>(script, 0, None);
    assert!(!r.error);
    assert_eq!(&r.output[..r.output_len], b"hello sovereign\n");
}

#[test]
fn let_and_print_var() {
    let script = b"let x = 42\nprint x\n";
    let r = exec::<NoTransport>(script, 0, None);
    assert!(!r.error);
    assert_eq!(&r.output[..r.output_len], b"42\n");
}

#[test]
fn comments_ignored() {
    let script = b"// this is a comment\nprint \"ok\"\n";
    let r = exec::<NoTransport>(script, 0, None);
    assert!(!r.error);
    assert_eq!(&r.output[..r.output_len], b"ok\n");
}

#[test]
fn let_from_var() {
    let script = b"let a = 10\nlet b = a\nprint b\n";
    let r = exec::<NoTransport>(script, 0, None);
    assert!(!r.error);
    assert_eq!(&r.output[..r.output_len], b"10\n");
}

#[test]
fn multi_line_script() {
    let script = b"let n = 7\nprint \"aiXos\"\nprint n\n";
    let r = exec::<NoTransport>(script, 0, None);
    assert!(!r.error);
    assert_eq!(r.lines_executed, 3);
}

#[test]
fn awp_no_transport() {
    let script = b"awp hello\n";
    let r = exec::<NoTransport>(script, 1, None);
    assert!(!r.error);
    assert!(r.output_len > 0);
}

fn accept_all(_node: u64, _payload: &[u8]) -> bool {
    true
}

#[test]
fn awp_with_transport_and_errors() {
    let r = exec(b"awp hello\n", 1, Some(accept_all as NoTransport));
    assert!(!r.error);
    assert!(r.output_len > 0);
    assert_eq!(&r.output[..r.output_len], b"awp: sent hello\n");
    let r = exec::<NoTransport>(b"print x\nbogus\n", 0, None);
    assert!(!r.error);
    assert_eq!(&r.output[..r.output_len], b"undefined: x\nunknown: bogus\n");
    let r = exec::<NoTransport>(b"let a = -3\nprint a\nlet b\nprint a\n", 0, None);
    assert!(r.error);
    assert_eq!(r.error_line, 2);
    assert_eq!(r.lines_executed, 2);
    assert_eq!(&r.output[..r.output_len], b"-3\n");
}

#[test]
fn utf8_text_or_placeholder() {
    assert_eq!(utf8_or_unknown(b"sovereign"), "sovereign");
    assert_eq!(utf8_or_unknown("é".as_bytes()), "é");
    assert_eq!(utf8_or_unknown(&[0xff, 0x41]), "?");
}
