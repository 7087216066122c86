use lib::input::{is_mouse_candidate, pick_mouse_slot};
use lib::input::{
    decode_uart, evdev_to_char, final_status, has_ev_abs, probe, KeyDecoder, MouseState, VirtioInput,
    VirtioInputEvent, VirtioMouse, EV_ABS, EV_KEY, EV_SYN,
};

#[test]
fn digits_map_unshifted() {
    assert_eq!(evdev_to_char(2, false), Some('1'));
    assert_eq!(evdev_to_char(11, false), Some('0'));
}

#[test]
fn digits_map_shifted() {
    assert_eq!(evdev_to_char(2, true), Some('!'));
    assert_eq!(evdev_to_char(3, true), Some('@'));
    assert_eq!(evdev_to_char(9, true), Some('*'));
}

#[test]
fn letters_unshifted() {
    assert_eq!(evdev_to_char(30, false), Some('a'));
    assert_eq!(evdev_to_char(44, false), Some('z'));
    assert_eq!(evdev_to_char(57, false), Some(' '));
}

#[test]
fn letters_shifted() {
    assert_eq!(evdev_to_char(30, true), Some('A'));
    assert_eq!(evdev_to_char(44, true), Some('Z'));
    assert_eq!(evdev_to_char(57, true), Some(' '));
}

#[test]
fn control_keys_are_none() {
    assert_eq!(evdev_to_char(1, false), None);
    assert_eq!(evdev_to_char(14, false), None);
    assert_eq!(evdev_to_char(28, false), None);
}

#[test]
fn unmapped_are_none() {
    assert_eq!(evdev_to_char(0, false), None);
    assert_eq!(evdev_to_char(u16::MAX, false), None);
}

#[test]
fn event_struct_is_8_bytes() {
    assert_eq!(core::mem::size_of::<VirtioInputEvent>(), 8);
}

#[test]
fn shift_gives_uppercase() {
    assert_eq!(evdev_to_char(18, true), Some('E'));
    assert_eq!(evdev_to_char(18, false), Some('e'));
}

#[test]
fn symbols_unshifted_and_shifted() {
    assert_eq!(evdev_to_char(12, false), Some('-'));
    assert_eq!(evdev_to_char(12, true), Some('_'));
}

fn key(code: u16, value: u32) -> VirtioInputEvent {
    VirtioInputEvent { ev_type: EV_KEY, code, value }
}

#[test]
fn decoder_tracks_shift() {
    let mut d = KeyDecoder::new();
    assert!(d.feed(key(42, 1)).is_none());
    let e = d.feed(key(30, 1)).unwrap();
    assert_eq!(e.ch, Some('A'));
    assert!(d.feed(key(42, 0)).is_none());
    assert_eq!(d.feed(key(30, 2)).unwrap().ch, Some('a'));
    assert!(d.feed(key(30, 0)).is_none());
    assert!(d.feed(VirtioInputEvent { ev_type: EV_SYN, code: 0, value: 0 }).is_none());
}

#[test]
fn uart_bytes_decode() {
    let e = decode_uart(b'\r');
    assert_eq!((e.code, e.value, e.ch), (28, 1, None));
    let e = decode_uart(0x7f);
    assert_eq!((e.code, e.ch), (14, None));
    let e = decode_uart(0x1b);
    assert_eq!(e.code, 1);
    let e = decode_uart(b'q');
    assert_eq!((e.code, e.ch), (0, Some('q')));
}

#[test]
fn keyboard_poll_takes_events_until_a_key() {
    let mut kb = VirtioInput::new(0x0a00_3e00);
    assert_eq!(kb.base(), 0x0a00_3e00);
    let evs = [key(54, 1), key(17, 1), key(17, 0)];
    let (k, n) = kb.poll(&evs, Some(b'x'));
    assert_eq!(n, 2);
    assert_eq!(k.unwrap().ch, Some('W'));
    let (k, n) = kb.poll(&evs[2..], Some(b'x'));
    assert_eq!(n, 1);
    assert_eq!(k.unwrap().ch, Some('x'));
    let (k, n) = kb.poll(&[], None);
    assert!(k.is_none());
    assert_eq!(n, 0);
}

fn abs(code: u16, value: u32) -> VirtioInputEvent {
    VirtioInputEvent { ev_type: EV_ABS, code, value }
}

#[test]
fn mouse_batch_scales_and_stops_at_syn() {
    let m = VirtioMouse::new(0x0a00_3c00);
    let mut s = MouseState::new();
    let evs = [
        abs(0, 32767),
        abs(1, 16383),
        key(0x110, 1),
        VirtioInputEvent { ev_type: EV_SYN, code: 0, value: 0 },
        key(0x111, 1),
    ];
    let (changed, n) = m.poll(&mut s, &evs);
    assert!(changed);
    assert_eq!(n, 4);
    assert_eq!(s.x, 1279);
    assert_eq!(s.y, 359);
    assert!(s.left);
    assert!(!s.right);
    let (changed, n) = m.poll(&mut s, &[]);
    assert!(!changed);
    assert_eq!(n, 0);
}

#[test]
fn mouse_ring_indices_advance() {
    let mut m = VirtioMouse::new(0x0a00_3c00);
    assert!(!m.pending(0));
    assert!(m.pending(1));
    assert_eq!(m.used_slot(), 0);
    let (buf, slot, avail) = m.recycle(21);
    assert_eq!(buf, 5);
    assert_eq!(slot, 0);
    assert_eq!(avail, 17);
    assert_eq!(m.used_slot(), 1);
    assert!(!m.pending(1));
}

#[test]
fn mouse_state_clamps() {
    let mut s = MouseState::new();
    s.x = -5;
    s.y = 900;
    s.clamp_to_screen();
    assert_eq!((s.x, s.y), (0, 719));
    let (ch, end) = s.apply(abs(0, 16384));
    assert!(ch && !end);
    assert_eq!(s.x, 639);
}

#[test]
fn keyboard_device_drops_releases() {
    // The device hands on presses and repeats only, so a shift release never
    // reaches the decoder and shift stays on.
    let mut kb = VirtioInput::new(0x0a00_3e00);
    let evs = [key(42, 1), key(42, 0), key(30, 1)];
    let (k, n) = kb.poll(&evs, None);
    assert_eq!(n, 3);
    assert_eq!(k.unwrap().ch, Some('A'));
    let (k, n) = kb.poll(&[VirtioInputEvent { ev_type: EV_SYN, code: 0, value: 0 }], None);
    assert!(k.is_none());
    assert_eq!(n, 1);
}

#[test]
fn keyboard_probe_and_status() {
    let mut reads = vec![(0u32, 0u32, 0u32); 32];
    reads[2] = (0x7472_6976, 1, 0x10);
    reads[5] = (0x7472_6976, 2, 0x12);
    let (found, log) = probe(&reads);
    assert_eq!(found, Some((0x0a00_0000 + 5 * 0x200, 2)));
    assert_eq!(log, b"P02:1:10 05:2:12 F\n".to_vec());
    let (found, log) = probe(&reads[..3]);
    assert_eq!(found, None);
    assert_eq!(log, b"P02:1:10 N\n".to_vec());
    assert_eq!(final_status(1), 7);
    assert_eq!(final_status(2), 15);
    assert!(has_ev_abs(8, 3));
    assert!(!has_ev_abs(0, 3));
    assert!(!has_ev_abs(8, 4));
}

#[test]
fn mouse_slot_is_highest_usable() {
    let input = (0x7472_6976, 1, 0x12);
    let reads = [input, (0, 0, 0), input, input];
    assert!(is_mouse_candidate(input));
    assert!(!is_mouse_candidate((0x7472_6976, 2, 0x12)));
    assert_eq!(pick_mouse_slot(&reads, &[(1, 3), (1, 3), (1, 1), (0, 3)]), Some(2));
    assert_eq!(pick_mouse_slot(&reads, &[(1, 3), (1, 3), (1, 4), (1, 0)]), Some(0));
    assert_eq!(pick_mouse_slot(&reads, &[(0, 3), (1, 3), (1, 4), (1, 0)]), None);
    assert_eq!(pick_mouse_slot(&[], &[]), None);
}
