//! Keyboard and pointer input: the evdev key map, the key decoder that turns
//! raw virtio-input events and UART bytes into key events, and the pointer
//! state that absolute-position events update.
use vstd::prelude::*;
use crate::mmio::{high32, hi32, lo32, low32, MmioOp, QueueAddrs};

verus! {

pub const EV_SYN: u16 = 0x00;
pub const EV_KEY: u16 = 0x01;
pub const EV_ABS: u16 = 0x03;
pub const EV_VALUE_PRESS: u32 = 1;
pub const EV_VALUE_REPEAT: u32 = 2;
pub const KEY_LEFTSHIFT: u16 = 42;
pub const KEY_RIGHTSHIFT: u16 = 54;
pub const ABS_X: u16 = 0x00;
pub const ABS_Y: u16 = 0x01;
pub const BTN_LEFT: u16 = 0x110;
pub const BTN_RIGHT: u16 = 0x111;
pub const SCREEN_W: i32 = 1280;
pub const SCREEN_H: i32 = 720;

/// One virtio-input event as the device writes it (8 bytes).
#[derive(Clone, Copy)]
pub struct VirtioInputEvent {
    pub ev_type: u16,
    pub code: u16,
    pub value: u32,
}

/// A decoded key press.
#[derive(Clone, Copy)]
pub struct KeyEvent {
    pub code: u16,
    pub value: u32,
    pub ch: Option<char>,
}

/// The evdev key map (US layout).
pub open spec fn keymap(code: u16, shift: bool) -> Option<char> {
    if shift {
        match code {
            2 => Some('!'),
            3 => Some('@'),
            4 => Some('#'),
            5 => Some('$'),
            6 => Some('%'),
            7 => Some('^'),
            8 => Some('&'),
            9 => Some('*'),
            10 => Some('('),
            11 => Some(')'),
            16 => Some('Q'),
            17 => Some('W'),
            18 => Some('E'),
            19 => Some('R'),
            20 => Some('T'),
            21 => Some('Y'),
            22 => Some('U'),
            23 => Some('I'),
            24 => Some('O'),
            25 => Some('P'),
            30 => Some('A'),
            31 => Some('S'),
            32 => Some('D'),
            33 => Some('F'),
            34 => Some('G'),
            35 => Some('H'),
            36 => Some('J'),
            37 => Some('K'),
            38 => Some('L'),
            44 => Some('Z'),
            45 => Some('X'),
            46 => Some('C'),
            47 => Some('V'),
            48 => Some('B'),
            49 => Some('N'),
            50 => Some('M'),
            57 => Some(' '),
            12 => Some('_'),
            13 => Some('+'),
            26 => Some('{'),
            27 => Some('}'),
            39 => Some(':'),
            40 => Some('"'),
            41 => Some('~'),
            43 => Some('|'),
            51 => Some('<'),
            52 => Some('>'),
            53 => Some('?'),
            _ => None,
        }
    } else {
        match code {
            2 => Some('1'),
            3 => Some('2'),
            4 => Some('3'),
            5 => Some('4'),
            6 => Some('5'),
            7 => Some('6'),
            8 => Some('7'),
            9 => Some('8'),
            10 => Some('9'),
            11 => Some('0'),
            16 => Some('q'),
            17 => Some('w'),
            18 => Some('e'),
            19 => Some('r'),
            20 => Some('t'),
            21 => Some('y'),
            22 => Some('u'),
            23 => Some('i'),
            24 => Some('o'),
            25 => Some('p'),
            30 => Some('a'),
            31 => Some('s'),
            32 => Some('d'),
            33 => Some('f'),
            34 => Some('g'),
            35 => Some('h'),
            36 => Some('j'),
            37 => Some('k'),
            38 => Some('l'),
            44 => Some('z'),
            45 => Some('x'),
            46 => Some('c'),
            47 => Some('v'),
            48 => Some('b'),
            49 => Some('n'),
            50 => Some('m'),
            57 => Some(' '),
            12 => Some('-'),
            13 => Some('='),
            26 => Some('['),
            27 => Some(']'),
            39 => Some(';'),
            40 => Some('\''),
            41 => Some('`'),
            43 => Some('\\'),
            51 => Some(','),
            52 => Some('.'),
            53 => Some('/'),
            _ => None,
        }
    }
}

// ── The US keyboard, row by row ─────────────────────────────────────────────

/// The number row of a US keyboard, from evdev code 2 on, unshifted.
pub open spec fn number_row() -> Seq<char> {
    seq!['1', '2', '3', '4', '5', '6', '7', '8', '9', '0', '-', '=']
}

/// The number row of a US keyboard, from evdev code 2 on, with shift.
pub open spec fn number_row_shifted() -> Seq<char> {
    seq!['!', '@', '#', '$', '%', '^', '&', '*', '(', ')', '_', '+']
}

/// The top letter row of a US keyboard, from evdev code 16 on, unshifted.
pub open spec fn top_row() -> Seq<char> {
    seq!['q', 'w', 'e', 'r', 't', 'y', 'u', 'i', 'o', 'p', '[', ']']
}

/// The top letter row of a US keyboard, from evdev code 16 on, with shift.
pub open spec fn top_row_shifted() -> Seq<char> {
    seq!['Q', 'W', 'E', 'R', 'T', 'Y', 'U', 'I', 'O', 'P', '{', '}']
}

/// The home row of a US keyboard, from evdev code 30 on, unshifted.
pub open spec fn home_row() -> Seq<char> {
    seq!['a', 's', 'd', 'f', 'g', 'h', 'j', 'k', 'l', ';', '\'', '`']
}

/// The home row of a US keyboard, from evdev code 30 on, with shift.
pub open spec fn home_row_shifted() -> Seq<char> {
    seq!['A', 'S', 'D', 'F', 'G', 'H', 'J', 'K', 'L', ':', '"', '~']
}

/// The bottom letter row of a US keyboard, from evdev code 44 on, unshifted.
pub open spec fn bottom_row() -> Seq<char> {
    seq!['z', 'x', 'c', 'v', 'b', 'n', 'm', ',', '.', '/']
}

/// The bottom letter row of a US keyboard, from evdev code 44 on, with shift.
pub open spec fn bottom_row_shifted() -> Seq<char> {
    seq!['Z', 'X', 'C', 'V', 'B', 'N', 'M', '<', '>', '?']
}

/// The codes of keys that type a character: the four rows, the backslash key
/// (43) and the space bar (57).
pub open spec fn typing_key(code: u16) -> bool {
    ||| 2 <= code <= 13
    ||| 16 <= code <= 27
    ||| 30 <= code <= 41
    ||| code == 43
    ||| 44 <= code <= 53
    ||| code == 57
}

/// Key `start + i` of a row types `lower[i]`, or `upper[i]` with shift.
pub open spec fn row_types(start: int, lower: Seq<char>, upper: Seq<char>) -> bool {
    forall|i: int|
        0 <= i < lower.len() ==> keymap((start + i) as u16, false) == Some(lower[i]) && #[trigger] keymap(
            (start + i) as u16,
            true,
        ) == Some(upper[i])
}

proof fn lemma_number_row()
    ensures
        row_types(2, number_row(), number_row_shifted()),
{
    assert forall|i: int| 0 <= i < number_row().len() implies keymap((2 + i) as u16, false) == Some(number_row()[i])
        && #[trigger] keymap((2 + i) as u16, true) == Some(number_row_shifted()[i]) by {
        assert(i == 0 || i == 1 || i == 2 || i == 3 || i == 4 || i == 5 || i == 6 || i == 7 || i == 8 || i == 9 || i == 10 || i == 11);
    }
}

proof fn lemma_top_row()
    ensures
        row_types(16, top_row(), top_row_shifted()),
{
    assert forall|i: int| 0 <= i < top_row().len() implies keymap((16 + i) as u16, false) == Some(top_row()[i])
        && #[trigger] keymap((16 + i) as u16, true) == Some(top_row_shifted()[i]) by {
        assert(i == 0 || i == 1 || i == 2 || i == 3 || i == 4 || i == 5 || i == 6 || i == 7 || i == 8 || i == 9 || i == 10 || i == 11);
    }
}

proof fn lemma_home_row()
    ensures
        row_types(30, home_row(), home_row_shifted()),
{
    assert forall|i: int| 0 <= i < home_row().len() implies keymap((30 + i) as u16, false) == Some(home_row()[i])
        && #[trigger] keymap((30 + i) as u16, true) == Some(home_row_shifted()[i]) by {
        assert(i == 0 || i == 1 || i == 2 || i == 3 || i == 4 || i == 5 || i == 6 || i == 7 || i == 8 || i == 9 || i == 10 || i == 11);
    }
}

proof fn lemma_bottom_row()
    ensures
        row_types(44, bottom_row(), bottom_row_shifted()),
{
    assert forall|i: int| 0 <= i < bottom_row().len() implies keymap((44 + i) as u16, false) == Some(bottom_row()[i])
        && #[trigger] keymap((44 + i) as u16, true) == Some(bottom_row_shifted()[i]) by {
        assert(i == 0 || i == 1 || i == 2 || i == 3 || i == 4 || i == 5 || i == 6 || i == 7 || i == 8 || i == 9);
    }
}

/// The key map is the US layout: each key of the number row, the three
/// letter rows, the backslash key and the space bar types its own character
/// (its shifted one with shift), and every other code types nothing.
pub proof fn lemma_keymap_us_layout()
    ensures
        row_types(2, number_row(), number_row_shifted()),
        row_types(16, top_row(), top_row_shifted()),
        row_types(30, home_row(), home_row_shifted()),
        row_types(44, bottom_row(), bottom_row_shifted()),
        keymap(43, false) == Some('\\') && keymap(43, true) == Some('|'),
        keymap(57, false) == Some(' ') && keymap(57, true) == Some(' '),
        forall|code: u16, shift: bool| !typing_key(code) ==> #[trigger] keymap(code, shift) is None,
{
    lemma_number_row();
    lemma_top_row();
    lemma_home_row();
    lemma_bottom_row();
}

/// The character an evdev key code types, with or without shift; `None`
/// for control keys and unmapped codes.
pub fn evdev_to_char(code: u16, shift: bool) -> (r: Option<char>)
    ensures
        r == keymap(code, shift),
{
    if shift {
        match code {
            2 => Some('!'),
            3 => Some('@'),
            4 => Some('#'),
            5 => Some('$'),
            6 => Some('%'),
            7 => Some('^'),
            8 => Some('&'),
            9 => Some('*'),
            10 => Some('('),
            11 => Some(')'),
            16 => Some('Q'),
            17 => Some('W'),
            18 => Some('E'),
            19 => Some('R'),
            20 => Some('T'),
            21 => Some('Y'),
            22 => Some('U'),
            23 => Some('I'),
            24 => Some('O'),
            25 => Some('P'),
            30 => Some('A'),
            31 => Some('S'),
            32 => Some('D'),
            33 => Some('F'),
            34 => Some('G'),
            35 => Some('H'),
            36 => Some('J'),
            37 => Some('K'),
            38 => Some('L'),
            44 => Some('Z'),
            45 => Some('X'),
            46 => Some('C'),
            47 => Some('V'),
            48 => Some('B'),
            49 => Some('N'),
            50 => Some('M'),
            57 => Some(' '),
            12 => Some('_'),
            13 => Some('+'),
            26 => Some('{'),
            27 => Some('}'),
            39 => Some(':'),
            40 => Some('"'),
            41 => Some('~'),
            43 => Some('|'),
            51 => Some('<'),
            52 => Some('>'),
            53 => Some('?'),
            _ => None,
        }
    } else {
        match code {
            2 => Some('1'),
            3 => Some('2'),
            4 => Some('3'),
            5 => Some('4'),
            6 => Some('5'),
            7 => Some('6'),
            8 => Some('7'),
            9 => Some('8'),
            10 => Some('9'),
            11 => Some('0'),
            16 => Some('q'),
            17 => Some('w'),
            18 => Some('e'),
            19 => Some('r'),
            20 => Some('t'),
            21 => Some('y'),
            22 => Some('u'),
            23 => Some('i'),
            24 => Some('o'),
            25 => Some('p'),
            30 => Some('a'),
            31 => Some('s'),
            32 => Some('d'),
            33 => Some('f'),
            34 => Some('g'),
            35 => Some('h'),
            36 => Some('j'),
            37 => Some('k'),
            38 => Some('l'),
            44 => Some('z'),
            45 => Some('x'),
            46 => Some('c'),
            47 => Some('v'),
            48 => Some('b'),
            49 => Some('n'),
            50 => Some('m'),
            57 => Some(' '),
            12 => Some('-'),
            13 => Some('='),
            26 => Some('['),
            27 => Some(']'),
            39 => Some(';'),
            40 => Some('\''),
            41 => Some('`'),
            43 => Some('\\'),
            51 => Some(','),
            52 => Some('.'),
            53 => Some('/'),
            _ => None,
        }
    }
}

/// The key decoder's state: whether a shift key is held.
pub struct KeyDecoder {
    pub shift_active: bool,
}

/// What one virtio-input event means to the key decoder.
pub open spec fn decode_step(shift: bool, ev: VirtioInputEvent) -> (bool, Option<(u16, u32, Option<char>)>) {
    if ev.code == KEY_LEFTSHIFT || ev.code == KEY_RIGHTSHIFT {
        (ev.value == EV_VALUE_PRESS || ev.value == EV_VALUE_REPEAT, None)
    } else if ev.ev_type != EV_KEY || (ev.value != EV_VALUE_PRESS && ev.value != EV_VALUE_REPEAT) {
        (shift, None)
    } else {
        (shift, Some((ev.code, ev.value, keymap(ev.code, shift))))
    }
}

/// The key event a UART byte stands for: Enter, Escape and Backspace get
/// their evdev codes, everything else code 0; printable ASCII carries its
/// character.
pub open spec fn uart_key(b: u8) -> (u16, u32, Option<char>) {
    let code: u16 = if b == 13 || b == 10 {
        28
    } else if b == 0x1b {
        1
    } else if b == 0x7f || b == 0x08 {
        14
    } else {
        0
    };
    (code, 1, if 0x20 <= b < 0x7f { Some(b as char) } else { None })
}

impl KeyDecoder {
    pub fn new() -> (d: Self)
        ensures
            !d.shift_active,
    {
        KeyDecoder { shift_active: false }
    }

    /// Feeds one device event: shift keys update the shift state and yield
    /// nothing; presses and repeats of other keys yield a key event;
    /// releases and non-key events yield nothing.
    pub fn feed(&mut self, ev: VirtioInputEvent) -> (r: Option<KeyEvent>)
        ensures
            final(self).shift_active == decode_step(old(self).shift_active, ev).0,
            match decode_step(old(self).shift_active, ev).1 {
                None => r is None,
                Some(k) => r matches Some(e) && e.code == k.0 && e.value == k.1 && e.ch == k.2,
            },
    {
        if ev.code == KEY_LEFTSHIFT || ev.code == KEY_RIGHTSHIFT {
            self.shift_active = ev.value == EV_VALUE_PRESS || ev.value == EV_VALUE_REPEAT;
            return None;
        }
        if ev.ev_type != EV_KEY {
            return None;
        }
        if ev.value != EV_VALUE_PRESS && ev.value != EV_VALUE_REPEAT {
            return None;
        }
        Some(KeyEvent { code: ev.code, value: ev.value, ch: evdev_to_char(ev.code, self.shift_active) })
    }
}

/// The key event for a byte read from the UART.
pub fn decode_uart(b: u8) -> (e: KeyEvent)
    ensures
        (e.code, e.value, e.ch) == uart_key(b),
{
    let code: u16 = if b == 13 || b == 10 {
        28
    } else if b == 0x1b {
        1
    } else if b == 0x7f || b == 0x08 {
        14
    } else {
        0
    };
    let ch = if 0x20 <= b && b < 0x7f { Some(b as char) } else { None };
    KeyEvent { code, value: 1, ch }
}

/// Pointer position (screen pixels) and button state.
#[derive(Clone, Copy)]
pub struct MouseState {
    pub x: i32,
    pub y: i32,
    pub left: bool,
    pub right: bool,
}

/// Division rounding toward zero, as Rust's integer `/` does.
pub open spec fn div_trunc(a: int, b: int) -> int {
    if a >= 0 {
        a / b
    } else {
        -((-a) / b)
    }
}

/// Whether an absolute coordinate can be scaled without leaving `i32`.
pub open spec fn scalable(value: u32) -> bool {
    -0x8000_0000 <= (value as i32) * 1279 <= 0x7fff_ffff
}

/// The effect of one pointer event: the new state, whether it changed, and
/// whether it ends the event batch (`EV_SYN`).
pub open spec fn mouse_step(s: MouseState, ev: VirtioInputEvent) -> (MouseState, bool, bool) {
    if ev.ev_type == EV_ABS && ev.code == ABS_X {
        (MouseState { x: div_trunc((ev.value as i32) * 1279, 32767) as i32, ..s }, true, false)
    } else if ev.ev_type == EV_ABS && ev.code == ABS_Y {
        (MouseState { y: div_trunc((ev.value as i32) * 719, 32767) as i32, ..s }, true, false)
    } else if ev.ev_type == EV_KEY && ev.code == BTN_LEFT {
        (MouseState { left: ev.value != 0, ..s }, true, false)
    } else if ev.ev_type == EV_KEY && ev.code == BTN_RIGHT {
        (MouseState { right: ev.value != 0, ..s }, true, false)
    } else if ev.ev_type == EV_SYN {
        (s, false, true)
    } else {
        (s, false, false)
    }
}

/// A pointer button event changes only its own button: `BTN_LEFT` sets
/// `left`, `BTN_RIGHT` sets `right`, each to whether the value is non-zero;
/// the position and the other button stay, the state counts as changed and
/// the batch goes on. A position event moves only its own axis, and
/// `EV_SYN` changes nothing and ends the batch.
pub proof fn lemma_mouse_events(s: MouseState, ev: VirtioInputEvent)
    ensures
        ev.ev_type == EV_KEY && ev.code == BTN_LEFT ==> {
            let (t, changed, end) = mouse_step(s, ev);
            &&& t.left == (ev.value != 0)
            &&& t.right == s.right && t.x == s.x && t.y == s.y
            &&& changed && !end
        },
        ev.ev_type == EV_KEY && ev.code == BTN_RIGHT ==> {
            let (t, changed, end) = mouse_step(s, ev);
            &&& t.right == (ev.value != 0)
            &&& t.left == s.left && t.x == s.x && t.y == s.y
            &&& changed && !end
        },
        ev.ev_type == EV_ABS && ev.code == ABS_X ==> {
            let t = mouse_step(s, ev).0;
            t.y == s.y && t.left == s.left && t.right == s.right
        },
        ev.ev_type == EV_ABS && ev.code == ABS_Y ==> {
            let t = mouse_step(s, ev).0;
            t.x == s.x && t.left == s.left && t.right == s.right
        },
        ev.ev_type == EV_SYN ==> mouse_step(s, ev) == (s, false, true),
{
}

/// `v` kept inside `[0, hi)`.
pub open spec fn clamp_coord(v: i32, hi: i32) -> i32 {
    if v < 0 {
        0
    } else if v >= hi {
        (hi - 1) as i32
    } else {
        v
    }
}

impl MouseState {
    pub fn new() -> (s: Self)
        ensures
            s.x == 0 && s.y == 0 && !s.left && !s.right,
    {
        MouseState { x: 0, y: 0, left: false, right: false }
    }

    /// Applies one pointer event; whether the state changed, and whether the
    /// event ends the batch. Absolute coordinates (0..32767) are scaled to
    /// the screen; a button value other than 0 means pressed.
    pub fn apply(&mut self, ev: VirtioInputEvent) -> (r: (bool, bool))
        requires
            ev.ev_type == EV_ABS && (ev.code == ABS_X || ev.code == ABS_Y) ==> scalable(ev.value),
        ensures
            (*final(self), r.0, r.1) == mouse_step(*old(self), ev),
            ev.ev_type == EV_KEY && ev.code == BTN_LEFT ==> final(self).left == (ev.value != 0)
                && final(self).right == old(self).right && final(self).x == old(self).x && final(self).y
                == old(self).y,
            ev.ev_type == EV_KEY && ev.code == BTN_RIGHT ==> final(self).right == (ev.value != 0)
                && final(self).left == old(self).left && final(self).x == old(self).x && final(self).y
                == old(self).y,
    {
        if ev.ev_type == EV_ABS && ev.code == ABS_X {
            let v = ev.value as i32;
            self.x = v * 1279 / 32767;
            (true, false)
        } else if ev.ev_type == EV_ABS && ev.code == ABS_Y {
            let v = ev.value as i32;
            assert(-0x8000_0000 <= v * 719 <= 0x7fff_ffff) by (nonlinear_arith)
                requires
                    -0x8000_0000 <= v * 1279 <= 0x7fff_ffff,
            ;
            self.y = v * 719 / 32767;
            (true, false)
        } else if ev.ev_type == EV_KEY && ev.code == BTN_LEFT {
            self.left = ev.value != 0;
            (true, false)
        } else if ev.ev_type == EV_KEY && ev.code == BTN_RIGHT {
            self.right = ev.value != 0;
            (true, false)
        } else if ev.ev_type == EV_SYN {
            (false, true)
        } else {
            (false, false)
        }
    }

    /// Keeps the pointer on screen.
    pub fn clamp_to_screen(&mut self)
        ensures
            final(self).x == clamp_coord(old(self).x, SCREEN_W),
            final(self).y == clamp_coord(old(self).y, SCREEN_H),
            final(self).left == old(self).left,
            final(self).right == old(self).right,
            0 <= final(self).x < SCREEN_W,
            0 <= final(self).y < SCREEN_H,
    {
        if self.x < 0 {
            self.x = 0;
        }
        if self.x >= SCREEN_W {
            self.x = SCREEN_W - 1;
        }
        if self.y < 0 {
            self.y = 0;
        }
        if self.y >= SCREEN_H {
            self.y = SCREEN_H - 1;
        }
    }
}


// ── Event rings ───────────────────────────────────────────────────────────────

/// The size of an input device's event queue.
pub const INPUT_QUEUE_SIZE: usize = 16;

/// The driver's indices into an input device's event queue: how many used
/// entries it has taken and how many buffers it has made available (both
/// wrapping at 2^16).
pub struct EventRing {
    last_used: u16,
    avail_idx: u16,
}

impl EventRing {
    pub closed spec fn spec_last_used(&self) -> u16 {
        self.last_used
    }

    pub closed spec fn spec_avail_idx(&self) -> u16 {
        self.avail_idx
    }

    /// The queue right after setup: no used entry taken yet, every buffer
    /// available.
    pub fn new() -> (r: Self)
        ensures
            r.spec_last_used() == 0,
            r.spec_avail_idx() == INPUT_QUEUE_SIZE,
    {
        EventRing { last_used: 0, avail_idx: INPUT_QUEUE_SIZE as u16 }
    }

    /// Whether the device has used entries not yet taken, given the used
    /// ring's index.
    pub fn pending(&self, used_idx: u16) -> (r: bool)
        ensures
            r == (used_idx != self.spec_last_used()),
    {
        used_idx != self.last_used
    }

    /// The used-ring entry to read next.
    pub fn used_slot(&self) -> (i: usize)
        ensures
            i == self.spec_last_used() % (INPUT_QUEUE_SIZE as u16),
            i < INPUT_QUEUE_SIZE,
    {
        (self.last_used as usize) % INPUT_QUEUE_SIZE
    }

    /// Takes the used entry naming buffer `id` and hands the buffer back:
    /// returns the buffer (`id` within the queue), the available-ring slot to
    /// write it to, and the new available index to publish.
    pub fn recycle(&mut self, id: u32) -> (r: (usize, usize, u16))
        ensures
            r.0 == id % (INPUT_QUEUE_SIZE as u32),
            r.1 == old(self).spec_avail_idx() % (INPUT_QUEUE_SIZE as u16),
            r.2 == final(self).spec_avail_idx(),
            final(self).spec_avail_idx() == (old(self).spec_avail_idx() + 1) % 0x1_0000,
            final(self).spec_last_used() == (old(self).spec_last_used() + 1) % 0x1_0000,
    {
        let buf = (id as usize) % INPUT_QUEUE_SIZE;
        let slot = (self.avail_idx as usize) % INPUT_QUEUE_SIZE;
        self.last_used = self.last_used.wrapping_add(1);
        self.avail_idx = self.avail_idx.wrapping_add(1);
        (buf, slot, self.avail_idx)
    }
}

// ── Keyboard device ───────────────────────────────────────────────────────────

pub const VIRT_MAGIC: u32 = 0x7472_6976;
pub const DEVICE_ID_INPUT: u32 = 0x12;
pub const MMIO_SCAN_BASE: usize = 0x0a00_0000;
pub const MMIO_SLOT_STEP: usize = 0x200;
pub const MMIO_SLOT_COUNT: usize = 32;
pub const STATUS_ACKNOWLEDGE: u32 = 1;
pub const STATUS_DRIVER: u32 = 2;
pub const STATUS_DRIVER_OK: u32 = 4;
pub const STATUS_FEATURES_OK: u32 = 8;

/// The events the keyboard device hands on: key presses and repeats.
pub open spec fn delivered(ev: VirtioInputEvent) -> bool {
    ev.ev_type == EV_KEY && (ev.value == EV_VALUE_PRESS || ev.value == EV_VALUE_REPEAT)
}

/// What polling the keyboard gives: the pending device events are taken in
/// order from `i` on; those the device hands on are decoded until one yields
/// a key; when none does, the UART byte (if any) is decoded. Also the shift
/// state after the events taken and how many events were taken.
pub open spec fn poll_from(
    shift: bool,
    evs: Seq<VirtioInputEvent>,
    i: int,
    uart: Option<u8>,
) -> (bool, Option<(u16, u32, Option<char>)>, int)
    decreases evs.len() - i,
{
    if i < 0 || i >= evs.len() {
        (
            shift,
            match uart {
                Some(b) => Some(uart_key(b)),
                None => None,
            },
            evs.len() as int,
        )
    } else if !delivered(evs[i]) {
        poll_from(shift, evs, i + 1, uart)
    } else {
        let (s2, k) = decode_step(shift, evs[i]);
        match k {
            Some(k) => (s2, Some(k), i + 1),
            None => poll_from(s2, evs, i + 1, uart),
        }
    }
}

/// A slot's registers show a keyboard the driver supports: an input device of
/// version 1 or 2.
pub open spec fn spec_is_input(magic: u32, version: u32, device_id: u32) -> bool {
    magic == VIRT_MAGIC && (version == 1 || version == 2) && device_id == DEVICE_ID_INPUT
}

/// The first of `reads[i..]` that shows a supported keyboard.
pub open spec fn first_input(reads: Seq<(u32, u32, u32)>, i: int) -> Option<int>
    decreases reads.len() - i,
{
    if i < 0 || i >= reads.len() {
        None
    } else if spec_is_input(reads[i].0, reads[i].1, reads[i].2) {
        Some(i)
    } else {
        first_input(reads, i + 1)
    }
}

/// The probe's console record for a slot with a device: the slot in two hex
/// digits, `:`, the version's low hex digit, `:`, the device id's low two hex
/// digits, a space.
pub open spec fn probe_record(slot: int, version: u32, device_id: u32) -> Seq<u8> {
    seq![
        crate::gpu::hex_digit(slot / 16),
        crate::gpu::hex_digit(slot % 16),
        58u8,
        crate::gpu::hex_digit((version % 16) as int),
        58u8,
        crate::gpu::hex_digit(((device_id / 16) % 16) as int),
        crate::gpu::hex_digit((device_id % 16) as int),
        32u8,
    ]
}

/// The probe's console output for the slots before `n`: a record for each
/// slot with a device.
pub open spec fn probe_records(reads: Seq<(u32, u32, u32)>, n: int) -> Seq<u8>
    decreases n,
{
    if n <= 0 {
        Seq::empty()
    } else {
        probe_records(reads, n - 1) + if reads[n - 1].0 == VIRT_MAGIC {
            probe_record(n - 1, reads[n - 1].1, reads[n - 1].2)
        } else {
            Seq::empty()
        }
    }
}

fn hex_nibble(n: u32) -> (d: u8)
    requires
        n < 16,
    ensures
        d == crate::gpu::hex_digit(n as int),
{
    if n < 10 {
        (48 + n) as u8
    } else {
        (87 + n) as u8
    }
}

/// Scans the MMIO slots for the keyboard; `reads[slot]` holds the slot's
/// magic, version and device-id registers. Returns the keyboard's base
/// address and version, and the console log: `P`, a record for each slot with
/// a device up to the keyboard, then `F` and a newline when one was found,
/// `N` and a newline otherwise.
pub fn probe(reads: &[(u32, u32, u32)]) -> (r: (Option<(usize, u32)>, Vec<u8>))
    requires
        reads@.len() <= MMIO_SLOT_COUNT,
    ensures
        match first_input(reads@, 0) {
            Some(i) => r.0 == Some(((MMIO_SCAN_BASE + i * MMIO_SLOT_STEP) as usize, reads@[i].1)) && r.1@
                == seq![80u8] + probe_records(reads@, i + 1) + seq![70u8, 10u8],
            None => r.0 is None && r.1@ == seq![80u8] + probe_records(reads@, reads@.len() as int) + seq![
                78u8,
                10u8,
            ],
        },
{
    let mut log: Vec<u8> = Vec::new();
    log.push(80u8);
    let mut slot: usize = 0;
    while slot < reads.len()
        invariant
            slot <= reads@.len() <= MMIO_SLOT_COUNT,
            first_input(reads@, slot as int) == first_input(reads@, 0),
            log@ == seq![80u8] + probe_records(reads@, slot as int),
        decreases reads.len() - slot,
    {
        let (magic, version, device_id) = reads[slot];
        if magic == VIRT_MAGIC {
            let s = slot as u32;
            log.push(hex_nibble(s / 16));
            log.push(hex_nibble(s % 16));
            log.push(58u8);
            log.push(hex_nibble(version % 16));
            log.push(58u8);
            log.push(hex_nibble((device_id / 16) % 16));
            log.push(hex_nibble(device_id % 16));
            log.push(32u8);
            assert(log@ =~= seq![80u8] + probe_records(reads@, slot + 1));
            if (version == 1 || version == 2) && device_id == DEVICE_ID_INPUT {
                log.push(70u8);
                log.push(10u8);
                assert(log@ =~= seq![80u8] + probe_records(reads@, slot + 1) + seq![70u8, 10u8]);
                return (Some((MMIO_SCAN_BASE + slot * MMIO_SLOT_STEP, version)), log);
            }
        } else {
            assert(log@ =~= seq![80u8] + probe_records(reads@, slot + 1));
        }
        slot = slot + 1;
    }
    log.push(78u8);
    log.push(10u8);
    assert(log@ =~= seq![80u8] + probe_records(reads@, reads@.len() as int) + seq![78u8, 10u8]);
    (None, log)
}

/// The status the driver writes once the keyboard's queue is set up: legacy
/// (version 1) devices get no FEATURES_OK.
pub fn final_status(version: u32) -> (s: u32)
    ensures
        s == if version == 1 {
            STATUS_ACKNOWLEDGE | STATUS_DRIVER | STATUS_DRIVER_OK
        } else {
            STATUS_ACKNOWLEDGE | STATUS_DRIVER | STATUS_FEATURES_OK | STATUS_DRIVER_OK
        },
{
    if version == 1 {
        STATUS_ACKNOWLEDGE | STATUS_DRIVER | STATUS_DRIVER_OK
    } else {
        STATUS_ACKNOWLEDGE | STATUS_DRIVER | STATUS_FEATURES_OK | STATUS_DRIVER_OK
    }
}

/// A virtio keyboard that completed initialization: its MMIO base, its event
/// queue indices and its key decoder.
pub struct VirtioInput {
    base: usize,
    ring: EventRing,
    decoder: KeyDecoder,
}

impl VirtioInput {
    pub closed spec fn spec_base(&self) -> usize {
        self.base
    }

    pub closed spec fn spec_ring(&self) -> EventRing {
        self.ring
    }

    /// Whether the device has used entries not yet taken.
    pub fn pending(&self, used_idx: u16) -> (r: bool)
        ensures
            r == (used_idx != self.spec_ring().spec_last_used()),
    {
        self.ring.pending(used_idx)
    }

    /// The used-ring entry to read next.
    pub fn used_slot(&self) -> (i: usize)
        ensures
            i == self.spec_ring().spec_last_used() % (INPUT_QUEUE_SIZE as u16),
            i < INPUT_QUEUE_SIZE,
    {
        self.ring.used_slot()
    }

    /// Takes the used entry naming buffer `id` and hands the buffer back (see
    /// `EventRing::recycle`).
    pub fn recycle(&mut self, id: u32) -> (r: (usize, usize, u16))
        ensures
            r.0 == id % (INPUT_QUEUE_SIZE as u32),
            r.1 == old(self).spec_ring().spec_avail_idx() % (INPUT_QUEUE_SIZE as u16),
            r.2 == final(self).spec_ring().spec_avail_idx(),
            final(self).spec_ring().spec_avail_idx() == (old(self).spec_ring().spec_avail_idx() + 1) % 0x1_0000,
            final(self).spec_ring().spec_last_used() == (old(self).spec_ring().spec_last_used() + 1) % 0x1_0000,
            final(self).spec_base() == old(self).spec_base(),
            final(self).shift() == old(self).shift(),
    {
        self.ring.recycle(id)
    }

    pub closed spec fn shift(&self) -> bool {
        self.decoder.shift_active
    }

    /// The keyboard at MMIO `base` right after setup, no shift key held.
    pub fn new(base: usize) -> (d: Self)
        ensures
            d.spec_base() == base,
            !d.shift(),
            d.spec_ring().spec_last_used() == 0,
            d.spec_ring().spec_avail_idx() == INPUT_QUEUE_SIZE,
    {
        VirtioInput { base, ring: EventRing::new(), decoder: KeyDecoder::new() }
    }

    pub fn base(&self) -> (b: usize)
        ensures
            b == self.spec_base(),
    {
        self.base
    }

    /// Polls for a key: takes the pending device events in order, skipping
    /// all but key presses and repeats, until one yields a key event; when
    /// none does, decodes the UART byte, if any. Returns the key event and
    /// how many device events were taken.
    pub fn poll(&mut self, events: &[VirtioInputEvent], uart: Option<u8>) -> (r: (Option<KeyEvent>, usize))
        ensures
            final(self).spec_base() == old(self).spec_base(),
            final(self).spec_ring() == old(self).spec_ring(),
            ({
                let (shift, k, n) = poll_from(old(self).shift(), events@, 0, uart);
                &&& final(self).shift() == shift
                &&& r.1 == n
                &&& match k {
                    None => r.0 is None,
                    Some(k) => r.0 matches Some(e) && e.code == k.0 && e.value == k.1 && e.ch == k.2,
                }
            }),
    {
        let mut i: usize = 0;
        while i < events.len()
            invariant
                i <= events@.len(),
                self.base == old(self).base,
                self.ring == old(self).ring,
                poll_from(self.decoder.shift_active, events@, i as int, uart) == poll_from(
                    old(self).decoder.shift_active,
                    events@,
                    0,
                    uart,
                ),
            decreases events.len() - i,
        {
            let ev = events[i];
            if ev.ev_type == EV_KEY && (ev.value == EV_VALUE_PRESS || ev.value == EV_VALUE_REPEAT) {
                match self.decoder.feed(ev) {
                    Some(k) => {
                        return (Some(k), i + 1);
                    },
                    None => {},
                }
            }
            i = i + 1;
        }
        match uart {
            Some(b) => (Some(decode_uart(b)), events.len()),
            None => (None, events.len()),
        }
    }
}

// ── Pointer device ────────────────────────────────────────────────────────────

/// Applying a batch of pointer events from `i` on, up to and including the
/// first `EV_SYN`: the new state, whether anything changed, and how many
/// events were taken.
pub open spec fn mouse_batch(s: MouseState, evs: Seq<VirtioInputEvent>, i: int) -> (MouseState, bool, int)
    decreases evs.len() - i,
{
    if i < 0 || i >= evs.len() {
        (s, false, evs.len() as int)
    } else {
        let (s2, ch, end) = mouse_step(s, evs[i]);
        if end {
            (s2, ch, i + 1)
        } else {
            let (s3, ch3, n) = mouse_batch(s2, evs, i + 1);
            (s3, ch || ch3, n)
        }
    }
}

/// Every absolute-position event in `evs` can be scaled.
pub open spec fn batch_scalable(evs: Seq<VirtioInputEvent>) -> bool {
    forall|i: int|
        0 <= i < evs.len() ==> (#[trigger] evs[i]).ev_type == EV_ABS && (evs[i].code == ABS_X || evs[i].code
            == ABS_Y) ==> scalable(evs[i].value)
}

/// Whether a pointer device's event-bits configuration for `EV_ABS` reports
/// absolute X or Y axes (`size` bytes, first byte `data0`).
pub fn has_ev_abs(size: u8, data0: u8) -> (r: bool)
    ensures
        r == (size != 0 && data0 % 4 != 0),
{
    assert(data0 & 3 == data0 % 4) by (bit_vector);
    size != 0 && data0 & 0x03 != 0
}

/// A slot that reads as a legacy (version 1) virtio input device.
pub open spec fn mouse_candidate(r: (u32, u32, u32)) -> bool {
    r.0 == VIRT_MAGIC && r.1 == 1 && r.2 == DEVICE_ID_INPUT
}

/// A slot the pointer can be brought up on: a legacy input device whose
/// `EV_ABS` configuration (`size`, first byte) reports an absolute axis.
pub open spec fn mouse_usable(r: (u32, u32, u32), abs: (u8, u8)) -> bool {
    mouse_candidate(r) && abs.0 != 0 && abs.1 % 4 != 0
}

/// Whether the slot that read `(magic, version, device_id)` is worth asking
/// for its `EV_ABS` configuration.
pub fn is_mouse_candidate(r: (u32, u32, u32)) -> (b: bool)
    ensures
        b == mouse_candidate(r),
{
    r.0 == VIRT_MAGIC && r.1 == 1 && r.2 == DEVICE_ID_INPUT
}

/// The pointer's slot: scanning from the last slot down, the first one that
/// is usable (`reads[i]` are its identification registers, `abs[i]` its
/// `EV_ABS` configuration); `None` when there is none.
pub fn pick_mouse_slot(reads: &[(u32, u32, u32)], abs: &[(u8, u8)]) -> (r: Option<usize>)
    requires
        reads@.len() == abs@.len(),
    ensures
        match r {
            Some(i) => {
                &&& i < reads@.len()
                &&& mouse_usable(reads@[i as int], abs@[i as int])
                &&& forall|j: int| i < j < reads@.len() ==> !mouse_usable(#[trigger] reads@[j], abs@[j])
            },
            None => forall|j: int| 0 <= j < reads@.len() ==> !mouse_usable(#[trigger] reads@[j], abs@[j]),
        },
{
    let mut k: usize = reads.len();
    while k > 0
        invariant
            k <= reads@.len() == abs@.len(),
            forall|j: int| k <= j < reads@.len() ==> !mouse_usable(#[trigger] reads@[j], abs@[j]),
        decreases k,
    {
        let i = k - 1;
        if is_mouse_candidate(reads[i]) && has_ev_abs(abs[i].0, abs[i].1) {
            return Some(i);
        }
        k = i;
    }
    None
}

/// A virtio pointer device that completed initialization: its MMIO base and
/// its event queue indices.
pub struct VirtioMouse {
    base: usize,
    ring: EventRing,
}

impl VirtioMouse {
    pub closed spec fn spec_base(&self) -> usize {
        self.base
    }

    pub closed spec fn spec_ring(&self) -> EventRing {
        self.ring
    }

    /// Whether the device has used entries not yet taken.
    pub fn pending(&self, used_idx: u16) -> (r: bool)
        ensures
            r == (used_idx != self.spec_ring().spec_last_used()),
    {
        self.ring.pending(used_idx)
    }

    /// The used-ring entry to read next.
    pub fn used_slot(&self) -> (i: usize)
        ensures
            i == self.spec_ring().spec_last_used() % (INPUT_QUEUE_SIZE as u16),
            i < INPUT_QUEUE_SIZE,
    {
        self.ring.used_slot()
    }

    /// Takes the used entry naming buffer `id` and hands the buffer back (see
    /// `EventRing::recycle`).
    pub fn recycle(&mut self, id: u32) -> (r: (usize, usize, u16))
        ensures
            r.0 == id % (INPUT_QUEUE_SIZE as u32),
            r.1 == old(self).spec_ring().spec_avail_idx() % (INPUT_QUEUE_SIZE as u16),
            r.2 == final(self).spec_ring().spec_avail_idx(),
            final(self).spec_ring().spec_avail_idx() == (old(self).spec_ring().spec_avail_idx() + 1) % 0x1_0000,
            final(self).spec_ring().spec_last_used() == (old(self).spec_ring().spec_last_used() + 1) % 0x1_0000,
            final(self).spec_base() == old(self).spec_base(),
    {
        self.ring.recycle(id)
    }

    /// The device at `base` right after setup.
    pub fn new(base: usize) -> (m: Self)
        ensures
            m.spec_base() == base,
            m.spec_ring().spec_last_used() == 0,
            m.spec_ring().spec_avail_idx() == INPUT_QUEUE_SIZE,
    {
        VirtioMouse { base, ring: EventRing::new() }
    }

    pub fn base(&self) -> (b: usize)
        ensures
            b == self.spec_base(),
    {
        self.base
    }

    /// Applies a batch of pointer events: nothing happens when there are none;
    /// otherwise the events up to and including the first `EV_SYN` are
    /// applied and the pointer is kept on screen. Returns whether the state
    /// changed and how many events were taken.
    pub fn poll(&self, state: &mut MouseState, events: &[VirtioInputEvent]) -> (r: (bool, usize))
        requires
            batch_scalable(events@),
        ensures
            events@.len() == 0 ==> r == (false, 0usize) && *final(state) == *old(state),
            events@.len() > 0 ==> ({
                let (s, ch, n) = mouse_batch(*old(state), events@, 0);
                &&& r == (ch, n as usize)
                &&& final(state).x == clamp_coord(s.x, SCREEN_W)
                &&& final(state).y == clamp_coord(s.y, SCREEN_H)
                &&& final(state).left == s.left
                &&& final(state).right == s.right
            }),
    {
        if events.len() == 0 {
            return (false, 0);
        }
        let mut changed = false;
        let mut i: usize = 0;
        let mut taken = events.len();
        while i < events.len()
            invariant_except_break
                i <= events@.len(),
                taken == events@.len(),
                batch_scalable(events@),
                ({
                    let (s, ch, n) = mouse_batch(*state, events@, i as int);
                    (s, changed || ch, n) == mouse_batch(*old(state), events@, 0)
                }),
            ensures
                ({
                    let (s, ch, n) = mouse_batch(*old(state), events@, 0);
                    *state == s && changed == ch && taken == n
                }),
            decreases events.len() - i,
        {
            let ev = events[i];
            let (ch, end) = state.apply(ev);
            changed = changed || ch;
            if end {
                taken = i + 1;
                break;
            }
            i = i + 1;
        }
        state.clamp_to_screen();
        (changed, taken)
    }
}


// ── Keyboard bring-up ─────────────────────────────────────────────────────────

pub const OFF_DRIVER_FEATURES: usize = 0x020;
pub const OFF_GUEST_PAGE_SIZE: usize = 0x028;
pub const OFF_QUEUE_SEL: usize = 0x030;
pub const OFF_QUEUE_NUM_MAX: usize = 0x034;
pub const OFF_QUEUE_NUM: usize = 0x038;
pub const OFF_QUEUE_ALIGN: usize = 0x03c;
pub const OFF_QUEUE_PFN: usize = 0x040;
pub const OFF_QUEUE_READY: usize = 0x044;
pub const OFF_QUEUE_NOTIFY: usize = 0x050;
pub const OFF_STATUS: usize = 0x070;
pub const OFF_QUEUE_DESC_LOW: usize = 0x080;
pub const OFF_QUEUE_DESC_HIGH: usize = 0x084;
pub const OFF_QUEUE_DRIVER_LOW: usize = 0x090;
pub const OFF_QUEUE_DRIVER_HIGH: usize = 0x094;
pub const OFF_QUEUE_DEVICE_LOW: usize = 0x0a0;
pub const OFF_QUEUE_DEVICE_HIGH: usize = 0x0a4;

/// Where keyboard bring-up stands; the checks wait for the register read
/// that the previous step asked for.
#[derive(Clone, Copy, PartialEq, Eq, Debug, Structural)]
pub enum KbdInit {
    Start,
    CheckFeatures,
    CheckQueueMax,
    CheckDriverOk,
    Ready,
    Failed,
}

/// Resetting, acknowledging and accepting no features; a version-2 device is
/// then asked to confirm FEATURES_OK, a legacy one goes to queue selection.
pub open spec fn kbd_start_ops(version: u32) -> Seq<MmioOp> {
    seq![
        MmioOp::Uart { byte: 73u8 },
        MmioOp::Uart { byte: if version == 2 { 50u8 } else { 49u8 } },
        MmioOp::Write { off: OFF_STATUS, value: 0 },
        MmioOp::Write { off: OFF_STATUS, value: STATUS_ACKNOWLEDGE },
        MmioOp::Write { off: OFF_STATUS, value: 3 },
        MmioOp::Write { off: OFF_DRIVER_FEATURES, value: 0 },
    ] + if version == 2 {
        seq![MmioOp::Write { off: OFF_STATUS, value: 11 }, MmioOp::Read { off: OFF_STATUS }]
    } else {
        kbd_select_ops()
    }
}

/// Selecting queue 0 and asking for its maximum size.
pub open spec fn kbd_select_ops() -> Seq<MmioOp> {
    seq![MmioOp::Write { off: OFF_QUEUE_SEL, value: 0 }, MmioOp::Read { off: OFF_QUEUE_NUM_MAX }]
}

/// Sizing the queue, giving the device its addresses, filling it, setting the
/// final status and asking for the status back.
pub open spec fn kbd_queue_ops(version: u32, q: QueueAddrs) -> Seq<MmioOp> {
    seq![MmioOp::Write { off: OFF_QUEUE_NUM, value: INPUT_QUEUE_SIZE as u32 }] + if version == 1 {
        seq![
            MmioOp::Write { off: OFF_GUEST_PAGE_SIZE, value: 4096 },
            MmioOp::Write { off: OFF_QUEUE_ALIGN, value: 4096 },
            MmioOp::Write { off: OFF_QUEUE_PFN, value: lo32(q.ring / 4096) },
        ]
    } else {
        seq![
            MmioOp::Write { off: OFF_QUEUE_DESC_LOW, value: lo32(q.desc) },
            MmioOp::Write { off: OFF_QUEUE_DESC_HIGH, value: hi32(q.desc) },
            MmioOp::Write { off: OFF_QUEUE_DRIVER_LOW, value: lo32(q.avail) },
            MmioOp::Write { off: OFF_QUEUE_DRIVER_HIGH, value: hi32(q.avail) },
            MmioOp::Write { off: OFF_QUEUE_DEVICE_LOW, value: lo32(q.used) },
            MmioOp::Write { off: OFF_QUEUE_DEVICE_HIGH, value: hi32(q.used) },
            MmioOp::Write { off: OFF_QUEUE_READY, value: 1 },
        ]
    } + seq![
        MmioOp::FillQueue,
        MmioOp::Write {
            off: OFF_STATUS,
            value: if version == 1 { 7 } else { 15 },
        },
        MmioOp::Read { off: OFF_STATUS },
    ]
}

/// One step of keyboard bring-up: from state `st`, with `read` the value of
/// the register the previous step asked for, the next state and what to do.
/// A refused feature set (`X`), an empty queue (`Q`) or a status without
/// DRIVER_OK (`D`) fail the bring-up.
pub open spec fn kbd_step(st: KbdInit, version: u32, q: QueueAddrs, read: u32) -> (KbdInit, Seq<MmioOp>) {
    match st {
        KbdInit::Start => if version == 2 {
            (KbdInit::CheckFeatures, kbd_start_ops(version))
        } else {
            (KbdInit::CheckQueueMax, kbd_start_ops(version))
        },
        KbdInit::CheckFeatures => if read % 16 < 8 {
            (KbdInit::Failed, seq![MmioOp::Uart { byte: 88u8 }])
        } else {
            (KbdInit::CheckQueueMax, kbd_select_ops())
        },
        KbdInit::CheckQueueMax => if read == 0 {
            (KbdInit::Failed, seq![MmioOp::Uart { byte: 81u8 }])
        } else {
            (KbdInit::CheckDriverOk, kbd_queue_ops(version, q))
        },
        KbdInit::CheckDriverOk => if read % 8 < 4 {
            (KbdInit::Failed, seq![MmioOp::Uart { byte: 68u8 }])
        } else {
            (
                KbdInit::Ready,
                seq![
                    MmioOp::Write { off: OFF_QUEUE_NOTIFY, value: 0 },
                    MmioOp::Uart { byte: 75u8 },
                    MmioOp::Uart { byte: 10u8 },
                ],
            )
        },
        KbdInit::Ready => (KbdInit::Ready, Seq::empty()),
        KbdInit::Failed => (KbdInit::Failed, Seq::empty()),
    }
}

fn push_select(ops: &mut Vec<MmioOp>)
    ensures
        final(ops)@ == old(ops)@ + kbd_select_ops(),
{
    ops.push(MmioOp::Write { off: OFF_QUEUE_SEL, value: 0 });
    ops.push(MmioOp::Read { off: OFF_QUEUE_NUM_MAX });
    assert(ops@ =~= old(ops)@ + kbd_select_ops());
}

/// Performs the decision of one keyboard bring-up step (see `kbd_step`).
pub fn kbd_init_step(st: KbdInit, version: u32, q: &QueueAddrs, read: u32) -> (r: (KbdInit, Vec<MmioOp>))
    ensures
        (r.0, r.1@) == kbd_step(st, version, *q, read),
{
    let mut ops: Vec<MmioOp> = Vec::new();
    assert(1u32 | 2u32 == 3u32 && 1u32 | 2u32 | 8u32 == 11u32) by (bit_vector);
    assert(1u32 | 2u32 | 4u32 == 7u32 && 1u32 | 2u32 | 8u32 | 4u32 == 15u32) by (bit_vector);
    match st {
        KbdInit::Start => {
            ops.push(MmioOp::Uart { byte: 73u8 });
            ops.push(MmioOp::Uart { byte: if version == 2 { 50u8 } else { 49u8 } });
            ops.push(MmioOp::Write { off: OFF_STATUS, value: 0 });
            ops.push(MmioOp::Write { off: OFF_STATUS, value: STATUS_ACKNOWLEDGE });
            ops.push(MmioOp::Write { off: OFF_STATUS, value: STATUS_ACKNOWLEDGE | STATUS_DRIVER });
            ops.push(MmioOp::Write { off: OFF_DRIVER_FEATURES, value: 0 });
            if version == 2 {
                ops.push(MmioOp::Write { off: OFF_STATUS, value: STATUS_ACKNOWLEDGE | STATUS_DRIVER | STATUS_FEATURES_OK });
                ops.push(MmioOp::Read { off: OFF_STATUS });
                assert(ops@ =~= kbd_start_ops(version));
                (KbdInit::CheckFeatures, ops)
            } else {
                push_select(&mut ops);
                assert(ops@ =~= kbd_start_ops(version));
                (KbdInit::CheckQueueMax, ops)
            }
        },
        KbdInit::CheckFeatures => {
            assert(read & STATUS_FEATURES_OK == 0 <==> read % 16 < 8) by (bit_vector);
            if read & STATUS_FEATURES_OK == 0 {
                ops.push(MmioOp::Uart { byte: 88u8 });
                assert(ops@ =~= seq![MmioOp::Uart { byte: 88u8 }]);
                (KbdInit::Failed, ops)
            } else {
                push_select(&mut ops);
                assert(ops@ =~= kbd_select_ops());
                (KbdInit::CheckQueueMax, ops)
            }
        },
        KbdInit::CheckQueueMax => {
            if read == 0 {
                ops.push(MmioOp::Uart { byte: 81u8 });
                assert(ops@ =~= seq![MmioOp::Uart { byte: 81u8 }]);
                return (KbdInit::Failed, ops);
            }
            ops.push(MmioOp::Write { off: OFF_QUEUE_NUM, value: INPUT_QUEUE_SIZE as u32 });
            if version == 1 {
                ops.push(MmioOp::Write { off: OFF_GUEST_PAGE_SIZE, value: 4096 });
                ops.push(MmioOp::Write { off: OFF_QUEUE_ALIGN, value: 4096 });
                ops.push(MmioOp::Write { off: OFF_QUEUE_PFN, value: low32(q.ring / 4096) });
            } else {
                ops.push(MmioOp::Write { off: OFF_QUEUE_DESC_LOW, value: low32(q.desc) });
                ops.push(MmioOp::Write { off: OFF_QUEUE_DESC_HIGH, value: high32(q.desc) });
                ops.push(MmioOp::Write { off: OFF_QUEUE_DRIVER_LOW, value: low32(q.avail) });
                ops.push(MmioOp::Write { off: OFF_QUEUE_DRIVER_HIGH, value: high32(q.avail) });
                ops.push(MmioOp::Write { off: OFF_QUEUE_DEVICE_LOW, value: low32(q.used) });
                ops.push(MmioOp::Write { off: OFF_QUEUE_DEVICE_HIGH, value: high32(q.used) });
                ops.push(MmioOp::Write { off: OFF_QUEUE_READY, value: 1 });
            }
            ops.push(MmioOp::FillQueue);
            ops.push(MmioOp::Write { off: OFF_STATUS, value: final_status(version) });
            ops.push(MmioOp::Read { off: OFF_STATUS });
            assert(ops@ =~= kbd_queue_ops(version, *q));
            (KbdInit::CheckDriverOk, ops)
        },
        KbdInit::CheckDriverOk => {
            assert(read & STATUS_DRIVER_OK == 0 <==> read % 8 < 4) by (bit_vector);
            if read & STATUS_DRIVER_OK == 0 {
                ops.push(MmioOp::Uart { byte: 68u8 });
                assert(ops@ =~= seq![MmioOp::Uart { byte: 68u8 }]);
                (KbdInit::Failed, ops)
            } else {
                ops.push(MmioOp::Write { off: OFF_QUEUE_NOTIFY, value: 0 });
                ops.push(MmioOp::Uart { byte: 75u8 });
                ops.push(MmioOp::Uart { byte: 10u8 });
                assert(ops@ =~= seq![
                    MmioOp::Write { off: OFF_QUEUE_NOTIFY, value: 0 },
                    MmioOp::Uart { byte: 75u8 },
                    MmioOp::Uart { byte: 10u8 },
                ]);
                (KbdInit::Ready, ops)
            }
        },
        KbdInit::Ready => (KbdInit::Ready, ops),
        KbdInit::Failed => (KbdInit::Failed, ops),
    }
}


// ── Pointer bring-up ──────────────────────────────────────────────────────────

/// The register writes that bring up the pointer device whose queue ring is
/// at `ring_addr`: reset, acknowledge, driver, 4 KiB guest pages, queue 0 of
/// 16 entries, the filled queue, the ring's page number, DRIVER_OK, and a
/// first notification.
pub open spec fn spec_mouse_setup(ring_addr: u64) -> Seq<MmioOp> {
    seq![
        MmioOp::Write { off: OFF_STATUS, value: 0 },
        MmioOp::Write { off: OFF_STATUS, value: 1 },
        MmioOp::Write { off: OFF_STATUS, value: 3 },
        MmioOp::Write { off: OFF_GUEST_PAGE_SIZE, value: 4096 },
        MmioOp::Write { off: OFF_QUEUE_SEL, value: 0 },
        MmioOp::Write { off: OFF_QUEUE_NUM, value: INPUT_QUEUE_SIZE as u32 },
        MmioOp::FillQueue,
        MmioOp::Write { off: OFF_QUEUE_PFN, value: lo32(ring_addr / 4096) },
        MmioOp::Write { off: OFF_STATUS, value: 7 },
        MmioOp::Write { off: OFF_QUEUE_NOTIFY, value: 0 },
    ]
}

/// The bring-up sequence of the pointer device (see `spec_mouse_setup`).
pub fn mouse_setup(ring_addr: u64) -> (ops: Vec<MmioOp>)
    ensures
        ops@ == spec_mouse_setup(ring_addr),
{
    let mut ops: Vec<MmioOp> = Vec::new();
    ops.push(MmioOp::Write { off: OFF_STATUS, value: 0 });
    ops.push(MmioOp::Write { off: OFF_STATUS, value: 1 });
    ops.push(MmioOp::Write { off: OFF_STATUS, value: 3 });
    ops.push(MmioOp::Write { off: OFF_GUEST_PAGE_SIZE, value: 4096 });
    ops.push(MmioOp::Write { off: OFF_QUEUE_SEL, value: 0 });
    ops.push(MmioOp::Write { off: OFF_QUEUE_NUM, value: INPUT_QUEUE_SIZE as u32 });
    ops.push(MmioOp::FillQueue);
    ops.push(MmioOp::Write { off: OFF_QUEUE_PFN, value: low32(ring_addr / 4096) });
    ops.push(MmioOp::Write { off: OFF_STATUS, value: 7 });
    ops.push(MmioOp::Write { off: OFF_QUEUE_NOTIFY, value: 0 });
    assert(ops@ =~= spec_mouse_setup(ring_addr));
    ops
}

/// The event queue's descriptors: buffer `i` is the 8-byte event slot at
/// `events_addr + 8 * i`, device-writable.
pub fn event_queue_descs(events_addr: u64) -> (d: Vec<(u64, u32, u16)>)
    requires
        events_addr + 8 * INPUT_QUEUE_SIZE <= u64::MAX,
    ensures
        d@.len() == INPUT_QUEUE_SIZE,
        forall|i: int| 0 <= i < INPUT_QUEUE_SIZE ==> #[trigger] d@[i] == ((events_addr + 8 * i) as u64, 8u32, 2u16),
{
    let mut d: Vec<(u64, u32, u16)> = Vec::new();
    let mut i: usize = 0;
    while i < INPUT_QUEUE_SIZE
        invariant
            i <= INPUT_QUEUE_SIZE,
            events_addr + 8 * INPUT_QUEUE_SIZE <= u64::MAX,
            d@.len() == i,
            forall|k: int| 0 <= k < i ==> #[trigger] d@[k] == ((events_addr + 8 * k) as u64, 8u32, 2u16),
        decreases INPUT_QUEUE_SIZE - i,
    {
        d.push((events_addr + 8 * (i as u64), 8u32, 2u16));
        i = i + 1;
    }
    d
}

} // verus!
