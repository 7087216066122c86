//! The Phoenix desktop: its state, window placement and hit tests, and the
//! render functions that describe each part of the screen as a display list.
use vstd::prelude::*;
use vstd::string::StringSliceAdditionalSpecFns;
use vstd::utf8::valid_utf8;
use crate::bytes::utf8_or_unknown;

verus! {

// ── Phoenix colour system ────────────────────────────────────────────────────
pub const DARK_BG: u32 = 0x070E1A;
pub const DARK_BG2: u32 = 0x0A1630;
pub const PANEL_BG: u32 = 0x0F1C2E;
pub const PANEL_BORDER: u32 = 0x1A3050;
pub const TEXT_WHITE: u32 = 0xDCE8FF;
pub const TEXT_DIM: u32 = 0x4A6A8A;
pub const TOP_BAR: u32 = 0x060C18;
pub const DOCK_BG: u32 = 0x0A1428;
pub const PLUM_GLOW: u32 = 0x6F5BD3;
pub const ACCENT_TEAL: u32 = 0x1D4ED8;
pub const ACCENT_AMBER: u32 = 0xFFB347;
pub const ACCENT_ORANGE: u32 = 0xC65A1E;
pub const CLOSE_RED: u32 = 0xC0392B;
pub const GLASS_PANEL: u32 = 0x0A1428;
pub const GLASS_BORDER: u32 = 0x1A3050;
pub const WIN_TITLE: u32 = 0x0D1A30;
pub const WIN_BG: u32 = 0x080F1C;
pub const GLASS_HI: u32 = 0x1A2E48;
pub const GLASS_MID: u32 = 0x0F1E32;
pub const GLASS_LOW: u32 = 0x08121E;
pub const SHADOW: u32 = 0x00050A;

// ── Layout ───────────────────────────────────────────────────────────────────
pub const TOP_BAR_H: u32 = 38;
pub const DOCK_Y: u32 = 676;
pub const DOCK_H: u32 = 44;
pub const PANEL_W: u32 = 180;
pub const DOCK_W: u32 = 314;
/// Left edge of the dock, `(1280 - DOCK_W) / 2`.
pub const DOCK_X: u32 = 483;
pub const WIN_TITLE_H: u32 = 24;
pub const WIN_W: u32 = 580;
pub const WIN_H: u32 = 300;

/// The window canvas' safe zone: clear of the left panel, the top bar, the
/// right panel and the dock.
pub const CANVAS_X_MIN: i32 = 200;
pub const CANVAS_Y_MIN: i32 = 50;
pub const CANVAS_X_MAX: i32 = 880;
pub const CANVAS_Y_MAX: i32 = 370;

/// What the desktop shows about the system.
pub struct DesktopState {
    pub node_id: u64,
    pub proof: u64,
    pub edb_live: bool,
    pub entry_count: usize,
    pub desktop_ok: bool,
    pub uptime_sec: u64,
    pub rtc_hour: u8,
    pub rtc_min: u8,
    pub rtc_day: u8,
    pub rtc_mon: u8,
    pub active_space: u8,
    pub tz_offset: i32,
    pub user_name: &'static [u8],
}

impl DesktopState {
    /// Nothing known yet; the proof is the sovereign value.
    pub fn default() -> (s: Self)
        ensures
            s.node_id == 0,
            s.proof == 0x4153,
            !s.edb_live,
            s.entry_count == 0,
            !s.desktop_ok,
            s.uptime_sec == 0,
            s.rtc_hour == 0 && s.rtc_min == 0 && s.rtc_day == 0 && s.rtc_mon == 0,
            s.active_space == 0,
            s.tz_offset == 0,
            s.user_name@.len() == 0,
    {
        let empty: &'static [u8] = &[];
        DesktopState {
            node_id: 0,
            proof: 0x4153,
            edb_live: false,
            entry_count: 0,
            desktop_ok: false,
            uptime_sec: 0,
            active_space: 0,
            rtc_hour: 0,
            rtc_min: 0,
            rtc_day: 0,
            rtc_mon: 0,
            tz_offset: 0,
            user_name: empty,
        }
    }
}

/// Where the current window sits.
pub struct WindowPos {
    pub x: i32,
    pub y: i32,
}

impl WindowPos {
    /// The initial position, (200, 80).
    pub fn new() -> (p: Self)
        ensures
            p.x == 200 && p.y == 80,
    {
        WindowPos { x: 200, y: 80 }
    }

    pub fn set_window_pos(&mut self, x: i32, y: i32)
        ensures
            final(self).x == x && final(self).y == y,
    {
        self.x = x;
        self.y = y;
    }

    pub fn get_window_pos(&self) -> (p: (i32, i32))
        ensures
            p == (self.x, self.y),
    {
        (self.x, self.y)
    }
}

/// `v` kept in `[lo, hi]`.
pub open spec fn clamp_i(v: i32, lo: i32, hi: i32) -> i32 {
    if v < lo {
        lo
    } else if v > hi {
        hi
    } else {
        v
    }
}

/// A spawn position moved into the canvas safe zone.
pub fn clamp_spawn_pos(x: i32, y: i32) -> (p: (i32, i32))
    ensures
        p == (clamp_i(x, CANVAS_X_MIN, CANVAS_X_MAX), clamp_i(y, CANVAS_Y_MIN, CANVAS_Y_MAX)),
        CANVAS_X_MIN <= p.0 <= CANVAS_X_MAX,
        CANVAS_Y_MIN <= p.1 <= CANVAS_Y_MAX,
{
    let cx = if x < CANVAS_X_MIN {
        CANVAS_X_MIN
    } else if x > CANVAS_X_MAX {
        CANVAS_X_MAX
    } else {
        x
    };
    let cy = if y < CANVAS_Y_MIN {
        CANVAS_Y_MIN
    } else if y > CANVAS_Y_MAX {
        CANVAS_Y_MAX
    } else {
        y
    };
    (cx, cy)
}

/// Left edge of dock slot `i`'s clickable area.
pub open spec fn dock_slot_x(i: int) -> int {
    DOCK_X + 10 + i * 40
}

/// The dock icon under `(x, y)`: slot `i` covers 36 pixels from
/// `dock_slot_x(i)`, rows `DOCK_Y..=DOCK_Y + 44`.
pub open spec fn spec_dock_icon(x: int, y: int) -> Option<u8> {
    if y < DOCK_Y || y > DOCK_Y + 44 {
        None
    } else if exists|i: int| 0 <= i < 7 && #[trigger] dock_slot_x(i) <= x < dock_slot_x(i) + 36 {
        Some((choose|i: int| 0 <= i < 7 && #[trigger] dock_slot_x(i) <= x < dock_slot_x(i) + 36) as u8)
    } else {
        None
    }
}

/// The dock icon under a click, if any.
pub fn dock_icon_at(x: i32, y: i32) -> (r: Option<u8>)
    ensures
        r == spec_dock_icon(x as int, y as int),
        r matches Some(i) ==> i < 7 && dock_slot_x(i as int) <= x < dock_slot_x(i as int) + 36,
{
    let dy = DOCK_Y as i32;
    if y < dy || y > dy + 44 {
        return None;
    }
    let dock_x: i32 = 483;
    let mut i: u8 = 0;
    while i < 7
        invariant
            i <= 7,
            dock_x == DOCK_X,
            DOCK_Y <= y <= DOCK_Y + 44,
            forall|j: int| 0 <= j < i ==> !(#[trigger] dock_slot_x(j) <= x < dock_slot_x(j) + 36),
        decreases 7 - i,
    {
        let ix = dock_x + 10 + (i as i32) * 40;
        if x >= ix && x < ix + 36 {
            proof {
                let k = choose|k: int| 0 <= k < 7 && #[trigger] dock_slot_x(k) <= x < dock_slot_x(k) + 36;
                assert(dock_slot_x(i as int) <= x < dock_slot_x(i as int) + 36);
                if k != i {
                    assert(k < i || k > i);
                }
            }
            return Some(i);
        }
        i = i + 1;
    }
    None
}

/// `|v|`.
pub open spec fn abs_i(v: int) -> int {
    if v < 0 {
        -v
    } else {
        v
    }
}

/// Which title-bar control a click hits: 0 none, 1 close, 2 maximize,
/// 3 minimize. The controls are circles of hit radius 6 centred on the
/// title bar's middle row, 14, 32 and 50 pixels left of the right edge.
pub open spec fn spec_title_bar_hit(wx: int, wy: int, w: int, cx_: int, cy_: int) -> u8 {
    if cy_ < wy || cy_ > wy + WIN_TITLE_H {
        0
    } else {
        let cy = wy + 12;
        let cx = wx + w - 14;
        let mnx = cx - 18;
        let mxx = mnx - 18;
        let in_y = abs_i(cy_ - cy) <= 6;
        if in_y && abs_i(cx_ - cx) <= 6 {
            1
        } else if in_y && abs_i(cx_ - mnx) <= 6 {
            3
        } else if in_y && abs_i(cx_ - mxx) <= 6 {
            2
        } else {
            0
        }
    }
}

/// The title-bar control under a click.
pub fn title_bar_hit(wx: i32, wy: i32, w: u32, click_x: i32, click_y: i32) -> (r: u8)
    requires
        w <= i32::MAX,
        i32::MIN + 60 <= wx + w <= i32::MAX,
        i32::MIN <= wy - 0 && wy + WIN_TITLE_H <= i32::MAX,
        i32::MIN < click_x - (wx + w - 14) < i32::MAX,
        i32::MIN < click_x - (wx + w - 50) < i32::MAX,
        i32::MIN < click_y - (wy + 12) < i32::MAX,
    ensures
        r == spec_title_bar_hit(wx as int, wy as int, w as int, click_x as int, click_y as int),
{
    let title_h = WIN_TITLE_H as i32;
    if click_y < wy || click_y > wy + title_h {
        return 0;
    }
    let cy = wy + 12;
    let cx = wx + w as i32 - 14;
    let mnx = cx - 18;
    let mxx = mnx - 18;
    let r: i32 = 6;
    let dy = click_y - cy;
    let in_y = (if dy < 0 { -dy } else { dy }) <= r;
    let d1 = click_x - cx;
    let d2 = click_x - mnx;
    let d3 = click_x - mxx;
    if in_y && (if d1 < 0 { -d1 } else { d1 }) <= r {
        return 1;
    }
    if in_y && (if d2 < 0 { -d2 } else { d2 }) <= r {
        return 3;
    }
    if in_y && (if d3 < 0 { -d3 } else { d3 }) <= r {
        return 2;
    }
    0
}

pub const HANIEL_MAX_BODY: usize = 12;
pub const HANIEL_MAX_LINKS: usize = 6;

/// A sovereign document for the Onyxia browser.
pub struct HanielDoc {
    pub title: &'static str,
    pub subtitle: &'static str,
    pub body: [&'static str; HANIEL_MAX_BODY],
    pub body_len: usize,
    pub links: [&'static str; HANIEL_MAX_LINKS],
    pub link_len: usize,
    /// 0 normal, 1 home/index, 2 status/live, 3 error.
    pub page_kind: u8,
}

impl HanielDoc {
    /// A blank page.
    pub fn empty() -> (d: Self)
        ensures
            d.title@ == ""@,
            d.subtitle@ == ""@,
            d.body_len == 0,
            d.link_len == 0,
            d.page_kind == 0,
            forall|i: int| 0 <= i < HANIEL_MAX_BODY ==> (#[trigger] d.body@[i])@ == ""@,
            forall|i: int| 0 <= i < HANIEL_MAX_LINKS ==> (#[trigger] d.links@[i])@ == ""@,
    {
        HanielDoc {
            title: "",
            subtitle: "",
            body: ["", "", "", "", "", "", "", "", "", "", "", ""],
            body_len: 0,
            links: ["", "", "", "", "", ""],
            link_len: 0,
            page_kind: 0,
        }
    }
}

/// One row of the process window.
#[derive(Clone, Copy)]
pub struct ProcSlot {
    pub pid: u8,
    pub name: [u8; 16],
    pub name_len: usize,
    /// `R` running, `W` ready, `B` blocked, `D` dead.
    pub state_ch: u8,
    pub priority: u8,
    pub ticks: u64,
    pub yields: u32,
}

impl ProcSlot {
    pub open spec fn name_seq(self) -> Seq<u8> {
        self.name@.take(self.name_len as int)
    }

    pub fn empty() -> (s: Self)
        ensures
            s.pid == 0 && s.name_len == 0 && s.state_ch == 0 && s.priority == 0 && s.ticks == 0
                && s.yields == 0,
            s.name@ == Seq::new(16, |i: int| 0u8),
    {
        let s = ProcSlot { pid: 0, name: [0u8; 16], name_len: 0, state_ch: 0, priority: 0, ticks: 0, yields: 0 };
        assert(s.name@ =~= Seq::new(16, |i: int| 0u8));
        s
    }

    /// The name as text, `"?"` when it is not valid UTF-8.
    pub fn name_str(&self) -> (r: &str)
        requires
            self.name_len <= 16,
        ensures
            valid_utf8(self.name_seq()) ==> r.spec_bytes() == self.name_seq(),
            !valid_utf8(self.name_seq()) ==> r@ == "?"@,
    {
        let b = self.name.as_slice().split_at(self.name_len).0;
        assert(b@ =~= self.name_seq());
        utf8_or_unknown(b)
    }
}

/// One row of the file browser.
#[derive(Clone, Copy)]
pub struct FsEntry {
    pub name: [u8; 32],
    pub name_len: usize,
    pub size: u32,
    /// 0 `.ax`, 1 `.axpkg`, 2 `.txt`, 3 other.
    pub kind: u8,
}

impl FsEntry {
    pub open spec fn name_seq(self) -> Seq<u8> {
        self.name@.take(self.name_len as int)
    }

    pub fn empty() -> (e: Self)
        ensures
            e.name_len == 0 && e.size == 0 && e.kind == 3,
            e.name@ == Seq::new(32, |i: int| 0u8),
    {
        let e = FsEntry { name: [0u8; 32], name_len: 0, size: 0, kind: 3 };
        assert(e.name@ =~= Seq::new(32, |i: int| 0u8));
        e
    }

    /// The name as text, `"?"` when it is not valid UTF-8.
    pub fn name_str(&self) -> (r: &str)
        requires
            self.name_len <= 32,
        ensures
            valid_utf8(self.name_seq()) ==> r.spec_bytes() == self.name_seq(),
            !valid_utf8(self.name_seq()) ==> r@ == "?"@,
    {
        let b = self.name.as_slice().split_at(self.name_len).0;
        assert(b@ =~= self.name_seq());
        utf8_or_unknown(b)
    }
}

/// One row of the EdisonDB browser.
#[derive(Clone, Copy)]
pub struct EdbEntry {
    pub key: &'static str,
    pub tier: &'static str,
    pub value: u64,
}

} // verus!
