//! The escape-sequence grammar: control sequences (`ESC [ ... final`), the
//! `SS3` keypad sequences, mouse reports and the keys of single bytes.

use vstd::prelude::*;
use vstd::utf8::*;

use crate::event::{Event, KeyMod, MouseEvent, unicode_event, make_unicode};
use crate::keysym::Sym;

verus! {

/// The largest value a numeric parameter takes; longer digit runs saturate.
pub const ARG_MAX: i64 = 0x7fff_ffff;

/// No modifier held.
pub open spec fn no_mods() -> KeyMod {
    KeyMod { ctrl: false, alt: false, shift: false }
}

/// Ctrl alone.
pub open spec fn ctrl_mods() -> KeyMod {
    KeyMod { ctrl: true, alt: false, shift: false }
}

/// True for the bytes that end a control sequence.
pub open spec fn is_final_byte(c: u8) -> bool {
    0x40 <= c < 0x80
}

/// The position of the first final byte at or after `i`, or `b.len()`.
pub open spec fn find_final(b: Seq<u8>, i: int) -> int
    decreases b.len() - i,
{
    if i >= b.len() {
        b.len() as int
    } else if is_final_byte(b[i]) {
        i
    } else {
        find_final(b, i + 1)
    }
}

/// What has been read of a parameter list: the finished parameters, the one
/// being read (-1 when it has no digit yet), the last intermediate byte (0 when
/// none) and whether every byte so far belonged to the grammar.
pub struct ParamState {
    pub args: Seq<i64>,
    pub cur: i64,
    pub inter: u8,
    pub ok: bool,
}

/// A parameter with one more decimal digit, saturating at `ARG_MAX`.
pub open spec fn push_digit(cur: i64, d: i64) -> i64 {
    let v = (if cur < 0 { 0 } else { cur }) * 10 + d;
    if v > ARG_MAX { ARG_MAX } else { v as i64 }
}

/// Reads one byte of a parameter list.
pub open spec fn param_step(st: ParamState, c: u8) -> ParamState {
    if 0x30 <= c <= 0x39 {
        if st.inter != 0 {
            ParamState { ok: false, ..st }
        } else {
            ParamState { cur: push_digit(st.cur, (c - 0x30) as i64), ..st }
        }
    } else if c == 0x3b {
        if st.inter != 0 {
            ParamState { ok: false, ..st }
        } else {
            ParamState { args: st.args.push(st.cur), cur: -1i64, ..st }
        }
    } else if 0x20 <= c <= 0x2f {
        ParamState { inter: c, ..st }
    } else {
        ParamState { ok: false, ..st }
    }
}

/// The state after reading `b[from..to]`.
pub open spec fn param_scan(b: Seq<u8>, from: int, to: int) -> ParamState
    decreases to - from,
{
    if to <= from {
        ParamState { args: seq![], cur: -1i64, inter: 0, ok: true }
    } else {
        param_step(param_scan(b, from, to - 1), b[to - 1])
    }
}

/// The private marker that may open a parameter list (`<`, `=`, `>` or `?`),
/// or 0.
pub open spec fn initial_of(b: Seq<u8>, p: int, j: int) -> u8 {
    if p < j && 0x3c <= b[p] <= 0x3f {
        b[p]
    } else {
        0
    }
}

/// The parameters of the control sequence whose parameter bytes are `b[p..j]`.
pub open spec fn params_of(b: Seq<u8>, p: int, j: int) -> ParamState {
    let st = param_scan(b, if initial_of(b, p, j) != 0 { p + 1 } else { p }, j);
    if st.args.len() == 0 && st.cur == -1 {
        st
    } else {
        ParamState { args: st.args.push(st.cur), cur: -1i64, ..st }
    }
}

/// The modifiers that a sequence's second parameter encodes (one more than the
/// bit pattern).
pub open spec fn mods_of_args(args: Seq<i64>) -> KeyMod {
    if args.len() > 1 && args[1] >= 1 {
        KeyMod::spec_from_bits(((args[1] - 1) % 8) as u8)
    } else {
        no_mods()
    }
}

/// The mouse event of a report with button code `code`.
pub open spec fn mouse_event(code: i64, line: i64, col: i64, release: bool) -> Event {
    let btn = code % 4 + (code / 64) * 64;
    let drag = (code / 32) % 2 == 1;
    let pressed = if drag { MouseEvent::DRAG } else { MouseEvent::PRESS };
    let (ev, button) = if 0 <= btn <= 2 {
        (pressed, btn + 1)
    } else if btn == 3 {
        (MouseEvent::RELEASE, 0)
    } else if btn == 64 || btn == 65 {
        (pressed, btn - 60)
    } else {
        (MouseEvent::UNKNOWN, 0)
    };
    Event::Mouse {
        ev: if release { MouseEvent::RELEASE } else { ev },
        mods: KeyMod::spec_from_bits(((code / 4) % 8) as u8),
        button: button as isize,
        line: (if line > 0x7ff { 0x7ff } else { line }) as isize,
        col: (if col > 0xfff { 0xfff } else { col }) as isize,
    }
}

/// The keys that `CSI <n> ~` reports.
pub open spec fn tilde_key(n: i64, mods: KeyMod) -> Option<Event> {
    let sym = |s: Sym| Some(Event::KeySym { sym: s, mods });
    let func = |f: isize| Some(Event::Function { num: f, mods });
    match n {
        1 => sym(Sym::FIND),
        2 => sym(Sym::INSERT),
        3 => sym(Sym::DELETE),
        4 => sym(Sym::SELECT),
        5 => sym(Sym::PAGEUP),
        6 => sym(Sym::PAGEDOWN),
        7 => sym(Sym::HOME),
        8 => sym(Sym::END),
        11 => func(1),
        12 => func(2),
        13 => func(3),
        14 => func(4),
        15 => func(5),
        17 => func(6),
        18 => func(7),
        19 => func(8),
        20 => func(9),
        21 => func(10),
        23 => func(11),
        24 => func(12),
        25 => func(13),
        26 => func(14),
        28 => func(15),
        29 => func(16),
        31 => func(17),
        32 => func(18),
        33 => func(19),
        34 => func(20),
        _ => None,
    }
}

/// The keys that a single final letter reports, after `CSI` or `SS3`.
pub open spec fn letter_key(cmd: u8, mods: KeyMod) -> Option<Event> {
    let sym = |s: Sym| Some(Event::KeySym { sym: s, mods });
    let func = |f: isize| Some(Event::Function { num: f, mods });
    if cmd == 0x41 {
        sym(Sym::UP)
    } else if cmd == 0x42 {
        sym(Sym::DOWN)
    } else if cmd == 0x43 {
        sym(Sym::RIGHT)
    } else if cmd == 0x44 {
        sym(Sym::LEFT)
    } else if cmd == 0x45 {
        sym(Sym::BEGIN)
    } else if cmd == 0x46 {
        sym(Sym::END)
    } else if cmd == 0x48 {
        sym(Sym::HOME)
    } else if cmd == 0x50 {
        func(1)
    } else if cmd == 0x51 {
        func(2)
    } else if cmd == 0x52 {
        func(3)
    } else if cmd == 0x53 {
        func(4)
    } else {
        None
    }
}

/// The event of a complete control sequence with final byte `cmd`; `None`
/// for a sequence whose meaning is not known.
pub open spec fn csi_event(cmd: u8, initial: u8, inter: u8, args: Seq<i64>) -> Option<Event> {
    if inter != 0 {
        if inter == 0x24 && cmd == 0x79 && args.len() == 2 && (initial == 0 || initial == 0x3f) {
            Some(Event::ModeReport { initial: initial as isize, mode: args[0] as isize, value: args[1] as isize })
        } else {
            None
        }
    } else if initial == 0x3c {
        if (cmd == 0x4d || cmd == 0x6d) && args.len() == 3 && args[0] >= 0 && args[1] >= 0 && args[2]
            >= 0 {
            Some(mouse_event(args[0], args[2], args[1], cmd == 0x6d))
        } else {
            None
        }
    } else if initial == 0x3f || (initial == 0 && cmd == 0x52 && args.len() == 2) {
        if cmd == 0x52 && args.len() == 2 && args[0] >= 1 && args[1] >= 1 {
            Some(Event::Position {
                line: (if args[0] > 0x7ff { 0x7ff } else { args[0] }) as isize,
                col: (if args[1] > 0xfff { 0xfff } else { args[1] }) as isize,
            })
        } else {
            None
        }
    } else if initial != 0 || args.len() > 2 {
        None
    } else if cmd == 0x7e {
        if args.len() >= 1 {
            tilde_key(args[0], mods_of_args(args))
        } else {
            None
        }
    } else if cmd == 0x5a {
        Some(Event::KeySym { sym: Sym::TAB, mods: KeyMod { shift: true, ..mods_of_args(args) } })
    } else {
        letter_key(cmd, mods_of_args(args))
    }
}

/// The keypad keys that `SS3` reports; with `convertkp` they read as the plain
/// keys they carry.
pub open spec fn ss3_key(cmd: u8, convertkp: bool) -> Option<Event> {
    let kp = |s: Sym, c: char| if convertkp {
        Some(unicode_event(c, no_mods()))
    } else {
        Some(Event::KeySym { sym: s, mods: no_mods() })
    };
    if cmd == 0x4d {
        if convertkp {
            Some(Event::KeySym { sym: Sym::ENTER, mods: no_mods() })
        } else {
            Some(Event::KeySym { sym: Sym::KPENTER, mods: no_mods() })
        }
    } else if cmd == 0x58 {
        kp(Sym::KPEQUALS, '=')
    } else if cmd == 0x6a {
        kp(Sym::KPMULT, '*')
    } else if cmd == 0x6b {
        kp(Sym::KPPLUS, '+')
    } else if cmd == 0x6c {
        kp(Sym::KPCOMMA, ',')
    } else if cmd == 0x6d {
        kp(Sym::KPMINUS, '-')
    } else if cmd == 0x6e {
        kp(Sym::KPPERIOD, '.')
    } else if cmd == 0x6f {
        kp(Sym::KPDIV, '/')
    } else if 0x70 <= cmd <= 0x79 {
        kp(kp_digit((cmd - 0x70) as u8), ((cmd - 0x40) as u8) as char)
    } else {
        letter_key(cmd, no_mods())
    }
}

/// The keypad digit key `d`.
pub open spec fn kp_digit(d: u8) -> Sym {
    if d == 0 {
        Sym::KP0
    } else if d == 1 {
        Sym::KP1
    } else if d == 2 {
        Sym::KP2
    } else if d == 3 {
        Sym::KP3
    } else if d == 4 {
        Sym::KP4
    } else if d == 5 {
        Sym::KP5
    } else if d == 6 {
        Sym::KP6
    } else if d == 7 {
        Sym::KP7
    } else if d == 8 {
        Sym::KP8
    } else {
        Sym::KP9
    }
}

/// The named key of a C0 control code, when it has one.
pub open spec fn c0_sym(c: u32) -> Option<Sym> {
    if c == 0x08 {
        Some(Sym::BACKSPACE)
    } else if c == 0x09 {
        Some(Sym::TAB)
    } else if c == 0x0d {
        Some(Sym::ENTER)
    } else if c == 0x1b {
        Some(Sym::ESCAPE)
    } else {
        None
    }
}

/// The key that the code point `c` stands for: NUL is Ctrl-Space, the other
/// C0 codes are their named key or Ctrl with a letter or symbol, DEL is the
/// `DEL` key, the C1 codes are Ctrl-Alt with a letter, and the rest is the
/// character itself. With `nointerpret` no C0 code or DEL is named.
pub open spec fn codepoint_event(c: u32, nointerpret: bool) -> Event {
    if c == 0 {
        Event::KeySym { sym: Sym::SPACE, mods: ctrl_mods() }
    } else if c < 0x20 {
        if !nointerpret && c0_sym(c) is Some {
            Event::KeySym { sym: c0_sym(c).unwrap(), mods: no_mods() }
        } else if c <= 0x1a {
            unicode_event(((c + 0x60) as u32) as char, ctrl_mods())
        } else {
            unicode_event(((c + 0x40) as u32) as char, ctrl_mods())
        }
    } else if c == 0x7f && !nointerpret {
        Event::KeySym { sym: Sym::DEL, mods: no_mods() }
    } else if 0x80 <= c < 0xa0 {
        unicode_event(((c - 0x40) as u32) as char, KeyMod { ctrl: true, alt: true, shift: false })
    } else {
        unicode_event(c as char, no_mods())
    }
}


/// Position of the first final byte at or after `i`, or `b.len()`.
pub fn find_final_byte(b: &Vec<u8>, i: usize) -> (j: usize)
    requires
        i <= b@.len(),
    ensures
        j as int == find_final(b@, i as int),
{
    let mut k = i;
    while k < b.len()
        invariant
            i <= k <= b@.len(),
            find_final(b@, i as int) == find_final(b@, k as int),
        decreases b@.len() - k,
    {
        if 0x40 <= b[k] && b[k] < 0x80 {
            return k;
        }
        k = k + 1;
    }
    k
}

/// The parameters of a control sequence, as `params_of` gives them.
pub struct Params {
    pub initial: u8,
    pub args: Vec<i64>,
    pub inter: u8,
    pub ok: bool,
}

/// Reads the parameter bytes `b[p..j]` of a control sequence.
pub fn read_params(b: &Vec<u8>, p: usize, j: usize) -> (r: Params)
    requires
        p <= j <= b@.len(),
    ensures
        r.initial == initial_of(b@, p as int, j as int),
        r.args@ == params_of(b@, p as int, j as int).args,
        r.inter == params_of(b@, p as int, j as int).inter,
        r.ok == params_of(b@, p as int, j as int).ok,
        forall|k: int| 0 <= k < r.args@.len() ==> -1 <= #[trigger] r.args@[k] <= ARG_MAX,
{
    let initial: u8 = if p < j && 0x3c <= b[p] && b[p] <= 0x3f {
        b[p]
    } else {
        0
    };
    let start: usize = if initial != 0 {
        p + 1
    } else {
        p
    };
    let mut args: Vec<i64> = Vec::new();
    let mut cur: i64 = -1;
    let mut inter: u8 = 0;
    let mut ok = true;
    let mut i = start;
    while i < j
        invariant
            start <= i <= j <= b@.len(),
            param_scan(b@, start as int, i as int) == (ParamState { args: args@, cur, inter, ok }),
            -1 <= cur <= ARG_MAX,
            forall|k: int| 0 <= k < args@.len() ==> -1 <= #[trigger] args@[k] <= ARG_MAX,
        decreases j - i,
    {
        let c = b[i];
        if 0x30 <= c && c <= 0x39 {
            if inter != 0 {
                ok = false;
            } else {
                let base: i64 = if cur < 0 {
                    0
                } else {
                    cur
                };
                let v: i64 = base * 10 + (c - 0x30) as i64;
                cur = if v > ARG_MAX {
                    ARG_MAX
                } else {
                    v
                };
            }
        } else if c == 0x3b {
            if inter != 0 {
                ok = false;
            } else {
                args.push(cur);
                cur = -1;
            }
        } else if 0x20 <= c && c <= 0x2f {
            inter = c;
        } else {
            ok = false;
        }
        i = i + 1;
    }
    if !(args.len() == 0 && cur == -1) {
        args.push(cur);
    }
    Params { initial, args, inter, ok }
}

/// The modifiers of a sequence's second parameter.
pub fn mods_from_args(args: &Vec<i64>) -> (m: KeyMod)
    requires
        forall|k: int| 0 <= k < args@.len() ==> -1 <= #[trigger] args@[k] <= ARG_MAX,
    ensures
        m == mods_of_args(args@),
{
    if args.len() > 1 && args[1] >= 1 {
        KeyMod::from_bits(((args[1] - 1) % 8) as u8)
    } else {
        KeyMod::empty()
    }
}

/// Builds the mouse event of a report.
pub fn make_mouse(code: i64, line: i64, col: i64, release: bool) -> (e: Event)
    requires
        0 <= code <= ARG_MAX,
        -1 <= line <= ARG_MAX,
        -1 <= col <= ARG_MAX,
    ensures
        e == mouse_event(code, line, col, release),
{
    let btn = code % 4 + (code / 64) * 64;
    let drag = (code / 32) % 2 == 1;
    let pressed = if drag {
        MouseEvent::DRAG
    } else {
        MouseEvent::PRESS
    };
    let (ev, button): (MouseEvent, i64) = if 0 <= btn && btn <= 2 {
        (pressed, btn + 1)
    } else if btn == 3 {
        (MouseEvent::RELEASE, 0)
    } else if btn == 64 || btn == 65 {
        (pressed, btn - 60)
    } else {
        (MouseEvent::UNKNOWN, 0)
    };
    Event::Mouse {
        ev: if release {
            MouseEvent::RELEASE
        } else {
            ev
        },
        mods: KeyMod::from_bits(((code / 4) % 8) as u8),
        button: button as isize,
        line: (if line > 0x7ff {
            0x7ff
        } else {
            line
        }) as isize,
        col: (if col > 0xfff {
            0xfff
        } else {
            col
        }) as isize,
    }
}

/// The key of `CSI <n> ~`.
pub fn tilde_key_of(n: i64, mods: KeyMod) -> (r: Option<Event>)
    ensures
        r == tilde_key(n, mods),
{
    let s = |x: Sym| -> (e: Option<Event>)
        ensures
            e == Some(Event::KeySym { sym: x, mods }),
        { Some(Event::KeySym { sym: x, mods }) };
    let f = |x: isize| -> (e: Option<Event>)
        ensures
            e == Some(Event::Function { num: x, mods }),
        { Some(Event::Function { num: x, mods }) };
    match n {
        1 => s(Sym::FIND),
        2 => s(Sym::INSERT),
        3 => s(Sym::DELETE),
        4 => s(Sym::SELECT),
        5 => s(Sym::PAGEUP),
        6 => s(Sym::PAGEDOWN),
        7 => s(Sym::HOME),
        8 => s(Sym::END),
        11 => f(1),
        12 => f(2),
        13 => f(3),
        14 => f(4),
        15 => f(5),
        17 => f(6),
        18 => f(7),
        19 => f(8),
        20 => f(9),
        21 => f(10),
        23 => f(11),
        24 => f(12),
        25 => f(13),
        26 => f(14),
        28 => f(15),
        29 => f(16),
        31 => f(17),
        32 => f(18),
        33 => f(19),
        34 => f(20),
        _ => None,
    }
}

/// The key of a final letter.
pub fn letter_key_of(cmd: u8, mods: KeyMod) -> (r: Option<Event>)
    ensures
        r == letter_key(cmd, mods),
{
    let sym = if cmd == 0x41 {
        Sym::UP
    } else if cmd == 0x42 {
        Sym::DOWN
    } else if cmd == 0x43 {
        Sym::RIGHT
    } else if cmd == 0x44 {
        Sym::LEFT
    } else if cmd == 0x45 {
        Sym::BEGIN
    } else if cmd == 0x46 {
        Sym::END
    } else if cmd == 0x48 {
        Sym::HOME
    } else {
        Sym::NONE
    };
    if sym != Sym::NONE {
        return Some(Event::KeySym { sym, mods });
    }
    if 0x50 <= cmd && cmd <= 0x53 {
        Some(Event::Function { num: (cmd - 0x4f) as isize, mods })
    } else {
        None
    }
}

/// The event of a complete control sequence, `None` when its meaning is not
/// known.
pub fn csi_event_of(cmd: u8, initial: u8, inter: u8, args: &Vec<i64>) -> (r: Option<Event>)
    requires
        forall|k: int| 0 <= k < args@.len() ==> -1 <= #[trigger] args@[k] <= ARG_MAX,
    ensures
        r == csi_event(cmd, initial, inter, args@),
{
    let n = args.len();
    if inter != 0 {
        if inter == 0x24 && cmd == 0x79 && n == 2 && (initial == 0 || initial == 0x3f) {
            Some(Event::ModeReport { initial: initial as isize, mode: args[0] as isize, value: args[1] as isize })
        } else {
            None
        }
    } else if initial == 0x3c {
        if (cmd == 0x4d || cmd == 0x6d) && n == 3 && args[0] >= 0 && args[1] >= 0 && args[2] >= 0 {
            Some(make_mouse(args[0], args[2], args[1], cmd == 0x6d))
        } else {
            None
        }
    } else if initial == 0x3f || (initial == 0 && cmd == 0x52 && n == 2) {
        if cmd == 0x52 && n == 2 && args[0] >= 1 && args[1] >= 1 {
            Some(Event::Position {
                line: (if args[0] > 0x7ff {
                    0x7ff
                } else {
                    args[0]
                }) as isize,
                col: (if args[1] > 0xfff {
                    0xfff
                } else {
                    args[1]
                }) as isize,
            })
        } else {
            None
        }
    } else if initial != 0 || n > 2 {
        None
    } else if cmd == 0x7e {
        if n >= 1 {
            tilde_key_of(args[0], mods_from_args(args))
        } else {
            None
        }
    } else if cmd == 0x5a {
        let m = mods_from_args(args);
        Some(Event::KeySym { sym: Sym::TAB, mods: KeyMod { shift: true, ..m } })
    } else {
        letter_key_of(cmd, mods_from_args(args))
    }
}

/// The keypad digit key `d`.
pub fn kp_digit_of(d: u8) -> (s: Sym)
    ensures
        s == kp_digit(d),
{
    match d {
        0 => Sym::KP0,
        1 => Sym::KP1,
        2 => Sym::KP2,
        3 => Sym::KP3,
        4 => Sym::KP4,
        5 => Sym::KP5,
        6 => Sym::KP6,
        7 => Sym::KP7,
        8 => Sym::KP8,
        _ => Sym::KP9,
    }
}

/// The key of `SS3` with final byte `cmd`.
pub fn ss3_key_of(cmd: u8, convertkp: bool) -> (r: Option<Event>)
    ensures
        r == ss3_key(cmd, convertkp),
{
    if cmd == 0x4d {
        return if convertkp {
            Some(Event::KeySym { sym: Sym::ENTER, mods: KeyMod::empty() })
        } else {
            Some(Event::KeySym { sym: Sym::KPENTER, mods: KeyMod::empty() })
        };
    }
    let (sym, c): (Sym, char) = if cmd == 0x58 {
        (Sym::KPEQUALS, '=')
    } else if cmd == 0x6a {
        (Sym::KPMULT, '*')
    } else if cmd == 0x6b {
        (Sym::KPPLUS, '+')
    } else if cmd == 0x6c {
        (Sym::KPCOMMA, ',')
    } else if cmd == 0x6d {
        (Sym::KPMINUS, '-')
    } else if cmd == 0x6e {
        (Sym::KPPERIOD, '.')
    } else if cmd == 0x6f {
        (Sym::KPDIV, '/')
    } else if 0x70 <= cmd && cmd <= 0x79 {
        (kp_digit_of(cmd - 0x70), (cmd - 0x40) as char)
    } else {
        return letter_key_of(cmd, KeyMod::empty());
    };
    if convertkp {
        Some(make_unicode(c, KeyMod::empty()))
    } else {
        Some(Event::KeySym { sym, mods: KeyMod::empty() })
    }
}

/// The key that the code point `c` stands for.
pub fn codepoint_event_of(c: char, nointerpret: bool) -> (e: Event)
    ensures
        e == codepoint_event(c as u32, nointerpret),
{
    let v = c as u32;
    let ctrl = KeyMod { ctrl: true, alt: false, shift: false };
    if v == 0 {
        Event::KeySym { sym: Sym::SPACE, mods: ctrl }
    } else if v < 0x20 {
        if !nointerpret && (v == 0x08 || v == 0x09 || v == 0x0d || v == 0x1b) {
            let sym = if v == 0x08 {
                Sym::BACKSPACE
            } else if v == 0x09 {
                Sym::TAB
            } else if v == 0x0d {
                Sym::ENTER
            } else {
                Sym::ESCAPE
            };
            Event::KeySym { sym, mods: KeyMod::empty() }
        } else if v <= 0x1a {
            make_unicode((v + 0x60) as u8 as char, ctrl)
        } else {
            make_unicode((v + 0x40) as u8 as char, ctrl)
        }
    } else if v == 0x7f && !nointerpret {
        Event::KeySym { sym: Sym::DEL, mods: KeyMod::empty() }
    } else if 0x80 <= v && v < 0xa0 {
        make_unicode((v - 0x40) as u8 as char, KeyMod { ctrl: true, alt: true, shift: false })
    } else {
        make_unicode(c, KeyMod::empty())
    }
}

} // verus!
