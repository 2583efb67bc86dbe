//! Reading key events back from the text that `format` writes.

use vstd::prelude::*;

use crate::csi::{ARG_MAX, push_digit};
use crate::event::{Event, KeyMod, MouseEvent, unicode_event, make_unicode};
use crate::format::{Format, alt_name, ctrl_name, shift_name, sep_char};
use crate::keysym::{KeyNames, Sym, best_match, chars_of, name_matches, matches_at};
use vstd::string::*;

verus! {

/// Reads modifier names, each followed by the separator of the style, from
/// position `q` on; gives the modifiers read, added to `m`, and where the key
/// begins.
pub open spec fn parse_mods(text: Seq<char>, q: int, f: Format, m: KeyMod) -> (KeyMod, int)
    decreases text.len() - q,
{
    if q < 0 || q >= text.len() {
        (m, q)
    } else if matches_at(shift_name(f).push(sep_char(f)), text, q) {
        parse_mods(text, q + shift_name(f).len() + 1, f, KeyMod { shift: true, ..m })
    } else if matches_at(alt_name(f).push(sep_char(f)), text, q) {
        parse_mods(text, q + alt_name(f).len() + 1, f, KeyMod { alt: true, ..m })
    } else if matches_at(ctrl_name(f).push(sep_char(f)), text, q) {
        parse_mods(text, q + ctrl_name(f).len() + 1, f, KeyMod { ctrl: true, ..m })
    } else {
        (m, q)
    }
}

/// True for `'0'` to `'9'`.
pub open spec fn is_digit(c: char) -> bool {
    '0' <= c <= '9'
}

/// The end of the run of digits that starts at `q`.
pub open spec fn digit_run(text: Seq<char>, q: int) -> int
    decreases text.len() - q,
{
    if q < 0 || q >= text.len() || !is_digit(text[q]) {
        q
    } else {
        digit_run(text, q + 1)
    }
}

/// The value of the digits `text[q..k]`, saturating at `ARG_MAX`.
pub open spec fn digits_value(text: Seq<char>, q: int, k: int) -> i64
    decreases k - q,
{
    if k <= q {
        -1i64
    } else {
        push_digit(digits_value(text, q, k - 1), (text[k - 1] as u32 - 48) as i64)
    }
}

/// A decimal number at `q`, with an optional `-`, and where it ends.
pub open spec fn parse_int(text: Seq<char>, q: int) -> Option<(i64, int)> {
    let neg = 0 <= q < text.len() && text[q] == '-';
    let d = if neg { q + 1 } else { q };
    let k = digit_run(text, d);
    if k == d {
        None
    } else {
        let v = digits_value(text, d, k);
        Some((if neg { (-v) as i64 } else { v }, k))
    }
}

/// What a mouse report's name says happened, and where the name ends.
pub open spec fn parse_mouse_ev(text: Seq<char>, q: int) -> Option<(MouseEvent, int)> {
    if matches_at("Unknown"@, text, q) {
        Some((MouseEvent::UNKNOWN, q + 7))
    } else if matches_at("Press"@, text, q) {
        Some((MouseEvent::PRESS, q + 5))
    } else if matches_at("Drag"@, text, q) {
        Some((MouseEvent::DRAG, q + 4))
    } else if matches_at("Release"@, text, q) {
        Some((MouseEvent::RELEASE, q + 7))
    } else {
        None
    }
}

/// True when `text` holds `c` at `q`.
pub open spec fn char_at(text: Seq<char>, q: int, c: char) -> bool {
    0 <= q < text.len() && text[q] == c
}

/// The position suffix ` @ (col,line)` of a mouse report at `q`.
pub open spec fn parse_mouse_pos(text: Seq<char>, q: int) -> Option<(i64, i64, int)> {
    if !matches_at(" @ ("@, text, q) {
        None
    } else {
        match parse_int(text, q + 4) {
            None => None,
            Some((col, k1)) => if !char_at(text, k1, ',') {
                None
            } else {
                match parse_int(text, k1 + 1) {
                    None => None,
                    Some((line, k2)) => if char_at(text, k2, ')') {
                        Some((col, line, k2 + 1))
                    } else {
                        None
                    },
                }
            },
        }
    }
}

/// A mouse report written from `q` on (after `Mouse`).
pub open spec fn parse_mouse(text: Seq<char>, q: int, f: Format) -> Option<(Event, int)> {
    match parse_mouse_ev(text, q) {
        None => None,
        Some((ev, k0)) => if !char_at(text, k0, '(') {
            None
        } else {
            match parse_int(text, k0 + 1) {
                None => None,
                Some((button, k1)) => if !char_at(text, k1, ')') {
                    None
                } else {
                    let m = KeyMod { ctrl: false, alt: false, shift: false };
                    if f.mouse_pos {
                        match parse_mouse_pos(text, k1 + 1) {
                            Some((col, line, k2)) => Some((
                                Event::Mouse { ev, mods: m, button: button as isize, line: line as isize, col: col as isize },
                                k2,
                            )),
                            None => None,
                        }
                    } else {
                        Some((Event::Mouse { ev, mods: m, button: button as isize, line: 0, col: 0 }, k1 + 1))
                    }
                },
            }
        },
    }
}

/// A mode report written from `q` on (after `Mode(`).
pub open spec fn parse_mode(text: Seq<char>, q: int) -> Option<(Event, int)> {
    let private = char_at(text, q, '?');
    let d = if private { q + 1 } else { q };
    match parse_int(text, d) {
        None => None,
        Some((mode, k1)) => if !char_at(text, k1, '=') {
            None
        } else {
            match parse_int(text, k1 + 1) {
                None => None,
                Some((value, k2)) => if char_at(text, k2, ')') {
                    Some((
                        Event::ModeReport {
                            initial: if private { 0x3f } else { 0 },
                            mode: mode as isize,
                            value: value as isize,
                        },
                        k2 + 1,
                    ))
                } else {
                    None
                },
            }
        },
    }
}

/// The key written at `q`, without modifiers, and where it ends: a key name
/// (the longest that matches), a function key, a mouse report, a mode report,
/// or else the character at `q`.
pub open spec fn parse_key(text: Seq<char>, q: int, f: Format, names: KeyNames) -> Option<(Event, int)> {
    let none = KeyMod { ctrl: false, alt: false, shift: false };
    if q < 0 || q >= text.len() {
        None
    } else if names.spec_lookup(f.lowerspace, text, q) is Some {
        let (sym, n) = names.spec_lookup(f.lowerspace, text, q).unwrap();
        Some((Event::KeySym { sym, mods: none }, q + n))
    } else if text[q] == (if f.lowerspace { 'f' } else { 'F' }) && parse_int(text, q + 1) is Some {
        let (num, k) = parse_int(text, q + 1).unwrap();
        Some((Event::Function { num: num as isize, mods: none }, k))
    } else if matches_at("Mouse"@, text, q) && parse_mouse(text, q + 5, f) is Some {
        parse_mouse(text, q + 5, f)
    } else if matches_at("Mode("@, text, q) && parse_mode(text, q + 5) is Some {
        parse_mode(text, q + 5)
    } else {
        Some((unicode_event(text[q], none), q + 1))
    }
}

/// An event with the modifiers `m`; kinds without modifiers are unchanged.
pub open spec fn with_mods(e: Event, m: KeyMod) -> Event {
    match e {
        Event::Unicode { codepoint, utf8, .. } => Event::Unicode { codepoint, mods: m, utf8 },
        Event::Function { num, .. } => Event::Function { num, mods: m },
        Event::KeySym { sym, .. } => Event::KeySym { sym, mods: m },
        Event::Mouse { ev, button, line, col, .. } => Event::Mouse { ev, mods: m, button, line, col },
        _ => e,
    }
}

/// Modifiers and a key from `q` on.
pub open spec fn parse_modded(text: Seq<char>, q: int, f: Format, names: KeyNames) -> Option<(Event, int)> {
    let (m, k) = parse_mods(text, q, f, KeyMod { ctrl: false, alt: false, shift: false });
    match parse_key(text, k, f, names) {
        Some((e, end)) => Some((with_mods(e, m), end)),
        None => None,
    }
}

/// A key written at `q` without caret notation: in brackets where the style
/// uses them and the text has them, else bare.
pub open spec fn parse_plain(text: Seq<char>, q: int, f: Format, names: KeyNames) -> Option<(Event, int)> {
    let wrapped = if f.wrapbracket && char_at(text, q, '<') {
        match parse_modded(text, q + 1, f, names) {
            Some((e, end)) => if char_at(text, end, '>') {
                Some((e, end + 1))
            } else {
                None
            },
            None => None,
        }
    } else {
        None
    };
    if wrapped is Some {
        wrapped
    } else {
        parse_modded(text, q, f, names)
    }
}

/// The key written at the start of `text` in the style `f`, and how many
/// characters it takes; `None` when the text holds no key.
pub open spec fn parse_text(text: Seq<char>, f: Format, names: KeyNames) -> Option<(Event, int)> {
    if f.caretctrl && text.len() >= 2 && text[0] == '^' {
        match parse_plain(text, 1, Format { caretctrl: false, ..f }, names) {
            Some((Event::Unicode { codepoint: c, mods, .. }, end)) => if mods == (KeyMod {
                ctrl: false,
                alt: false,
                shift: false,
            }) && '@' <= c <= '_' {
                let l = if 'A' <= c <= 'Z' { ((c as u32 + 32) as u32) as char } else { c };
                Some((unicode_event(l, KeyMod { ctrl: true, alt: false, shift: false }), end))
            } else {
                None
            },
            _ => None,
        }
    } else {
        parse_plain(text, 0, f, names)
    }
}


/// A result with its position as an integer.
pub open spec fn at_int<T>(r: Option<(T, usize)>) -> Option<(T, int)> {
    match r {
        Some((x, k)) => Some((x, k as int)),
        None => None,
    }
}

/// The name of Shift in a style.
fn shift_str(f: Format) -> (r: &'static str)
    ensures
        r@ == shift_name(f),
{
    if f.longmod {
        if f.lowermod {
            "shift"
        } else {
            "Shift"
        }
    } else {
        if f.lowermod {
            "s"
        } else {
            "S"
        }
    }
}

/// The name of Alt in a style.
fn alt_str(f: Format) -> (r: &'static str)
    ensures
        r@ == alt_name(f),
{
    if f.altismeta {
        if f.longmod {
            if f.lowermod {
                "meta"
            } else {
                "Meta"
            }
        } else {
            if f.lowermod {
                "m"
            } else {
                "M"
            }
        }
    } else {
        if f.longmod {
            if f.lowermod {
                "alt"
            } else {
                "Alt"
            }
        } else {
            if f.lowermod {
                "a"
            } else {
                "A"
            }
        }
    }
}

/// The name of Ctrl in a style.
fn ctrl_str(f: Format) -> (r: &'static str)
    ensures
        r@ == ctrl_name(f),
{
    if f.longmod {
        if f.lowermod {
            "ctrl"
        } else {
            "Ctrl"
        }
    } else {
        if f.lowermod {
            "c"
        } else {
            "C"
        }
    }
}

/// True when `name` followed by `sep` is written at `q`.
fn prefix_with_sep(name: &str, sep: char, text: &Vec<char>, q: usize) -> (r: bool)
    requires
        q <= text@.len(),
    ensures
        r == matches_at(name@.push(sep), text@, q as int),
{
    let mut v = chars_of(name);
    v.push(sep);
    name_matches(&v, text, q)
}

/// True when `lit` is written at `q`.
fn lit_at(lit: &str, text: &Vec<char>, q: usize) -> (r: bool)
    requires
        q <= text@.len(),
    ensures
        r == matches_at(lit@, text@, q as int),
{
    let v = chars_of(lit);
    name_matches(&v, text, q)
}

/// True when `text` holds `c` at `q`.
fn char_is(text: &Vec<char>, q: usize, c: char) -> (r: bool)
    ensures
        r == char_at(text@, q as int, c),
{
    q < text.len() && text[q] == c
}

/// Reads modifier names from `q` on.
fn parse_mods_at(text: &Vec<char>, q: usize, f: Format) -> (r: (KeyMod, usize))
    requires
        q <= text@.len(),
    ensures
        (r.0, r.1 as int) == parse_mods(text@, q as int, f, KeyMod { ctrl: false, alt: false, shift: false }),
        r.1 <= text@.len(),
{
    let sep = if f.spacemod {
        ' '
    } else {
        '-'
    };
    let mut m = KeyMod::empty();
    let mut k = q;
    while k < text.len()
        invariant
            q <= k <= text@.len(),
            parse_mods(text@, q as int, f, KeyMod { ctrl: false, alt: false, shift: false }) == parse_mods(
                text@,
                k as int,
                f,
                m,
            ),
            sep == sep_char(f),
        decreases text@.len() - k,
    {
        let s = shift_str(f);
        let a = alt_str(f);
        let c = ctrl_str(f);
        if prefix_with_sep(s, sep, text, k) {
            m = KeyMod { shift: true, ..m };
            k = k + s.unicode_len() + 1;
        } else if prefix_with_sep(a, sep, text, k) {
            m = KeyMod { alt: true, ..m };
            k = k + a.unicode_len() + 1;
        } else if prefix_with_sep(c, sep, text, k) {
            m = KeyMod { ctrl: true, ..m };
            k = k + c.unicode_len() + 1;
        } else {
            return (m, k);
        }
    }
    (m, k)
}

/// A decimal number at `q`, with an optional `-`.
fn parse_int_at(text: &Vec<char>, q: usize) -> (r: Option<(i64, usize)>)
    requires
        q <= text@.len(),
    ensures
        at_int(r) == parse_int(text@, q as int),
        r is Some ==> q < r.unwrap().1 <= text@.len(),
        r is Some ==> -ARG_MAX <= r.unwrap().0 <= ARG_MAX,
{
    let neg = q < text.len() && text[q] == '-';
    let d = if neg {
        q + 1
    } else {
        q
    };
    let mut v: i64 = -1;
    let mut k = d;
    while k < text.len() && '0' <= text[k] && text[k] <= '9'
        invariant
            d <= k <= text@.len(),
            digit_run(text@, d as int) == digit_run(text@, k as int),
            v == digits_value(text@, d as int, k as int),
            -1 <= v <= ARG_MAX,
            k > d ==> v >= 0,
        decreases text@.len() - k,
    {
        let base: i64 = if v < 0 {
            0
        } else {
            v
        };
        let n: i64 = base * 10 + ((text[k] as u32) - 48) as i64;
        v = if n > ARG_MAX {
            ARG_MAX
        } else {
            n
        };
        k = k + 1;
    }
    if k == d {
        None
    } else {
        Some((
            if neg {
                -v
            } else {
                v
            },
            k,
        ))
    }
}

/// What a mouse report's name says happened.
fn parse_mouse_ev_at(text: &Vec<char>, q: usize) -> (r: Option<(MouseEvent, usize)>)
    requires
        q <= text@.len(),
    ensures
        at_int(r) == parse_mouse_ev(text@, q as int),
        r is Some ==> r.unwrap().1 <= text@.len(),
{
    let _len = text.len();
    if lit_at("Unknown", text, q) {
        proof {
            reveal_strlit("Unknown");
        }
        Some((MouseEvent::UNKNOWN, q + 7))
    } else if lit_at("Press", text, q) {
        proof {
            reveal_strlit("Press");
        }
        Some((MouseEvent::PRESS, q + 5))
    } else if lit_at("Drag", text, q) {
        proof {
            reveal_strlit("Drag");
        }
        Some((MouseEvent::DRAG, q + 4))
    } else if lit_at("Release", text, q) {
        proof {
            reveal_strlit("Release");
        }
        Some((MouseEvent::RELEASE, q + 7))
    } else {
        None
    }
}

/// The position suffix of a mouse report.
fn parse_mouse_pos_at(text: &Vec<char>, q: usize) -> (r: Option<(i64, i64, usize)>)
    requires
        q <= text@.len(),
    ensures
        r is None <==> parse_mouse_pos(text@, q as int) is None,
        r is Some ==> {
            let (col, line, k) = r.unwrap();
            parse_mouse_pos(text@, q as int) == Some((col, line, k as int)) && k <= text@.len()
        },
{
    let _len = text.len();
    if !lit_at(" @ (", text, q) {
        return None;
    }
    proof {
        reveal_strlit(" @ (");
    }
    match parse_int_at(text, q + 4) {
        None => None,
        Some((col, k1)) => {
            if !char_is(text, k1, ',') {
                return None;
            }
            match parse_int_at(text, k1 + 1) {
                None => None,
                Some((line, k2)) => {
                    if char_is(text, k2, ')') {
                        Some((col, line, k2 + 1))
                    } else {
                        None
                    }
                },
            }
        },
    }
}

/// A mouse report after `Mouse`.
fn parse_mouse_at(text: &Vec<char>, q: usize, f: Format) -> (r: Option<(Event, usize)>)
    requires
        q <= text@.len(),
    ensures
        at_int(r) == parse_mouse(text@, q as int, f),
        r is Some ==> r.unwrap().1 <= text@.len(),
{
    let _len = text.len();
    match parse_mouse_ev_at(text, q) {
        None => None,
        Some((ev, k0)) => {
            if !char_is(text, k0, '(') {
                return None;
            }
            match parse_int_at(text, k0 + 1) {
                None => None,
                Some((button, k1)) => {
                    if !char_is(text, k1, ')') {
                        return None;
                    }
                    let m = KeyMod::empty();
                    if f.mouse_pos {
                        match parse_mouse_pos_at(text, k1 + 1) {
                            Some((col, line, k2)) => Some((
                                Event::Mouse { ev, mods: m, button: button as isize, line: line as isize, col: col as isize },
                                k2,
                            )),
                            None => None,
                        }
                    } else {
                        Some((Event::Mouse { ev, mods: m, button: button as isize, line: 0, col: 0 }, k1 + 1))
                    }
                },
            }
        },
    }
}

/// A mode report after `Mode(`.
fn parse_mode_at(text: &Vec<char>, q: usize) -> (r: Option<(Event, usize)>)
    requires
        q <= text@.len(),
    ensures
        at_int(r) == parse_mode(text@, q as int),
        r is Some ==> r.unwrap().1 <= text@.len(),
{
    let _len = text.len();
    let private = char_is(text, q, '?');
    let d = if private {
        q + 1
    } else {
        q
    };
    match parse_int_at(text, d) {
        None => None,
        Some((mode, k1)) => {
            if !char_is(text, k1, '=') {
                return None;
            }
            match parse_int_at(text, k1 + 1) {
                None => None,
                Some((value, k2)) => {
                    if char_is(text, k2, ')') {
                        Some((
                            Event::ModeReport {
                                initial: if private {
                                    0x3f
                                } else {
                                    0
                                },
                                mode: mode as isize,
                                value: value as isize,
                            },
                            k2 + 1,
                        ))
                    } else {
                        None
                    }
                },
            }
        },
    }
}

/// The key written at `q`, without modifiers.
fn parse_key_at(text: &Vec<char>, q: usize, f: Format, names: &KeyNames) -> (r: Option<(Event, usize)>)
    requires
        q <= text@.len(),
        names.wf(),
    ensures
        at_int(r) == parse_key(text@, q as int, f, *names),
        r is Some ==> r.unwrap().1 <= text@.len(),
{
    let len = text.len();
    if q >= len {
        return None;
    }
    match names.lookup(f.lowerspace, text, q) {
        Some((sym, n)) => {
            proof {
                lemma_lookup_in_text(names, f.lowerspace, text@, q as int);
            }
            return Some((Event::KeySym { sym, mods: KeyMod::empty() }, q + n));
        },
        None => {},
    }
    let fc = if f.lowerspace {
        'f'
    } else {
        'F'
    };
    if text[q] == fc {
        match parse_int_at(text, q + 1) {
            Some((num, k)) => {
                return Some((Event::Function { num: num as isize, mods: KeyMod::empty() }, k));
            },
            None => {},
        }
    }
    if lit_at("Mouse", text, q) {
        proof {
            reveal_strlit("Mouse");
        }
        match parse_mouse_at(text, q + 5, f) {
            Some(r) => {
                return Some(r);
            },
            None => {},
        }
    }
    if lit_at("Mode(", text, q) {
        proof {
            reveal_strlit("Mode(");
        }
        match parse_mode_at(text, q + 5) {
            Some(r) => {
                return Some(r);
            },
            None => {},
        }
    }
    Some((make_unicode(text[q], KeyMod::empty()), q + 1))
}

/// A name found in a text lies within it.
pub proof fn lemma_lookup_in_text(names: &KeyNames, lower: bool, text: Seq<char>, q: int)
    requires
        names.spec_lookup(lower, text, q) is Some,
    ensures
        q + names.spec_lookup(lower, text, q).unwrap().1 <= text.len(),
        names.spec_lookup(lower, text, q).unwrap().1 > 0,
{
    lemma_best_match_in_text(names.entries(), lower, text, q, names.entries().len() as int);
}

/// Every match of `best_match` lies within the text.
proof fn lemma_best_match_in_text(t: Seq<(Sym, Seq<char>)>, lower: bool, text: Seq<char>, q: int, n: int)
    requires
        best_match(t, lower, text, q, n) is Some,
    ensures
        q + best_match(t, lower, text, q, n).unwrap().1 <= text.len(),
        best_match(t, lower, text, q, n).unwrap().1 > 0,
    decreases n,
{
    if n > 0 && best_match(t, lower, text, q, n - 1) is Some {
        lemma_best_match_in_text(t, lower, text, q, n - 1);
    }
}

/// Modifiers and a key from `q` on.
fn parse_modded_at(text: &Vec<char>, q: usize, f: Format, names: &KeyNames) -> (r: Option<(Event, usize)>)
    requires
        q <= text@.len(),
        names.wf(),
    ensures
        at_int(r) == parse_modded(text@, q as int, f, *names),
        r is Some ==> r.unwrap().1 <= text@.len(),
{
    let _len = text.len();
    let (m, k) = parse_mods_at(text, q, f);
    match parse_key_at(text, k, f, names) {
        Some((e, end)) => {
            let e2 = match e {
                Event::Unicode { codepoint, utf8, .. } => Event::Unicode { codepoint, mods: m, utf8 },
                Event::Function { num, .. } => Event::Function { num, mods: m },
                Event::KeySym { sym, .. } => Event::KeySym { sym, mods: m },
                Event::Mouse { ev, button, line, col, .. } => Event::Mouse { ev, mods: m, button, line, col },
                _ => e,
            };
            Some((e2, end))
        },
        None => None,
    }
}

/// A key written at `q` without caret notation.
fn parse_plain_at(text: &Vec<char>, q: usize, f: Format, names: &KeyNames) -> (r: Option<(Event, usize)>)
    requires
        q <= text@.len(),
        names.wf(),
    ensures
        at_int(r) == parse_plain(text@, q as int, f, *names),
        r is Some ==> r.unwrap().1 <= text@.len(),
{
    let _len = text.len();
    if f.wrapbracket && char_is(text, q, '<') {
        match parse_modded_at(text, q + 1, f, names) {
            Some((e, end)) => {
                if char_is(text, end, '>') {
                    return Some((e, end + 1));
                }
            },
            None => {},
        }
    }
    parse_modded_at(text, q, f, names)
}

/// The key written at the start of `text` in the style `f`, and how many
/// characters it takes.
pub fn parse_chars(text: &Vec<char>, f: Format, names: &KeyNames) -> (r: Option<(Event, usize)>)
    requires
        names.wf(),
    ensures
        at_int(r) == parse_text(text@, f, *names),
        r is Some ==> r.unwrap().1 <= text@.len(),
{
    if f.caretctrl && text.len() >= 2 && text[0] == '^' {
        match parse_plain_at(text, 1, Format { caretctrl: false, ..f }, names) {
            Some((Event::Unicode { codepoint: c, mods, .. }, end)) => {
                if mods.is_empty() && '@' <= c && c <= '_' {
                    let l = if 'A' <= c && c <= 'Z' {
                        ((c as u8) + 32) as char
                    } else {
                        c
                    };
                    Some((make_unicode(l, KeyMod { ctrl: true, alt: false, shift: false }), end))
                } else {
                    None
                }
            },
            _ => None,
        }
    } else {
        parse_plain_at(text, 0, f, names)
    }
}

} // verus!
