//! Writing key events as text in a configurable style.

use vstd::prelude::*;
use vstd::string::*;

use crate::event::{Event, KeyMod, MouseEvent};
use crate::keysym::{KeyNames, styled, styled_name};

verus! {

/// Relies on `String::push`: it appends the character to the string.
pub assume_specification[ String::push ](s: &mut String, ch: char)
    ensures
        final(s)@ == old(s)@.push(ch),
;

/// How keys are written as text.
#[derive(Clone, Copy, Debug, PartialEq, Eq, Structural, PartialOrd, Ord, Hash)]
pub struct Format {
    /// `Shift-` instead of `S-`.
    pub longmod: bool,
    /// `^X` instead of `C-x`.
    pub caretctrl: bool,
    /// `Meta-` or `M-` instead of `Alt-` or `A-`.
    pub altismeta: bool,
    /// Named keys, and keys with modifiers, in brackets: `<Escape>`.
    pub wrapbracket: bool,
    /// A space after each modifier instead of `-`.
    pub spacemod: bool,
    /// Modifier names in lower case.
    pub lowermod: bool,
    /// Key names in spaced lower case: `page down` instead of `PageDown`.
    pub lowerspace: bool,
    /// Mouse reports carry their position: ` @ (col,line)`.
    pub mouse_pos: bool,
}

impl Format {
    /// No option set.
    pub fn empty() -> (f: Format)
        ensures
            f == (Format {
                longmod: false,
                caretctrl: false,
                altismeta: false,
                wrapbracket: false,
                spacemod: false,
                lowermod: false,
                lowerspace: false,
                mouse_pos: false,
            }),
    {
        Format {
            longmod: false,
            caretctrl: false,
            altismeta: false,
            wrapbracket: false,
            spacemod: false,
            lowermod: false,
            lowerspace: false,
            mouse_pos: false,
        }
    }

    /// The style of vim: Alt is Meta, named keys in brackets.
    pub fn vim() -> (f: Format)
        ensures
            f == (Format { altismeta: true, wrapbracket: true, ..Format::spec_empty() }),
    {
        Format { altismeta: true, wrapbracket: true, ..Format::empty() }
    }

    /// The style of urwid: long lower-case modifier names followed by a space,
    /// Alt is Meta, spaced lower-case key names.
    pub fn urwid() -> (f: Format)
        ensures
            f == (Format {
                longmod: true,
                altismeta: true,
                lowermod: true,
                spacemod: true,
                lowerspace: true,
                ..Format::spec_empty()
            }),
    {
        Format {
            longmod: true,
            altismeta: true,
            lowermod: true,
            spacemod: true,
            lowerspace: true,
            ..Format::empty()
        }
    }

    /// No option set.
    pub open spec fn spec_empty() -> Format {
        Format {
            longmod: false,
            caretctrl: false,
            altismeta: false,
            wrapbracket: false,
            spacemod: false,
            lowermod: false,
            lowerspace: false,
            mouse_pos: false,
        }
    }
}

/// The text of an event of unknown meaning.
pub open spec fn unknown_csi_text() -> Seq<char> {
    "unknown csi (stringification not implemented)"@
}

/// The name of Shift in a style.
pub open spec fn shift_name(f: Format) -> Seq<char> {
    if f.longmod {
        if f.lowermod { "shift"@ } else { "Shift"@ }
    } else {
        if f.lowermod { "s"@ } else { "S"@ }
    }
}

/// The name of Alt in a style.
pub open spec fn alt_name(f: Format) -> Seq<char> {
    if f.altismeta {
        if f.longmod {
            if f.lowermod { "meta"@ } else { "Meta"@ }
        } else {
            if f.lowermod { "m"@ } else { "M"@ }
        }
    } else {
        if f.longmod {
            if f.lowermod { "alt"@ } else { "Alt"@ }
        } else {
            if f.lowermod { "a"@ } else { "A"@ }
        }
    }
}

/// The name of Ctrl in a style.
pub open spec fn ctrl_name(f: Format) -> Seq<char> {
    if f.longmod {
        if f.lowermod { "ctrl"@ } else { "Ctrl"@ }
    } else {
        if f.lowermod { "c"@ } else { "C"@ }
    }
}

/// The character after a modifier name.
pub open spec fn sep_char(f: Format) -> char {
    if f.spacemod { ' ' } else { '-' }
}

/// The modifiers of a key as a style writes them, always in the order Shift,
/// Alt, Ctrl.
pub open spec fn mods_text(m: KeyMod, f: Format) -> Seq<char> {
    (if m.shift { shift_name(f).push(sep_char(f)) } else { seq![] }) + (if m.alt {
        alt_name(f).push(sep_char(f))
    } else {
        seq![]
    }) + (if m.ctrl { ctrl_name(f).push(sep_char(f)) } else { seq![] })
}

/// The decimal digit `d`.
pub open spec fn digit_char(d: int) -> char {
    ((d + 48) as u32) as char
}

/// The decimal digits of `n`, without leading zeros.
pub open spec fn digits(n: nat) -> Seq<char>
    decreases n,
{
    if n < 10 {
        seq![digit_char(n as int)]
    } else {
        digits(n / 10).push(digit_char((n % 10) as int))
    }
}

/// The decimal form of `n`, with `-` before a negative number.
pub open spec fn dec(n: int) -> Seq<char> {
    if n < 0 {
        seq!['-'] + digits((-n) as nat)
    } else {
        digits(n as nat)
    }
}

/// The name of what a mouse report says happened.
pub open spec fn mouse_ev_name(ev: MouseEvent) -> Seq<char> {
    match ev {
        MouseEvent::UNKNOWN => "Unknown"@,
        MouseEvent::PRESS => "Press"@,
        MouseEvent::DRAG => "Drag"@,
        MouseEvent::RELEASE => "Release"@,
    }
}

/// The modifiers of an event; none for the kinds that have none.
pub open spec fn mods_of(e: Event) -> KeyMod {
    match e {
        Event::Unicode { mods, .. } => mods,
        Event::Function { mods, .. } => mods,
        Event::KeySym { mods, .. } => mods,
        Event::Mouse { mods, .. } => mods,
        _ => KeyMod { ctrl: false, alt: false, shift: false },
    }
}

/// The key of an event without its modifiers, as a style writes it.
pub open spec fn key_text(e: Event, f: Format, names: KeyNames) -> Seq<char> {
    match e {
        Event::Unicode { codepoint, .. } => seq![codepoint],
        Event::KeySym { sym, .. } => match names.name_of(sym) {
            Some(n) => styled(n, f.lowerspace),
            None => seq![],
        },
        Event::Function { num, .. } => seq![if f.lowerspace { 'f' } else { 'F' }] + dec(num as int),
        Event::Mouse { ev, button, line, col, .. } => "Mouse"@ + mouse_ev_name(ev) + seq!['('] + dec(
            button as int,
        ) + seq![')'] + (if f.mouse_pos {
            " @ ("@ + dec(col as int) + seq![','] + dec(line as int) + seq![')']
        } else {
            seq![]
        }),
        Event::Position { .. } => "Position"@,
        Event::ModeReport { initial, mode, value } => "Mode("@ + (if initial != 0 {
            seq!['?']
        } else {
            seq![]
        }) + dec(mode as int) + seq!['='] + dec(value as int) + seq![')'],
        Event::UnknownCsi => unknown_csi_text(),
    }
}

/// The caret form `^X` of a Ctrl key, where the style asks for it and the
/// key has one.
pub open spec fn caret_text(e: Event, f: Format) -> Option<Seq<char>> {
    match e {
        Event::Unicode { codepoint: c, mods, .. } => if f.caretctrl && mods == (KeyMod {
            ctrl: true,
            alt: false,
            shift: false,
        }) {
            if 'a' <= c <= 'z' {
                Some(seq!['^', ((c as u32 - 32) as u32) as char])
            } else if c == '@' || ('[' <= c <= '_') {
                Some(seq!['^', c])
            } else {
                None
            }
        } else {
            None
        },
        _ => None,
    }
}

/// True when a style puts the key in brackets.
pub open spec fn wraps(e: Event, f: Format) -> bool {
    f.wrapbracket && (!(e is Unicode) || mods_of(e) != KeyMod { ctrl: false, alt: false, shift: false })
}

/// An event as a style writes it.
pub open spec fn format_text(e: Event, f: Format, names: KeyNames) -> Seq<char> {
    if e is UnknownCsi {
        unknown_csi_text()
    } else if caret_text(e, f) is Some {
        caret_text(e, f).unwrap()
    } else if wraps(e, f) {
        seq!['<'] + mods_text(mods_of(e), f) + key_text(e, f, names) + seq!['>']
    } else {
        mods_text(mods_of(e), f) + key_text(e, f, names)
    }
}

/// Appends the decimal digits of `n`.
fn push_digits(out: &mut String, n: u64)
    ensures
        final(out)@ == old(out)@ + digits(n as nat),
    decreases n,
{
    if n >= 10 {
        push_digits(out, n / 10);
    }
    out.push(((n % 10) as u8 + 48) as char);
    assert(final(out)@ =~= old(out)@ + digits(n as nat));
}

/// Appends the decimal form of `n`.
fn push_dec(out: &mut String, n: isize)
    ensures
        final(out)@ == old(out)@ + dec(n as int),
{
    if n < 0 {
        out.push('-');
        let m: u64 = (0 - (n as i128)) as u64;
        push_digits(out, m);
        assert(final(out)@ =~= old(out)@ + dec(n as int));
    } else {
        push_digits(out, n as u64);
    }
}

/// Appends the name of `m`'s modifiers in the style `f`.
fn push_mods(out: &mut String, m: KeyMod, f: Format)
    ensures
        final(out)@ == old(out)@ + mods_text(m, f),
{
    let sep = if f.spacemod {
        ' '
    } else {
        '-'
    };
    if m.shift {
        out.append(
            if f.longmod {
                if f.lowermod {
                    "shift"
                } else {
                    "Shift"
                }
            } else {
                if f.lowermod {
                    "s"
                } else {
                    "S"
                }
            },
        );
        out.push(sep);
    }
    let ghost after_shift = out@;
    if m.alt {
        out.append(
            if f.altismeta {
                if f.longmod {
                    if f.lowermod {
                        "meta"
                    } else {
                        "Meta"
                    }
                } else {
                    if f.lowermod {
                        "m"
                    } else {
                        "M"
                    }
                }
            } else {
                if f.longmod {
                    if f.lowermod {
                        "alt"
                    } else {
                        "Alt"
                    }
                } else {
                    if f.lowermod {
                        "a"
                    } else {
                        "A"
                    }
                }
            },
        );
        out.push(sep);
    }
    let ghost after_alt = out@;
    if m.ctrl {
        out.append(
            if f.longmod {
                if f.lowermod {
                    "ctrl"
                } else {
                    "Ctrl"
                }
            } else {
                if f.lowermod {
                    "c"
                } else {
                    "C"
                }
            },
        );
        out.push(sep);
    }
    assert(final(out)@ =~= old(out)@ + mods_text(m, f));
}

/// Appends the key of `e`, without modifiers, in the style `f`.
fn push_key(out: &mut String, e: Event, f: Format, names: &KeyNames)
    requires
        !(e is UnknownCsi),
    ensures
        final(out)@ == old(out)@ + key_text(e, f, *names),
{
    match e {
        Event::Unicode { codepoint, .. } => {
            out.push(codepoint);
            assert(final(out)@ =~= old(out)@ + key_text(e, f, *names));
        },
        Event::KeySym { sym, .. } => {
            match names.keyname(sym) {
                Some(n) => {
                    let v = styled_name(n, f.lowerspace);
                    let mut i: usize = 0;
                    while i < v.len()
                        invariant
                            i <= v@.len(),
                            out@ == old(out)@ + v@.subrange(0, i as int),
                        decreases v@.len() - i,
                    {
                        out.push(v[i]);
                        i = i + 1;
                        assert(out@ =~= old(out)@ + v@.subrange(0, i as int));
                    }
                    assert(v@.subrange(0, v@.len() as int) =~= v@);
                },
                None => {
                    assert(final(out)@ =~= old(out)@ + key_text(e, f, *names));
                },
            }
        },
        Event::Function { num, .. } => {
            out.push(
                if f.lowerspace {
                    'f'
                } else {
                    'F'
                },
            );
            push_dec(out, num);
            assert(final(out)@ =~= old(out)@ + key_text(e, f, *names));
        },
        Event::Mouse { ev, button, line, col, .. } => {
            out.append("Mouse");
            out.append(
                match ev {
                    MouseEvent::UNKNOWN => "Unknown",
                    MouseEvent::PRESS => "Press",
                    MouseEvent::DRAG => "Drag",
                    MouseEvent::RELEASE => "Release",
                },
            );
            out.push('(');
            push_dec(out, button);
            out.push(')');
            let ghost before_pos = out@;
            if f.mouse_pos {
                out.append(" @ (");
                push_dec(out, col);
                out.push(',');
                push_dec(out, line);
                out.push(')');
            }
            assert(final(out)@ =~= old(out)@ + key_text(e, f, *names));
        },
        Event::Position { .. } => {
            out.append("Position");
        },
        Event::ModeReport { initial, mode, value } => {
            out.append("Mode(");
            if initial != 0 {
                out.push('?');
            }
            push_dec(out, mode);
            out.push('=');
            push_dec(out, value);
            out.push(')');
            assert(final(out)@ =~= old(out)@ + key_text(e, f, *names));
        },
        Event::UnknownCsi => {},
    }
}

/// Writes an event in the style `f`, naming keys from `names`. Modifiers come
/// in the order Shift, Alt, Ctrl; an event of unknown meaning gives a fixed
/// text.
pub fn format_key(e: Event, f: Format, names: &KeyNames) -> (r: String)
    ensures
        r@ == format_text(e, f, *names),
{
    if let Event::UnknownCsi = e {
        return "unknown csi (stringification not implemented)".to_owned();
    }
    let mut out = String::new();
    if let Event::Unicode { codepoint: c, mods, .. } = e {
        if f.caretctrl && mods.ctrl && !mods.alt && !mods.shift {
            if 'a' <= c && c <= 'z' {
                out.push('^');
                out.push(((c as u8) - 32) as char);
                assert(out@ =~= caret_text(e, f).unwrap());
                return out;
            } else if c == '@' || ('[' <= c && c <= '_') {
                out.push('^');
                out.push(c);
                assert(out@ =~= caret_text(e, f).unwrap());
                return out;
            }
        }
    }
    let m = match e {
        Event::Unicode { mods, .. } => mods,
        Event::Function { mods, .. } => mods,
        Event::KeySym { mods, .. } => mods,
        Event::Mouse { mods, .. } => mods,
        _ => KeyMod::empty(),
    };
    let wrap = f.wrapbracket && (match e {
        Event::Unicode { .. } => false,
        _ => true,
    } || !m.is_empty());
    if wrap {
        out.push('<');
    }
    push_mods(&mut out, m, f);
    push_key(&mut out, e, f, names);
    if wrap {
        out.push('>');
    }
    assert(out@ =~= format_text(e, f, *names));
    out
}

} // verus!
