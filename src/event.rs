//! Key events, modifier sets, and the normalisation applied to events.

use vstd::prelude::*;
use vstd::utf8::*;

use crate::keysym::Sym;

verus! {

/// A set of modifier keys held with a key.
///
/// The fields are listed from the highest bit to the lowest (`ctrl` = 4,
/// `alt` = 2, `shift` = 1), so the derived order is the order of the bits.
#[derive(Clone, Copy, Debug, PartialEq, Eq, Structural, PartialOrd, Ord, Hash)]
pub struct KeyMod {
    pub ctrl: bool,
    pub alt: bool,
    pub shift: bool,
}

impl KeyMod {
    /// The bit pattern of a modifier set.
    pub open spec fn spec_bits(self) -> int {
        (if self.shift { 1int } else { 0 }) + (if self.alt { 2int } else { 0 }) + (if self.ctrl {
            4int
        } else {
            0
        })
    }

    /// The modifier set that the low three bits of `b` describe.
    pub open spec fn spec_from_bits(b: u8) -> KeyMod {
        KeyMod { shift: b % 2 == 1, alt: (b / 2) % 2 == 1, ctrl: (b / 4) % 2 == 1 }
    }

    /// No modifier.
    pub fn empty() -> (m: KeyMod)
        ensures
            !m.shift && !m.alt && !m.ctrl,
    {
        KeyMod { ctrl: false, alt: false, shift: false }
    }

    /// True when no modifier is held.
    pub fn is_empty(&self) -> (r: bool)
        ensures
            r == (!self.shift && !self.alt && !self.ctrl),
    {
        !self.shift && !self.alt && !self.ctrl
    }

    /// The bit pattern: Shift is 1, Alt is 2 and Ctrl is 4.
    pub fn bits(&self) -> (b: u8)
        ensures
            b == self.spec_bits(),
    {
        let mut b: u8 = 0;
        if self.shift {
            b = b + 1;
        }
        if self.alt {
            b = b + 2;
        }
        if self.ctrl {
            b = b + 4;
        }
        b
    }

    /// The modifier set of the low three bits of `b`; higher bits are ignored.
    pub fn from_bits(b: u8) -> (m: KeyMod)
        ensures
            m == KeyMod::spec_from_bits(b),
    {
        KeyMod { shift: b % 2 == 1, alt: (b / 2) % 2 == 1, ctrl: (b / 4) % 2 == 1 }
    }

    /// The modifiers held in either set.
    pub fn union(&self, o: KeyMod) -> (m: KeyMod)
        ensures
            m == (KeyMod { shift: self.shift || o.shift, alt: self.alt || o.alt, ctrl: self.ctrl || o.ctrl }),
    {
        KeyMod { shift: self.shift || o.shift, alt: self.alt || o.alt, ctrl: self.ctrl || o.ctrl }
    }
}

/// What a mouse report says happened.
#[allow(non_camel_case_types)]
#[derive(Clone, Copy, Debug, PartialEq, Eq, Structural, PartialOrd, Ord, Hash)]
pub enum MouseEvent {
    UNKNOWN,
    PRESS,
    DRAG,
    RELEASE,
}

/// The kind of a key event.
#[allow(non_camel_case_types)]
#[derive(Clone, Copy, Debug, PartialEq, Eq, Structural, PartialOrd, Ord, Hash)]
pub enum Type {
    UNICODE,
    FUNCTION,
    KEYSYM,
    MOUSE,
    POSITION,
    MODEREPORT,
    UNKNOWN_CSI,
}

/// The UTF-8 encoding of one character: `len` bytes, the first of them in `b0`;
/// the unused bytes are zero.
#[derive(Clone, Copy, Debug, PartialEq, Eq, Structural, PartialOrd, Ord, Hash)]
pub struct Utf8Char {
    pub len: u8,
    pub b0: u8,
    pub b1: u8,
    pub b2: u8,
    pub b3: u8,
}

impl Utf8Char {
    /// The encoded bytes.
    pub open spec fn view(self) -> Seq<u8> {
        seq![self.b0, self.b1, self.b2, self.b3].take(self.len as int)
    }

    /// The encoded bytes, as a vector.
    pub fn to_bytes(&self) -> (v: Vec<u8>)
        requires
            self.len <= 4,
        ensures
            v@ == self.view(),
    {
        let mut v: Vec<u8> = Vec::new();
        if self.len >= 1 {
            v.push(self.b0);
        }
        if self.len >= 2 {
            v.push(self.b1);
        }
        if self.len >= 3 {
            v.push(self.b2);
        }
        if self.len >= 4 {
            v.push(self.b3);
        }
        assert(v@ =~= self.view());
        v
    }
}

/// The canonical encoding of a character.
pub open spec fn utf8_of(c: char) -> Utf8Char {
    let v = c as u32;
    if has_width_1_encoding(v) {
        Utf8Char { len: 1, b0: leading_byte_width_1(v), b1: 0, b2: 0, b3: 0 }
    } else if has_width_2_encoding(v) {
        Utf8Char { len: 2, b0: leading_byte_width_2(v), b1: last_continuation_byte(v), b2: 0, b3: 0 }
    } else if has_width_3_encoding(v) {
        Utf8Char {
            len: 3,
            b0: leading_byte_width_3(v),
            b1: second_last_continuation_byte(v),
            b2: last_continuation_byte(v),
            b3: 0,
        }
    } else {
        Utf8Char {
            len: 4,
            b0: leading_byte_width_4(v),
            b1: third_last_continuation_byte(v),
            b2: second_last_continuation_byte(v),
            b3: last_continuation_byte(v),
        }
    }
}

/// Encodes a character as UTF-8.
pub fn encode_utf8_char(c: char) -> (u: Utf8Char)
    ensures
        u == utf8_of(c),
        u.view() == encode_scalar(c as u32),
        1 <= u.len <= 4,
{
    let v = c as u32;
    proof {
        char_is_scalar(c);
    }
    let u = if v <= 0x7F {
        Utf8Char { len: 1, b0: (v & 0x7F) as u8, b1: 0, b2: 0, b3: 0 }
    } else if v <= 0x7FF {
        Utf8Char { len: 2, b0: 0xC0 | ((v >> 6) & 0x1F) as u8, b1: 0x80 | (v & 0x3F) as u8, b2: 0, b3: 0 }
    } else if v <= 0xFFFF {
        Utf8Char {
            len: 3,
            b0: 0xE0 | ((v >> 12) & 0x0F) as u8,
            b1: 0x80 | ((v >> 6) & 0x3F) as u8,
            b2: 0x80 | (v & 0x3F) as u8,
            b3: 0,
        }
    } else {
        Utf8Char {
            len: 4,
            b0: 0xF0 | ((v >> 18) & 0x7) as u8,
            b1: 0x80 | ((v >> 12) & 0x3F) as u8,
            b2: 0x80 | ((v >> 6) & 0x3F) as u8,
            b3: 0x80 | (v & 0x3F) as u8,
        }
    };
    assert(u.view() =~= encode_scalar(v));
    u
}

/// A decoded key: a character, a function key, a named key, a mouse report,
/// or one of the replies a terminal sends to a query.
#[derive(Clone, Copy, Debug, PartialEq, Eq, Structural, PartialOrd, Ord, Hash)]
pub enum Event {
    /// A control sequence of a valid shape whose meaning is not known.
    UnknownCsi,
    /// A character; `utf8` is its encoding.
    Unicode { codepoint: char, mods: KeyMod, utf8: Utf8Char },
    /// The function key `F<num>`.
    Function { num: isize, mods: KeyMod },
    /// A named key.
    KeySym { sym: Sym, mods: KeyMod },
    /// A mouse report; `line` and `col` count from 1.
    Mouse { ev: MouseEvent, mods: KeyMod, button: isize, line: isize, col: isize },
    /// A cursor position report.
    Position { line: isize, col: isize },
    /// A mode report: `initial` is `'?'` for a DEC private mode, else 0.
    ModeReport { initial: isize, mode: isize, value: isize },
}

/// The character event for `c` with modifiers `mods`.
pub open spec fn unicode_event(c: char, mods: KeyMod) -> Event {
    Event::Unicode { codepoint: c, mods, utf8: utf8_of(c) }
}

/// Makes the character event for `c` with modifiers `mods`.
pub fn make_unicode(c: char, mods: KeyMod) -> (e: Event)
    ensures
        e == unicode_event(c, mods),
{
    Event::Unicode { codepoint: c, mods, utf8: encode_utf8_char(c) }
}

impl Event {
    /// The kind of an event.
    pub open spec fn spec_type(self) -> Type {
        match self {
            Event::UnknownCsi => Type::UNKNOWN_CSI,
            Event::Unicode { .. } => Type::UNICODE,
            Event::Function { .. } => Type::FUNCTION,
            Event::KeySym { .. } => Type::KEYSYM,
            Event::Mouse { .. } => Type::MOUSE,
            Event::Position { .. } => Type::POSITION,
            Event::ModeReport { .. } => Type::MODEREPORT,
        }
    }

    /// The kind of an event.
    pub fn type_(&self) -> (t: Type)
        ensures
            t == self.spec_type(),
    {
        match self {
            Event::UnknownCsi => Type::UNKNOWN_CSI,
            Event::Unicode { .. } => Type::UNICODE,
            Event::Function { .. } => Type::FUNCTION,
            Event::KeySym { .. } => Type::KEYSYM,
            Event::Mouse { .. } => Type::MOUSE,
            Event::Position { .. } => Type::POSITION,
            Event::ModeReport { .. } => Type::MODEREPORT,
        }
    }

    /// The event with Alt added to its modifiers; kinds without modifiers are
    /// unchanged.
    pub open spec fn spec_with_alt(self) -> Event {
        match self {
            Event::Unicode { codepoint, mods, utf8 } => Event::Unicode {
                codepoint,
                mods: KeyMod { alt: true, ..mods },
                utf8,
            },
            Event::Function { num, mods } => Event::Function { num, mods: KeyMod { alt: true, ..mods } },
            Event::KeySym { sym, mods } => Event::KeySym { sym, mods: KeyMod { alt: true, ..mods } },
            Event::Mouse { ev, mods, button, line, col } => Event::Mouse {
                ev,
                mods: KeyMod { alt: true, ..mods },
                button,
                line,
                col,
            },
            _ => self,
        }
    }

    /// Adds Alt to the modifiers of an event.
    pub fn with_alt(&self) -> (e: Event)
        ensures
            e == self.spec_with_alt(),
    {
        match *self {
            Event::Unicode { codepoint, mods, utf8 } => Event::Unicode {
                codepoint,
                mods: KeyMod { alt: true, ..mods },
                utf8,
            },
            Event::Function { num, mods } => Event::Function { num, mods: KeyMod { alt: true, ..mods } },
            Event::KeySym { sym, mods } => Event::KeySym { sym, mods: KeyMod { alt: true, ..mods } },
            Event::Mouse { ev, mods, button, line, col } => Event::Mouse {
                ev,
                mods: KeyMod { alt: true, ..mods },
                button,
                line,
                col,
            },
            _ => *self,
        }
    }
}

/// Normalisation applied to decoded and parsed events.
#[derive(Clone, Copy, Debug, PartialEq, Eq, Structural, PartialOrd, Ord, Hash)]
pub struct Canon {
    /// The space bar is the named key `SPACE` rather than the character `' '`.
    pub spacesymbol: bool,
    /// `DEL` and `DELETE` become `BACKSPACE`.
    pub delbs: bool,
}

impl Canon {
    /// No normalisation beyond the space bar as a character.
    pub fn empty() -> (c: Canon)
        ensures
            !c.spacesymbol && !c.delbs,
    {
        Canon { spacesymbol: false, delbs: false }
    }
}

/// The canonical form of an event: the space bar takes the form that `c`
/// asks for, and under `delbs` the two delete keys read as `BACKSPACE`.
pub open spec fn canonical(e: Event, c: Canon) -> Event {
    let e1 = if c.spacesymbol {
        match e {
            Event::Unicode { codepoint, mods, .. } => if codepoint == ' ' {
                Event::KeySym { sym: Sym::SPACE, mods }
            } else {
                e
            },
            _ => e,
        }
    } else {
        match e {
            Event::KeySym { sym: Sym::SPACE, mods } => unicode_event(' ', mods),
            _ => e,
        }
    };
    if c.delbs {
        match e1 {
            Event::KeySym { sym, mods } => if sym == Sym::DEL || sym == Sym::DELETE {
                Event::KeySym { sym: Sym::BACKSPACE, mods }
            } else {
                e1
            },
            _ => e1,
        }
    } else {
        e1
    }
}

/// Applies the normalisation that `c` asks for.
pub fn canonicalize(e: Event, c: Canon) -> (r: Event)
    ensures
        r == canonical(e, c),
{
    let e1 = if c.spacesymbol {
        match e {
            Event::Unicode { codepoint, mods, .. } => if codepoint == ' ' {
                Event::KeySym { sym: Sym::SPACE, mods }
            } else {
                e
            },
            _ => e,
        }
    } else {
        match e {
            Event::KeySym { sym: Sym::SPACE, mods } => make_unicode(' ', mods),
            _ => e,
        }
    };
    if c.delbs {
        match e1 {
            Event::KeySym { sym, mods } => if sym == Sym::DEL || sym == Sym::DELETE {
                Event::KeySym { sym: Sym::BACKSPACE, mods }
            } else {
                e1
            },
            _ => e1,
        }
    } else {
        e1
    }
}

/// Normalising twice gives what normalising once gives.
pub proof fn lemma_canonical_idempotent(e: Event, c: Canon)
    ensures
        canonical(canonical(e, c), c) == canonical(e, c),
{
}

} // verus!
