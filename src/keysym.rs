//! Named keys and the table that maps names to them and back.

use vstd::prelude::*;
use vstd::string::*;

verus! {

/// A named key that has no printable character of its own.
///
/// The builtin keys are listed in a fixed order; names registered at run time
/// get a `USER` symbol, numbered in the order of registration.
#[allow(non_camel_case_types)]
#[derive(Clone, Copy, Debug, PartialEq, Eq, Structural, PartialOrd, Ord, Hash)]
pub enum Sym {
    UNKNOWN,
    NONE,
    BACKSPACE,
    TAB,
    ENTER,
    ESCAPE,
    SPACE,
    DEL,
    UP,
    DOWN,
    LEFT,
    RIGHT,
    BEGIN,
    FIND,
    INSERT,
    DELETE,
    SELECT,
    PAGEUP,
    PAGEDOWN,
    HOME,
    END,
    CANCEL,
    CLEAR,
    CLOSE,
    COMMAND,
    COPY,
    EXIT,
    HELP,
    MARK,
    MESSAGE,
    MOVE,
    OPEN,
    OPTIONS,
    PRINT,
    REDO,
    REFERENCE,
    REFRESH,
    REPLACE,
    RESTART,
    RESUME,
    SAVE,
    SUSPEND,
    UNDO,
    KP0,
    KP1,
    KP2,
    KP3,
    KP4,
    KP5,
    KP6,
    KP7,
    KP8,
    KP9,
    KPENTER,
    KPPLUS,
    KPMINUS,
    KPMULT,
    KPDIV,
    KPCOMMA,
    KPPERIOD,
    KPEQUALS,
    USER(u32),
}

/// The name of a builtin symbol; `None` for `UNKNOWN`, `NONE` and `USER`.
pub open spec fn builtin_name(s: Sym) -> Option<Seq<char>> {
    match s {
        Sym::BACKSPACE => Some("Backspace"@),
        Sym::TAB => Some("Tab"@),
        Sym::ENTER => Some("Enter"@),
        Sym::ESCAPE => Some("Escape"@),
        Sym::SPACE => Some("Space"@),
        Sym::DEL => Some("DEL"@),
        Sym::UP => Some("Up"@),
        Sym::DOWN => Some("Down"@),
        Sym::LEFT => Some("Left"@),
        Sym::RIGHT => Some("Right"@),
        Sym::BEGIN => Some("Begin"@),
        Sym::FIND => Some("Find"@),
        Sym::INSERT => Some("Insert"@),
        Sym::DELETE => Some("Delete"@),
        Sym::SELECT => Some("Select"@),
        Sym::PAGEUP => Some("PageUp"@),
        Sym::PAGEDOWN => Some("PageDown"@),
        Sym::HOME => Some("Home"@),
        Sym::END => Some("End"@),
        Sym::CANCEL => Some("Cancel"@),
        Sym::CLEAR => Some("Clear"@),
        Sym::CLOSE => Some("Close"@),
        Sym::COMMAND => Some("Command"@),
        Sym::COPY => Some("Copy"@),
        Sym::EXIT => Some("Exit"@),
        Sym::HELP => Some("Help"@),
        Sym::MARK => Some("Mark"@),
        Sym::MESSAGE => Some("Message"@),
        Sym::MOVE => Some("Move"@),
        Sym::OPEN => Some("Open"@),
        Sym::OPTIONS => Some("Options"@),
        Sym::PRINT => Some("Print"@),
        Sym::REDO => Some("Redo"@),
        Sym::REFERENCE => Some("Reference"@),
        Sym::REFRESH => Some("Refresh"@),
        Sym::REPLACE => Some("Replace"@),
        Sym::RESTART => Some("Restart"@),
        Sym::RESUME => Some("Resume"@),
        Sym::SAVE => Some("Save"@),
        Sym::SUSPEND => Some("Suspend"@),
        Sym::UNDO => Some("Undo"@),
        Sym::KP0 => Some("KP0"@),
        Sym::KP1 => Some("KP1"@),
        Sym::KP2 => Some("KP2"@),
        Sym::KP3 => Some("KP3"@),
        Sym::KP4 => Some("KP4"@),
        Sym::KP5 => Some("KP5"@),
        Sym::KP6 => Some("KP6"@),
        Sym::KP7 => Some("KP7"@),
        Sym::KP8 => Some("KP8"@),
        Sym::KP9 => Some("KP9"@),
        Sym::KPENTER => Some("KPEnter"@),
        Sym::KPPLUS => Some("KPPlus"@),
        Sym::KPMINUS => Some("KPMinus"@),
        Sym::KPMULT => Some("KPMult"@),
        Sym::KPDIV => Some("KPDiv"@),
        Sym::KPCOMMA => Some("KPComma"@),
        Sym::KPPERIOD => Some("KPPeriod"@),
        Sym::KPEQUALS => Some("KPEquals"@),
        _ => None,
    }
}

/// The builtin symbols that have a name, in table order.
pub open spec fn builtin_syms() -> Seq<Sym> {
    seq![
        Sym::BACKSPACE,
        Sym::TAB,
        Sym::ENTER,
        Sym::ESCAPE,
        Sym::SPACE,
        Sym::DEL,
        Sym::UP,
        Sym::DOWN,
        Sym::LEFT,
        Sym::RIGHT,
        Sym::BEGIN,
        Sym::FIND,
        Sym::INSERT,
        Sym::DELETE,
        Sym::SELECT,
        Sym::PAGEUP,
        Sym::PAGEDOWN,
        Sym::HOME,
        Sym::END,
        Sym::CANCEL,
        Sym::CLEAR,
        Sym::CLOSE,
        Sym::COMMAND,
        Sym::COPY,
        Sym::EXIT,
        Sym::HELP,
        Sym::MARK,
        Sym::MESSAGE,
        Sym::MOVE,
        Sym::OPEN,
        Sym::OPTIONS,
        Sym::PRINT,
        Sym::REDO,
        Sym::REFERENCE,
        Sym::REFRESH,
        Sym::REPLACE,
        Sym::RESTART,
        Sym::RESUME,
        Sym::SAVE,
        Sym::SUSPEND,
        Sym::UNDO,
        Sym::KP0,
        Sym::KP1,
        Sym::KP2,
        Sym::KP3,
        Sym::KP4,
        Sym::KP5,
        Sym::KP6,
        Sym::KP7,
        Sym::KP8,
        Sym::KP9,
        Sym::KPENTER,
        Sym::KPPLUS,
        Sym::KPMINUS,
        Sym::KPMULT,
        Sym::KPDIV,
        Sym::KPCOMMA,
        Sym::KPPERIOD,
        Sym::KPEQUALS,
    ]
}

/// The number of builtin symbols that have a name.
pub const N_BUILTIN: usize = 59;

/// The builtin symbol at a position of the table.
pub fn builtin_at(i: usize) -> (s: Sym)
    requires
        i < N_BUILTIN,
    ensures
        s == builtin_syms()[i as int],
        builtin_name(s) is Some,
{
    match i {
        0 => Sym::BACKSPACE,
        1 => Sym::TAB,
        2 => Sym::ENTER,
        3 => Sym::ESCAPE,
        4 => Sym::SPACE,
        5 => Sym::DEL,
        6 => Sym::UP,
        7 => Sym::DOWN,
        8 => Sym::LEFT,
        9 => Sym::RIGHT,
        10 => Sym::BEGIN,
        11 => Sym::FIND,
        12 => Sym::INSERT,
        13 => Sym::DELETE,
        14 => Sym::SELECT,
        15 => Sym::PAGEUP,
        16 => Sym::PAGEDOWN,
        17 => Sym::HOME,
        18 => Sym::END,
        19 => Sym::CANCEL,
        20 => Sym::CLEAR,
        21 => Sym::CLOSE,
        22 => Sym::COMMAND,
        23 => Sym::COPY,
        24 => Sym::EXIT,
        25 => Sym::HELP,
        26 => Sym::MARK,
        27 => Sym::MESSAGE,
        28 => Sym::MOVE,
        29 => Sym::OPEN,
        30 => Sym::OPTIONS,
        31 => Sym::PRINT,
        32 => Sym::REDO,
        33 => Sym::REFERENCE,
        34 => Sym::REFRESH,
        35 => Sym::REPLACE,
        36 => Sym::RESTART,
        37 => Sym::RESUME,
        38 => Sym::SAVE,
        39 => Sym::SUSPEND,
        40 => Sym::UNDO,
        41 => Sym::KP0,
        42 => Sym::KP1,
        43 => Sym::KP2,
        44 => Sym::KP3,
        45 => Sym::KP4,
        46 => Sym::KP5,
        47 => Sym::KP6,
        48 => Sym::KP7,
        49 => Sym::KP8,
        50 => Sym::KP9,
        51 => Sym::KPENTER,
        52 => Sym::KPPLUS,
        53 => Sym::KPMINUS,
        54 => Sym::KPMULT,
        55 => Sym::KPDIV,
        56 => Sym::KPCOMMA,
        57 => Sym::KPPERIOD,
        _ => Sym::KPEQUALS,
    }
}

/// The name of a builtin symbol, if it has one.
pub fn builtin_keyname(s: Sym) -> (r: Option<&'static str>)
    ensures
        r is Some <==> builtin_name(s) is Some,
        r is Some ==> r.unwrap()@ == builtin_name(s).unwrap(),
{
    match s {
        Sym::BACKSPACE => Some("Backspace"),
        Sym::TAB => Some("Tab"),
        Sym::ENTER => Some("Enter"),
        Sym::ESCAPE => Some("Escape"),
        Sym::SPACE => Some("Space"),
        Sym::DEL => Some("DEL"),
        Sym::UP => Some("Up"),
        Sym::DOWN => Some("Down"),
        Sym::LEFT => Some("Left"),
        Sym::RIGHT => Some("Right"),
        Sym::BEGIN => Some("Begin"),
        Sym::FIND => Some("Find"),
        Sym::INSERT => Some("Insert"),
        Sym::DELETE => Some("Delete"),
        Sym::SELECT => Some("Select"),
        Sym::PAGEUP => Some("PageUp"),
        Sym::PAGEDOWN => Some("PageDown"),
        Sym::HOME => Some("Home"),
        Sym::END => Some("End"),
        Sym::CANCEL => Some("Cancel"),
        Sym::CLEAR => Some("Clear"),
        Sym::CLOSE => Some("Close"),
        Sym::COMMAND => Some("Command"),
        Sym::COPY => Some("Copy"),
        Sym::EXIT => Some("Exit"),
        Sym::HELP => Some("Help"),
        Sym::MARK => Some("Mark"),
        Sym::MESSAGE => Some("Message"),
        Sym::MOVE => Some("Move"),
        Sym::OPEN => Some("Open"),
        Sym::OPTIONS => Some("Options"),
        Sym::PRINT => Some("Print"),
        Sym::REDO => Some("Redo"),
        Sym::REFERENCE => Some("Reference"),
        Sym::REFRESH => Some("Refresh"),
        Sym::REPLACE => Some("Replace"),
        Sym::RESTART => Some("Restart"),
        Sym::RESUME => Some("Resume"),
        Sym::SAVE => Some("Save"),
        Sym::SUSPEND => Some("Suspend"),
        Sym::UNDO => Some("Undo"),
        Sym::KP0 => Some("KP0"),
        Sym::KP1 => Some("KP1"),
        Sym::KP2 => Some("KP2"),
        Sym::KP3 => Some("KP3"),
        Sym::KP4 => Some("KP4"),
        Sym::KP5 => Some("KP5"),
        Sym::KP6 => Some("KP6"),
        Sym::KP7 => Some("KP7"),
        Sym::KP8 => Some("KP8"),
        Sym::KP9 => Some("KP9"),
        Sym::KPENTER => Some("KPEnter"),
        Sym::KPPLUS => Some("KPPlus"),
        Sym::KPMINUS => Some("KPMinus"),
        Sym::KPMULT => Some("KPMult"),
        Sym::KPDIV => Some("KPDiv"),
        Sym::KPCOMMA => Some("KPComma"),
        Sym::KPPERIOD => Some("KPPeriod"),
        Sym::KPEQUALS => Some("KPEquals"),
        _ => None,
    }
}


/// True for `'A'` to `'Z'`.
pub open spec fn is_upper(c: char) -> bool {
    'A' <= c <= 'Z'
}

/// True for `'a'` to `'z'`.
pub open spec fn is_lower(c: char) -> bool {
    'a' <= c <= 'z'
}

/// The lower-case form of an ASCII letter; other characters are unchanged.
pub open spec fn to_lower(c: char) -> char {
    if is_upper(c) {
        ((c as u32 + 32) as u32) as char
    } else {
        c
    }
}

/// The spaced lower-case form of the first `i` characters of a CamelCase name:
/// a space goes before each capital that follows a small letter, and every
/// letter is made small (`PageUp` becomes `page up`).
pub open spec fn spaced(name: Seq<char>, i: int) -> Seq<char>
    decreases i,
{
    if i <= 0 {
        seq![]
    } else {
        let k = i - 1;
        let gap: Seq<char> = if k > 0 && is_upper(name[k]) && is_lower(name[k - 1]) {
            seq![' ']
        } else {
            seq![]
        };
        spaced(name, k) + gap + seq![to_lower(name[k])]
    }
}

/// A name as a style writes it: as it is, or in the spaced lower-case form.
pub open spec fn styled(name: Seq<char>, lower: bool) -> Seq<char> {
    if lower {
        spaced(name, name.len() as int)
    } else {
        name
    }
}

/// The lower-case form of an ASCII letter.
pub fn lower_char(c: char) -> (r: char)
    ensures
        r == to_lower(c),
{
    if 'A' <= c && c <= 'Z' {
        ((c as u8) + 32) as char
    } else {
        c
    }
}

/// The characters of a string.
pub fn chars_of(s: &str) -> (v: Vec<char>)
    ensures
        v@ == s@,
{
    let n = s.unicode_len();
    let mut v: Vec<char> = Vec::new();
    let mut i: usize = 0;
    while i < n
        invariant
            i <= n,
            n == s@.len(),
            v@ == s@.subrange(0, i as int),
        decreases n - i,
    {
        v.push(s.get_char(i));
        i = i + 1;
        assert(v@ =~= s@.subrange(0, i as int));
    }
    assert(v@ =~= s@);
    v
}

/// A name as a style writes it.
pub fn styled_name(name: &str, lower: bool) -> (v: Vec<char>)
    ensures
        v@ == styled(name@, lower),
{
    let src = chars_of(name);
    if !lower {
        return src;
    }
    let mut v: Vec<char> = Vec::new();
    let mut i: usize = 0;
    while i < src.len()
        invariant
            i <= src@.len(),
            src@ == name@,
            v@ == spaced(name@, i as int),
        decreases src@.len() - i,
    {
        let c = src[i];
        if i > 0 && 'A' <= c && c <= 'Z' && 'a' <= src[i - 1] && src[i - 1] <= 'z' {
            v.push(' ');
        }
        v.push(lower_char(c));
        i = i + 1;
        proof {
            let k = i - 1;
            let gap: Seq<char> = if k > 0 && is_upper(name@[k]) && is_lower(name@[k - 1]) {
                seq![' ']
            } else {
                seq![]
            };
            assert(v@ =~= spaced(name@, k) + gap + seq![to_lower(name@[k])]);
        }
    }
    v
}

/// True when `name` is written in `text` at position `p`.
pub open spec fn matches_at(name: Seq<char>, text: Seq<char>, p: int) -> bool {
    &&& 0 <= p
    &&& p + name.len() <= text.len()
    &&& text.subrange(p, p + name.len()) == name
}

/// True when `name` is written in `text` at position `p`.
pub fn name_matches(name: &Vec<char>, text: &Vec<char>, p: usize) -> (r: bool)
    requires
        p <= text@.len(),
    ensures
        r == matches_at(name@, text@, p as int),
{
    let tl = text.len();
    if name.len() > tl - p {
        return false;
    }
    let mut i: usize = 0;
    while i < name.len()
        invariant
            i <= name@.len(),
            tl == text@.len(),
            p + name@.len() <= text@.len(),
            text@.subrange(p as int, p + i) == name@.subrange(0, i as int),
        decreases name@.len() - i,
    {
        if name[i] != text[p + i] {
            assert(text@.subrange(p as int, p + name@.len())[i as int] != name@[i as int]);
            return false;
        }
        i = i + 1;
        assert(text@.subrange(p as int, p + i) =~= name@.subrange(0, i as int));
    }
    assert(name@.subrange(0, name@.len() as int) =~= name@);
    true
}

/// The table of key names: the builtin names, then those registered at run
/// time, in order of registration.
pub struct KeyNames {
    user: Vec<(Sym, String)>,
}

/// The entries of the builtin table.
pub open spec fn builtin_entries() -> Seq<(Sym, Seq<char>)> {
    builtin_syms().map(|i: int, s: Sym| (s, builtin_name(s).unwrap()))
}

/// The longest name among the first `n` entries of `t` written at position
/// `p` of `text` in the style `lower`, with its length; an earlier entry wins
/// over a later one of the same length.
pub open spec fn best_match(t: Seq<(Sym, Seq<char>)>, lower: bool, text: Seq<char>, p: int, n: int) -> Option<(Sym, int)>
    decreases n,
{
    if n <= 0 {
        None
    } else {
        let prev = best_match(t, lower, text, p, n - 1);
        let name = styled(t[n - 1].1, lower);
        if name.len() > 0 && matches_at(name, text, p) && (prev is None || name.len() > prev.unwrap().1) {
            Some((t[n - 1].0, name.len() as int))
        } else {
            prev
        }
    }
}

/// The name registered last for `sym` among the first `n` entries of `u`.
pub open spec fn last_name(u: Seq<(Sym, Seq<char>)>, sym: Sym, n: int) -> Option<Seq<char>>
    decreases n,
{
    if n <= 0 {
        None
    } else if u[n - 1].0 == sym {
        Some(u[n - 1].1)
    } else {
        last_name(u, sym, n - 1)
    }
}

/// The most entries that can be registered.
pub const MAX_USER: usize = 0xffff_0000;

impl KeyNames {
    /// The number of registered entries stays below `MAX_USER`.
    pub closed spec fn wf(&self) -> bool {
        self.user@.len() < MAX_USER
    }

    /// The registered entries.
    pub closed spec fn user(&self) -> Seq<(Sym, Seq<char>)> {
        self.user@.map(|i: int, e: (Sym, String)| (e.0, e.1@))
    }

    /// Every entry, builtin ones first.
    pub open spec fn entries(&self) -> Seq<(Sym, Seq<char>)> {
        builtin_entries() + self.user()
    }

    /// The name of a symbol: the one registered last for it, else its builtin
    /// name.
    pub open spec fn name_of(&self, sym: Sym) -> Option<Seq<char>> {
        match last_name(self.user(), sym, self.user().len() as int) {
            Some(n) => Some(n),
            None => builtin_name(sym),
        }
    }

    /// The longest name written at position `p` of `text`.
    pub open spec fn spec_lookup(&self, lower: bool, text: Seq<char>, p: int) -> Option<(Sym, int)> {
        best_match(self.entries(), lower, text, p, self.entries().len() as int)
    }

    /// The builtin table alone.
    pub fn new() -> (t: KeyNames)
        ensures
            t.wf(),
            t.user().len() == 0,
    {
        let t = KeyNames { user: Vec::new() };
        assert(t.user() =~= Seq::<(Sym, Seq<char>)>::empty());
        t
    }

    /// Adds the name `name` for `sym`; for `UNKNOWN` a new symbol is made.
    /// Returns the symbol the name stands for, or `UNKNOWN` when the table is
    /// full.
    pub fn register(&mut self, sym: Sym, name: &str) -> (r: Sym)
        requires
            old(self).wf(),
        ensures
            final(self).wf(),
            old(self).user().len() + 1 < MAX_USER && sym != Sym::UNKNOWN ==> r == sym,
            old(self).user().len() + 1 < MAX_USER && sym == Sym::UNKNOWN ==> r == Sym::USER(
                old(self).user().len() as u32,
            ),
            old(self).user().len() + 1 >= MAX_USER ==> r == Sym::UNKNOWN,
            r == Sym::UNKNOWN ==> final(self).user() == old(self).user(),
            r != Sym::UNKNOWN ==> final(self).user() == old(self).user().push((r, name@)),
    {
        if self.user.len() + 1 >= MAX_USER {
            return Sym::UNKNOWN;
        }
        let r = if sym == Sym::UNKNOWN {
            Sym::USER(self.user.len() as u32)
        } else {
            sym
        };
        self.user.push((r, name.to_owned()));
        assert(self.user() =~= old(self).user().push((r, name@)));
        r
    }

    /// The name of a symbol.
    pub fn keyname(&self, sym: Sym) -> (r: Option<&str>)
        ensures
            r is Some <==> self.name_of(sym) is Some,
            r is Some ==> r.unwrap()@ == self.name_of(sym).unwrap(),
    {
        let mut i = self.user.len();
        while i > 0
            invariant
                i <= self.user@.len(),
                last_name(self.user(), sym, self.user().len() as int) == last_name(self.user(), sym, i as int),
            decreases i,
        {
            if self.user[i - 1].0 == sym {
                return Some(self.user[i - 1].1.as_str());
            }
            i = i - 1;
        }
        builtin_keyname(sym)
    }

    /// The number of entries.
    pub fn len(&self) -> (n: usize)
        requires
            self.wf(),
        ensures
            n == self.entries().len(),
    {
        proof {
            assert(builtin_entries().len() == N_BUILTIN);
        }
        N_BUILTIN + self.user.len()
    }

    /// The entry at position `i`.
    pub fn entry(&self, i: usize) -> (r: (Sym, &str))
        requires
            i < self.entries().len(),
        ensures
            r.0 == self.entries()[i as int].0,
            r.1@ == self.entries()[i as int].1,
    {
        if i < N_BUILTIN {
            let s = builtin_at(i);
            match builtin_keyname(s) {
                Some(n) => (s, n),
                None => (s, ""),
            }
        } else {
            let e = &self.user[i - N_BUILTIN];
            (e.0, e.1.as_str())
        }
    }

    /// The longest name written at position `p` of `text`, with its length.
    pub fn lookup(&self, lower: bool, text: &Vec<char>, p: usize) -> (r: Option<(Sym, usize)>)
        requires
            self.wf(),
            p <= text@.len(),
        ensures
            r is None <==> self.spec_lookup(lower, text@, p as int) is None,
            r is Some ==> r.unwrap().0 == self.spec_lookup(lower, text@, p as int).unwrap().0
                && r.unwrap().1 == self.spec_lookup(lower, text@, p as int).unwrap().1,
    {
        let n = self.len();
        let mut best: Option<(Sym, usize)> = None;
        let mut i: usize = 0;
        while i < n
            invariant
                i <= n,
                n == self.entries().len(),
                p <= text@.len(),
                best is None <==> best_match(self.entries(), lower, text@, p as int, i as int) is None,
                best is Some ==> best.unwrap().0 == best_match(self.entries(), lower, text@, p as int, i as int).unwrap().0
                    && best.unwrap().1 == best_match(self.entries(), lower, text@, p as int, i as int).unwrap().1,
            decreases n - i,
        {
            let (sym, name) = self.entry(i);
            let styled = styled_name(name, lower);
            if styled.len() > 0 && name_matches(&styled, text, p) {
                let longer = match best {
                    None => true,
                    Some((_, l)) => styled.len() > l,
                };
                if longer {
                    best = Some((sym, styled.len()));
                }
            }
            i = i + 1;
        }
        best
    }
}


/// True for ASCII letters and digits.
pub open spec fn is_alnum(c: char) -> bool {
    is_upper(c) || is_lower(c) || ('0' <= c <= '9')
}

/// The shape every builtin name has, in both styles: at least two characters,
/// letters, digits and spaces only, a letter second, no prefix of `Mouse` or
/// `Mode`, and a space only in a name that starts with `p`.
pub open spec fn plain_name(n: Seq<char>) -> bool {
    &&& n.len() >= 2
    &&& forall|k: int| 0 <= k < n.len() ==> is_alnum(#[trigger] n[k]) || n[k] == ' '
    &&& is_upper(n[1]) || is_lower(n[1])
    &&& !(n[0] == 'M' && n[1] == 'o' && (n.len() < 3 || n[2] == 'u' || n[2] == 'd'))
    &&& forall|k: int| 0 <= k < n.len() && #[trigger] n[k] == ' ' ==> n[0] == 'p'
}

/// A number that tells the builtin names apart: their length and their first,
/// second and last characters.
pub open spec fn name_key(n: Seq<char>) -> int {
    ((n.len() * 128 + (n[0] as u32) as int) * 128 + (n[1] as u32) as int) * 128 + (n[n.len() - 1] as u32) as int
}

/// The builtin symbol whose name, in the style `lower`, has the key `k`.
#[verifier::opaque]
pub open spec fn builtin_of_key(lower: bool, k: int) -> Sym {
    if lower {
        if k == 20492517 {
            Sym::BACKSPACE
        } else if k == 8204514 {
            Sym::TAB
        } else if k == 12154738 {
            Sym::ENTER
        } else if k == 14252517 {
            Sym::ESCAPE
        } else if k == 12384357 {
            Sym::SPACE
        } else if k == 7942892 {
            Sym::DEL
        } else if k == 6125680 {
            Sym::UP
        } else if k == 10041326 {
            Sym::DOWN
        } else if k == 10171124 {
            Sym::LEFT
        } else if k == 12367092 {
            Sym::RIGHT
        } else if k == 12104430 {
            Sym::BEGIN
        } else if k == 10073316 {
            Sym::FIND
        } else if k == 14317428 {
            Sym::INSERT
        } else if k == 14234341 {
            Sym::DELETE
        } else if k == 14480116 {
            Sym::SELECT
        } else if k == 16527600 {
            Sym::PAGEUP
        } else if k == 20721902 {
            Sym::PAGEDOWN
        } else if k == 10106853 {
            Sym::HOME
        } else if k == 7960420 {
            Sym::END
        } else if k == 14217452 {
            Sym::CANCEL
        } else if k == 12121714 {
            Sym::CLEAR
        } else if k == 12121701 {
            Sym::CLOSE
        } else if k == 16316388 {
            Sym::COMMAND
        } else if k == 10024953 {
            Sym::COPY
        } else if k == 10058868 {
            Sym::EXIT
        } else if k == 10105584 {
            Sym::HELP
        } else if k == 10186987 {
            Sym::MARK
        } else if k == 16478949 {
            Sym::MESSAGE
        } else if k == 10188773 {
            Sym::MOVE
        } else if k == 10221678 {
            Sym::OPEN
        } else if k == 16513139 {
            Sym::OPTIONS
        } else if k == 12335476 {
            Sym::PRINT
        } else if k == 10269423 {
            Sym::REDO
        } else if k == 20755173 {
            Sym::REFERENCE
        } else if k == 16560872 {
            Sym::REFRESH
        } else if k == 16560869 {
            Sym::REPLACE
        } else if k == 16560884 {
            Sym::RESTART
        } else if k == 14463717 {
            Sym::RESUME
        } else if k == 10285285 {
            Sym::SAVE
        } else if k == 16579300 {
            Sym::SUSPEND
        } else if k == 10319727 {
            Sym::UNDO
        } else if k == 8058928 {
            Sym::KP0
        } else if k == 8058929 {
            Sym::KP1
        } else if k == 8058930 {
            Sym::KP2
        } else if k == 8058931 {
            Sym::KP3
        } else if k == 8058932 {
            Sym::KP4
        } else if k == 8058933 {
            Sym::KP5
        } else if k == 8058934 {
            Sym::KP6
        } else if k == 8058935 {
            Sym::KP7
        } else if k == 8058936 {
            Sym::KP8
        } else if k == 8058937 {
            Sym::KP9
        } else if k == 16447602 {
            Sym::KPENTER
        } else if k == 14350451 {
            Sym::KPPLUS
        } else if k == 16447603 {
            Sym::KPMINUS
        } else if k == 14350452 {
            Sym::KPMULT
        } else if k == 12253302 {
            Sym::KPDIV
        } else if k == 16447585 {
            Sym::KPCOMMA
        } else if k == 18544740 {
            Sym::KPPERIOD
        } else if k == 18544755 {
            Sym::KPEQUALS
        } else {
            Sym::UNKNOWN
        }
    } else {
        if k == 19968229 {
            Sym::BACKSPACE
        } else if k == 7680226 {
            Sym::TAB
        } else if k == 11630450 {
            Sym::ENTER
        } else if k == 13728229 {
            Sym::ESCAPE
        } else if k == 11860069 {
            Sym::SPACE
        } else if k == 7414476 {
            Sym::DEL
        } else if k == 5601392 {
            Sym::UP
        } else if k == 9517038 {
            Sym::DOWN
        } else if k == 9646836 {
            Sym::LEFT
        } else if k == 11842804 {
            Sym::RIGHT
        } else if k == 11580142 {
            Sym::BEGIN
        } else if k == 9549028 {
            Sym::FIND
        } else if k == 13793140 {
            Sym::INSERT
        } else if k == 13710053 {
            Sym::DELETE
        } else if k == 13955828 {
            Sym::SELECT
        } else if k == 13906160 {
            Sym::PAGEUP
        } else if k == 18100462 {
            Sym::PAGEDOWN
        } else if k == 9582565 {
            Sym::HOME
        } else if k == 7436132 {
            Sym::END
        } else if k == 13693164 {
            Sym::CANCEL
        } else if k == 11597426 {
            Sym::CLEAR
        } else if k == 11597413 {
            Sym::CLOSE
        } else if k == 15792100 {
            Sym::COMMAND
        } else if k == 9500665 {
            Sym::COPY
        } else if k == 9534580 {
            Sym::EXIT
        } else if k == 9581296 {
            Sym::HELP
        } else if k == 9662699 {
            Sym::MARK
        } else if k == 15954661 {
            Sym::MESSAGE
        } else if k == 9664485 {
            Sym::MOVE
        } else if k == 9697390 {
            Sym::OPEN
        } else if k == 15988851 {
            Sym::OPTIONS
        } else if k == 11811188 {
            Sym::PRINT
        } else if k == 9745135 {
            Sym::REDO
        } else if k == 20230885 {
            Sym::REFERENCE
        } else if k == 16036584 {
            Sym::REFRESH
        } else if k == 16036581 {
            Sym::REPLACE
        } else if k == 16036596 {
            Sym::RESTART
        } else if k == 13939429 {
            Sym::RESUME
        } else if k == 9760997 {
            Sym::SAVE
        } else if k == 16055012 {
            Sym::SUSPEND
        } else if k == 9795439 {
            Sym::UNDO
        } else if k == 7530544 {
            Sym::KP0
        } else if k == 7530545 {
            Sym::KP1
        } else if k == 7530546 {
            Sym::KP2
        } else if k == 7530547 {
            Sym::KP3
        } else if k == 7530548 {
            Sym::KP4
        } else if k == 7530549 {
            Sym::KP5
        } else if k == 7530550 {
            Sym::KP6
        } else if k == 7530551 {
            Sym::KP7
        } else if k == 7530552 {
            Sym::KP8
        } else if k == 7530553 {
            Sym::KP9
        } else if k == 15919218 {
            Sym::KPENTER
        } else if k == 13822067 {
            Sym::KPPLUS
        } else if k == 15919219 {
            Sym::KPMINUS
        } else if k == 13822068 {
            Sym::KPMULT
        } else if k == 11724918 {
            Sym::KPDIV
        } else if k == 15919201 {
            Sym::KPCOMMA
        } else if k == 18016356 {
            Sym::KPPERIOD
        } else if k == 18016371 {
            Sym::KPEQUALS
        } else {
            Sym::UNKNOWN
        }
    }
}

/// What holds of the name of a builtin symbol: it has the shape of
/// `plain_name` in both styles, and its key leads back to the symbol.
pub open spec fn name_facts(s: Sym) -> bool {
    &&& builtin_name(s) is Some
    &&& plain_name(styled(builtin_name(s).unwrap(), false))
    &&& plain_name(styled(builtin_name(s).unwrap(), true))
    &&& builtin_of_key(false, name_key(styled(builtin_name(s).unwrap(), false))) == s
    &&& builtin_of_key(true, name_key(styled(builtin_name(s).unwrap(), true))) == s
}

/// The facts of `name_facts` for every builtin name.
pub proof fn lemma_builtin_name(s: Sym)
    requires
        builtin_name(s) is Some,
    ensures
        name_facts(s),
{
    match s {
        Sym::BACKSPACE => lemma_name_backspace(),
        Sym::TAB => lemma_name_tab(),
        Sym::ENTER => lemma_name_enter(),
        Sym::ESCAPE => lemma_name_escape(),
        Sym::SPACE => lemma_name_space(),
        Sym::DEL => lemma_name_del(),
        Sym::UP => lemma_name_up(),
        Sym::DOWN => lemma_name_down(),
        Sym::LEFT => lemma_name_left(),
        Sym::RIGHT => lemma_name_right(),
        Sym::BEGIN => lemma_name_begin(),
        Sym::FIND => lemma_name_find(),
        Sym::INSERT => lemma_name_insert(),
        Sym::DELETE => lemma_name_delete(),
        Sym::SELECT => lemma_name_select(),
        Sym::PAGEUP => lemma_name_pageup(),
        Sym::PAGEDOWN => lemma_name_pagedown(),
        Sym::HOME => lemma_name_home(),
        Sym::END => lemma_name_end(),
        Sym::CANCEL => lemma_name_cancel(),
        Sym::CLEAR => lemma_name_clear(),
        Sym::CLOSE => lemma_name_close(),
        Sym::COMMAND => lemma_name_command(),
        Sym::COPY => lemma_name_copy(),
        Sym::EXIT => lemma_name_exit(),
        Sym::HELP => lemma_name_help(),
        Sym::MARK => lemma_name_mark(),
        Sym::MESSAGE => lemma_name_message(),
        Sym::MOVE => lemma_name_move(),
        Sym::OPEN => lemma_name_open(),
        Sym::OPTIONS => lemma_name_options(),
        Sym::PRINT => lemma_name_print(),
        Sym::REDO => lemma_name_redo(),
        Sym::REFERENCE => lemma_name_reference(),
        Sym::REFRESH => lemma_name_refresh(),
        Sym::REPLACE => lemma_name_replace(),
        Sym::RESTART => lemma_name_restart(),
        Sym::RESUME => lemma_name_resume(),
        Sym::SAVE => lemma_name_save(),
        Sym::SUSPEND => lemma_name_suspend(),
        Sym::UNDO => lemma_name_undo(),
        Sym::KP0 => lemma_name_kp0(),
        Sym::KP1 => lemma_name_kp1(),
        Sym::KP2 => lemma_name_kp2(),
        Sym::KP3 => lemma_name_kp3(),
        Sym::KP4 => lemma_name_kp4(),
        Sym::KP5 => lemma_name_kp5(),
        Sym::KP6 => lemma_name_kp6(),
        Sym::KP7 => lemma_name_kp7(),
        Sym::KP8 => lemma_name_kp8(),
        Sym::KP9 => lemma_name_kp9(),
        Sym::KPENTER => lemma_name_kpenter(),
        Sym::KPPLUS => lemma_name_kpplus(),
        Sym::KPMINUS => lemma_name_kpminus(),
        Sym::KPMULT => lemma_name_kpmult(),
        Sym::KPDIV => lemma_name_kpdiv(),
        Sym::KPCOMMA => lemma_name_kpcomma(),
        Sym::KPPERIOD => lemma_name_kpperiod(),
        Sym::KPEQUALS => lemma_name_kpequals(),
        _ => {},
    }
}

#[verifier::spinoff_prover]
proof fn lemma_name_backspace()
    ensures
        name_facts(Sym::BACKSPACE),
{
    reveal_with_fuel(spaced, 10);
    reveal(builtin_of_key);
    reveal_strlit("Backspace");
    assert("Backspace"@ =~= seq!['B', 'a', 'c', 'k', 's', 'p', 'a', 'c', 'e']);
    assert(spaced("Backspace"@, 9) =~= seq!['b', 'a', 'c', 'k', 's', 'p', 'a', 'c', 'e']);
}

#[verifier::spinoff_prover]
proof fn lemma_name_tab()
    ensures
        name_facts(Sym::TAB),
{
    reveal_with_fuel(spaced, 4);
    reveal(builtin_of_key);
    reveal_strlit("Tab");
    assert("Tab"@ =~= seq!['T', 'a', 'b']);
    assert(spaced("Tab"@, 3) =~= seq!['t', 'a', 'b']);
}

#[verifier::spinoff_prover]
proof fn lemma_name_enter()
    ensures
        name_facts(Sym::ENTER),
{
    reveal_with_fuel(spaced, 6);
    reveal(builtin_of_key);
    reveal_strlit("Enter");
    assert("Enter"@ =~= seq!['E', 'n', 't', 'e', 'r']);
    assert(spaced("Enter"@, 5) =~= seq!['e', 'n', 't', 'e', 'r']);
}

#[verifier::spinoff_prover]
proof fn lemma_name_escape()
    ensures
        name_facts(Sym::ESCAPE),
{
    reveal_with_fuel(spaced, 7);
    reveal(builtin_of_key);
    reveal_strlit("Escape");
    assert("Escape"@ =~= seq!['E', 's', 'c', 'a', 'p', 'e']);
    assert(spaced("Escape"@, 6) =~= seq!['e', 's', 'c', 'a', 'p', 'e']);
}

#[verifier::spinoff_prover]
proof fn lemma_name_space()
    ensures
        name_facts(Sym::SPACE),
{
    reveal_with_fuel(spaced, 6);
    reveal(builtin_of_key);
    reveal_strlit("Space");
    assert("Space"@ =~= seq!['S', 'p', 'a', 'c', 'e']);
    assert(spaced("Space"@, 5) =~= seq!['s', 'p', 'a', 'c', 'e']);
}

#[verifier::spinoff_prover]
proof fn lemma_name_del()
    ensures
        name_facts(Sym::DEL),
{
    reveal_with_fuel(spaced, 4);
    reveal(builtin_of_key);
    reveal_strlit("DEL");
    assert("DEL"@ =~= seq!['D', 'E', 'L']);
    assert(spaced("DEL"@, 3) =~= seq!['d', 'e', 'l']);
}

#[verifier::spinoff_prover]
proof fn lemma_name_up()
    ensures
        name_facts(Sym::UP),
{
    reveal_with_fuel(spaced, 3);
    reveal(builtin_of_key);
    reveal_strlit("Up");
    assert("Up"@ =~= seq!['U', 'p']);
    assert(spaced("Up"@, 2) =~= seq!['u', 'p']);
}

#[verifier::spinoff_prover]
proof fn lemma_name_down()
    ensures
        name_facts(Sym::DOWN),
{
    reveal_with_fuel(spaced, 5);
    reveal(builtin_of_key);
    reveal_strlit("Down");
    assert("Down"@ =~= seq!['D', 'o', 'w', 'n']);
    assert(spaced("Down"@, 4) =~= seq!['d', 'o', 'w', 'n']);
}

#[verifier::spinoff_prover]
proof fn lemma_name_left()
    ensures
        name_facts(Sym::LEFT),
{
    reveal_with_fuel(spaced, 5);
    reveal(builtin_of_key);
    reveal_strlit("Left");
    assert("Left"@ =~= seq!['L', 'e', 'f', 't']);
    assert(spaced("Left"@, 4) =~= seq!['l', 'e', 'f', 't']);
}

#[verifier::spinoff_prover]
proof fn lemma_name_right()
    ensures
        name_facts(Sym::RIGHT),
{
    reveal_with_fuel(spaced, 6);
    reveal(builtin_of_key);
    reveal_strlit("Right");
    assert("Right"@ =~= seq!['R', 'i', 'g', 'h', 't']);
    assert(spaced("Right"@, 5) =~= seq!['r', 'i', 'g', 'h', 't']);
}

#[verifier::spinoff_prover]
proof fn lemma_name_begin()
    ensures
        name_facts(Sym::BEGIN),
{
    reveal_with_fuel(spaced, 6);
    reveal(builtin_of_key);
    reveal_strlit("Begin");
    assert("Begin"@ =~= seq!['B', 'e', 'g', 'i', 'n']);
    assert(spaced("Begin"@, 5) =~= seq!['b', 'e', 'g', 'i', 'n']);
}

#[verifier::spinoff_prover]
proof fn lemma_name_find()
    ensures
        name_facts(Sym::FIND),
{
    reveal_with_fuel(spaced, 5);
    reveal(builtin_of_key);
    reveal_strlit("Find");
    assert("Find"@ =~= seq!['F', 'i', 'n', 'd']);
    assert(spaced("Find"@, 4) =~= seq!['f', 'i', 'n', 'd']);
}

#[verifier::spinoff_prover]
proof fn lemma_name_insert()
    ensures
        name_facts(Sym::INSERT),
{
    reveal_with_fuel(spaced, 7);
    reveal(builtin_of_key);
    reveal_strlit("Insert");
    assert("Insert"@ =~= seq!['I', 'n', 's', 'e', 'r', 't']);
    assert(spaced("Insert"@, 6) =~= seq!['i', 'n', 's', 'e', 'r', 't']);
}

#[verifier::spinoff_prover]
proof fn lemma_name_delete()
    ensures
        name_facts(Sym::DELETE),
{
    reveal_with_fuel(spaced, 7);
    reveal(builtin_of_key);
    reveal_strlit("Delete");
    assert("Delete"@ =~= seq!['D', 'e', 'l', 'e', 't', 'e']);
    assert(spaced("Delete"@, 6) =~= seq!['d', 'e', 'l', 'e', 't', 'e']);
}

#[verifier::spinoff_prover]
proof fn lemma_name_select()
    ensures
        name_facts(Sym::SELECT),
{
    reveal_with_fuel(spaced, 7);
    reveal(builtin_of_key);
    reveal_strlit("Select");
    assert("Select"@ =~= seq!['S', 'e', 'l', 'e', 'c', 't']);
    assert(spaced("Select"@, 6) =~= seq!['s', 'e', 'l', 'e', 'c', 't']);
}

#[verifier::spinoff_prover]
proof fn lemma_name_pageup()
    ensures
        name_facts(Sym::PAGEUP),
{
    reveal_with_fuel(spaced, 7);
    reveal(builtin_of_key);
    reveal_strlit("PageUp");
    assert("PageUp"@ =~= seq!['P', 'a', 'g', 'e', 'U', 'p']);
    assert(spaced("PageUp"@, 6) =~= seq!['p', 'a', 'g', 'e', ' ', 'u', 'p']);
}

#[verifier::spinoff_prover]
proof fn lemma_name_pagedown()
    ensures
        name_facts(Sym::PAGEDOWN),
{
    reveal_with_fuel(spaced, 9);
    reveal(builtin_of_key);
    reveal_strlit("PageDown");
    assert("PageDown"@ =~= seq!['P', 'a', 'g', 'e', 'D', 'o', 'w', 'n']);
    assert(spaced("PageDown"@, 8) =~= seq!['p', 'a', 'g', 'e', ' ', 'd', 'o', 'w', 'n']);
}

#[verifier::spinoff_prover]
proof fn lemma_name_home()
    ensures
        name_facts(Sym::HOME),
{
    reveal_with_fuel(spaced, 5);
    reveal(builtin_of_key);
    reveal_strlit("Home");
    assert("Home"@ =~= seq!['H', 'o', 'm', 'e']);
    assert(spaced("Home"@, 4) =~= seq!['h', 'o', 'm', 'e']);
}

#[verifier::spinoff_prover]
proof fn lemma_name_end()
    ensures
        name_facts(Sym::END),
{
    reveal_with_fuel(spaced, 4);
    reveal(builtin_of_key);
    reveal_strlit("End");
    assert("End"@ =~= seq!['E', 'n', 'd']);
    assert(spaced("End"@, 3) =~= seq!['e', 'n', 'd']);
}

#[verifier::spinoff_prover]
proof fn lemma_name_cancel()
    ensures
        name_facts(Sym::CANCEL),
{
    reveal_with_fuel(spaced, 7);
    reveal(builtin_of_key);
    reveal_strlit("Cancel");
    assert("Cancel"@ =~= seq!['C', 'a', 'n', 'c', 'e', 'l']);
    assert(spaced("Cancel"@, 6) =~= seq!['c', 'a', 'n', 'c', 'e', 'l']);
}

#[verifier::spinoff_prover]
proof fn lemma_name_clear()
    ensures
        name_facts(Sym::CLEAR),
{
    reveal_with_fuel(spaced, 6);
    reveal(builtin_of_key);
    reveal_strlit("Clear");
    assert("Clear"@ =~= seq!['C', 'l', 'e', 'a', 'r']);
    assert(spaced("Clear"@, 5) =~= seq!['c', 'l', 'e', 'a', 'r']);
}

#[verifier::spinoff_prover]
proof fn lemma_name_close()
    ensures
        name_facts(Sym::CLOSE),
{
    reveal_with_fuel(spaced, 6);
    reveal(builtin_of_key);
    reveal_strlit("Close");
    assert("Close"@ =~= seq!['C', 'l', 'o', 's', 'e']);
    assert(spaced("Close"@, 5) =~= seq!['c', 'l', 'o', 's', 'e']);
}

#[verifier::spinoff_prover]
proof fn lemma_name_command()
    ensures
        name_facts(Sym::COMMAND),
{
    reveal_with_fuel(spaced, 8);
    reveal(builtin_of_key);
    reveal_strlit("Command");
    assert("Command"@ =~= seq!['C', 'o', 'm', 'm', 'a', 'n', 'd']);
    assert(spaced("Command"@, 7) =~= seq!['c', 'o', 'm', 'm', 'a', 'n', 'd']);
}

#[verifier::spinoff_prover]
proof fn lemma_name_copy()
    ensures
        name_facts(Sym::COPY),
{
    reveal_with_fuel(spaced, 5);
    reveal(builtin_of_key);
    reveal_strlit("Copy");
    assert("Copy"@ =~= seq!['C', 'o', 'p', 'y']);
    assert(spaced("Copy"@, 4) =~= seq!['c', 'o', 'p', 'y']);
}

#[verifier::spinoff_prover]
proof fn lemma_name_exit()
    ensures
        name_facts(Sym::EXIT),
{
    reveal_with_fuel(spaced, 5);
    reveal(builtin_of_key);
    reveal_strlit("Exit");
    assert("Exit"@ =~= seq!['E', 'x', 'i', 't']);
    assert(spaced("Exit"@, 4) =~= seq!['e', 'x', 'i', 't']);
}

#[verifier::spinoff_prover]
proof fn lemma_name_help()
    ensures
        name_facts(Sym::HELP),
{
    reveal_with_fuel(spaced, 5);
    reveal(builtin_of_key);
    reveal_strlit("Help");
    assert("Help"@ =~= seq!['H', 'e', 'l', 'p']);
    assert(spaced("Help"@, 4) =~= seq!['h', 'e', 'l', 'p']);
}

#[verifier::spinoff_prover]
proof fn lemma_name_mark()
    ensures
        name_facts(Sym::MARK),
{
    reveal_with_fuel(spaced, 5);
    reveal(builtin_of_key);
    reveal_strlit("Mark");
    assert("Mark"@ =~= seq!['M', 'a', 'r', 'k']);
    assert(spaced("Mark"@, 4) =~= seq!['m', 'a', 'r', 'k']);
}

#[verifier::spinoff_prover]
proof fn lemma_name_message()
    ensures
        name_facts(Sym::MESSAGE),
{
    reveal_with_fuel(spaced, 8);
    reveal(builtin_of_key);
    reveal_strlit("Message");
    assert("Message"@ =~= seq!['M', 'e', 's', 's', 'a', 'g', 'e']);
    assert(spaced("Message"@, 7) =~= seq!['m', 'e', 's', 's', 'a', 'g', 'e']);
}

#[verifier::spinoff_prover]
proof fn lemma_name_move()
    ensures
        name_facts(Sym::MOVE),
{
    reveal_with_fuel(spaced, 5);
    reveal(builtin_of_key);
    reveal_strlit("Move");
    assert("Move"@ =~= seq!['M', 'o', 'v', 'e']);
    assert(spaced("Move"@, 4) =~= seq!['m', 'o', 'v', 'e']);
}

#[verifier::spinoff_prover]
proof fn lemma_name_open()
    ensures
        name_facts(Sym::OPEN),
{
    reveal_with_fuel(spaced, 5);
    reveal(builtin_of_key);
    reveal_strlit("Open");
    assert("Open"@ =~= seq!['O', 'p', 'e', 'n']);
    assert(spaced("Open"@, 4) =~= seq!['o', 'p', 'e', 'n']);
}

#[verifier::spinoff_prover]
proof fn lemma_name_options()
    ensures
        name_facts(Sym::OPTIONS),
{
    reveal_with_fuel(spaced, 8);
    reveal(builtin_of_key);
    reveal_strlit("Options");
    assert("Options"@ =~= seq!['O', 'p', 't', 'i', 'o', 'n', 's']);
    assert(spaced("Options"@, 7) =~= seq!['o', 'p', 't', 'i', 'o', 'n', 's']);
}

#[verifier::spinoff_prover]
proof fn lemma_name_print()
    ensures
        name_facts(Sym::PRINT),
{
    reveal_with_fuel(spaced, 6);
    reveal(builtin_of_key);
    reveal_strlit("Print");
    assert("Print"@ =~= seq!['P', 'r', 'i', 'n', 't']);
    assert(spaced("Print"@, 5) =~= seq!['p', 'r', 'i', 'n', 't']);
}

#[verifier::spinoff_prover]
proof fn lemma_name_redo()
    ensures
        name_facts(Sym::REDO),
{
    reveal_with_fuel(spaced, 5);
    reveal(builtin_of_key);
    reveal_strlit("Redo");
    assert("Redo"@ =~= seq!['R', 'e', 'd', 'o']);
    assert(spaced("Redo"@, 4) =~= seq!['r', 'e', 'd', 'o']);
}

#[verifier::spinoff_prover]
proof fn lemma_name_reference()
    ensures
        name_facts(Sym::REFERENCE),
{
    reveal_with_fuel(spaced, 10);
    reveal(builtin_of_key);
    reveal_strlit("Reference");
    assert("Reference"@ =~= seq!['R', 'e', 'f', 'e', 'r', 'e', 'n', 'c', 'e']);
    assert(spaced("Reference"@, 9) =~= seq!['r', 'e', 'f', 'e', 'r', 'e', 'n', 'c', 'e']);
}

#[verifier::spinoff_prover]
proof fn lemma_name_refresh()
    ensures
        name_facts(Sym::REFRESH),
{
    reveal_with_fuel(spaced, 8);
    reveal(builtin_of_key);
    reveal_strlit("Refresh");
    assert("Refresh"@ =~= seq!['R', 'e', 'f', 'r', 'e', 's', 'h']);
    assert(spaced("Refresh"@, 7) =~= seq!['r', 'e', 'f', 'r', 'e', 's', 'h']);
}

#[verifier::spinoff_prover]
proof fn lemma_name_replace()
    ensures
        name_facts(Sym::REPLACE),
{
    reveal_with_fuel(spaced, 8);
    reveal(builtin_of_key);
    reveal_strlit("Replace");
    assert("Replace"@ =~= seq!['R', 'e', 'p', 'l', 'a', 'c', 'e']);
    assert(spaced("Replace"@, 7) =~= seq!['r', 'e', 'p', 'l', 'a', 'c', 'e']);
}

#[verifier::spinoff_prover]
proof fn lemma_name_restart()
    ensures
        name_facts(Sym::RESTART),
{
    reveal_with_fuel(spaced, 8);
    reveal(builtin_of_key);
    reveal_strlit("Restart");
    assert("Restart"@ =~= seq!['R', 'e', 's', 't', 'a', 'r', 't']);
    assert(spaced("Restart"@, 7) =~= seq!['r', 'e', 's', 't', 'a', 'r', 't']);
}

#[verifier::spinoff_prover]
proof fn lemma_name_resume()
    ensures
        name_facts(Sym::RESUME),
{
    reveal_with_fuel(spaced, 7);
    reveal(builtin_of_key);
    reveal_strlit("Resume");
    assert("Resume"@ =~= seq!['R', 'e', 's', 'u', 'm', 'e']);
    assert(spaced("Resume"@, 6) =~= seq!['r', 'e', 's', 'u', 'm', 'e']);
}

#[verifier::spinoff_prover]
proof fn lemma_name_save()
    ensures
        name_facts(Sym::SAVE),
{
    reveal_with_fuel(spaced, 5);
    reveal(builtin_of_key);
    reveal_strlit("Save");
    assert("Save"@ =~= seq!['S', 'a', 'v', 'e']);
    assert(spaced("Save"@, 4) =~= seq!['s', 'a', 'v', 'e']);
}

#[verifier::spinoff_prover]
proof fn lemma_name_suspend()
    ensures
        name_facts(Sym::SUSPEND),
{
    reveal_with_fuel(spaced, 8);
    reveal(builtin_of_key);
    reveal_strlit("Suspend");
    assert("Suspend"@ =~= seq!['S', 'u', 's', 'p', 'e', 'n', 'd']);
    assert(spaced("Suspend"@, 7) =~= seq!['s', 'u', 's', 'p', 'e', 'n', 'd']);
}

#[verifier::spinoff_prover]
proof fn lemma_name_undo()
    ensures
        name_facts(Sym::UNDO),
{
    reveal_with_fuel(spaced, 5);
    reveal(builtin_of_key);
    reveal_strlit("Undo");
    assert("Undo"@ =~= seq!['U', 'n', 'd', 'o']);
    assert(spaced("Undo"@, 4) =~= seq!['u', 'n', 'd', 'o']);
}

#[verifier::spinoff_prover]
proof fn lemma_name_kp0()
    ensures
        name_facts(Sym::KP0),
{
    reveal_with_fuel(spaced, 4);
    reveal(builtin_of_key);
    reveal_strlit("KP0");
    assert("KP0"@ =~= seq!['K', 'P', '0']);
    assert(spaced("KP0"@, 3) =~= seq!['k', 'p', '0']);
}

#[verifier::spinoff_prover]
proof fn lemma_name_kp1()
    ensures
        name_facts(Sym::KP1),
{
    reveal_with_fuel(spaced, 4);
    reveal(builtin_of_key);
    reveal_strlit("KP1");
    assert("KP1"@ =~= seq!['K', 'P', '1']);
    assert(spaced("KP1"@, 3) =~= seq!['k', 'p', '1']);
}

#[verifier::spinoff_prover]
proof fn lemma_name_kp2()
    ensures
        name_facts(Sym::KP2),
{
    reveal_with_fuel(spaced, 4);
    reveal(builtin_of_key);
    reveal_strlit("KP2");
    assert("KP2"@ =~= seq!['K', 'P', '2']);
    assert(spaced("KP2"@, 3) =~= seq!['k', 'p', '2']);
}

#[verifier::spinoff_prover]
proof fn lemma_name_kp3()
    ensures
        name_facts(Sym::KP3),
{
    reveal_with_fuel(spaced, 4);
    reveal(builtin_of_key);
    reveal_strlit("KP3");
    assert("KP3"@ =~= seq!['K', 'P', '3']);
    assert(spaced("KP3"@, 3) =~= seq!['k', 'p', '3']);
}

#[verifier::spinoff_prover]
proof fn lemma_name_kp4()
    ensures
        name_facts(Sym::KP4),
{
    reveal_with_fuel(spaced, 4);
    reveal(builtin_of_key);
    reveal_strlit("KP4");
    assert("KP4"@ =~= seq!['K', 'P', '4']);
    assert(spaced("KP4"@, 3) =~= seq!['k', 'p', '4']);
}

#[verifier::spinoff_prover]
proof fn lemma_name_kp5()
    ensures
        name_facts(Sym::KP5),
{
    reveal_with_fuel(spaced, 4);
    reveal(builtin_of_key);
    reveal_strlit("KP5");
    assert("KP5"@ =~= seq!['K', 'P', '5']);
    assert(spaced("KP5"@, 3) =~= seq!['k', 'p', '5']);
}

#[verifier::spinoff_prover]
proof fn lemma_name_kp6()
    ensures
        name_facts(Sym::KP6),
{
    reveal_with_fuel(spaced, 4);
    reveal(builtin_of_key);
    reveal_strlit("KP6");
    assert("KP6"@ =~= seq!['K', 'P', '6']);
    assert(spaced("KP6"@, 3) =~= seq!['k', 'p', '6']);
}

#[verifier::spinoff_prover]
proof fn lemma_name_kp7()
    ensures
        name_facts(Sym::KP7),
{
    reveal_with_fuel(spaced, 4);
    reveal(builtin_of_key);
    reveal_strlit("KP7");
    assert("KP7"@ =~= seq!['K', 'P', '7']);
    assert(spaced("KP7"@, 3) =~= seq!['k', 'p', '7']);
}

#[verifier::spinoff_prover]
proof fn lemma_name_kp8()
    ensures
        name_facts(Sym::KP8),
{
    reveal_with_fuel(spaced, 4);
    reveal(builtin_of_key);
    reveal_strlit("KP8");
    assert("KP8"@ =~= seq!['K', 'P', '8']);
    assert(spaced("KP8"@, 3) =~= seq!['k', 'p', '8']);
}

#[verifier::spinoff_prover]
proof fn lemma_name_kp9()
    ensures
        name_facts(Sym::KP9),
{
    reveal_with_fuel(spaced, 4);
    reveal(builtin_of_key);
    reveal_strlit("KP9");
    assert("KP9"@ =~= seq!['K', 'P', '9']);
    assert(spaced("KP9"@, 3) =~= seq!['k', 'p', '9']);
}

#[verifier::spinoff_prover]
proof fn lemma_name_kpenter()
    ensures
        name_facts(Sym::KPENTER),
{
    reveal_with_fuel(spaced, 8);
    reveal(builtin_of_key);
    reveal_strlit("KPEnter");
    assert("KPEnter"@ =~= seq!['K', 'P', 'E', 'n', 't', 'e', 'r']);
    assert(spaced("KPEnter"@, 7) =~= seq!['k', 'p', 'e', 'n', 't', 'e', 'r']);
}

#[verifier::spinoff_prover]
proof fn lemma_name_kpplus()
    ensures
        name_facts(Sym::KPPLUS),
{
    reveal_with_fuel(spaced, 7);
    reveal(builtin_of_key);
    reveal_strlit("KPPlus");
    assert("KPPlus"@ =~= seq!['K', 'P', 'P', 'l', 'u', 's']);
    assert(spaced("KPPlus"@, 6) =~= seq!['k', 'p', 'p', 'l', 'u', 's']);
}

#[verifier::spinoff_prover]
proof fn lemma_name_kpminus()
    ensures
        name_facts(Sym::KPMINUS),
{
    reveal_with_fuel(spaced, 8);
    reveal(builtin_of_key);
    reveal_strlit("KPMinus");
    assert("KPMinus"@ =~= seq!['K', 'P', 'M', 'i', 'n', 'u', 's']);
    assert(spaced("KPMinus"@, 7) =~= seq!['k', 'p', 'm', 'i', 'n', 'u', 's']);
}

#[verifier::spinoff_prover]
proof fn lemma_name_kpmult()
    ensures
        name_facts(Sym::KPMULT),
{
    reveal_with_fuel(spaced, 7);
    reveal(builtin_of_key);
    reveal_strlit("KPMult");
    assert("KPMult"@ =~= seq!['K', 'P', 'M', 'u', 'l', 't']);
    assert(spaced("KPMult"@, 6) =~= seq!['k', 'p', 'm', 'u', 'l', 't']);
}

#[verifier::spinoff_prover]
proof fn lemma_name_kpdiv()
    ensures
        name_facts(Sym::KPDIV),
{
    reveal_with_fuel(spaced, 6);
    reveal(builtin_of_key);
    reveal_strlit("KPDiv");
    assert("KPDiv"@ =~= seq!['K', 'P', 'D', 'i', 'v']);
    assert(spaced("KPDiv"@, 5) =~= seq!['k', 'p', 'd', 'i', 'v']);
}

#[verifier::spinoff_prover]
proof fn lemma_name_kpcomma()
    ensures
        name_facts(Sym::KPCOMMA),
{
    reveal_with_fuel(spaced, 8);
    reveal(builtin_of_key);
    reveal_strlit("KPComma");
    assert("KPComma"@ =~= seq!['K', 'P', 'C', 'o', 'm', 'm', 'a']);
    assert(spaced("KPComma"@, 7) =~= seq!['k', 'p', 'c', 'o', 'm', 'm', 'a']);
}

#[verifier::spinoff_prover]
proof fn lemma_name_kpperiod()
    ensures
        name_facts(Sym::KPPERIOD),
{
    reveal_with_fuel(spaced, 9);
    reveal(builtin_of_key);
    reveal_strlit("KPPeriod");
    assert("KPPeriod"@ =~= seq!['K', 'P', 'P', 'e', 'r', 'i', 'o', 'd']);
    assert(spaced("KPPeriod"@, 8) =~= seq!['k', 'p', 'p', 'e', 'r', 'i', 'o', 'd']);
}

#[verifier::spinoff_prover]
proof fn lemma_name_kpequals()
    ensures
        name_facts(Sym::KPEQUALS),
{
    reveal_with_fuel(spaced, 9);
    reveal(builtin_of_key);
    reveal_strlit("KPEquals");
    assert("KPEquals"@ =~= seq!['K', 'P', 'E', 'q', 'u', 'a', 'l', 's']);
    assert(spaced("KPEquals"@, 8) =~= seq!['k', 'p', 'e', 'q', 'u', 'a', 'l', 's']);
}

} // verus!
