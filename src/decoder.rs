//! The incremental decoder: a byte buffer and the rules that turn its head
//! into keys, with the wait for ambiguous prefixes left to the caller.

use vstd::prelude::*;
use vstd::utf8::*;

use crate::csi::{
    find_final_byte, read_params, csi_event_of, make_mouse, ss3_key_of, codepoint_event_of,
    csi_event, find_final, initial_of, is_final_byte, mouse_event, no_mods, params_of, ss3_key,
    codepoint_event,
};
use crate::event::{Canon, Event, KeyMod, canonical, canonicalize, unicode_event, make_unicode};
use crate::format::{Format, format_key, format_text};
use crate::keysym::{KeyNames, Sym, chars_of};
use crate::parse::{parse_chars, parse_text};
use vstd::string::*;

verus! {

/// Relies on `char::from_u32`: it gives the character of every Unicode scalar
/// value and no character for any other number.
pub assume_specification[ char::from_u32 ](i: u32) -> (r: Option<char>)
    ensures
        r is Some <==> is_scalar(i),
        r is Some ==> r.unwrap() as u32 == i && r.unwrap() == i as char,
;

/// How a decoder reads its input.
#[derive(Clone, Copy, Debug, PartialEq, Eq, Structural, PartialOrd, Ord, Hash)]
pub struct Flag {
    /// Do not name C0 codes and DEL.
    pub nointerpret: bool,
    /// Keypad keys read as the plain keys they carry.
    pub convertkp: bool,
    /// Input is raw bytes, one character each.
    pub raw: bool,
    /// Input is UTF-8 (the default, and stronger than `raw`).
    pub utf8: bool,
    /// The terminal's modes are left alone (read by the embedding program).
    pub notermios: bool,
    /// The space bar reads as the named key `SPACE`.
    pub spacesymbol: bool,
    /// Ctrl-C reads as a key (read by the embedding program).
    pub ctrlc: bool,
    /// A signal ends a wait with an error (read by the embedding program).
    pub eintr: bool,
}

impl Flag {
    /// No flag set.
    pub fn empty() -> (f: Flag)
        ensures
            !f.nointerpret && !f.convertkp && !f.raw && !f.utf8 && !f.notermios && !f.spacesymbol
                && !f.ctrlc && !f.eintr,
    {
        Flag {
            nointerpret: false,
            convertkp: false,
            raw: false,
            utf8: false,
            notermios: false,
            spacesymbol: false,
            ctrlc: false,
            eintr: false,
        }
    }
}

/// True when each byte of the input is a character of its own.
pub open spec fn raw_mode(f: Flag) -> bool {
    f.raw && !f.utf8
}

/// What the bytes at the head of the buffer amount to.
#[derive(Clone, Copy, Debug, PartialEq, Eq, Structural)]
pub enum Step {
    /// No byte is buffered.
    Empty,
    /// The bytes begin a sequence that more input may complete.
    Again,
    /// A key, and the number of bytes it takes.
    Key(Event, usize),
    /// Bytes that are not UTF-8, and how many to drop.
    Invalid(usize),
}

/// The Alt form of `'['` or `'O'`: an escape sequence introducer that no
/// sequence followed.
pub open spec fn alt_char(c: char) -> Event {
    unicode_event(c, KeyMod { ctrl: false, alt: true, shift: false })
}

/// A control sequence `ESC [ ...` starting at `s`.
pub open spec fn csi_step(b: Seq<u8>, s: int, force: bool) -> Step {
    let p = s + 2;
    let j = find_final(b, p);
    if j >= b.len() {
        if force {
            Step::Key(alt_char('['), 2)
        } else {
            Step::Again
        }
    } else if j == p && b[j] == 0x4d {
        if b.len() < j + 4 {
            if force {
                Step::Key(Event::UnknownCsi, 3)
            } else {
                Step::Again
            }
        } else if b[j + 1] >= 0x20 && b[j + 2] >= 0x20 && b[j + 3] >= 0x20 {
            Step::Key(
                mouse_event((b[j + 1] - 0x20) as i64, (b[j + 3] - 0x20) as i64, (b[j + 2] - 0x20) as i64, false),
                6,
            )
        } else {
            Step::Key(Event::UnknownCsi, 6)
        }
    } else {
        let ps = params_of(b, p, j);
        let n = (j + 1 - s) as usize;
        if !ps.ok {
            Step::Key(Event::UnknownCsi, n)
        } else {
            match csi_event(b[j], initial_of(b, p, j), ps.inter, ps.args) {
                Some(e) => Step::Key(e, n),
                None => Step::Key(Event::UnknownCsi, n),
            }
        }
    }
}

/// A sequence `ESC O x` starting at `s`.
pub open spec fn ss3_step(b: Seq<u8>, s: int, force: bool, convertkp: bool) -> Step {
    if b.len() < s + 3 {
        if force {
            Step::Key(alt_char('O'), 2)
        } else {
            Step::Again
        }
    } else {
        match ss3_key(b[s + 2], convertkp) {
            Some(e) => Step::Key(e, 3),
            None => Step::Key(Event::UnknownCsi, 3),
        }
    }
}

/// The length of the UTF-8 sequence that a leading byte opens; 0 for a byte
/// that opens none.
pub open spec fn utf8_width(c: u8) -> int {
    if is_leading_byte_width_2(c) {
        2
    } else if is_leading_byte_width_3(c) {
        3
    } else if is_leading_byte_width_4(c) {
        4
    } else {
        0
    }
}

/// True when a byte that should continue the sequence of width `w` at `s`
/// is present and is no continuation byte.
pub open spec fn bad_continuation(b: Seq<u8>, s: int, w: int) -> bool {
    ||| (w >= 2 && s + 1 < b.len() && !is_continuation_byte(b[s + 1]))
    ||| (w >= 3 && s + 2 < b.len() && !is_continuation_byte(b[s + 2]))
    ||| (w >= 4 && s + 3 < b.len() && !is_continuation_byte(b[s + 3]))
}

/// A multi-byte UTF-8 sequence starting at `s`.
pub open spec fn utf8_step(b: Seq<u8>, s: int, force: bool, nointerpret: bool) -> Step {
    let w = utf8_width(b[s]);
    if w == 0 || bad_continuation(b, s, w) {
        Step::Invalid(1)
    } else if b.len() - s < w {
        if force {
            Step::Invalid(1)
        } else {
            Step::Again
        }
    } else {
        let bytes = b.subrange(s, s + w);
        if valid_first_scalar(bytes) {
            Step::Key(codepoint_event(decode_first_scalar(bytes), nointerpret), w as usize)
        } else {
            Step::Invalid(1)
        }
    }
}

/// What the bytes of `b` from `s` on amount to under the flags `f`. An escape
/// byte alone is ambiguous until `force`; an escape byte before another key
/// is that key with Alt.
pub open spec fn peek(b: Seq<u8>, s: int, f: Flag, force: bool) -> Step
    decreases b.len() - s,
{
    if s >= b.len() {
        Step::Empty
    } else if b[s] == 0x1b {
        if s + 1 == b.len() {
            if force {
                Step::Key(Event::KeySym { sym: Sym::ESCAPE, mods: no_mods() }, 1)
            } else {
                Step::Again
            }
        } else if b[s + 1] == 0x5b {
            csi_step(b, s, force)
        } else if b[s + 1] == 0x4f {
            ss3_step(b, s, force, f.convertkp)
        } else {
            match peek(b, s + 1, f, force) {
                Step::Key(e, n) => Step::Key(e.spec_with_alt(), (n + 1) as usize),
                Step::Invalid(n) => Step::Invalid((n + 1) as usize),
                r => r,
            }
        }
    } else if b[s] < 0x80 || raw_mode(f) {
        Step::Key(codepoint_event(b[s] as u32, f.nointerpret), 1)
    } else {
        utf8_step(b, s, force, f.nointerpret)
    }
}

/// A step that takes bytes takes between one and all of those from `s` on.
pub open spec fn step_in_bounds(r: Step, avail: int) -> bool {
    match r {
        Step::Key(_, n) => 1 <= n <= avail,
        Step::Invalid(n) => 1 <= n <= avail,
        _ => true,
    }
}

/// Every step takes at least one byte and no more than are buffered; with
/// `force` a non-empty buffer always gives a key or an invalid byte.
pub proof fn lemma_peek_progress(b: Seq<u8>, s: int, f: Flag, force: bool)
    requires
        0 <= s <= b.len() <= usize::MAX,
    ensures
        step_in_bounds(peek(b, s, f, force), b.len() - s),
        force && s < b.len() ==> (peek(b, s, f, force) is Key || peek(b, s, f, force) is Invalid),
        s < b.len() ==> !(peek(b, s, f, force) is Empty),
    decreases b.len() - s,
{
    if s < b.len() && b[s] == 0x1b && s + 1 < b.len() {
        if b[s + 1] == 0x5b {
            let j = find_final(b, s + 2);
            lemma_find_final_bounds(b, s + 2);
        } else if b[s + 1] == 0x4f {
        } else {
            lemma_peek_progress(b, s + 1, f, force);
        }
    }
}

/// `find_final` gives a position between its start and the end.
pub proof fn lemma_find_final_bounds(b: Seq<u8>, i: int)
    requires
        0 <= i <= b.len(),
    ensures
        i <= find_final(b, i) <= b.len(),
        find_final(b, i) < b.len() ==> is_final_byte(b[find_final(b, i)]),
    decreases b.len() - i,
{
    if i < b.len() && !is_final_byte(b[i]) {
        lemma_find_final_bounds(b, i + 1);
    }
}


/// Decodes a control sequence `ESC [ ...` at `s`.
fn csi_step_at(b: &Vec<u8>, s: usize, force: bool) -> (r: Step)
    requires
        s + 2 <= b@.len(),
    ensures
        r == csi_step(b@, s as int, force),
{
    let len = b.len();
    let p = s + 2;
    let j = find_final_byte(b, p);
    proof {
        lemma_find_final_bounds(b@, p as int);
    }
    if j >= b.len() {
        if force {
            Step::Key(make_unicode('[', KeyMod { ctrl: false, alt: true, shift: false }), 2)
        } else {
            Step::Again
        }
    } else if j == p && b[j] == 0x4d {
        if b.len() - j < 4 {
            if force {
                Step::Key(Event::UnknownCsi, 3)
            } else {
                Step::Again
            }
        } else if b[j + 1] >= 0x20 && b[j + 2] >= 0x20 && b[j + 3] >= 0x20 {
            Step::Key(
                make_mouse((b[j + 1] - 0x20) as i64, (b[j + 3] - 0x20) as i64, (b[j + 2] - 0x20) as i64, false),
                6,
            )
        } else {
            Step::Key(Event::UnknownCsi, 6)
        }
    } else {
        let ps = read_params(b, p, j);
        let n = j + 1 - s;
        if !ps.ok {
            Step::Key(Event::UnknownCsi, n)
        } else {
            match csi_event_of(b[j], ps.initial, ps.inter, &ps.args) {
                Some(e) => Step::Key(e, n),
                None => Step::Key(Event::UnknownCsi, n),
            }
        }
    }
}

/// Decodes a sequence `ESC O x` at `s`.
fn ss3_step_at(b: &Vec<u8>, s: usize, force: bool, convertkp: bool) -> (r: Step)
    requires
        s + 2 <= b@.len(),
    ensures
        r == ss3_step(b@, s as int, force, convertkp),
{
    if b.len() - s < 3 {
        if force {
            Step::Key(make_unicode('O', KeyMod { ctrl: false, alt: true, shift: false }), 2)
        } else {
            Step::Again
        }
    } else {
        match ss3_key_of(b[s + 2], convertkp) {
            Some(e) => Step::Key(e, 3),
            None => Step::Key(Event::UnknownCsi, 3),
        }
    }
}

/// Decodes a multi-byte UTF-8 sequence at `s`.
fn utf8_step_at(b: &Vec<u8>, s: usize, force: bool, nointerpret: bool) -> (r: Step)
    requires
        s < b@.len(),
    ensures
        r == utf8_step(b@, s as int, force, nointerpret),
{
    let c = b[s];
    let w: usize = if 0xc0 <= c && c <= 0xdf {
        2
    } else if 0xe0 <= c && c <= 0xef {
        3
    } else if 0xf0 <= c && c <= 0xf7 {
        4
    } else {
        0
    };
    if w == 0 {
        return Step::Invalid(1);
    }
    let len = b.len();
    let avail = len - s;
    let mut k: usize = 1;
    while k < w && k < avail
        invariant
            1 <= k <= w <= 4,
            avail == b@.len() - s,
            len == b@.len(),
            w as int == utf8_width(b@[s as int]),
            forall|i: int| 1 <= i < k ==> #[trigger] is_continuation_byte(b@[s + i]),
        decreases w - k,
    {
        if !(0x80 <= b[s + k] && b[s + k] <= 0xbf) {
            return Step::Invalid(1);
        }
        k = k + 1;
    }
    assert(!bad_continuation(b@, s as int, w as int)) by {
        if w >= 2 && s + 1 < b@.len() {
            assert(is_continuation_byte(b@[s + 1]));
        }
        if w >= 3 && s + 2 < b@.len() {
            assert(is_continuation_byte(b@[s + 2]));
        }
        if w >= 4 && s + 3 < b@.len() {
            assert(is_continuation_byte(b@[s + 3]));
        }
    }
    if avail < w {
        return if force {
            Step::Invalid(1)
        } else {
            Step::Again
        };
    }
    let ghost bytes = b@.subrange(s as int, s + w);
    let d1 = b[s + 1];
    let d2 = if w >= 3 {
        b[s + 2]
    } else {
        0
    };
    let d3 = if w >= 4 {
        b[s + 3]
    } else {
        0
    };
    let v: u32 = if w == 2 {
        let v2 = (((c & 0x1F) as u32) << 6) | ((d1 & 0x3f) as u32);
        assert(v2 <= 0x7ff) by (bit_vector)
            requires
                v2 == (((c & 0x1F) as u32) << 6) | ((d1 & 0x3f) as u32),
        ;
        v2
    } else if w == 3 {
        let v3 = (((c & 0x0F) as u32) << 12) | (((d1 & 0x3f) as u32) << 6) | ((d2 & 0x3f) as u32);
        assert(v3 <= 0xffff) by (bit_vector)
            requires
                v3 == (((c & 0x0F) as u32) << 12) | (((d1 & 0x3f) as u32) << 6) | ((d2 & 0x3f) as u32),
        ;
        v3
    } else {
        (((c & 0x07) as u32) << 18) | (((d1 & 0x3f) as u32) << 12) | (((d2 & 0x3f) as u32) << 6) | ((
        d3 & 0x3f) as u32)
    };
    assert(valid_leading_and_continuation_bytes_first_codepoint(bytes));
    assert(v == decode_first_codepoint(bytes));
    assert(w == length_of_first_codepoint(bytes));
    let not_overlong = if w == 2 {
        0x80 <= v
    } else if w == 3 {
        0x800 <= v
    } else {
        0x10000 <= v && v <= 0x10ffff
    };
    if !not_overlong || (0xD800 <= v && v <= 0xDFFF) {
        return Step::Invalid(1);
    }
    assert(valid_first_scalar(bytes));
    assert(is_scalar(v));
    match char::from_u32(v) {
        Some(ch) => Step::Key(codepoint_event_of(ch, nointerpret), w),
        None => Step::Invalid(1),
    }
}

/// Decodes the bytes of `b` from `s` on.
#[verifier::rlimit(40)]
pub fn peek_at(b: &Vec<u8>, s: usize, f: Flag, force: bool) -> (r: Step)
    requires
        s <= b@.len(),
    ensures
        r == peek(b@, s as int, f, force),
        step_in_bounds(r, b@.len() - s),
    decreases b@.len() - s,
{
    let len = b.len();
    proof {
        lemma_peek_progress(b@, s as int, f, force);
    }
    if s >= len {
        Step::Empty
    } else if b[s] == 0x1b {
        if s + 1 == b.len() {
            if force {
                Step::Key(Event::KeySym { sym: Sym::ESCAPE, mods: KeyMod::empty() }, 1)
            } else {
                Step::Again
            }
        } else if b[s + 1] == 0x5b {
            csi_step_at(b, s, force)
        } else if b[s + 1] == 0x4f {
            ss3_step_at(b, s, force, f.convertkp)
        } else {
            match peek_at(b, s + 1, f, force) {
                Step::Key(e, n) => Step::Key(e.with_alt(), n + 1),
                Step::Invalid(n) => Step::Invalid(n + 1),
                r => r,
            }
        }
    } else if b[s] < 0x80 || (f.raw && !f.utf8) {
        Step::Key(codepoint_event_of(b[s] as char, f.nointerpret), 1)
    } else {
        utf8_step_at(b, s, force, f.nointerpret)
    }
}


/// Why bytes could not be decoded.
#[derive(Clone, Copy, Debug, PartialEq, Eq, Structural)]
pub enum DecodeError {
    /// A byte that no valid UTF-8 sequence allows where it stands; it was
    /// dropped.
    MalformedUtf8,
}

/// What asking a decoder for a key gives.
#[derive(Clone, Copy, Debug, PartialEq, Eq, Structural)]
pub enum Result {
    /// No byte is buffered.
    None_,
    /// A key.
    Key(Event),
    /// No byte is buffered and the input has ended.
    Eof,
    /// The buffered bytes may begin a longer sequence: wait up to `wait_ms`
    /// milliseconds for more, then ask again with force.
    Again { wait_ms: isize },
    /// Bytes that could not be decoded were dropped.
    Error { err: DecodeError },
}

/// The outcome of a step for a decoder in the given state.
pub open spec fn step_result(st: Step, eof: bool, wait_ms: isize, canon: Canon) -> Result {
    match st {
        Step::Empty => if eof {
            Result::Eof
        } else {
            Result::None_
        },
        Step::Again => Result::Again { wait_ms },
        Step::Key(e, _) => Result::Key(canonical(e, canon)),
        Step::Invalid(_) => Result::Error { err: DecodeError::MalformedUtf8 },
    }
}

/// The number of bytes a step takes.
pub open spec fn step_len(st: Step) -> int {
    match st {
        Step::Key(_, n) => n as int,
        Step::Invalid(n) => n as int,
        _ => 0,
    }
}

/// The default size of the input buffer.
pub const DEFAULT_BUFFER_SIZE: usize = 256;

/// The default time to wait for the rest of a sequence, in milliseconds.
pub const DEFAULT_WAIT_MS: isize = 50;

/// A decoder of terminal input: bytes go in with `push_bytes`, keys come out
/// of `getkey` and `getkey_force`. It owns its buffer, its settings and its
/// table of key names.
pub struct TermKey {
    buf: Vec<u8>,
    buffsize: usize,
    flags: Flag,
    canonflags: Canon,
    waittime: isize,
    fd: i32,
    eof: bool,
    started: bool,
    names: KeyNames,
}

impl TermKey {
    /// The bytes pushed and not yet decoded.
    pub closed spec fn pending(&self) -> Seq<u8> {
        self.buf@
    }

    /// The most bytes the buffer holds.
    pub closed spec fn capacity(&self) -> nat {
        self.buffsize as nat
    }

    /// The flags.
    pub closed spec fn spec_flags(&self) -> Flag {
        self.flags
    }

    /// The normalisation applied to keys.
    pub closed spec fn spec_canonflags(&self) -> Canon {
        self.canonflags
    }

    /// The advised wait for the rest of a sequence.
    pub closed spec fn spec_waittime(&self) -> isize {
        self.waittime
    }

    /// Whether the input has been marked as ended.
    pub closed spec fn at_eof(&self) -> bool {
        self.eof
    }

    /// Whether the embedding program has started the decoder.
    pub closed spec fn spec_started(&self) -> bool {
        self.started
    }

    /// The file descriptor the embedding program reads.
    pub closed spec fn spec_fd(&self) -> i32 {
        self.fd
    }

    /// The table of key names.
    pub closed spec fn names(&self) -> KeyNames {
        self.names
    }

    /// The two decoders hold the same bytes, capacity, end-of-input mark, name
    /// table and started mark.
    pub open spec fn same_input(&self, o: &TermKey) -> bool {
        &&& self.pending() == o.pending()
        &&& self.capacity() == o.capacity()
        &&& self.at_eof() == o.at_eof()
        &&& self.names() == o.names()
        &&& self.spec_started() == o.spec_started()
    }

    /// The two decoders have the same flags, normalisation and wait.
    pub open spec fn same_settings(&self, o: &TermKey) -> bool {
        &&& self.spec_flags() == o.spec_flags()
        &&& self.spec_canonflags() == o.spec_canonflags()
        &&& self.spec_waittime() == o.spec_waittime()
    }

    /// The buffer holds no more than its capacity and the table is well formed.
    pub closed spec fn wf(&self) -> bool {
        &&& self.buf@.len() <= self.buffsize
        &&& self.names.wf()
    }

    /// A decoder for the terminal on `fd`, which the embedding program reads
    /// and writes; the flag `spacesymbol` also sets the canonical flag of
    /// that name.
    pub fn new(fd: i32, flags: Flag) -> (tk: TermKey)
        ensures
            tk.wf(),
            tk.pending().len() == 0,
            tk.capacity() == DEFAULT_BUFFER_SIZE,
            tk.spec_flags() == flags,
            tk.spec_canonflags() == (Canon { spacesymbol: flags.spacesymbol, delbs: false }),
            tk.spec_waittime() == DEFAULT_WAIT_MS,
            tk.spec_fd() == fd,
            !tk.at_eof(),
            !tk.spec_started(),
            tk.names().user().len() == 0,
    {
        TermKey {
            buf: Vec::new(),
            buffsize: DEFAULT_BUFFER_SIZE,
            flags,
            canonflags: Canon { spacesymbol: flags.spacesymbol, delbs: false },
            waittime: DEFAULT_WAIT_MS,
            fd,
            eof: false,
            started: false,
            names: KeyNames::new(),
        }
    }

    /// A decoder with no file descriptor, fed only through `push_bytes`. The
    /// terminal type names the terminal whose sequences are expected; this
    /// decoder knows the ANSI and xterm sequences, which every type shares.
    pub fn new_abstract(_term: &str, flags: Flag) -> (tk: TermKey)
        ensures
            tk.wf(),
            tk.pending().len() == 0,
            tk.capacity() == DEFAULT_BUFFER_SIZE,
            tk.spec_flags() == flags,
            tk.spec_canonflags() == (Canon { spacesymbol: flags.spacesymbol, delbs: false }),
            tk.spec_waittime() == DEFAULT_WAIT_MS,
            tk.spec_fd() == -1,
            !tk.at_eof(),
            !tk.spec_started(),
            tk.names().user().len() == 0,
    {
        TermKey::new(-1, flags)
    }

    /// Marks the decoder as started; the embedding program sets the terminal's
    /// modes.
    pub fn start(&mut self)
        ensures
            final(self).spec_started(),
            final(self).pending() == old(self).pending(),
            final(self).capacity() == old(self).capacity(),
            final(self).at_eof() == old(self).at_eof(),
            final(self).names() == old(self).names(),
            final(self).same_settings(old(self)),
            final(self).wf() == old(self).wf(),
    {
        self.started = true;
    }

    /// Marks the decoder as stopped.
    pub fn stop(&mut self)
        ensures
            !final(self).spec_started(),
            final(self).pending() == old(self).pending(),
            final(self).capacity() == old(self).capacity(),
            final(self).at_eof() == old(self).at_eof(),
            final(self).names() == old(self).names(),
            final(self).same_settings(old(self)),
            final(self).wf() == old(self).wf(),
    {
        self.started = false;
    }

    /// Whether the decoder is started.
    pub fn is_started(&self) -> (r: bool)
        ensures
            r == self.spec_started(),
    {
        self.started
    }

    /// The file descriptor, -1 for an abstract decoder.
    pub fn get_fd(&self) -> (r: isize)
        ensures
            r == self.spec_fd(),
    {
        self.fd as isize
    }

    /// The flags.
    pub fn get_flags(&self) -> (r: Flag)
        ensures
            r == self.spec_flags(),
    {
        self.flags
    }

    /// Sets the flags; `spacesymbol` also sets the canonical flag of that name.
    pub fn set_flags(&mut self, newflags: Flag)
        ensures
            final(self).spec_flags() == newflags,
            final(self).spec_canonflags() == (Canon { spacesymbol: newflags.spacesymbol, ..old(self).spec_canonflags() }),
            final(self).spec_waittime() == old(self).spec_waittime(),
            final(self).same_input(old(self)),
            final(self).wf() == old(self).wf(),
    {
        self.flags = newflags;
        self.canonflags = Canon { spacesymbol: newflags.spacesymbol, ..self.canonflags };
    }

    /// The advised wait for the rest of a sequence, in milliseconds.
    pub fn get_waittime(&self) -> (r: isize)
        ensures
            r == self.spec_waittime(),
    {
        self.waittime
    }

    /// Sets the advised wait.
    pub fn set_waittime(&mut self, msec: isize)
        ensures
            final(self).spec_waittime() == msec,
            final(self).spec_flags() == old(self).spec_flags(),
            final(self).spec_canonflags() == old(self).spec_canonflags(),
            final(self).same_input(old(self)),
            final(self).wf() == old(self).wf(),
    {
        self.waittime = msec;
    }

    /// The normalisation applied to keys.
    pub fn get_canonflags(&self) -> (r: Canon)
        ensures
            r == self.spec_canonflags(),
    {
        self.canonflags
    }

    /// Sets the normalisation; `spacesymbol` also sets the flag of that name.
    pub fn set_canonflags(&mut self, cflags: Canon)
        ensures
            final(self).spec_canonflags() == cflags,
            final(self).spec_flags() == (Flag { spacesymbol: cflags.spacesymbol, ..old(self).spec_flags() }),
            final(self).spec_waittime() == old(self).spec_waittime(),
            final(self).same_input(old(self)),
            final(self).wf() == old(self).wf(),
    {
        self.canonflags = cflags;
        self.flags = Flag { spacesymbol: cflags.spacesymbol, ..self.flags };
    }

    /// The size of the input buffer.
    pub fn get_buffer_size(&self) -> (r: usize)
        ensures
            r == self.capacity(),
    {
        self.buffsize
    }

    /// Sets the size of the input buffer: 1 on success; 0, with nothing
    /// changed, when more bytes than `size` are buffered.
    pub fn set_buffer_size(&mut self, size: usize) -> (r: isize)
        ensures
            r == (if old(self).pending().len() <= size { 1isize } else { 0isize }),
            r == 1 ==> final(self).capacity() == size,
            r == 0 ==> final(self).capacity() == old(self).capacity(),
            final(self).pending() == old(self).pending(),
            final(self).at_eof() == old(self).at_eof(),
            final(self).names() == old(self).names(),
            final(self).spec_started() == old(self).spec_started(),
            final(self).same_settings(old(self)),
            old(self).wf() ==> final(self).wf(),
    {
        if self.buf.len() <= size {
            self.buffsize = size;
            1
        } else {
            0
        }
    }

    /// How many more bytes the buffer takes.
    pub fn get_buffer_remaining(&self) -> (r: usize)
        requires
            self.wf(),
        ensures
            r == self.capacity() - self.pending().len(),
    {
        self.buffsize - self.buf.len()
    }

    /// Appends as many of `bytes` as the buffer has room for, and returns how
    /// many that was; the caller offers the rest again later.
    pub fn push_bytes(&mut self, bytes: &[u8]) -> (r: usize)
        requires
            old(self).wf(),
        ensures
            final(self).wf(),
            r == (if bytes@.len() <= old(self).capacity() - old(self).pending().len() {
                bytes@.len() as int
            } else {
                old(self).capacity() - old(self).pending().len()
            }),
            final(self).pending() == old(self).pending() + bytes@.subrange(0, r as int),
            final(self).capacity() == old(self).capacity(),
            final(self).spec_flags() == old(self).spec_flags(),
            final(self).spec_canonflags() == old(self).spec_canonflags(),
            final(self).spec_waittime() == old(self).spec_waittime(),
            final(self).at_eof() == old(self).at_eof(),
            final(self).names() == old(self).names(),
    {
        let room = self.buffsize - self.buf.len();
        let n = if bytes.len() <= room {
            bytes.len()
        } else {
            room
        };
        let mut i: usize = 0;
        while i < n
            invariant
                i <= n <= bytes@.len(),
                n <= room,
                room == self.buffsize - old(self).buf@.len(),
                self.buffsize == old(self).buffsize,
                self.buf@ == old(self).buf@ + bytes@.subrange(0, i as int),
                self.flags == old(self).flags,
                self.canonflags == old(self).canonflags,
                self.waittime == old(self).waittime,
                self.eof == old(self).eof,
                self.names == old(self).names,
            decreases n - i,
        {
            self.buf.push(bytes[i]);
            i = i + 1;
            assert(self.buf@ =~= old(self).buf@ + bytes@.subrange(0, i as int));
        }
        n
    }

    /// Marks the input as ended: once the buffer is empty the decoder gives
    /// `Eof`.
    pub fn mark_eof(&mut self)
        ensures
            final(self).at_eof(),
            final(self).pending() == old(self).pending(),
            final(self).capacity() == old(self).capacity(),
            final(self).names() == old(self).names(),
            final(self).spec_started() == old(self).spec_started(),
            final(self).same_settings(old(self)),
            final(self).wf() == old(self).wf(),
    {
        self.eof = true;
    }

    /// Drops the first `n` buffered bytes.
    fn consume(&mut self, n: usize)
        requires
            old(self).wf(),
            n <= old(self).buf@.len(),
        ensures
            final(self).wf(),
            final(self).buf@ == old(self).buf@.subrange(n as int, old(self).buf@.len() as int),
            final(self).buffsize == old(self).buffsize,
            final(self).flags == old(self).flags,
            final(self).canonflags == old(self).canonflags,
            final(self).waittime == old(self).waittime,
            final(self).eof == old(self).eof,
            final(self).names == old(self).names,
            final(self).fd == old(self).fd,
            final(self).started == old(self).started,
    {
        let mut rest: Vec<u8> = Vec::new();
        let mut i = n;
        while i < self.buf.len()
            invariant
                n <= i <= self.buf@.len(),
                rest@ == self.buf@.subrange(n as int, i as int),
            decreases self.buf@.len() - i,
        {
            rest.push(self.buf[i]);
            i = i + 1;
            assert(rest@ =~= self.buf@.subrange(n as int, i as int));
        }
        self.buf = rest;
    }

    /// Decodes the next key, if the buffer begins with a complete one.
    fn next_event(&mut self, force: bool) -> (r: Result)
        requires
            old(self).wf(),
        ensures
            final(self).wf(),
            r == step_result(
                peek(old(self).pending(), 0, old(self).spec_flags(), force),
                old(self).at_eof(),
                old(self).spec_waittime(),
                old(self).spec_canonflags(),
            ),
            final(self).pending() == old(self).pending().subrange(
                step_len(peek(old(self).pending(), 0, old(self).spec_flags(), force)),
                old(self).pending().len() as int,
            ),
            final(self).capacity() == old(self).capacity(),
            final(self).spec_flags() == old(self).spec_flags(),
            final(self).spec_canonflags() == old(self).spec_canonflags(),
            final(self).spec_waittime() == old(self).spec_waittime(),
            final(self).at_eof() == old(self).at_eof(),
            final(self).names() == old(self).names(),
    {
        let st = peek_at(&self.buf, 0, self.flags, force);
        match st {
            Step::Empty => {
                assert(self.buf@.subrange(0, self.buf@.len() as int) =~= self.buf@);
                if self.eof {
                    Result::Eof
                } else {
                    Result::None_
                }
            },
            Step::Again => {
                assert(self.buf@.subrange(0, self.buf@.len() as int) =~= self.buf@);
                Result::Again { wait_ms: self.waittime }
            },
            Step::Key(e, n) => {
                self.consume(n);
                Result::Key(canonicalize(e, self.canonflags))
            },
            Step::Invalid(n) => {
                self.consume(n);
                Result::Error { err: DecodeError::MalformedUtf8 }
            },
        }
    }

    /// The next key, without waiting: an escape byte alone, or the start of
    /// a sequence, gives `Again` and stays buffered.
    pub fn getkey(&mut self) -> (r: Result)
        requires
            old(self).wf(),
        ensures
            final(self).wf(),
            r == step_result(
                peek(old(self).pending(), 0, old(self).spec_flags(), false),
                old(self).at_eof(),
                old(self).spec_waittime(),
                old(self).spec_canonflags(),
            ),
            final(self).pending() == old(self).pending().subrange(
                step_len(peek(old(self).pending(), 0, old(self).spec_flags(), false)),
                old(self).pending().len() as int,
            ),
            final(self).capacity() == old(self).capacity(),
            final(self).spec_flags() == old(self).spec_flags(),
            final(self).spec_canonflags() == old(self).spec_canonflags(),
            final(self).spec_waittime() == old(self).spec_waittime(),
            final(self).at_eof() == old(self).at_eof(),
            final(self).names() == old(self).names(),
    {
        self.next_event(false)
    }

    /// The next key, taking what is buffered as complete: on a non-empty
    /// buffer it always gives a key or an error and takes at least one byte.
    pub fn getkey_force(&mut self) -> (r: Result)
        requires
            old(self).wf(),
        ensures
            final(self).wf(),
            r == step_result(
                peek(old(self).pending(), 0, old(self).spec_flags(), true),
                old(self).at_eof(),
                old(self).spec_waittime(),
                old(self).spec_canonflags(),
            ),
            final(self).pending() == old(self).pending().subrange(
                step_len(peek(old(self).pending(), 0, old(self).spec_flags(), true)),
                old(self).pending().len() as int,
            ),
            old(self).pending().len() > 0 ==> (r is Key || r is Error) && final(self).pending().len()
                < old(self).pending().len(),
            final(self).capacity() == old(self).capacity(),
            final(self).spec_flags() == old(self).spec_flags(),
            final(self).spec_canonflags() == old(self).spec_canonflags(),
            final(self).spec_waittime() == old(self).spec_waittime(),
            final(self).at_eof() == old(self).at_eof(),
            final(self).names() == old(self).names(),
    {
        proof {
            lemma_peek_progress(self.buf@, 0, self.flags, true);
        }
        self.next_event(true)
    }

    /// Applies the decoder's normalisation to a key.
    pub fn canonicalise(&self, key: Event) -> (r: Event)
        ensures
            r == canonical(key, self.spec_canonflags()),
    {
        canonicalize(key, self.canonflags)
    }

    /// The name of a symbol: the one registered last for it, else its builtin
    /// name.
    pub fn get_keyname(&self, sym: Sym) -> (r: Option<&str>)
        ensures
            r is Some <==> self.names().name_of(sym) is Some,
            r is Some ==> r.unwrap()@ == self.names().name_of(sym).unwrap(),
    {
        self.names.keyname(sym)
    }

    /// Adds the name `name` for `sym`; for `UNKNOWN` a new symbol is made.
    /// Returns the symbol the name stands for, or `UNKNOWN` when the table is
    /// full.
    pub fn register_keyname(&mut self, sym: Sym, name: &str) -> (r: Sym)
        requires
            old(self).wf(),
        ensures
            final(self).wf(),
            old(self).names().user().len() + 1 < crate::keysym::MAX_USER && sym != Sym::UNKNOWN ==> r == sym,
            old(self).names().user().len() + 1 < crate::keysym::MAX_USER && sym == Sym::UNKNOWN ==> r
                == Sym::USER(old(self).names().user().len() as u32),
            old(self).names().user().len() + 1 >= crate::keysym::MAX_USER ==> r == Sym::UNKNOWN,
            r == Sym::UNKNOWN ==> final(self).names().user() == old(self).names().user(),
            r != Sym::UNKNOWN ==> final(self).names().user() == old(self).names().user().push((r, name@)),
            final(self).pending() == old(self).pending(),
            final(self).capacity() == old(self).capacity(),
            final(self).at_eof() == old(self).at_eof(),
            final(self).spec_started() == old(self).spec_started(),
            final(self).same_settings(old(self)),
    {
        self.names.register(sym, name)
    }

    /// Finds the longest key name at the start of `s`: stores its symbol in
    /// `sym` and returns the text after it; `None`, with `sym` unchanged, when
    /// no name begins `s`.
    pub fn lookup_keyname<'a>(&self, s: &'a str, sym: &mut Sym) -> (r: Option<&'a str>)
        requires
            self.wf(),
        ensures
            r is None <==> self.names().spec_lookup(false, s@, 0) is None,
            r is None ==> *final(sym) == *old(sym),
            r is Some ==> *final(sym) == self.names().spec_lookup(false, s@, 0).unwrap().0 && r.unwrap()@
                == s@.subrange(self.names().spec_lookup(false, s@, 0).unwrap().1, s@.len() as int),
    {
        let text = chars_of(s);
        match self.names.lookup(false, &text, 0) {
            Some((found, n)) => {
                proof {
                    crate::parse::lemma_lookup_in_text(&self.names, false, s@, 0);
                }
                *sym = found;
                Some(s.substring_char(n, text.len()))
            },
            None => None,
        }
    }

    /// The symbol whose name is exactly `keyname`, or `UNKNOWN`.
    pub fn keyname2sym(&self, keyname: &str) -> (r: Sym)
        requires
            self.wf(),
        ensures
            r == (match self.names().spec_lookup(false, keyname@, 0) {
                Some((found, n)) => if n == keyname@.len() {
                    found
                } else {
                    Sym::UNKNOWN
                },
                None => Sym::UNKNOWN,
            }),
    {
        let text = chars_of(keyname);
        match self.names.lookup(false, &text, 0) {
            Some((found, n)) => if n == text.len() {
                found
            } else {
                Sym::UNKNOWN
            },
            None => Sym::UNKNOWN,
        }
    }

    /// Writes a key in the style `format`.
    pub fn strfkey(&self, key: Event, format: Format) -> (r: String)
        ensures
            r@ == format_text(key, format, self.names()),
    {
        format_key(key, format, &self.names)
    }

    /// Reads the key written at the start of `s` in the style `format`, with
    /// the decoder's normalisation applied, and returns it with the text after
    /// it; `None` when `s` begins with no key.
    pub fn strpkey<'a>(&self, s: &'a str, format: Format) -> (r: Option<(Event, &'a str)>)
        requires
            self.wf(),
        ensures
            r is None <==> parse_text(s@, format, self.names()) is None,
            r is Some ==> {
                let (e, n) = parse_text(s@, format, self.names()).unwrap();
                &&& r.unwrap().0 == canonical(e, self.spec_canonflags())
                &&& r.unwrap().1@ == s@.subrange(n, s@.len() as int)
            },
    {
        let text = chars_of(s);
        match parse_chars(&text, format, &self.names) {
            Some((e, n)) => Some((canonicalize(e, self.canonflags), s.substring_char(n, text.len()))),
            None => None,
        }
    }
}

} // verus!
