//! Proofs that the text of a key reads back as the same key, and that every
//! key the decoder gives is one whose text does.

use vstd::prelude::*;

use crate::csi::{ARG_MAX, csi_event, find_final, initial_of, param_scan, params_of, push_digit};
use crate::decoder::{Flag, peek};
use crate::event::{Canon, Event, KeyMod, MouseEvent, canonical, unicode_event, utf8_of};
use crate::format::{
    Format, alt_name, caret_text, ctrl_name, dec, digit_char, digits, format_text, key_text, mods_of,
    mods_text, mouse_ev_name, sep_char, shift_name, wraps,
};
use crate::parse::{
    char_at, digit_run, digits_value, is_digit, parse_int, parse_key, parse_mode, parse_modded,
    parse_mods, parse_mouse, parse_mouse_ev, parse_mouse_pos, parse_plain, parse_text, with_mods,
};
use crate::keysym::{
    KeyNames, Sym, best_match, builtin_entries, builtin_name, builtin_syms, lemma_builtin_name,
    is_alnum, matches_at, plain_name, styled, N_BUILTIN,
};

verus! {

/// A text holds what is written at a position of one of its parts.
pub proof fn lemma_matches_in(n: Seq<char>, a: Seq<char>, b: Seq<char>, i: int)
    requires
        0 <= i,
    ensures
        matches_at(n, a + b, a.len() + i) == matches_at(n, b, i),
{
    if i + n.len() <= b.len() {
        assert((a + b).subrange(a.len() + i, a.len() + i + n.len()) =~= b.subrange(i, i + n.len()));
    }
}

/// The decimal digits of a number are digits, and there is at least one.
pub proof fn lemma_digits_are_digits(n: nat)
    ensures
        digits(n).len() >= 1,
        forall|k: int| 0 <= k < digits(n).len() ==> is_digit(#[trigger] digits(n)[k]),
        forall|k: int| 0 <= k < digits(n).len() ==> (digits(n)[k] as u32) - 48 < 10,
    decreases n,
{
    if n >= 10 {
        lemma_digits_are_digits(n / 10);
    }
}

/// The run of digits that starts at `q` reaches as far as the digits go.
pub proof fn lemma_digit_run(text: Seq<char>, q: int, k: int)
    requires
        0 <= q <= k <= text.len(),
        forall|i: int| q <= i < k ==> is_digit(#[trigger] text[i]),
        k == text.len() || !is_digit(text[k]),
    ensures
        digit_run(text, q) == k,
    decreases k - q,
{
    if q < k {
        lemma_digit_run(text, q + 1, k);
    }
}

/// Reading the decimal digits of `n` gives `n`.
pub proof fn lemma_digits_value(text: Seq<char>, q: int, n: nat)
    requires
        0 <= q,
        q + digits(n).len() <= text.len(),
        text.subrange(q, q + digits(n).len()) == digits(n),
        n <= ARG_MAX,
    ensures
        digits_value(text, q, q + digits(n).len()) == n,
    decreases n,
{
    let k = q + digits(n).len();
    assert(text[k - 1] == digits(n)[digits(n).len() - 1]);
    if n >= 10 {
        let m = (n / 10) as nat;
        assert(text.subrange(q, q + digits(m).len()) =~= digits(m));
        lemma_digits_value(text, q, m);
    }
    let d = (n % 10) as int;
    assert((digit_char(d) as u32) == d + 48);
    assert(text[k - 1] == digit_char(d));
    let prev = digits_value(text, q, k - 1);
    if n >= 10 {
        assert(prev == n / 10);
        assert((n / 10) * 10 + n % 10 == n) by (nonlinear_arith);
    } else {
        assert(k - 1 == q);
        assert(prev == -1);
    }
    assert(digits_value(text, q, k) == push_digit(prev, d as i64));
}

/// Reading `dec(v)` where it is written gives `v`, and ends after it.
pub proof fn lemma_parse_dec(pre: Seq<char>, v: int, rest: Seq<char>)
    requires
        -ARG_MAX <= v <= ARG_MAX,
        rest.len() == 0 || !is_digit(rest[0]),
    ensures
        parse_int(pre + dec(v) + rest, pre.len() as int) == Some((v as i64, (pre.len() + dec(v).len()) as int)),
{
    let text = pre + dec(v) + rest;
    let q = pre.len() as int;
    let n: nat = if v < 0 { (-v) as nat } else { v as nat };
    lemma_digits_are_digits(n);
    let d = if v < 0 { q + 1 } else { q };
    assert(text.subrange(d, d + digits(n).len()) =~= digits(n));
    assert forall|i: int| d <= i < d + digits(n).len() implies is_digit(#[trigger] text[i]) by {
        assert(text[i] == digits(n)[i - d]);
    }
    let k = d + digits(n).len();
    if k < text.len() {
        assert(text[k] == rest[0]);
    }
    lemma_digit_run(text, d, k);
    lemma_digits_value(text, d, n);
    if v >= 0 {
        assert(text[q] == digits(n)[0]);
    }
}


/// The position of a builtin symbol in the builtin table.
pub open spec fn builtin_index(s: Sym) -> int {
    match s {
        Sym::BACKSPACE => 0,
        Sym::TAB => 1,
        Sym::ENTER => 2,
        Sym::ESCAPE => 3,
        Sym::SPACE => 4,
        Sym::DEL => 5,
        Sym::UP => 6,
        Sym::DOWN => 7,
        Sym::LEFT => 8,
        Sym::RIGHT => 9,
        Sym::BEGIN => 10,
        Sym::FIND => 11,
        Sym::INSERT => 12,
        Sym::DELETE => 13,
        Sym::SELECT => 14,
        Sym::PAGEUP => 15,
        Sym::PAGEDOWN => 16,
        Sym::HOME => 17,
        Sym::END => 18,
        Sym::CANCEL => 19,
        Sym::CLEAR => 20,
        Sym::CLOSE => 21,
        Sym::COMMAND => 22,
        Sym::COPY => 23,
        Sym::EXIT => 24,
        Sym::HELP => 25,
        Sym::MARK => 26,
        Sym::MESSAGE => 27,
        Sym::MOVE => 28,
        Sym::OPEN => 29,
        Sym::OPTIONS => 30,
        Sym::PRINT => 31,
        Sym::REDO => 32,
        Sym::REFERENCE => 33,
        Sym::REFRESH => 34,
        Sym::REPLACE => 35,
        Sym::RESTART => 36,
        Sym::RESUME => 37,
        Sym::SAVE => 38,
        Sym::SUSPEND => 39,
        Sym::UNDO => 40,
        Sym::KP0 => 41,
        Sym::KP1 => 42,
        Sym::KP2 => 43,
        Sym::KP3 => 44,
        Sym::KP4 => 45,
        Sym::KP5 => 46,
        Sym::KP6 => 47,
        Sym::KP7 => 48,
        Sym::KP8 => 49,
        Sym::KP9 => 50,
        Sym::KPENTER => 51,
        Sym::KPPLUS => 52,
        Sym::KPMINUS => 53,
        Sym::KPMULT => 54,
        Sym::KPDIV => 55,
        Sym::KPCOMMA => 56,
        Sym::KPPERIOD => 57,
        Sym::KPEQUALS => 58,
        _ => -1,
    }
}

/// Each builtin symbol with a name stands at its position in the table.
pub proof fn lemma_builtin_index(s: Sym)
    requires
        builtin_name(s) is Some,
    ensures
        0 <= builtin_index(s) < N_BUILTIN,
        builtin_syms()[builtin_index(s)] == s,
{
}

/// Every symbol of the builtin table has a name.
pub proof fn lemma_builtin_syms_named(i: int)
    requires
        0 <= i < N_BUILTIN,
    ensures
        builtin_name(builtin_syms()[i]) is Some,
        builtin_entries()[i] == (builtin_syms()[i], builtin_name(builtin_syms()[i]).unwrap()),
{
}

/// True when entry `i` of `t`, in the style `lower`, is written at `q`.
pub open spec fn entry_matches(t: Seq<(Sym, Seq<char>)>, lower: bool, text: Seq<char>, q: int, i: int) -> bool {
    styled(t[i].1, lower).len() > 0 && matches_at(styled(t[i].1, lower), text, q)
}

/// With no entry written at `q`, no name is found.
pub proof fn lemma_best_match_none(t: Seq<(Sym, Seq<char>)>, lower: bool, text: Seq<char>, q: int, n: int)
    requires
        forall|i: int| 0 <= i < n ==> !#[trigger] entry_matches(t, lower, text, q, i),
    ensures
        best_match(t, lower, text, q, n) is None,
    decreases n,
{
    if n > 0 {
        lemma_best_match_none(t, lower, text, q, n - 1);
        assert(!entry_matches(t, lower, text, q, n - 1));
    }
}

/// When no entry written at `q` is longer than `l`, and those of length `l`
/// are all `s`, the name found is no longer than `l`, and is `s` of length
/// `l` as soon as one such entry is written there.
pub proof fn lemma_best_match_bound(
    t: Seq<(Sym, Seq<char>)>,
    lower: bool,
    text: Seq<char>,
    q: int,
    n: int,
    l: int,
    s: Sym,
)
    requires
        forall|i: int|
            0 <= i < n && #[trigger] entry_matches(t, lower, text, q, i) ==> styled(t[i].1, lower).len()
                <= l && (styled(t[i].1, lower).len() == l ==> t[i].0 == s),
    ensures
        best_match(t, lower, text, q, n) is Some ==> best_match(t, lower, text, q, n).unwrap().1 <= l && (
        best_match(t, lower, text, q, n).unwrap().1 == l ==> best_match(t, lower, text, q, n).unwrap().0
            == s),
        (exists|i: int|
            0 <= i < n && #[trigger] entry_matches(t, lower, text, q, i) && styled(t[i].1, lower).len()
                == l) ==> best_match(t, lower, text, q, n) == Some((s, l)),
    decreases n,
{
    if n > 0 {
        lemma_best_match_bound(t, lower, text, q, n - 1, l, s);
        let last = entry_matches(t, lower, text, q, n - 1);
        if last {
            assert(styled(t[n - 1].1, lower).len() <= l);
        }
        if exists|i: int|
            0 <= i < n && #[trigger] entry_matches(t, lower, text, q, i) && styled(t[i].1, lower).len()
                == l {
            let w = choose|i: int|
                0 <= i < n && #[trigger] entry_matches(t, lower, text, q, i) && styled(t[i].1, lower).len()
                    == l;
            if w < n - 1 {
                assert(entry_matches(t, lower, text, q, w));
            } else {
                assert(entry_matches(t, lower, text, q, n - 1));
            }
        }
    }
}

/// A table with no registered name holds the builtin entries alone.
pub proof fn lemma_builtin_table(names: KeyNames)
    requires
        names.user().len() == 0,
    ensures
        names.entries() == builtin_entries(),
        builtin_entries().len() == N_BUILTIN,
{
    assert(names.entries() =~= builtin_entries());
}

/// When no name of the shape of builtin names is written at `q`, a table of
/// builtin names finds none there.
pub proof fn lemma_lookup_none(names: KeyNames, lower: bool, text: Seq<char>, q: int)
    requires
        names.user().len() == 0,
        forall|n: Seq<char>| #[trigger] plain_name(n) ==> !matches_at(n, text, q),
    ensures
        names.spec_lookup(lower, text, q) is None,
{
    lemma_builtin_table(names);
    let t = builtin_entries();
    assert forall|i: int| 0 <= i < N_BUILTIN implies !#[trigger] entry_matches(t, lower, text, q, i) by {
        lemma_builtin_syms_named(i);
        lemma_builtin_name(builtin_syms()[i]);
        assert(plain_name(styled(t[i].1, lower)));
    }
    lemma_best_match_none(t, lower, text, q, N_BUILTIN as int);
}

/// A builtin name written at `q`, followed by nothing or by `>`, is found
/// there whole.
pub proof fn lemma_lookup_name(names: KeyNames, lower: bool, s: Sym, text: Seq<char>, q: int)
    requires
        names.user().len() == 0,
        builtin_name(s) is Some,
        matches_at(styled(builtin_name(s).unwrap(), lower), text, q),
        q + styled(builtin_name(s).unwrap(), lower).len() == text.len() || (q + styled(
            builtin_name(s).unwrap(),
            lower,
        ).len() + 1 == text.len() && text[text.len() - 1] == '>'),
    ensures
        names.spec_lookup(lower, text, q) == Some((s, styled(builtin_name(s).unwrap(), lower).len() as int)),
{
    lemma_builtin_table(names);
    let t = builtin_entries();
    let name = styled(builtin_name(s).unwrap(), lower);
    let l = name.len() as int;
    lemma_builtin_name(s);
    assert forall|i: int|
        0 <= i < N_BUILTIN && #[trigger] entry_matches(t, lower, text, q, i) implies styled(t[i].1, lower).len()
            <= l && (styled(t[i].1, lower).len() == l ==> t[i].0 == s) by {
        lemma_builtin_syms_named(i);
        let si = builtin_syms()[i];
        lemma_builtin_name(si);
        let n = styled(t[i].1, lower);
        if n.len() > l {
            assert(n[l] == text[q + l]);
            assert(text[q + l] == '>');
            assert(false);
        }
        if n.len() == l {
            assert(n =~= name);
        }
    }
    lemma_builtin_index(s);
    let w = builtin_index(s);
    lemma_builtin_syms_named(w);
    assert(entry_matches(t, lower, text, q, w));
    lemma_best_match_bound(t, lower, text, q, N_BUILTIN as int, l, s);
}


/// The modifier names are not empty and start with different letters:
/// Shift with `S`, Alt with `A` or `M`, Ctrl with `C`, in either case.
pub proof fn lemma_mod_names(f: Format)
    ensures
        shift_name(f).len() >= 1,
        alt_name(f).len() >= 1,
        ctrl_name(f).len() >= 1,
        shift_name(f)[0] == 'S' || shift_name(f)[0] == 's',
        alt_name(f)[0] == 'A' || alt_name(f)[0] == 'a' || alt_name(f)[0] == 'M' || alt_name(f)[0] == 'm',
        ctrl_name(f)[0] == 'C' || ctrl_name(f)[0] == 'c',
        alt_name(f)[0] == 'M' ==> alt_name(f).len() == 1 || alt_name(f)[1] == 'e',
        sep_char(f) == ' ' || sep_char(f) == '-',
        forall|i: int| 0 <= i < shift_name(f).len() ==> is_alnum(#[trigger] shift_name(f)[i]),
        forall|i: int| 0 <= i < alt_name(f).len() ==> is_alnum(#[trigger] alt_name(f)[i]),
        forall|i: int| 0 <= i < ctrl_name(f).len() ==> is_alnum(#[trigger] ctrl_name(f)[i]),
{
    reveal_strlit("shift");
    reveal_strlit("Shift");
    reveal_strlit("s");
    reveal_strlit("S");
    reveal_strlit("meta");
    reveal_strlit("Meta");
    reveal_strlit("m");
    reveal_strlit("M");
    reveal_strlit("alt");
    reveal_strlit("Alt");
    reveal_strlit("a");
    reveal_strlit("A");
    reveal_strlit("ctrl");
    reveal_strlit("Ctrl");
    reveal_strlit("c");
    reveal_strlit("C");
}

/// True when no modifier name with its separator is written at the start of
/// `rest`.
pub open spec fn no_mod_at(rest: Seq<char>, f: Format) -> bool {
    &&& !matches_at(shift_name(f).push(sep_char(f)), rest, 0)
    &&& !matches_at(alt_name(f).push(sep_char(f)), rest, 0)
    &&& !matches_at(ctrl_name(f).push(sep_char(f)), rest, 0)
}

/// A text is written at the start of itself followed by more.
pub proof fn lemma_matches_front(n: Seq<char>, b: Seq<char>)
    ensures
        matches_at(n, n + b, 0),
{
    assert((n + b).subrange(0, n.len() as int) =~= n);
}

/// One modifier name at `q`: reading goes on after it with that modifier.
proof fn lemma_mods_step(text: Seq<char>, q: int, f: Format, m: KeyMod, which: int)
    requires
        0 <= q < text.len(),
        0 <= which < 3,
        which == 0 ==> matches_at(shift_name(f).push(sep_char(f)), text, q),
        which == 1 ==> matches_at(alt_name(f).push(sep_char(f)), text, q) && text[q] != shift_name(f)[0],
        which == 2 ==> matches_at(ctrl_name(f).push(sep_char(f)), text, q) && text[q] != shift_name(f)[0]
            && text[q] != alt_name(f)[0],
    ensures
        which == 0 ==> parse_mods(text, q, f, m) == parse_mods(text, q + shift_name(f).len() + 1, f, KeyMod { shift: true, ..m }),
        which == 1 ==> parse_mods(text, q, f, m) == parse_mods(text, q + alt_name(f).len() + 1, f, KeyMod { alt: true, ..m }),
        which == 2 ==> parse_mods(text, q, f, m) == parse_mods(text, q + ctrl_name(f).len() + 1, f, KeyMod { ctrl: true, ..m }),
{
    lemma_mod_names(f);
    if which >= 1 {
        assert(!matches_at(shift_name(f).push(sep_char(f)), text, q)) by {
            if matches_at(shift_name(f).push(sep_char(f)), text, q) {
                assert(text.subrange(q, q + shift_name(f).len() + 1)[0] == text[q]);
            }
        }
    }
    if which == 2 {
        assert(!matches_at(alt_name(f).push(sep_char(f)), text, q)) by {
            if matches_at(alt_name(f).push(sep_char(f)), text, q) {
                assert(text.subrange(q, q + alt_name(f).len() + 1)[0] == text[q]);
            }
        }
    }
}

/// The name of modifier `which` (0 Shift, 1 Alt, 2 Ctrl) with its separator.
pub open spec fn mod_part(f: Format, which: int) -> Seq<char> {
    if which == 0 {
        shift_name(f).push(sep_char(f))
    } else if which == 1 {
        alt_name(f).push(sep_char(f))
    } else {
        ctrl_name(f).push(sep_char(f))
    }
}

/// `m` with modifier `which` added.
pub open spec fn add_mod(m: KeyMod, which: int) -> KeyMod {
    if which == 0 {
        KeyMod { shift: true, ..m }
    } else if which == 1 {
        KeyMod { alt: true, ..m }
    } else {
        KeyMod { ctrl: true, ..m }
    }
}

/// One stage of reading modifier names: where modifier `which` is written
/// (if `present`), reading passes over it.
proof fn lemma_mods_stage(pre: Seq<char>, which: int, present: bool, tail: Seq<char>, f: Format, m: KeyMod, r: (KeyMod, int))
    requires
        0 <= which < 3,
        parse_mods(
            pre + (if present { mod_part(f, which) } else { seq![] }) + tail,
            (pre.len() + (if present { mod_part(f, which).len() } else { 0 })) as int,
            f,
            if present { add_mod(m, which) } else { m },
        ) == r,
    ensures
        parse_mods(pre + (if present { mod_part(f, which) } else { seq![] }) + tail, pre.len() as int, f, m) == r,
{
    if present {
        let x = mod_part(f, which);
        let text = pre + x + tail;
        lemma_mod_names(f);
        lemma_matches_front(x, tail);
        lemma_matches_in(x, pre, x + tail, 0);
        assert(text =~= pre + (x + tail));
        assert(text[pre.len() as int] == x[0]);
        lemma_mods_step(text, pre.len() as int, f, m, which);
    } else {
        assert(pre + seq![] + tail =~= pre + tail);
    }
}

/// Reading the modifier names that `mods_text` writes gives those
/// modifiers, and stops where the key begins.
pub proof fn lemma_parse_mods(pre: Seq<char>, m: KeyMod, f: Format, rest: Seq<char>)
    requires
        no_mod_at(rest, f),
    ensures
        parse_mods(pre + mods_text(m, f) + rest, pre.len() as int, f, KeyMod { ctrl: false, alt: false, shift: false })
            == (m, (pre.len() + mods_text(m, f).len()) as int),
{
    let sp: Seq<char> = if m.shift { mod_part(f, 0) } else { seq![] };
    let ap: Seq<char> = if m.alt { mod_part(f, 1) } else { seq![] };
    let cp: Seq<char> = if m.ctrl { mod_part(f, 2) } else { seq![] };
    assert(mods_text(m, f) == sp + ap + cp);
    let text = pre + mods_text(m, f) + rest;
    let m0 = KeyMod { ctrl: false, alt: false, shift: false };
    let m1 = if m.shift { add_mod(m0, 0) } else { m0 };
    let m2 = if m.alt { add_mod(m1, 1) } else { m1 };
    let r = (m, (pre.len() + mods_text(m, f).len()) as int);
    let pre3 = pre + sp + ap + cp;
    lemma_matches_in(mod_part(f, 0), pre3, rest, 0);
    lemma_matches_in(mod_part(f, 1), pre3, rest, 0);
    lemma_matches_in(mod_part(f, 2), pre3, rest, 0);
    assert(text =~= pre3 + rest);
    assert(parse_mods(pre3 + rest, pre3.len() as int, f, if m.ctrl { add_mod(m2, 2) } else { m2 }) == r);
    assert(pre + sp + ap + cp + rest =~= (pre + sp + ap) + cp + rest);
    lemma_mods_stage(pre + sp + ap, 2, m.ctrl, rest, f, m2, r);
    assert((pre + sp + ap) + cp + rest =~= (pre + sp) + ap + (cp + rest));
    lemma_mods_stage(pre + sp, 1, m.alt, cp + rest, f, m1, r);
    assert((pre + sp) + ap + (cp + rest) =~= pre + sp + (ap + cp + rest));
    lemma_mods_stage(pre, 0, m.shift, ap + cp + rest, f, m0, r);
    assert(pre + sp + (ap + cp + rest) =~= text);
}


/// True when what follows a key in a text is nothing or the closing bracket.
pub open spec fn key_end(post: Seq<char>) -> bool {
    post.len() == 0 || post == seq!['>']
}

/// A character, followed by nothing or a bracket, reads as that character.
pub proof fn lemma_parse_key_char(names: KeyNames, f: Format, pre: Seq<char>, c: char, post: Seq<char>)
    requires
        names.user().len() == 0,
        key_end(post),
    ensures
        parse_key(pre + seq![c] + post, pre.len() as int, f, names) == Some((
            unicode_event(c, KeyMod { ctrl: false, alt: false, shift: false }),
            (pre.len() + 1) as int,
        )),
{
    let text = pre + seq![c] + post;
    let q = pre.len() as int;
    assert(text[q] == c);
    if post.len() > 0 {
        assert(text[q + 1] == '>');
    }
    assert forall|n: Seq<char>| #[trigger] plain_name(n) implies !matches_at(n, text, q) by {
        if matches_at(n, text, q) {
            assert(text.subrange(q, q + n.len())[1] == n[1]);
        }
    }
    lemma_lookup_none(names, f.lowerspace, text, q);
    reveal_strlit("Mouse");
    reveal_strlit("Mode(");
    assert(!matches_at("Mouse"@, text, q));
    assert(!matches_at("Mode("@, text, q));
    assert(digit_run(text, q + 1) == q + 1);
    assert(parse_int(text, q + 1) is None);
}

/// A function key, followed by nothing or a bracket, reads as itself.
pub proof fn lemma_parse_key_function(names: KeyNames, f: Format, pre: Seq<char>, num: int, post: Seq<char>)
    requires
        names.user().len() == 0,
        key_end(post),
        -ARG_MAX <= num <= ARG_MAX,
    ensures
        parse_key(
            pre + (seq![if f.lowerspace { 'f' } else { 'F' }] + dec(num)) + post,
            pre.len() as int,
            f,
            names,
        ) == Some((
            Event::Function { num: num as isize, mods: KeyMod { ctrl: false, alt: false, shift: false } },
            (pre.len() + 1 + dec(num).len()) as int,
        )),
{
    let fc = if f.lowerspace { 'f' } else { 'F' };
    let text = pre + (seq![fc] + dec(num)) + post;
    let q = pre.len() as int;
    let n: nat = if num < 0 { (-num) as nat } else { num as nat };
    lemma_digits_are_digits(n);
    assert(text =~= (pre + seq![fc]) + dec(num) + post);
    assert(text[q] == fc);
    assert(text[q + 1] == dec(num)[0]);
    assert(text[q + 1] == '-' || is_digit(text[q + 1]));
    assert forall|nm: Seq<char>| #[trigger] plain_name(nm) implies !matches_at(nm, text, q) by {
        if matches_at(nm, text, q) {
            assert(text.subrange(q, q + nm.len())[1] == nm[1]);
        }
    }
    lemma_lookup_none(names, f.lowerspace, text, q);
    lemma_parse_dec(pre + seq![fc], num, post);
}

/// A builtin name, followed by nothing or a bracket, reads as its symbol.
pub proof fn lemma_parse_key_sym(names: KeyNames, f: Format, pre: Seq<char>, s: Sym, post: Seq<char>)
    requires
        names.user().len() == 0,
        key_end(post),
        builtin_name(s) is Some,
    ensures
        parse_key(pre + styled(builtin_name(s).unwrap(), f.lowerspace) + post, pre.len() as int, f, names)
            == Some((
            Event::KeySym { sym: s, mods: KeyMod { ctrl: false, alt: false, shift: false } },
            (pre.len() + styled(builtin_name(s).unwrap(), f.lowerspace).len()) as int,
        )),
{
    let k = styled(builtin_name(s).unwrap(), f.lowerspace);
    let text = pre + k + post;
    let q = pre.len() as int;
    lemma_matches_front(k, post);
    lemma_matches_in(k, pre, k + post, 0);
    assert(text =~= pre + (k + post));
    lemma_builtin_name(s);
    if post.len() > 0 {
        assert(text[text.len() - 1] == '>');
    }
    lemma_lookup_name(names, f.lowerspace, s, text, q);
}


/// No name of the shape of builtin names is written where `Mo` and then `u`
/// or `d` are.
proof fn lemma_no_name_at_mo(text: Seq<char>, q: int)
    requires
        0 <= q,
        q + 3 <= text.len(),
        text[q] == 'M',
        text[q + 1] == 'o',
        text[q + 2] == 'u' || text[q + 2] == 'd',
    ensures
        forall|n: Seq<char>| #[trigger] plain_name(n) ==> !matches_at(n, text, q),
{
    assert forall|n: Seq<char>| #[trigger] plain_name(n) implies !matches_at(n, text, q) by {
        if matches_at(n, text, q) {
            let sub = text.subrange(q, q + n.len());
            assert(sub[0] == n[0]);
            assert(sub[1] == n[1]);
            if n.len() >= 3 {
                assert(sub[2] == n[2]);
            }
        }
    }
}

/// The name of what a mouse report says happened reads back.
proof fn lemma_parse_mouse_ev(pre: Seq<char>, ev: MouseEvent, post: Seq<char>)
    ensures
        parse_mouse_ev(pre + mouse_ev_name(ev) + post, pre.len() as int) == Some((
            ev,
            (pre.len() + mouse_ev_name(ev).len()) as int,
        )),
{
    reveal_strlit("Unknown");
    reveal_strlit("Press");
    reveal_strlit("Drag");
    reveal_strlit("Release");
    let name = mouse_ev_name(ev);
    let text = pre + name + post;
    let q = pre.len() as int;
    lemma_matches_front(name, post);
    lemma_matches_in(name, pre, name + post, 0);
    assert(text =~= pre + (name + post));
    assert(text[q] == name[0]);
    if matches_at("Unknown"@, text, q) {
        assert(text.subrange(q, q + 7)[0] == text[q]);
    }
    if matches_at("Press"@, text, q) {
        assert(text.subrange(q, q + 5)[0] == text[q]);
    }
    if matches_at("Drag"@, text, q) {
        assert(text.subrange(q, q + 4)[0] == text[q]);
    }
}

/// The position suffix of a mouse report reads back.
proof fn lemma_parse_mouse_pos(pre: Seq<char>, col: int, line: int, post: Seq<char>)
    requires
        -ARG_MAX <= col <= ARG_MAX,
        -ARG_MAX <= line <= ARG_MAX,
    ensures
        parse_mouse_pos(pre + (" @ ("@ + dec(col) + seq![','] + dec(line) + seq![')']) + post, pre.len() as int)
            == Some((col as i64, line as i64, (pre.len() + 4 + dec(col).len() + 1 + dec(line).len() + 1) as int)),
{
    reveal_strlit(" @ (");
    let sfx = " @ ("@ + dec(col) + seq![','] + dec(line) + seq![')'];
    let text = pre + sfx + post;
    let q = pre.len() as int;
    lemma_matches_front(" @ ("@, dec(col) + seq![','] + dec(line) + seq![')'] + post);
    lemma_matches_in(" @ ("@, pre, " @ ("@ + (dec(col) + seq![','] + dec(line) + seq![')'] + post), 0);
    assert(text =~= pre + (" @ ("@ + (dec(col) + seq![','] + dec(line) + seq![')'] + post)));
    let head1 = pre + " @ ("@;
    assert(text =~= head1 + dec(col) + (seq![','] + dec(line) + seq![')'] + post));
    lemma_parse_dec(head1, col, seq![','] + dec(line) + seq![')'] + post);
    let k1 = (head1.len() + dec(col).len()) as int;
    assert(text[k1] == ',');
    let head2 = head1 + dec(col) + seq![','];
    assert(text =~= head2 + dec(line) + (seq![')'] + post));
    lemma_parse_dec(head2, line, seq![')'] + post);
    let k2 = (head2.len() + dec(line).len()) as int;
    assert(text[k2] == ')');
    assert(char_at(text, k1, ','));
    assert(char_at(text, k2, ')'));
}

/// What follows `Mouse` in a report written with its position reads back.
#[verifier::rlimit(100)]
#[verifier::spinoff_prover]
proof fn lemma_parse_mouse_body(f: Format, pre: Seq<char>, ev: MouseEvent, button: int, line: int, col: int, post: Seq<char>)
    requires
        f.mouse_pos,
        -ARG_MAX <= button <= ARG_MAX,
        -ARG_MAX <= line <= ARG_MAX,
        -ARG_MAX <= col <= ARG_MAX,
    ensures
        ({
            let body = mouse_ev_name(ev) + seq!['('] + dec(button) + seq![')'] + (" @ ("@ + dec(col) + seq![','] + dec(line) + seq![')']);
            parse_mouse(pre + body + post, pre.len() as int, f) == Some((
                Event::Mouse {
                    ev,
                    mods: KeyMod { ctrl: false, alt: false, shift: false },
                    button: button as isize,
                    line: line as isize,
                    col: col as isize,
                },
                (pre.len() + body.len()) as int,
            ))
        }),
{
    let pos = " @ ("@ + dec(col) + seq![','] + dec(line) + seq![')'];
    let body = mouse_ev_name(ev) + seq!['('] + dec(button) + seq![')'] + pos;
    let text = pre + body + post;
    assert(text =~= pre + mouse_ev_name(ev) + (seq!['('] + dec(button) + seq![')'] + pos + post));
    lemma_parse_mouse_ev(pre, ev, seq!['('] + dec(button) + seq![')'] + pos + post);
    let k0 = (pre.len() + mouse_ev_name(ev).len()) as int;
    assert(text[k0] == '(');
    let head1 = pre + mouse_ev_name(ev) + seq!['('];
    assert(text =~= head1 + dec(button) + (seq![')'] + pos + post));
    lemma_parse_dec(head1, button, seq![')'] + pos + post);
    let k1 = (head1.len() + dec(button).len()) as int;
    assert(text[k1] == ')');
    let head2 = head1 + dec(button) + seq![')'];
    assert(text =~= head2 + pos + post);
    lemma_parse_mouse_pos(head2, col, line, post);
    reveal_strlit(" @ (");
    assert(pos.len() == 4 + dec(col).len() + 1 + dec(line).len() + 1);
    assert(head2.len() + pos.len() == pre.len() + body.len());
    assert(char_at(text, k0, '('));
    assert(char_at(text, k1, ')'));
    let r = parse_mouse_pos(text, k1 + 1).unwrap();
    assert(r.0 as isize == col as isize && r.1 as isize == line as isize);
}

/// A mouse report written with its position, followed by nothing or a
/// bracket, reads as itself.
#[verifier::spinoff_prover]
#[verifier::rlimit(100)]
pub proof fn lemma_parse_key_mouse(
    names: KeyNames,
    f: Format,
    pre: Seq<char>,
    ev: MouseEvent,
    button: int,
    line: int,
    col: int,
    post: Seq<char>,
)
    requires
        names.user().len() == 0,
        key_end(post),
        f.mouse_pos,
        -ARG_MAX <= button <= ARG_MAX,
        -ARG_MAX <= line <= ARG_MAX,
        -ARG_MAX <= col <= ARG_MAX,
    ensures
        ({
            let k = "Mouse"@ + mouse_ev_name(ev) + seq!['('] + dec(button) + seq![')'] + (" @ ("@ + dec(col) + seq![','] + dec(line) + seq![')']);
            parse_key(pre + k + post, pre.len() as int, f, names) == Some((
                Event::Mouse {
                    ev,
                    mods: KeyMod { ctrl: false, alt: false, shift: false },
                    button: button as isize,
                    line: line as isize,
                    col: col as isize,
                },
                (pre.len() + k.len()) as int,
            ))
        }),
{
    reveal_strlit("Mouse");
    let body = mouse_ev_name(ev) + seq!['('] + dec(button) + seq![')'] + (" @ ("@ + dec(col) + seq![','] + dec(line) + seq![')']);
    let k = "Mouse"@ + mouse_ev_name(ev) + seq!['('] + dec(button) + seq![')'] + (" @ ("@ + dec(col) + seq![','] + dec(line) + seq![')']);
    assert(k =~= "Mouse"@ + body);
    let text = pre + k + post;
    let q = pre.len() as int;
    lemma_matches_front("Mouse"@, body + post);
    lemma_matches_in("Mouse"@, pre, "Mouse"@ + (body + post), 0);
    assert(text =~= pre + ("Mouse"@ + (body + post)));
    assert(text[q] == 'M' && text[q + 1] == 'o' && text[q + 2] == 'u');
    lemma_no_name_at_mo(text, q);
    lemma_lookup_none(names, f.lowerspace, text, q);
    assert(text =~= (pre + "Mouse"@) + body + post);
    lemma_parse_mouse_body(f, pre + "Mouse"@, ev, button, line, col, post);
}

/// A mode report, followed by nothing or a bracket, reads as itself.
#[verifier::spinoff_prover]
#[verifier::rlimit(100)]
pub proof fn lemma_parse_key_mode(
    names: KeyNames,
    f: Format,
    pre: Seq<char>,
    initial: int,
    mode: int,
    value: int,
    post: Seq<char>,
)
    requires
        names.user().len() == 0,
        key_end(post),
        initial == 0 || initial == 0x3f,
        -ARG_MAX <= mode <= ARG_MAX,
        -ARG_MAX <= value <= ARG_MAX,
    ensures
        ({
            let k = "Mode("@ + (if initial != 0 { seq!['?'] } else { seq![] }) + dec(mode) + seq!['='] + dec(value) + seq![')'];
            parse_key(pre + k + post, pre.len() as int, f, names) == Some((
                Event::ModeReport { initial: initial as isize, mode: mode as isize, value: value as isize },
                (pre.len() + k.len()) as int,
            ))
        }),
{
    reveal_strlit("Mode(");
    reveal_strlit("Mouse");
    let qm: Seq<char> = if initial != 0 { seq!['?'] } else { seq![] };
    let body = qm + dec(mode) + seq!['='] + dec(value) + seq![')'];
    let k = "Mode("@ + qm + dec(mode) + seq!['='] + dec(value) + seq![')'];
    let text = pre + k + post;
    let q = pre.len() as int;
    assert(k =~= "Mode("@ + body);
    lemma_matches_front("Mode("@, body + post);
    lemma_matches_in("Mode("@, pre, "Mode("@ + (body + post), 0);
    assert(text =~= pre + ("Mode("@ + (body + post)));
    assert(text[q] == 'M' && text[q + 1] == 'o' && text[q + 2] == 'd');
    lemma_no_name_at_mo(text, q);
    lemma_lookup_none(names, f.lowerspace, text, q);
    if matches_at("Mouse"@, text, q) {
        assert(text.subrange(q, q + 5)[2] == text[q + 2]);
    }
    assert(text =~= (pre + "Mode("@) + body + post);
    lemma_parse_mode_body(pre + "Mode("@, initial, mode, value, post);
}

/// What follows `Mode(` in a mode report reads back.
#[verifier::rlimit(100)]
#[verifier::spinoff_prover]
proof fn lemma_parse_mode_body(head0: Seq<char>, initial: int, mode: int, value: int, post: Seq<char>)
    requires
        initial == 0 || initial == 0x3f,
        -ARG_MAX <= mode <= ARG_MAX,
        -ARG_MAX <= value <= ARG_MAX,
    ensures
        ({
            let body = (if initial != 0 { seq!['?'] } else { seq![] }) + dec(mode) + seq!['='] + dec(value) + seq![')'];
            parse_mode(head0 + body + post, head0.len() as int) == Some((
                Event::ModeReport { initial: initial as isize, mode: mode as isize, value: value as isize },
                (head0.len() + body.len()) as int,
            ))
        }),
{
    let qm: Seq<char> = if initial != 0 { seq!['?'] } else { seq![] };
    let body = qm + dec(mode) + seq!['='] + dec(value) + seq![')'];
    let text = head0 + body + post;
    let n_mode: nat = if mode < 0 { (-mode) as nat } else { mode as nat };
    lemma_digits_are_digits(n_mode);
    if initial != 0 {
        assert(text[head0.len() as int] == '?');
    } else {
        assert(text[head0.len() as int] == dec(mode)[0]);
    }
    let head1 = head0 + qm;
    assert(text =~= head1 + dec(mode) + (seq!['='] + dec(value) + seq![')'] + post));
    lemma_parse_dec(head1, mode, seq!['='] + dec(value) + seq![')'] + post);
    let k1 = (head1.len() + dec(mode).len()) as int;
    assert(text[k1] == '=');
    let head2 = head1 + dec(mode) + seq!['='];
    assert(text =~= head2 + dec(value) + (seq![')'] + post));
    lemma_parse_dec(head2, value, seq![')'] + post);
    let k2 = (head2.len() + dec(value).len()) as int;
    assert(text[k2] == ')');
    assert(char_at(text, k1, '='));
    assert(char_at(text, k2, ')'));
}


/// The events that read back from their text as themselves: characters with
/// their own encoding, function keys and mode reports within the range of
/// decoded parameters, builtin named keys, and mouse reports where the style
/// writes their position. A cursor position report and a sequence of unknown
/// meaning are written without their contents, and a mouse report without
/// its position in the other styles.
pub open spec fn writable(e: Event, f: Format) -> bool {
    match e {
        Event::Unicode { codepoint, utf8, .. } => utf8 == utf8_of(codepoint),
        Event::Function { num, .. } => -ARG_MAX <= num <= ARG_MAX,
        Event::KeySym { sym, .. } => builtin_name(sym) is Some,
        Event::Mouse { button, line, col, .. } => f.mouse_pos && -ARG_MAX <= button <= ARG_MAX && -ARG_MAX
            <= line <= ARG_MAX && -ARG_MAX <= col <= ARG_MAX,
        Event::ModeReport { initial, mode, value } => (initial == 0 || initial == 0x3f) && -ARG_MAX <= mode
            <= ARG_MAX && -ARG_MAX <= value <= ARG_MAX,
        _ => false,
    }
}

/// An event without its modifiers.
pub open spec fn bare(e: Event) -> Event {
    with_mods(e, KeyMod { ctrl: false, alt: false, shift: false })
}

/// The key of a writable event reads back as the event without modifiers.
proof fn lemma_parse_key_any(names: KeyNames, e: Event, f: Format, pre: Seq<char>, post: Seq<char>)
    requires
        names.user().len() == 0,
        writable(e, f),
        key_end(post),
    ensures
        parse_key(pre + key_text(e, f, names) + post, pre.len() as int, f, names) == Some((
            bare(e),
            (pre.len() + key_text(e, f, names).len()) as int,
        )),
{
    assert(names.name_of(Sym::UNKNOWN) == builtin_name(Sym::UNKNOWN));
    match e {
        Event::Unicode { codepoint, .. } => {
            lemma_parse_key_char(names, f, pre, codepoint, post);
        },
        Event::Function { num, .. } => {
            lemma_parse_key_function(names, f, pre, num as int, post);
        },
        Event::KeySym { sym, .. } => {
            assert(names.name_of(sym) == builtin_name(sym));
            lemma_parse_key_sym(names, f, pre, sym, post);
        },
        Event::Mouse { ev, button, line, col, .. } => {
            lemma_parse_key_mouse(names, f, pre, ev, button as int, line as int, col as int, post);
        },
        Event::ModeReport { initial, mode, value } => {
            lemma_parse_key_mode(names, f, pre, initial as int, mode as int, value as int, post);
        },
        _ => {},
    }
}

/// No modifier name is written where the key of a writable event begins.
#[verifier::spinoff_prover]
proof fn lemma_no_mod_at_key(names: KeyNames, e: Event, f: Format, post: Seq<char>)
    requires
        names.user().len() == 0,
        writable(e, f),
        key_end(post),
    ensures
        no_mod_at(key_text(e, f, names) + post, f),
{
    lemma_mod_names(f);
    reveal_strlit("Mouse");
    reveal_strlit("Mode(");
    let k = key_text(e, f, names);
    let t = k + post;
    assert forall|w: int| 0 <= w < 3 implies !#[trigger] matches_at(mod_part(f, w), t, 0) by {
        let x = mod_part(f, w);
        let nm = if w == 0 { shift_name(f) } else if w == 1 { alt_name(f) } else { ctrl_name(f) };
        assert(x == nm.push(sep_char(f)));
        if matches_at(x, t, 0) {
            let sub = t.subrange(0, x.len() as int);
            assert(sub[0] == t[0]);
            assert(x[0] == nm[0]);
            assert(sub[nm.len() as int] == sep_char(f));
            match e {
                Event::Unicode { .. } => {
                    assert(t.len() <= 2);
                    assert(t[1] == '>');
                },
                Event::Function { .. } => {
                    assert(t[0] == k[0]);
                },
                Event::KeySym { sym, .. } => {
                    assert(names.name_of(sym) == builtin_name(sym));
                    lemma_builtin_name(sym);
                    let n = k;
                    assert(t[0] == n[0]);
                    if nm.len() < n.len() {
                        assert(t[nm.len() as int] == n[nm.len() as int]);
                    } else if nm.len() == n.len() {
                        assert(t[nm.len() as int] == '>');
                    } else {
                        assert(t[n.len() as int] == '>');
                        assert(sub[n.len() as int] == nm[n.len() as int]);
                    }
                },
                Event::Mouse { .. } => {
                    assert(t[0] == 'M' && t[1] == 'o');
                    assert(sub[1] == t[1]);
                },
                Event::ModeReport { .. } => {
                    assert(t[0] == 'M' && t[1] == 'o');
                    assert(sub[1] == t[1]);
                },
                _ => {},
            }
        }
    }
    assert(mod_part(f, 0) == shift_name(f).push(sep_char(f)));
    assert(mod_part(f, 1) == alt_name(f).push(sep_char(f)));
    assert(mod_part(f, 2) == ctrl_name(f).push(sep_char(f)));
    assert(!matches_at(mod_part(f, 0), t, 0));
    assert(!matches_at(mod_part(f, 1), t, 0));
    assert(!matches_at(mod_part(f, 2), t, 0));
}

/// The modifiers and key of a writable event read back as the event.
proof fn lemma_parse_modded_any(names: KeyNames, e: Event, f: Format, pre: Seq<char>, post: Seq<char>)
    requires
        names.user().len() == 0,
        writable(e, f),
        key_end(post),
    ensures
        parse_modded(pre + mods_text(mods_of(e), f) + key_text(e, f, names) + post, pre.len() as int, f, names)
            == Some((e, (pre.len() + mods_text(mods_of(e), f).len() + key_text(e, f, names).len()) as int)),
{
    let m = mods_of(e);
    let mt = mods_text(m, f);
    let k = key_text(e, f, names);
    let text = pre + mt + k + post;
    lemma_no_mod_at_key(names, e, f, post);
    assert(text =~= pre + mt + (k + post));
    lemma_parse_mods(pre, m, f, k + post);
    lemma_parse_key_any(names, e, f, pre + mt, post);
    assert(with_mods(bare(e), m) == e);
}

/// A Ctrl key in caret notation reads back as itself.
#[verifier::spinoff_prover]
proof fn lemma_parse_caret(names: KeyNames, e: Event, f: Format)
    requires
        names.user().len() == 0,
        writable(e, f),
        caret_text(e, f) is Some,
    ensures
        parse_text(caret_text(e, f).unwrap(), f, names) == Some((e, 2int)),
{
    let t = caret_text(e, f).unwrap();
    let g = Format { caretctrl: false, ..f };
    let x = t[1];
    assert(t =~= seq!['^'] + seq![x] + seq![]);
    lemma_mod_names(g);
    assert forall|w: int| 0 <= w < 3 implies !#[trigger] matches_at(mod_part(g, w), t, 1) by {
        let nm = if w == 0 { shift_name(g) } else if w == 1 { alt_name(g) } else { ctrl_name(g) };
        assert(mod_part(g, w) == nm.push(sep_char(g)));
    }
    assert(!matches_at(shift_name(g).push(sep_char(g)), t, 1)) by {
        assert(mod_part(g, 0) == shift_name(g).push(sep_char(g)));
    }
    assert(!matches_at(alt_name(g).push(sep_char(g)), t, 1)) by {
        assert(mod_part(g, 1) == alt_name(g).push(sep_char(g)));
    }
    assert(!matches_at(ctrl_name(g).push(sep_char(g)), t, 1)) by {
        assert(mod_part(g, 2) == ctrl_name(g).push(sep_char(g)));
    }
    let none = KeyMod { ctrl: false, alt: false, shift: false };
    assert(parse_mods(t, 1, g, none) == (none, 1int));
    lemma_parse_key_char(names, g, seq!['^'], x, seq![]);
    assert(parse_modded(t, 1, g, names) == Some((unicode_event(x, none), 2int)));
    assert(x != '<');
}

/// A writable event in brackets reads back as itself.
#[verifier::spinoff_prover]
proof fn lemma_parse_wrapped(e: Event, f: Format, names: KeyNames)
    requires
        names.user().len() == 0,
        writable(e, f),
        caret_text(e, f) is None,
        wraps(e, f),
    ensures
        parse_plain(format_text(e, f, names), 0, f, names) == Some((e, format_text(e, f, names).len() as int)),
{
    let mt = mods_text(mods_of(e), f);
    let k = key_text(e, f, names);
    let text = format_text(e, f, names);
    let pre: Seq<char> = seq!['<'];
    let post: Seq<char> = seq!['>'];
    assert(text == seq!['<'] + mt + k + seq!['>']);
    assert(text =~= pre + mt + k + post);
    lemma_parse_modded_any(names, e, f, pre, post);
    assert(text[text.len() - 1] == '>');
    assert(char_at(text, (pre.len() + mt.len() + k.len()) as int, '>'));
    assert(text[0] == '<');
}

/// A writable event outside brackets reads back as itself.
#[verifier::spinoff_prover]
proof fn lemma_parse_unwrapped(e: Event, f: Format, names: KeyNames)
    requires
        names.user().len() == 0,
        writable(e, f),
        caret_text(e, f) is None,
        !wraps(e, f),
    ensures
        parse_plain(format_text(e, f, names), 0, f, names) == Some((e, format_text(e, f, names).len() as int)),
{
    let mt = mods_text(mods_of(e), f);
    let k = key_text(e, f, names);
    let text = format_text(e, f, names);
    let pre: Seq<char> = seq![];
    let post: Seq<char> = seq![];
    assert(text == mt + k);
    assert(text =~= pre + mt + k + post);
    lemma_parse_modded_any(names, e, f, pre, post);
    if f.wrapbracket && char_at(text, 0, '<') {
        assert(mt.len() == 0);
        assert(text.len() == 1);
        assert(parse_modded(text, 1, f, names) is None);
    }
}

/// The text of a writable event reads back as the same event, and the whole
/// text is taken.
pub proof fn lemma_parse_format(e: Event, f: Format, names: KeyNames)
    requires
        names.user().len() == 0,
        writable(e, f),
    ensures
        parse_text(format_text(e, f, names), f, names) == Some((e, format_text(e, f, names).len() as int)),
{
    if caret_text(e, f) is Some {
        lemma_parse_caret(names, e, f);
    } else {
        lemma_first_char(names, e, f);
        if wraps(e, f) {
            lemma_parse_wrapped(e, f, names);
        } else {
            lemma_parse_unwrapped(e, f, names);
        }
    }
}

/// The text of a writable event not in caret notation does not start with
/// `^` unless it is that one character.
proof fn lemma_first_char(names: KeyNames, e: Event, f: Format)
    requires
        names.user().len() == 0,
        writable(e, f),
        caret_text(e, f) is None,
    ensures
        format_text(e, f, names).len() >= 2 ==> format_text(e, f, names)[0] != '^',
{
    let text = format_text(e, f, names);
    let m = mods_of(e);
    let mt = mods_text(m, f);
    let k = key_text(e, f, names);
    lemma_mod_names(f);
    reveal_strlit("Mouse");
    reveal_strlit("Mode(");
    if !wraps(e, f) && text.len() >= 2 {
        assert(text =~= mt + k);
        if mt.len() > 0 {
            assert(text[0] == mt[0]);
        } else {
            assert(text[0] == k[0]);
            match e {
                Event::KeySym { sym, .. } => {
                    assert(names.name_of(sym) == builtin_name(sym));
                    lemma_builtin_name(sym);
                },
                _ => {},
            }
        }
    }
}

/// Writing a key and reading the text back gives the key again, up to the
/// normalisation that both sides apply: the left-inverse law of the text
/// form, for the events that `writable` admits and the builtin key names.
pub proof fn lemma_round_trip(e: Event, f: Format, names: KeyNames, c: Canon)
    requires
        names.user().len() == 0,
        writable(e, f),
    ensures
        parse_text(format_text(e, f, names), f, names) is Some,
        canonical(parse_text(format_text(e, f, names), f, names).unwrap().0, c) == canonical(e, c),
        parse_text(format_text(e, f, names), f, names).unwrap().1 == format_text(e, f, names).len(),
{
    lemma_parse_format(e, f, names);
}


/// What holds of every event the decoder gives: a character carries its own
/// encoding, a named key is a builtin one, and the numbers of function keys,
/// mouse reports and mode reports lie in the range of decoded parameters.
pub open spec fn decodable(e: Event) -> bool {
    match e {
        Event::Unicode { codepoint, utf8, .. } => utf8 == utf8_of(codepoint),
        Event::Function { num, .. } => -ARG_MAX <= num <= ARG_MAX,
        Event::KeySym { sym, .. } => builtin_name(sym) is Some,
        Event::Mouse { button, line, col, .. } => -ARG_MAX <= button <= ARG_MAX && -ARG_MAX <= line <= ARG_MAX
            && -ARG_MAX <= col <= ARG_MAX,
        Event::ModeReport { initial, mode, value } => (initial == 0 || initial == 0x3f) && -ARG_MAX <= mode
            <= ARG_MAX && -ARG_MAX <= value <= ARG_MAX,
        _ => true,
    }
}

/// Parameters lie between -1 and `ARG_MAX`.
pub open spec fn args_bounded(args: Seq<i64>) -> bool {
    forall|k: int| 0 <= k < args.len() ==> -1 <= #[trigger] args[k] <= ARG_MAX
}

/// Reading parameter bytes keeps every parameter in range.
pub proof fn lemma_param_scan_bounded(b: Seq<u8>, from: int, to: int)
    ensures
        args_bounded(param_scan(b, from, to).args),
        -1 <= param_scan(b, from, to).cur <= ARG_MAX,
    decreases to - from,
{
    if to > from {
        lemma_param_scan_bounded(b, from, to - 1);
        let st = param_scan(b, from, to - 1);
        let c = b[to - 1];
        if c == 0x3b && st.inter == 0 {
            assert(st.args.push(st.cur)[st.args.len() as int] == st.cur);
            assert(args_bounded(st.args.push(st.cur)));
        }
    }
}

/// The parameters of a sequence lie in range.
pub proof fn lemma_params_bounded(b: Seq<u8>, p: int, j: int)
    ensures
        args_bounded(params_of(b, p, j).args),
{
    let st = param_scan(b, if initial_of(b, p, j) != 0 { p + 1 } else { p }, j);
    lemma_param_scan_bounded(b, if initial_of(b, p, j) != 0 { p + 1 } else { p }, j);
    assert(args_bounded(st.args.push(st.cur)));
}

/// The events of complete sequences are decodable.
pub proof fn lemma_csi_event_decodable(cmd: u8, initial: u8, inter: u8, args: Seq<i64>)
    requires
        args_bounded(args),
    ensures
        csi_event(cmd, initial, inter, args) is Some ==> decodable(csi_event(cmd, initial, inter, args).unwrap()),
{
    if args.len() >= 1 {
        assert(-1 <= args[0] <= ARG_MAX);
    }
    if args.len() >= 2 {
        assert(-1 <= args[1] <= ARG_MAX);
    }
    if args.len() >= 3 {
        assert(-1 <= args[2] <= ARG_MAX);
    }
}

/// Every key the decoder finds is decodable.
pub proof fn lemma_peek_decodable(b: Seq<u8>, s: int, f: Flag, force: bool)
    ensures
        peek(b, s, f, force) is Key ==> decodable(peek(b, s, f, force)->Key_0),
    decreases b.len() - s,
{
    if s < b.len() && b[s] == 0x1b && s + 1 < b.len() {
        if b[s + 1] == 0x5b {
            lemma_params_bounded(b, s + 2, find_final(b, s + 2));
            let j = find_final(b, s + 2);
            let ps = params_of(b, s + 2, j);
            lemma_csi_event_decodable(b[j], initial_of(b, s + 2, j), ps.inter, ps.args);
        } else if b[s + 1] == 0x4f {
        } else {
            lemma_peek_decodable(b, s + 1, f, force);
        }
    }
}

/// Normalising keeps an event decodable.
pub proof fn lemma_canonical_decodable(e: Event, c: Canon)
    requires
        decodable(e),
    ensures
        decodable(canonical(e, c)),
{
}

/// Every event the decoder gives reads back from its text in every style,
/// but for a cursor position report, a sequence of unknown meaning, and a
/// mouse report in a style that leaves out its position.
pub proof fn lemma_decoded_round_trip(b: Seq<u8>, f: Flag, force: bool, c: Canon, style: Format, names: KeyNames)
    requires
        names.user().len() == 0,
        peek(b, 0, f, force) is Key,
        ({
            let e = canonical(peek(b, 0, f, force)->Key_0, c);
            !(e is Position) && !(e is UnknownCsi) && (e is Mouse ==> style.mouse_pos)
        }),
    ensures
        ({
            let e = canonical(peek(b, 0, f, force)->Key_0, c);
            &&& parse_text(format_text(e, style, names), style, names) is Some
            &&& canonical(parse_text(format_text(e, style, names), style, names).unwrap().0, c) == canonical(e, c)
        }),
{
    lemma_peek_decodable(b, 0, f, force);
    let e = canonical(peek(b, 0, f, force)->Key_0, c);
    lemma_canonical_decodable(peek(b, 0, f, force)->Key_0, c);
    lemma_round_trip(e, style, names, c);
}

} // verus!
