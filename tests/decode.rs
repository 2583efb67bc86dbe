use termkey::{Canon, DecodeError, Event, Flag, KeyMod, MouseEvent, Result, Sym, TermKey, Type};

fn decoder() -> TermKey {
    TermKey::new_abstract("xterm", Flag::empty())
}

fn none() -> KeyMod {
    KeyMod::empty()
}

fn key(r: Result) -> Event {
    match r {
        Result::Key(e) => e,
        _ => panic!("expected a key"),
    }
}

fn is_char(e: Event, c: char, mods: KeyMod) -> bool {
    match e {
        Event::Unicode { codepoint, mods: m, .. } => codepoint == c && m == mods,
        _ => false,
    }
}

#[test]
fn lone_escape_is_ambiguous_until_forced() {
    let mut tk = decoder();
    assert_eq!(tk.push_bytes(b"\x1b"), 1);
    assert_eq!(tk.getkey(), Result::Again { wait_ms: 50 });
    assert_eq!(tk.get_buffer_remaining(), 255);
    let e = key(tk.getkey_force());
    assert_eq!(e, Event::KeySym { sym: Sym::ESCAPE, mods: none() });
    assert_eq!(tk.getkey(), Result::None_);
}

#[test]
fn x10_mouse_press() {
    let mut tk = decoder();
    tk.push_bytes(b"\x1b[M !!");
    let e = key(tk.getkey());
    assert_eq!(
        e,
        Event::Mouse { ev: MouseEvent::PRESS, mods: none(), button: 1, line: 1, col: 1 }
    );
}

#[test]
fn sgr_mouse_release_with_ctrl() {
    let mut tk = decoder();
    tk.push_bytes(b"\x1b[<18;40;12m");
    let e = key(tk.getkey());
    let ctrl = KeyMod { ctrl: true, alt: false, shift: false };
    assert_eq!(
        e,
        Event::Mouse { ev: MouseEvent::RELEASE, mods: ctrl, button: 3, line: 12, col: 40 }
    );
}

#[test]
fn mouse_position_is_clamped() {
    let mut tk = decoder();
    tk.push_bytes(b"\x1b[<0;5000;3000M");
    let e = key(tk.getkey());
    assert_eq!(
        e,
        Event::Mouse { ev: MouseEvent::PRESS, mods: none(), button: 1, line: 0x7ff, col: 0xfff }
    );
}

#[test]
fn unknown_csi_is_not_an_error() {
    let mut tk = decoder();
    tk.push_bytes(b"\x1b[1;2z");
    assert_eq!(tk.getkey(), Result::Key(Event::UnknownCsi));
    assert_eq!(tk.get_buffer_remaining(), 256);
}

#[test]
fn utf8_character() {
    let mut tk = decoder();
    tk.push_bytes(&[0xc3, 0xa9]);
    let e = key(tk.getkey());
    assert!(is_char(e, 'é', none()));
    match e {
        Event::Unicode { utf8, .. } => assert_eq!(utf8.to_bytes(), vec![0xc3, 0xa9]),
        _ => panic!("expected a character"),
    }
    assert_eq!(tk.getkey(), Result::None_);
}

#[test]
fn raw_bytes_are_one_character_each() {
    let mut flags = Flag::empty();
    flags.raw = true;
    let mut tk = TermKey::new_abstract("xterm", flags);
    tk.push_bytes(&[0xc3, 0xa9]);
    assert!(is_char(key(tk.getkey()), '\u{c3}', none()));
    assert!(is_char(key(tk.getkey()), '\u{a9}', none()));
    assert_eq!(tk.getkey(), Result::None_);
}

#[test]
fn capacity_limits_push() {
    let mut tk = decoder();
    assert_eq!(tk.set_buffer_size(4), 1);
    assert_eq!(tk.push_bytes(b"abcdef"), 4);
    assert_eq!(tk.get_buffer_remaining(), 0);
    assert_eq!(tk.push_bytes(b"ef"), 0);
    assert!(is_char(key(tk.getkey()), 'a', none()));
    assert_eq!(tk.push_bytes(b"ef"), 1);
    assert!(is_char(key(tk.getkey()), 'b', none()));
    assert!(is_char(key(tk.getkey()), 'c', none()));
    assert!(is_char(key(tk.getkey()), 'd', none()));
    assert!(is_char(key(tk.getkey()), 'e', none()));
    assert_eq!(tk.getkey(), Result::None_);
}

#[test]
fn buffer_cannot_shrink_below_its_contents() {
    let mut tk = decoder();
    tk.push_bytes(b"abc");
    assert_eq!(tk.set_buffer_size(2), 0);
    assert_eq!(tk.get_buffer_size(), 256);
}

#[test]
fn forced_decoding_always_progresses() {
    let mut tk = decoder();
    tk.push_bytes(b"\x1b[12\x1bO\xe2\x82");
    let mut before = 256 - tk.get_buffer_remaining();
    while before > 0 {
        match tk.getkey_force() {
            Result::Key(_) | Result::Error { .. } => {}
            _ => panic!("forced decoding must give a key or an error"),
        }
        let after = 256 - tk.get_buffer_remaining();
        assert!(after < before);
        before = after;
    }
}

#[test]
fn incomplete_csi_forced_is_alt_bracket() {
    let mut tk = decoder();
    tk.push_bytes(b"\x1b[");
    assert_eq!(tk.getkey(), Result::Again { wait_ms: 50 });
    let alt = KeyMod { ctrl: false, alt: true, shift: false };
    assert!(is_char(key(tk.getkey_force()), '[', alt));
}

#[test]
fn malformed_utf8_is_dropped_one_byte_at_a_time() {
    let mut tk = decoder();
    tk.push_bytes(&[0x80, b'a']);
    assert_eq!(tk.getkey(), Result::Error { err: DecodeError::MalformedUtf8 });
    assert!(is_char(key(tk.getkey()), 'a', none()));
}

#[test]
fn truncated_utf8_waits_then_fails() {
    let mut tk = decoder();
    tk.push_bytes(&[0xe2, 0x82]);
    assert_eq!(tk.getkey(), Result::Again { wait_ms: 50 });
    assert_eq!(tk.getkey_force(), Result::Error { err: DecodeError::MalformedUtf8 });
    assert_eq!(tk.getkey_force(), Result::Error { err: DecodeError::MalformedUtf8 });
    assert_eq!(tk.getkey(), Result::None_);
}

#[test]
fn overlong_utf8_is_malformed() {
    let mut tk = decoder();
    tk.push_bytes(&[0xc0, 0x80]);
    assert_eq!(tk.getkey(), Result::Error { err: DecodeError::MalformedUtf8 });
}

#[test]
fn four_byte_utf8() {
    let mut tk = decoder();
    tk.push_bytes(&[0xf0, 0x9f, 0x98, 0x80]);
    assert!(is_char(key(tk.getkey()), '\u{1f600}', none()));
}

#[test]
fn control_codes() {
    let mut tk = decoder();
    tk.push_bytes(b"\x01\x09\x0d\x00\x7f\x1c");
    let ctrl = KeyMod { ctrl: true, alt: false, shift: false };
    assert!(is_char(key(tk.getkey()), 'a', ctrl));
    assert_eq!(key(tk.getkey()), Event::KeySym { sym: Sym::TAB, mods: none() });
    assert_eq!(key(tk.getkey()), Event::KeySym { sym: Sym::ENTER, mods: none() });
    assert!(is_char(key(tk.getkey()), ' ', ctrl));
    assert_eq!(key(tk.getkey()), Event::KeySym { sym: Sym::DEL, mods: none() });
    assert!(is_char(key(tk.getkey()), '\\', ctrl));
}

#[test]
fn nointerpret_leaves_control_codes_unnamed() {
    let mut flags = Flag::empty();
    flags.nointerpret = true;
    let mut tk = TermKey::new_abstract("xterm", flags);
    tk.push_bytes(b"\x09");
    let ctrl = KeyMod { ctrl: true, alt: false, shift: false };
    assert!(is_char(key(tk.getkey()), 'i', ctrl));
}

#[test]
fn escape_prefix_adds_alt() {
    let mut tk = decoder();
    tk.push_bytes(b"\x1bx\x1b\x1b[A");
    let alt = KeyMod { ctrl: false, alt: true, shift: false };
    assert!(is_char(key(tk.getkey()), 'x', alt));
    assert_eq!(key(tk.getkey()), Event::KeySym { sym: Sym::UP, mods: alt });
}

#[test]
fn cursor_and_function_keys() {
    let mut tk = decoder();
    tk.push_bytes(b"\x1b[1;5C\x1b[15~\x1b[3~\x1bOP\x1b[Z\x1b[24;2~");
    let ctrl = KeyMod { ctrl: true, alt: false, shift: false };
    let shift = KeyMod { ctrl: false, alt: false, shift: true };
    assert_eq!(key(tk.getkey()), Event::KeySym { sym: Sym::RIGHT, mods: ctrl });
    assert_eq!(key(tk.getkey()), Event::Function { num: 5, mods: none() });
    assert_eq!(key(tk.getkey()), Event::KeySym { sym: Sym::DELETE, mods: none() });
    assert_eq!(key(tk.getkey()), Event::Function { num: 1, mods: none() });
    assert_eq!(key(tk.getkey()), Event::KeySym { sym: Sym::TAB, mods: shift });
    assert_eq!(key(tk.getkey()), Event::Function { num: 12, mods: shift });
}

#[test]
fn keypad_keys_and_conversion() {
    let mut tk = decoder();
    tk.push_bytes(b"\x1bOp\x1bOk");
    assert_eq!(key(tk.getkey()), Event::KeySym { sym: Sym::KP0, mods: none() });
    assert_eq!(key(tk.getkey()), Event::KeySym { sym: Sym::KPPLUS, mods: none() });
    let mut flags = Flag::empty();
    flags.convertkp = true;
    tk.set_flags(flags);
    tk.push_bytes(b"\x1bOp\x1bOM");
    assert!(is_char(key(tk.getkey()), '0', none()));
    assert_eq!(key(tk.getkey()), Event::KeySym { sym: Sym::ENTER, mods: none() });
}

#[test]
fn position_and_mode_reports() {
    let mut tk = decoder();
    tk.push_bytes(b"\x1b[?12;40R\x1b[?1049;1$y\x1b[4;2$y");
    assert_eq!(key(tk.getkey()), Event::Position { line: 12, col: 40 });
    assert_eq!(key(tk.getkey()), Event::ModeReport { initial: 63, mode: 1049, value: 1 });
    assert_eq!(key(tk.getkey()), Event::ModeReport { initial: 0, mode: 4, value: 2 });
}

#[test]
fn eof_after_input_ends() {
    let mut tk = decoder();
    tk.push_bytes(b"a");
    tk.mark_eof();
    assert!(is_char(key(tk.getkey()), 'a', none()));
    assert_eq!(tk.getkey(), Result::Eof);
}

#[test]
fn canonical_flags_shape_space_and_delete() {
    let mut tk = decoder();
    tk.set_canonflags(Canon { spacesymbol: true, delbs: true });
    assert!(tk.get_flags().spacesymbol);
    tk.push_bytes(b" \x7f\x1b[3~");
    assert_eq!(key(tk.getkey()), Event::KeySym { sym: Sym::SPACE, mods: none() });
    assert_eq!(key(tk.getkey()), Event::KeySym { sym: Sym::BACKSPACE, mods: none() });
    assert_eq!(key(tk.getkey()), Event::KeySym { sym: Sym::BACKSPACE, mods: none() });
}

#[test]
fn canonicalize_is_idempotent() {
    let c = Canon { spacesymbol: true, delbs: true };
    let space = key({
        let mut tk = decoder();
        tk.push_bytes(b" ");
        tk.getkey()
    });
    let once = termkey::canonicalize(space, c);
    assert_eq!(once, Event::KeySym { sym: Sym::SPACE, mods: none() });
    assert_eq!(termkey::canonicalize(once, c), once);
    let plain = Canon::empty();
    let back = termkey::canonicalize(once, plain);
    assert!(is_char(back, ' ', none()));
    assert_eq!(termkey::canonicalize(back, plain), back);
}

#[test]
fn settings_round_trip() {
    let mut tk = TermKey::new(3, Flag::empty());
    assert_eq!(tk.get_fd(), 3);
    assert!(!tk.is_started());
    tk.start();
    assert!(tk.is_started());
    tk.stop();
    assert!(!tk.is_started());
    tk.set_waittime(120);
    assert_eq!(tk.get_waittime(), 120);
    tk.push_bytes(b"\x1b");
    assert_eq!(tk.getkey(), Result::Again { wait_ms: 120 });
}

#[test]
fn modifier_bits() {
    let m = KeyMod::from_bits(5);
    assert!(m.shift && !m.alt && m.ctrl);
    assert_eq!(m.bits(), 5);
    assert_eq!(KeyMod::empty().union(m), m);
    assert!(KeyMod::empty() < KeyMod { ctrl: false, alt: false, shift: true });
}

#[test]
fn mouse_drag_wheel_and_release() {
    let mut tk = decoder();
    tk.push_bytes(b"\x1b[<32;1;1M\x1b[<65;2;3M\x1b[M#!!\x1b[<6;9;9M");
    assert_eq!(
        key(tk.getkey()),
        Event::Mouse { ev: MouseEvent::DRAG, mods: none(), button: 1, line: 1, col: 1 }
    );
    assert_eq!(
        key(tk.getkey()),
        Event::Mouse { ev: MouseEvent::PRESS, mods: none(), button: 5, line: 3, col: 2 }
    );
    assert_eq!(
        key(tk.getkey()),
        Event::Mouse { ev: MouseEvent::RELEASE, mods: none(), button: 0, line: 1, col: 1 }
    );
    let shift = KeyMod { ctrl: false, alt: false, shift: true };
    assert_eq!(
        key(tk.getkey()),
        Event::Mouse { ev: MouseEvent::PRESS, mods: shift, button: 3, line: 9, col: 9 }
    );
}

#[test]
fn event_kinds() {
    let mut tk = decoder();
    tk.push_bytes(b"a\x1b[15~\x1b[A\x1b[M !!\x1b[?1;2R\x1b[?1;2$y\x1b[9z");
    let kinds = [
        Type::UNICODE,
        Type::FUNCTION,
        Type::KEYSYM,
        Type::MOUSE,
        Type::POSITION,
        Type::MODEREPORT,
        Type::UNKNOWN_CSI,
    ];
    for k in kinds.iter() {
        assert_eq!(key(tk.getkey()).type_(), *k);
    }
}

#[test]
fn ss3_incomplete_forced_is_alt_o() {
    let mut tk = decoder();
    tk.push_bytes(b"\x1bO");
    assert_eq!(tk.getkey(), Result::Again { wait_ms: 50 });
    let alt = KeyMod { ctrl: false, alt: true, shift: false };
    assert!(is_char(key(tk.getkey_force()), 'O', alt));
}
