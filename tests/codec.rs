use termkey::{Event, Flag, Format, KeyMod, MouseEvent, Sym, TermKey};

fn decoder() -> TermKey {
    TermKey::new_abstract("xterm", Flag::empty())
}

fn mods(shift: bool, alt: bool, ctrl: bool) -> KeyMod {
    KeyMod { shift, alt, ctrl }
}

fn ch(tk: &mut TermKey, c: char, m: KeyMod) -> Event {
    let mut b = [0u8; 4];
    tk.push_bytes(c.encode_utf8(&mut b).as_bytes());
    match tk.getkey() {
        termkey::Result::Key(Event::Unicode { codepoint, utf8, .. }) => {
            Event::Unicode { codepoint, mods: m, utf8 }
        }
        _ => panic!("expected a character"),
    }
}

#[test]
fn format_plain_and_modified_characters() {
    let mut tk = decoder();
    let a = ch(&mut tk, 'a', mods(false, false, false));
    assert_eq!(tk.strfkey(a, Format::empty()), "a");
    let csa = ch(&mut tk, 'a', mods(true, true, true));
    assert_eq!(tk.strfkey(csa, Format::empty()), "S-A-C-a");
    let mut long = Format::empty();
    long.longmod = true;
    assert_eq!(tk.strfkey(csa, long), "Shift-Alt-Ctrl-a");
    assert_eq!(tk.strfkey(csa, Format::vim()), "<S-M-C-a>");
    assert_eq!(tk.strfkey(csa, Format::urwid()), "shift meta ctrl a");
}

#[test]
fn format_caret_control() {
    let mut tk = decoder();
    let ca = ch(&mut tk, 'a', mods(false, false, true));
    let mut caret = Format::empty();
    caret.caretctrl = true;
    assert_eq!(tk.strfkey(ca, caret), "^A");
    assert_eq!(tk.strfkey(ca, Format::empty()), "C-a");
    match tk.strpkey("^A", caret) {
        Some((e, rest)) => {
            assert_eq!(e, ca);
            assert_eq!(rest, "");
        }
        None => panic!("expected a key"),
    }
}

#[test]
fn format_named_and_function_keys() {
    let tk = decoder();
    let esc = Event::KeySym { sym: Sym::ESCAPE, mods: mods(false, false, false) };
    assert_eq!(tk.strfkey(esc, Format::empty()), "Escape");
    assert_eq!(tk.strfkey(esc, Format::vim()), "<Escape>");
    let pgdn = Event::KeySym { sym: Sym::PAGEDOWN, mods: mods(false, true, false) };
    assert_eq!(tk.strfkey(pgdn, Format::urwid()), "meta page down");
    let f12 = Event::Function { num: 12, mods: mods(true, false, false) };
    assert_eq!(tk.strfkey(f12, Format::empty()), "S-F12");
    assert_eq!(tk.strfkey(f12, Format::urwid()), "shift f12");
}

#[test]
fn format_mouse_mode_position_unknown() {
    let tk = decoder();
    let m = Event::Mouse { ev: MouseEvent::PRESS, mods: mods(false, false, false), button: 1, line: 4, col: 7 };
    assert_eq!(tk.strfkey(m, Format::empty()), "MousePress(1)");
    let mut pos = Format::empty();
    pos.mouse_pos = true;
    assert_eq!(tk.strfkey(m, pos), "MousePress(1) @ (7,4)");
    let r = Event::ModeReport { initial: 63, mode: 1049, value: 2 };
    assert_eq!(tk.strfkey(r, Format::empty()), "Mode(?1049=2)");
    let p = Event::Position { line: 3, col: 9 };
    assert_eq!(tk.strfkey(p, Format::empty()), "Position");
    assert_eq!(
        tk.strfkey(Event::UnknownCsi, Format::empty()),
        "unknown csi (stringification not implemented)"
    );
}

#[test]
fn parse_with_remainder() {
    let tk = decoder();
    match tk.strpkey("C-x rest", Format::empty()) {
        Some((e, rest)) => {
            assert_eq!(rest, " rest");
            match e {
                Event::Unicode { codepoint, mods: m, .. } => {
                    assert_eq!(codepoint, 'x');
                    assert_eq!(m, mods(false, false, true));
                }
                _ => panic!("expected a character"),
            }
        }
        None => panic!("expected a key"),
    }
    assert!(tk.strpkey("", Format::empty()).is_none());
}

#[test]
fn parse_longest_name_and_registered_names() {
    let mut tk = decoder();
    let bar = tk.register_keyname(Sym::UNKNOWN, "SpaceBar");
    assert_eq!(bar, Sym::USER(0));
    assert_eq!(tk.get_keyname(bar), Some("SpaceBar"));
    assert_eq!(tk.keyname2sym("SpaceBar"), bar);
    assert_eq!(tk.keyname2sym("Space"), Sym::SPACE);
    assert_eq!(tk.keyname2sym("Spac"), Sym::UNKNOWN);
    let mut sym = Sym::NONE;
    assert_eq!(tk.lookup_keyname("SpaceBar!", &mut sym), Some("!"));
    assert_eq!(sym, bar);
    assert_eq!(tk.lookup_keyname("Space!", &mut sym), Some("!"));
    assert_eq!(sym, Sym::SPACE);
    assert_eq!(tk.lookup_keyname("nothing", &mut sym), None);
    assert_eq!(sym, Sym::SPACE);
}

#[test]
fn parse_styles() {
    let tk = decoder();
    match tk.strpkey("<M-Escape>", Format::vim()) {
        Some((e, rest)) => {
            assert_eq!(e, Event::KeySym { sym: Sym::ESCAPE, mods: mods(false, true, false) });
            assert_eq!(rest, "");
        }
        None => panic!("expected a key"),
    }
    match tk.strpkey("meta page down", Format::urwid()) {
        Some((e, _)) => assert_eq!(e, Event::KeySym { sym: Sym::PAGEDOWN, mods: mods(false, true, false) }),
        None => panic!("expected a key"),
    }
    match tk.strpkey("Mode(?1049=2)", Format::empty()) {
        Some((e, _)) => assert_eq!(e, Event::ModeReport { initial: 63, mode: 1049, value: 2 }),
        None => panic!("expected a key"),
    }
    let mut pos = Format::empty();
    pos.mouse_pos = true;
    match tk.strpkey("C-MouseDrag(2) @ (7,4)", pos) {
        Some((e, _)) => assert_eq!(
            e,
            Event::Mouse { ev: MouseEvent::DRAG, mods: mods(false, false, true), button: 2, line: 4, col: 7 }
        ),
        None => panic!("expected a key"),
    }
}

#[test]
fn decoded_keys_round_trip_through_text() {
    let mut tk = decoder();
    tk.push_bytes(b"\x1b[1;6A\x1b[17~\x1bOp\x1b[<2;3;4M\x1b[?7;1$y\x01x\x1b-\x1b<");
    let styles = [Format::empty(), Format::vim(), Format::urwid(), {
        let mut f = Format::empty();
        f.caretctrl = true;
        f.mouse_pos = true;
        f
    }];
    let mut n = 0;
    loop {
        let e = match tk.getkey_force() {
            termkey::Result::Key(e) => e,
            _ => break,
        };
        n += 1;
        for f in styles.iter() {
            let is_mouse = matches!(e, Event::Mouse { .. });
            if is_mouse && !f.mouse_pos {
                continue;
            }
            let text = tk.strfkey(e, *f);
            match tk.strpkey(&text, *f) {
                Some((back, rest)) => {
                    assert_eq!(tk.canonicalise(back), tk.canonicalise(e), "{}", text);
                    assert_eq!(rest, "");
                }
                None => panic!("no key in {}", text),
            }
        }
    }
    assert_eq!(n, 9);
}
