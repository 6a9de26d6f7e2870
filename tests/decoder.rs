use tuicore::decode::{decode, DecodedEvent, Modifiers, NamedKey};

fn none() -> Modifiers {
    Modifiers { shift: false, alt: false, control: false }
}

fn mods(shift: bool, alt: bool, control: bool) -> Modifiers {
    Modifiers { shift, alt, control }
}

fn named(k: NamedKey, m: Modifiers) -> DecodedEvent {
    DecodedEvent::Named(k, m)
}

#[test]
fn printable_ascii_decodes_to_itself() {
    for b in 0x20u8..=0x7E {
        assert_eq!(decode(&[b]), DecodedEvent::Char(b as char, none()), "byte {:#x}", b);
    }
}

#[test]
fn control_bytes_decode_to_control_letters() {
    for b in 0x01u8..=0x1A {
        if b == 0x08 || b == 0x09 || b == 0x0A || b == 0x0D {
            continue;
        }
        assert_eq!(decode(&[b]), DecodedEvent::Char((b + 0x60) as char, mods(false, false, true)));
    }
    assert_eq!(decode(&[0x01]), DecodedEvent::Char('a', mods(false, false, true)));
    assert_eq!(decode(&[0x1A]), DecodedEvent::Char('z', mods(false, false, true)));
    assert_eq!(decode(&[0x1C]), DecodedEvent::Char('|', mods(false, false, true)));
}

#[test]
fn single_byte_keys() {
    assert_eq!(decode(&[0x00]), named(NamedKey::Null, none()));
    assert_eq!(decode(&[0x0D]), named(NamedKey::Enter, none()));
    assert_eq!(decode(&[0x0A]), named(NamedKey::Enter, none()));
    assert_eq!(decode(&[0x09]), named(NamedKey::Tab, none()));
    assert_eq!(decode(&[0x7F]), named(NamedKey::Backspace, none()));
    assert_eq!(decode(&[0x08]), named(NamedKey::Backspace, mods(false, false, true)));
    assert_eq!(decode(&[0x1B]), named(NamedKey::Esc, none()));
}

#[test]
fn csi_arrow_with_and_without_modifier() {
    assert_eq!(decode(&[0x1B, b'[', b'A']), named(NamedKey::Up, none()));
    assert_eq!(decode(&[0x1B, b'[', b'1', b';', b'5', b'A']), named(NamedKey::Up, mods(false, false, true)));
    assert_eq!(decode(b"\x1b[1;2D"), named(NamedKey::Left, mods(true, false, false)));
    assert_eq!(decode(b"\x1b[1;8H"), named(NamedKey::Home, mods(true, true, true)));
    assert_eq!(decode(b"\x1b[?1;3B"), named(NamedKey::Down, mods(false, true, false)));
}

#[test]
fn ss3_function_key() {
    assert_eq!(decode(&[0x1B, b'O', b'P']), named(NamedKey::F(1), none()));
    assert_eq!(decode(b"\x1bOS"), named(NamedKey::F(4), none()));
    assert_eq!(decode(b"\x1bOH"), named(NamedKey::Home, none()));
    assert_eq!(decode(b"\x1bOC"), named(NamedKey::Right, none()));
    assert_eq!(decode(b"\x1bOx"), DecodedEvent::Unrecognized(b"\x1bOx".to_vec()));
}

#[test]
fn sgr_mouse_press_and_release() {
    let press = [0x1B, b'[', b'<', b'0', b';', b'1', b'0', b';', b'2', b'0', b'M'];
    assert_eq!(
        decode(&press),
        DecodedEvent::Mouse { pressed: true, x: 10, y: 20, button_id: 0, modifiers: none() }
    );
    let mut release = press;
    release[10] = b'm';
    assert_eq!(
        decode(&release),
        DecodedEvent::Mouse { pressed: false, x: 10, y: 20, button_id: 0, modifiers: none() }
    );
}

#[test]
fn sgr_mouse_button_and_modifier_bits() {
    assert_eq!(
        decode(b"\x1b[<2;1;1M"),
        DecodedEvent::Mouse { pressed: true, x: 1, y: 1, button_id: 2, modifiers: none() }
    );
    assert_eq!(
        decode(b"\x1b[<8;5;6M"),
        DecodedEvent::Mouse { pressed: true, x: 5, y: 6, button_id: 0, modifiers: mods(true, false, false) }
    );
    assert_eq!(
        decode(b"\x1b[<33;5;6m"),
        DecodedEvent::Mouse { pressed: false, x: 5, y: 6, button_id: 1, modifiers: mods(false, false, true) }
    );
    assert_eq!(decode(b"\x1b[<1;2M"), DecodedEvent::Unrecognized(b"\x1b[<1;2M".to_vec()));
}

#[test]
fn sgr_mouse_reads_wide_coordinates() {
    assert_eq!(
        decode(b"\x1b[<0;70000;1M"),
        DecodedEvent::Mouse { pressed: true, x: 70000, y: 1, button_id: 0, modifiers: none() }
    );
    assert_eq!(
        decode(b"\x1b[<20;2147483647;7m"),
        DecodedEvent::Mouse { pressed: false, x: 2147483647, y: 7, button_id: 4, modifiers: mods(false, true, false) }
    );
    let too_wide = b"\x1b[<0;2147483648;1M";
    assert_eq!(decode(too_wide), DecodedEvent::Unrecognized(too_wide.to_vec()));
    assert_eq!(decode(b"\x1b[70000A"), DecodedEvent::Unrecognized(b"\x1b[70000A".to_vec()));
}

#[test]
fn bracketed_paste_markers() {
    assert_eq!(decode(&[0x1B, b'[', b'2', b'0', b'0', b'~']), DecodedEvent::PasteStart);
    assert_eq!(decode(&[0x1B, b'[', b'2', b'0', b'1', b'~']), DecodedEvent::PasteEnd);
}

#[test]
fn tilde_keys_and_modifiers() {
    let table: [(&[u8], NamedKey); 20] = [
        (b"1", NamedKey::Home),
        (b"2", NamedKey::Insert),
        (b"3", NamedKey::Delete),
        (b"4", NamedKey::End),
        (b"5", NamedKey::PageUp),
        (b"6", NamedKey::PageDown),
        (b"7", NamedKey::Home),
        (b"8", NamedKey::End),
        (b"11", NamedKey::F(1)),
        (b"12", NamedKey::F(2)),
        (b"13", NamedKey::F(3)),
        (b"14", NamedKey::F(4)),
        (b"15", NamedKey::F(5)),
        (b"17", NamedKey::F(6)),
        (b"18", NamedKey::F(7)),
        (b"19", NamedKey::F(8)),
        (b"20", NamedKey::F(9)),
        (b"21", NamedKey::F(10)),
        (b"23", NamedKey::F(11)),
        (b"24", NamedKey::F(12)),
    ];
    for (digits, key) in table.iter() {
        let mut seq = vec![0x1B, b'['];
        seq.extend_from_slice(digits);
        seq.push(b'~');
        assert_eq!(decode(&seq), named(*key, none()));
    }
    assert_eq!(decode(b"\x1b[3;2~"), named(NamedKey::Delete, mods(true, false, false)));
    assert_eq!(decode(b"\x1b[16~"), DecodedEvent::Unrecognized(b"\x1b[16~".to_vec()));
    assert_eq!(decode(b"\x1b[~"), DecodedEvent::Unrecognized(b"\x1b[~".to_vec()));
}

#[test]
fn table_sequences_decode_to_distinct_keys() {
    let csi_letters = [b'A', b'B', b'C', b'D', b'H', b'F'];
    let ss3_finals = [b'P', b'Q', b'R', b'S', b'A', b'B', b'C', b'D', b'H', b'F'];
    let csi: Vec<DecodedEvent> = csi_letters.iter().map(|f| decode(&[0x1B, b'[', *f])).collect();
    let ss3: Vec<DecodedEvent> = ss3_finals.iter().map(|f| decode(&[0x1B, b'O', *f])).collect();
    for family in [&csi, &ss3] {
        for (i, a) in family.iter().enumerate() {
            assert!(matches!(a, DecodedEvent::Named(_, _)));
            for b in family.iter().skip(i + 1) {
                assert_ne!(a, b);
            }
        }
    }
    assert_eq!(decode(b"\x1b[Z"), named(NamedKey::BackTab, mods(true, false, false)));
}

#[test]
fn alt_prefixed_characters() {
    assert_eq!(decode(&[0x1B, b'a']), DecodedEvent::Char('a', mods(false, true, false)));
    assert_eq!(decode(&[0x1B, 0xC3, 0xA9]), DecodedEvent::Char('\u{e9}', mods(false, true, false)));
    assert_eq!(decode(&[0x1B, 0x1B]), DecodedEvent::Char('\u{1b}', mods(false, true, false)));
}

#[test]
fn utf8_characters_and_invalid_bytes() {
    assert_eq!(decode(&[0xC3, 0xA9]), DecodedEvent::Char('\u{e9}', none()));
    assert_eq!(decode("\u{20ac}".as_bytes()), DecodedEvent::Char('\u{20ac}', none()));
    assert_eq!(decode("\u{1f600}".as_bytes()), DecodedEvent::Char('\u{1f600}', none()));
    assert_eq!(decode(&[0xC3, 0x41]), DecodedEvent::Unrecognized(vec![0xC3, 0x41]));
    assert_eq!(decode(&[0xFF]), DecodedEvent::Unrecognized(vec![0xFF]));
    assert_eq!(decode(&[0xC0, 0x80]), DecodedEvent::Unrecognized(vec![0xC0, 0x80]));
    assert_eq!(decode(&[]), DecodedEvent::Unrecognized(vec![]));
}

#[test]
fn decoding_twice_gives_the_same_event() {
    let spans: [&[u8]; 5] = [b"\x1b[A", b"\x1b[<0;1;1M", b"a", &[0xC3, 0xA9], &[0xFF, 0x00]];
    for s in spans.iter() {
        assert_eq!(decode(s), decode(s));
    }
}
