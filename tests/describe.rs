use tuicore::decode::Modifiers;
use tuicore::describe::{
    char_code_text, escape_bytes, format_modifiers, hex_string, key_display, process_event_bytes, GuessInfo,
    InputEventInfo,
};
use tuicore::decode::NamedKey;

#[test]
fn hex_string_of_bytes() {
    assert_eq!(hex_string(&[0x1B, 0x5B, 0x41]), "1B 5B 41");
    assert_eq!(hex_string(&[0x00]), "00");
    assert_eq!(hex_string(&[0xAB, 0xCD]), "AB CD");
    assert_eq!(hex_string(&[]), "");
}

#[test]
fn escape_bytes_renders_controls_and_utf8() {
    assert_eq!(escape_bytes(&[0x1B, b'[', b'A']), "\\x1B[A");
    assert_eq!(escape_bytes(b"\n\r\t"), "\\n\\r\\t");
    assert_eq!(escape_bytes(&[0xC3, 0xA9, b'!']), "\u{e9}!");
    assert_eq!(escape_bytes(&[0xFF, 0x01]), "\\xFF\\x01");
    assert_eq!(escape_bytes(&[0xC3]), "\\xC3");
    assert_eq!(escape_bytes(&[0xC3, 0x41]), "\\xC3A");
    assert_eq!(escape_bytes(&[]), "");
}

#[test]
fn modifier_texts() {
    let m = |shift, alt, control| Modifiers { shift, alt, control };
    assert_eq!(format_modifiers(m(false, false, false)), "None");
    assert_eq!(format_modifiers(m(true, false, false)), "KeyModifiers(SHIFT)");
    assert_eq!(format_modifiers(m(false, false, true)), "KeyModifiers(CONTROL)");
    assert_eq!(format_modifiers(m(false, true, true)), "KeyModifiers(CONTROL | ALT)");
    assert_eq!(format_modifiers(m(true, true, true)), "KeyModifiers(SHIFT | CONTROL | ALT)");
}

#[test]
fn key_labels() {
    assert_eq!(key_display(NamedKey::PageDown), "PageDown");
    assert_eq!(key_display(NamedKey::F(12)), "F12");
    assert_eq!(key_display(NamedKey::F(3)), "F3");
}

fn texts(g: &GuessInfo) -> (&str, &str, &str, &str, &str) {
    (&g.key, &g.code, &g.modifiers, &g.kind, &g.description)
}

#[test]
fn guesses_for_common_spans() {
    assert_eq!(
        texts(&GuessInfo::from_bytes(b"\x1b[A")),
        ("Up", "Up", "None", "Press", "CSI arrow/navigation sequence")
    );
    assert_eq!(
        texts(&GuessInfo::from_bytes(b"\x1b[1;5C")),
        ("Right", "Right", "KeyModifiers(CONTROL)", "Press", "CSI arrow/navigation sequence")
    );
    assert_eq!(
        texts(&GuessInfo::from_bytes(b"\x1b[15~")),
        ("F5", "F(5)", "None", "Press", "CSI ~ function key")
    );
    assert_eq!(
        texts(&GuessInfo::from_bytes(b"\x1b[3~")),
        ("Delete", "Delete", "None", "Press", "CSI ~ (Delete)")
    );
    assert_eq!(
        texts(&GuessInfo::from_bytes(b"\x1bOQ")),
        ("F2", "F(2)", "None", "Press", "SS3 function key")
    );
    assert_eq!(
        texts(&GuessInfo::from_bytes(b"\x1b[Z")),
        ("BackTab", "BackTab", "KeyModifiers(SHIFT)", "Press", "CSI BackTab sequence")
    );
    assert_eq!(
        texts(&GuessInfo::from_bytes(&[0x01])),
        ("'a'", "Char('a')", "KeyModifiers(CONTROL)", "Press", "Control-modified character")
    );
    assert_eq!(
        texts(&GuessInfo::from_bytes(&[0x08])),
        ("Backspace", "Backspace", "KeyModifiers(CONTROL)", "Press", "Backspace (Ctrl+H)")
    );
    assert_eq!(
        texts(&GuessInfo::from_bytes(b"\r")),
        ("Enter", "Enter", "None", "Press", "Carriage return")
    );
    assert_eq!(
        texts(&GuessInfo::from_bytes(b"q")),
        ("'q'", "Char('q')", "None", "Press", "Printable character")
    );
    assert_eq!(
        texts(&GuessInfo::from_bytes(&[0x1B, b'q'])),
        ("'q'", "Char('q')", "KeyModifiers(ALT)", "Press", "Alt-modified character")
    );
    assert_eq!(
        texts(&GuessInfo::from_bytes(&[0xC3, 0xA9])),
        ("'\u{e9}'", "Char('\u{e9}')", "None", "Press", "UTF-8 character")
    );
    assert_eq!(
        texts(&GuessInfo::from_bytes(b"\x1b[200~")),
        ("PasteStart", "Paste", "None", "Paste", "Bracketed paste start")
    );
    assert_eq!(
        texts(&GuessInfo::from_bytes(b"\x1b[<0;3;4m")),
        ("Mouse", "Button(0)", "None", "Release", "SGR mouse report")
    );
    assert_eq!(
        texts(&GuessInfo::from_bytes(&[0xFF])),
        ("Unknown", "Unknown", "None", "Unknown", "")
    );
}

#[test]
fn char_codes_follow_debug_escaping() {
    assert_eq!(GuessInfo::from_bytes(b"'").code, "Char('\\'')");
    assert_eq!(GuessInfo::from_bytes(b"'").key, "'''");
    assert_eq!(GuessInfo::from_bytes(b"\\").code, "Char('\\\\')");
    assert_eq!(GuessInfo::from_bytes(b"\"").code, "Char('\"')");
    assert_eq!(GuessInfo::from_bytes(&[0x1B, 0x7F]).code, "Char('\\u{7f}')");
    assert_eq!(char_code_text("'x'"), "Char('x')");
}

#[test]
fn event_info_and_counting() {
    let info = InputEventInfo::from_bytes(vec![0x1B, b'[', b'B']);
    assert_eq!(info.hex_string, "1B 5B 42");
    assert_eq!(info.escaped_string, "\\x1B[B");
    assert_eq!(info.guess.key, "Down");

    let mut events = Vec::new();
    let mut count = 0usize;
    process_event_bytes(vec![], &mut events, &mut count);
    assert_eq!(count, 0);
    assert!(events.is_empty());
    process_event_bytes(vec![b'x'], &mut events, &mut count);
    process_event_bytes(vec![0x1B], &mut events, &mut count);
    assert_eq!(count, 2);
    assert_eq!(events.len(), 2);
    assert_eq!(events[0].hex_string, "78");
    assert_eq!(events[1].guess.key, "Esc");
    assert_eq!(events[1].guess.description, "Escape");
}
