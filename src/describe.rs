//! Human-readable accounts of an event span: its bytes in hexadecimal, its
//! bytes with control codes escaped, and a guess at the key it stands for.

use vstd::prelude::*;
use vstd::utf8::{decode_utf8, valid_utf8};
use crate::decode::{decode, decode_spec, DecodedEvent, EventView, Modifiers, NamedKey, ESC};
use crate::text::{
    char_debug, debug_char, decimal_text, hex_byte, push_char, push_chars, push_decimal, push_hex_byte, utf8_char_width,
    utf8_chars, utf8_width,
};

verus! {

/// The bytes as two-digit upper-case hexadecimal numbers, one space apart.
pub open spec fn hex_text(b: Seq<u8>) -> Seq<char>
    decreases b.len(),
{
    if b.len() == 0 {
        seq![]
    } else if b.len() == 1 {
        hex_byte(b[0])
    } else {
        hex_text(b.drop_last()) + seq![' '] + hex_byte(b.last())
    }
}

/// The text for the first byte (or UTF-8 character) of `b`, and how many
/// bytes it stands for. ESC, newline, carriage return and tab are escaped,
/// printable ASCII stands as itself, a whole well-formed UTF-8 character as
/// itself, and any other byte as `\xHH`.
pub open spec fn escape_head(b: Seq<u8>) -> (Seq<char>, nat) {
    let x = b[0];
    if x == ESC {
        (seq!['\\', 'x', '1', 'B'], 1)
    } else if x == 0x0A {
        (seq!['\\', 'n'], 1)
    } else if x == 0x0D {
        (seq!['\\', 'r'], 1)
    } else if x == 0x09 {
        (seq!['\\', 't'], 1)
    } else if 0x20 <= x && x <= 0x7E {
        (seq![x as char], 1)
    } else if utf8_width(x) > 1 && utf8_width(x) <= b.len() && valid_utf8(
        b.subrange(0, utf8_width(x) as int),
    ) {
        (decode_utf8(b.subrange(0, utf8_width(x) as int)), utf8_width(x))
    } else {
        (seq!['\\', 'x'] + hex_byte(x), 1)
    }
}

/// The bytes as readable text (see `escape_head`).
pub open spec fn escape_text(b: Seq<u8>) -> Seq<char>
    decreases b.len(),
{
    if b.len() == 0 {
        seq![]
    } else {
        let (t, k) = escape_head(b);
        if 1 <= k <= b.len() {
            t + escape_text(b.subrange(k as int, b.len() as int))
        } else {
            t
        }
    }
}

proof fn lemma_escape_head_len(b: Seq<u8>)
    requires
        b.len() > 0,
    ensures
        1 <= escape_head(b).1 <= b.len(),
{
}

/// The bytes in hexadecimal, one space apart (`1B 5B 41`).
pub fn hex_string(bytes: &[u8]) -> (r: String)
    ensures
        r@ == hex_text(bytes@),
{
    let mut out = String::new();
    let mut i: usize = 0;
    while i < bytes.len()
        invariant
            i <= bytes@.len(),
            out@ == hex_text(bytes@.subrange(0, i as int)),
        decreases bytes@.len() - i,
    {
        let ghost before = out@;
        let ghost pre = bytes@.subrange(0, i as int + 1);
        assert(pre.drop_last() =~= bytes@.subrange(0, i as int));
        if i > 0 {
            push_char(&mut out, ' ');
        }
        push_hex_byte(&mut out, bytes[i]);
        proof {
            if i == 0 {
                assert(out@ =~= hex_byte(bytes@[0]));
            } else {
                assert(out@ =~= before + seq![' '] + hex_byte(bytes@[i as int]));
            }
        }
        i = i + 1;
    }
    assert(bytes@.subrange(0, i as int) =~= bytes@);
    out
}

/// The bytes as readable text: ESC as `\x1B`, newline, carriage return and
/// tab as `\n`, `\r`, `\t`, printable ASCII and whole UTF-8 characters as
/// themselves, and other bytes as `\xHH`.
pub fn escape_bytes(bytes: &[u8]) -> (r: String)
    ensures
        r@ == escape_text(bytes@),
{
    let n = bytes.len();
    let mut out = String::new();
    let mut i: usize = 0;
    assert(bytes@.subrange(0, n as int) =~= bytes@);
    while i < n
        invariant
            i <= n == bytes@.len(),
            out@ + escape_text(bytes@.subrange(i as int, n as int)) == escape_text(bytes@),
        decreases n - i,
    {
        let ghost rest = bytes@.subrange(i as int, n as int);
        let ghost before = out@;
        proof {
            lemma_escape_head_len(rest);
        }
        let b = bytes[i];
        let k: usize;
        if b == ESC {
            out.append("\\x1B");
            proof {
                reveal_strlit("\\x1B");
            }
            k = 1;
        } else if b == 0x0A {
            out.append("\\n");
            proof {
                reveal_strlit("\\n");
            }
            k = 1;
        } else if b == 0x0D {
            out.append("\\r");
            proof {
                reveal_strlit("\\r");
            }
            k = 1;
        } else if b == 0x09 {
            out.append("\\t");
            proof {
                reveal_strlit("\\t");
            }
            k = 1;
        } else if 0x20 <= b && b <= 0x7E {
            push_char(&mut out, b as char);
            k = 1;
        } else {
            let width = utf8_char_width(b);
            let mut decoded: Option<Vec<char>> = None;
            if width > 1 && width <= n - i {
                decoded = utf8_chars(bytes, i, i + width);
                assert(rest.subrange(0, width as int) =~= bytes@.subrange(i as int, i + width));
            }
            match decoded {
                Some(cs) => {
                    push_chars(&mut out, &cs);
                    k = width;
                },
                None => {
                    push_char(&mut out, '\\');
                    push_char(&mut out, 'x');
                    push_hex_byte(&mut out, b);
                    k = 1;
                },
            }
        }
        proof {
            assert(out@ =~= before + escape_head(rest).0);
            assert(escape_head(rest).1 == k);
            assert(rest.subrange(k as int, rest.len() as int) =~= bytes@.subrange(
                i + k,
                n as int,
            ));
            assert(escape_text(rest) == escape_head(rest).0 + escape_text(
                rest.subrange(k as int, rest.len() as int),
            ));
            assert(out@ + escape_text(bytes@.subrange(i + k, n as int)) =~= before + escape_text(
                rest,
            ));
        }
        i = i + k;
    }
    assert(bytes@.subrange(n as int, n as int) =~= Seq::<u8>::empty());
    assert(escape_text(Seq::<u8>::empty()) =~= Seq::<char>::empty());
    assert(out@ + Seq::<char>::empty() =~= out@);
    out
}

/// The modifiers as text: `None`, or the names of those held (`SHIFT`,
/// `CONTROL`, `ALT`, in that order) joined by ` | ` inside
/// `KeyModifiers(...)`, the way crossterm's key modifier set is written.
pub open spec fn modifiers_text(m: Modifiers) -> Seq<char> {
    if !m.shift && !m.control && !m.alt {
        "None"@
    } else {
        let a = if m.shift {
            "SHIFT"@
        } else {
            seq![]
        };
        let b = if m.control {
            if m.shift {
                " | CONTROL"@
            } else {
                "CONTROL"@
            }
        } else {
            seq![]
        };
        let c = if m.alt {
            if m.shift || m.control {
                " | ALT"@
            } else {
                "ALT"@
            }
        } else {
            seq![]
        };
        "KeyModifiers("@ + a + b + c + ")"@
    }
}

/// The name of a key as it is shown (`Up`, `PageDown`, `F5`).
pub open spec fn key_label(k: NamedKey) -> Seq<char> {
    match k {
        NamedKey::Null => "Null"@,
        NamedKey::Enter => "Enter"@,
        NamedKey::Tab => "Tab"@,
        NamedKey::Backspace => "Backspace"@,
        NamedKey::Esc => "Esc"@,
        NamedKey::Up => "Up"@,
        NamedKey::Down => "Down"@,
        NamedKey::Left => "Left"@,
        NamedKey::Right => "Right"@,
        NamedKey::Home => "Home"@,
        NamedKey::End => "End"@,
        NamedKey::PageUp => "PageUp"@,
        NamedKey::PageDown => "PageDown"@,
        NamedKey::Insert => "Insert"@,
        NamedKey::Delete => "Delete"@,
        NamedKey::BackTab => "BackTab"@,
        NamedKey::F(n) => "F"@ + decimal_text(n as nat),
    }
}

/// The key's code as written in source (`Up`, `F(5)`).
pub open spec fn key_code_text(k: NamedKey) -> Seq<char> {
    match k {
        NamedKey::F(n) => "F("@ + decimal_text(n as nat) + ")"@,
        _ => key_label(k),
    }
}

/// A character between single quotes.
pub open spec fn quoted(c: char) -> Seq<char> {
    seq!['\'', c, '\'']
}

/// What kind of character event this is.
pub open spec fn char_description(c: char, m: Modifiers) -> Seq<char> {
    if m.control {
        "Control-modified character"@
    } else if m.alt {
        "Alt-modified character"@
    } else if (c as u32) < 0x80 {
        "Printable character"@
    } else {
        "UTF-8 character"@
    }
}

/// Which sequence a named key came from, read off the span `b`.
pub open spec fn named_description(k: NamedKey, m: Modifiers, b: Seq<u8>) -> Seq<char> {
    if b.len() == 1 {
        match k {
            NamedKey::Null => "NULL"@,
            NamedKey::Enter => "Carriage return"@,
            NamedKey::Tab => "Horizontal tab"@,
            NamedKey::Esc => "Escape"@,
            NamedKey::Backspace => if m.control {
                "Backspace (Ctrl+H)"@
            } else {
                "Backspace"@
            },
            _ => seq![],
        }
    } else if b.len() == 3 && b[1] == 0x4F {
        match k {
            NamedKey::F(_) => "SS3 function key"@,
            NamedKey::Home => "SS3 home key"@,
            NamedKey::End => "SS3 end key"@,
            _ => "SS3 arrow key"@,
        }
    } else if k == NamedKey::BackTab {
        "CSI BackTab sequence"@
    } else if b.len() > 0 && b.last() == 0x7E {
        match k {
            NamedKey::F(_) => "CSI ~ function key"@,
            _ => "CSI ~ ("@ + key_label(k) + ")"@,
        }
    } else {
        "CSI arrow/navigation sequence"@
    }
}

/// The texts of a guess: key, code, modifiers, kind and description.
pub open spec fn guess_texts(e: EventView, b: Seq<u8>) -> (
    Seq<char>,
    Seq<char>,
    Seq<char>,
    Seq<char>,
    Seq<char>,
) {
    match e {
        EventView::Char(c, m) => (
            quoted(c),
            "Char("@ + char_debug(c) + ")"@,
            modifiers_text(m),
            "Press"@,
            char_description(c, m),
        ),
        EventView::Named(k, m) => (
            key_label(k),
            key_code_text(k),
            modifiers_text(m),
            "Press"@,
            named_description(k, m, b),
        ),
        EventView::PasteStart => (
            "PasteStart"@,
            "Paste"@,
            "None"@,
            "Paste"@,
            "Bracketed paste start"@,
        ),
        EventView::PasteEnd => ("PasteEnd"@, "Paste"@, "None"@, "Paste"@, "Bracketed paste end"@),
        EventView::Mouse { pressed, x, y, button_id, modifiers } => (
            "Mouse"@,
            "Button("@ + decimal_text(button_id as nat) + ")"@,
            modifiers_text(modifiers),
            if pressed {
                "Press"@
            } else {
                "Release"@
            },
            "SGR mouse report"@,
        ),
        EventView::Unrecognized(_) => ("Unknown"@, "Unknown"@, "None"@, "Unknown"@, seq![]),
    }
}

/// Modifiers as text: `None` when there are none, else the names joined by
/// ` | ` inside `KeyModifiers(...)` (`KeyModifiers(SHIFT | CONTROL)`).
pub fn format_modifiers(modifiers: Modifiers) -> (r: String)
    ensures
        r@ == modifiers_text(modifiers),
{
    if modifiers.is_empty() {
        return "None".to_owned();
    }
    let mut out = "KeyModifiers(".to_owned();
    if modifiers.shift {
        out.append("SHIFT");
    }
    if modifiers.control {
        if modifiers.shift {
            out.append(" | CONTROL");
        } else {
            out.append("CONTROL");
        }
    }
    if modifiers.alt {
        if modifiers.shift || modifiers.control {
            out.append(" | ALT");
        } else {
            out.append("ALT");
        }
    }
    out.append(")");
    proof {
        let m = modifiers;
        assert(out@ =~= modifiers_text(m));
    }
    out
}

/// The code text of a character key, from the character as std's `Debug`
/// writes it (`'a'`, `'\''`): `Char('a')`.
pub fn char_code_text(debug: &str) -> (r: String)
    ensures
        r@ == "Char("@ + debug@ + ")"@,
{
    let mut out = "Char(".to_owned();
    out.append(debug);
    out.append(")");
    out
}

/// The name of a key as it is shown.
pub fn key_display(key: NamedKey) -> (r: String)
    ensures
        r@ == key_label(key),
{
    match key {
        NamedKey::Null => "Null".to_owned(),
        NamedKey::Enter => "Enter".to_owned(),
        NamedKey::Tab => "Tab".to_owned(),
        NamedKey::Backspace => "Backspace".to_owned(),
        NamedKey::Esc => "Esc".to_owned(),
        NamedKey::Up => "Up".to_owned(),
        NamedKey::Down => "Down".to_owned(),
        NamedKey::Left => "Left".to_owned(),
        NamedKey::Right => "Right".to_owned(),
        NamedKey::Home => "Home".to_owned(),
        NamedKey::End => "End".to_owned(),
        NamedKey::PageUp => "PageUp".to_owned(),
        NamedKey::PageDown => "PageDown".to_owned(),
        NamedKey::Insert => "Insert".to_owned(),
        NamedKey::Delete => "Delete".to_owned(),
        NamedKey::BackTab => "BackTab".to_owned(),
        NamedKey::F(n) => {
            let mut out = "F".to_owned();
            push_decimal(&mut out, n as u64);
            out
        },
    }
}

fn key_code(key: NamedKey) -> (r: String)
    ensures
        r@ == key_code_text(key),
{
    match key {
        NamedKey::F(n) => {
            let mut out = "F(".to_owned();
            push_decimal(&mut out, n as u64);
            out.append(")");
            out
        },
        _ => key_display(key),
    }
}

fn quote(c: char) -> (r: String)
    ensures
        r@ == quoted(c),
{
    let mut out = String::new();
    push_char(&mut out, '\'');
    push_char(&mut out, c);
    push_char(&mut out, '\'');
    assert(out@ =~= quoted(c));
    out
}

fn describe_char(c: char, m: Modifiers) -> (r: String)
    ensures
        r@ == char_description(c, m),
{
    if m.control {
        "Control-modified character".to_owned()
    } else if m.alt {
        "Alt-modified character".to_owned()
    } else if (c as u32) < 0x80 {
        "Printable character".to_owned()
    } else {
        "UTF-8 character".to_owned()
    }
}

fn describe_named(key: NamedKey, m: Modifiers, bytes: &[u8]) -> (r: String)
    ensures
        r@ == named_description(key, m, bytes@),
{
    let n = bytes.len();
    if n == 1 {
        match key {
            NamedKey::Null => "NULL".to_owned(),
            NamedKey::Enter => "Carriage return".to_owned(),
            NamedKey::Tab => "Horizontal tab".to_owned(),
            NamedKey::Esc => "Escape".to_owned(),
            NamedKey::Backspace => if m.control {
                "Backspace (Ctrl+H)".to_owned()
            } else {
                "Backspace".to_owned()
            },
            _ => String::new(),
        }
    } else if n == 3 && bytes[1] == 0x4F {
        match key {
            NamedKey::F(_) => "SS3 function key".to_owned(),
            NamedKey::Home => "SS3 home key".to_owned(),
            NamedKey::End => "SS3 end key".to_owned(),
            _ => "SS3 arrow key".to_owned(),
        }
    } else if key == NamedKey::BackTab {
        "CSI BackTab sequence".to_owned()
    } else if n > 0 && bytes[n - 1] == 0x7E {
        match key {
            NamedKey::F(_) => "CSI ~ function key".to_owned(),
            _ => {
                let mut out = "CSI ~ (".to_owned();
                let label = key_display(key);
                out.append(label.as_str());
                out.append(")");
                out
            },
        }
    } else {
        "CSI arrow/navigation sequence".to_owned()
    }
}

/// A guess at what a span stands for, as text for display.
pub struct GuessInfo {
    pub key: String,
    pub code: String,
    pub modifiers: String,
    pub kind: String,
    pub description: String,
}

impl GuessInfo {
    pub open spec fn texts(&self) -> (Seq<char>, Seq<char>, Seq<char>, Seq<char>, Seq<char>) {
        (self.key@, self.code@, self.modifiers@, self.kind@, self.description@)
    }

    /// Decodes `bytes` and puts the event into words.
    pub fn from_bytes(bytes: &[u8]) -> (r: GuessInfo)
        ensures
            r.texts() == guess_texts(decode_spec(bytes@), bytes@),
    {
        match decode(bytes) {
            DecodedEvent::Char(c, m) => {
                let debug = debug_char(c);
                GuessInfo {
                    key: quote(c),
                    code: char_code_text(debug.as_str()),
                    modifiers: format_modifiers(m),
                    kind: "Press".to_owned(),
                    description: describe_char(c, m),
                }
            },
            DecodedEvent::Named(k, m) => GuessInfo {
                key: key_display(k),
                code: key_code(k),
                modifiers: format_modifiers(m),
                kind: "Press".to_owned(),
                description: describe_named(k, m, bytes),
            },
            DecodedEvent::PasteStart => GuessInfo {
                key: "PasteStart".to_owned(),
                code: "Paste".to_owned(),
                modifiers: "None".to_owned(),
                kind: "Paste".to_owned(),
                description: "Bracketed paste start".to_owned(),
            },
            DecodedEvent::PasteEnd => GuessInfo {
                key: "PasteEnd".to_owned(),
                code: "Paste".to_owned(),
                modifiers: "None".to_owned(),
                kind: "Paste".to_owned(),
                description: "Bracketed paste end".to_owned(),
            },
            DecodedEvent::Mouse { pressed, x: _, y: _, button_id, modifiers } => {
                let mut code = "Button(".to_owned();
                push_decimal(&mut code, button_id as u64);
                code.append(")");
                GuessInfo {
                    key: "Mouse".to_owned(),
                    code,
                    modifiers: format_modifiers(modifiers),
                    kind: if pressed {
                        "Press".to_owned()
                    } else {
                        "Release".to_owned()
                    },
                    description: "SGR mouse report".to_owned(),
                }
            },
            DecodedEvent::Unrecognized(_) => GuessInfo {
                key: "Unknown".to_owned(),
                code: "Unknown".to_owned(),
                modifiers: "None".to_owned(),
                kind: "Unknown".to_owned(),
                description: String::new(),
            },
        }
    }
}

/// One received span, put into words: its bytes in hexadecimal, its bytes
/// escaped, and the guess at its meaning.
pub struct InputEventInfo {
    pub hex_string: String,
    pub escaped_string: String,
    pub guess: GuessInfo,
}

impl InputEventInfo {
    pub fn from_bytes(raw_bytes: Vec<u8>) -> (r: InputEventInfo)
        ensures
            r.hex_string@ == hex_text(raw_bytes@),
            r.escaped_string@ == escape_text(raw_bytes@),
            r.guess.texts() == guess_texts(decode_spec(raw_bytes@), raw_bytes@),
    {
        let guess = GuessInfo::from_bytes(raw_bytes.as_slice());
        let hex_string = hex_string(raw_bytes.as_slice());
        let escaped_string = escape_bytes(raw_bytes.as_slice());
        InputEventInfo { hex_string, escaped_string, guess }
    }
}

/// Records one received span: a non-empty span is put into words, appended
/// to `events` and counted; an empty one changes nothing.
pub fn process_event_bytes(bytes: Vec<u8>, events: &mut Vec<InputEventInfo>, count: &mut usize)
    requires
        *old(count) < usize::MAX,
    ensures
        bytes@.len() == 0 ==> *final(count) == *old(count) && final(events)@ == old(events)@,
        bytes@.len() > 0 ==> {
            &&& *final(count) == *old(count) + 1
            &&& final(events)@.len() == old(events)@.len() + 1
            &&& final(events)@.drop_last() == old(events)@
            &&& final(events)@.last().hex_string@ == hex_text(bytes@)
            &&& final(events)@.last().escaped_string@ == escape_text(bytes@)
            &&& final(events)@.last().guess.texts() == guess_texts(decode_spec(bytes@), bytes@)
        },
{
    if bytes.len() == 0 {
        return;
    }
    let ghost b = bytes@;
    let info = InputEventInfo::from_bytes(bytes);
    events.push(info);
    *count = *count + 1;
    assert(events@.drop_last() =~= old(events)@);
}

} // verus!
