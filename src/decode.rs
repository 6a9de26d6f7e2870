//! The semantic decoder: a complete event span, as the segmenter cuts it,
//! becomes one typed event. Decoding is a pure function of the bytes.

use vstd::prelude::*;
use vstd::slice::slice_to_vec;
use vstd::utf8::{decode_utf8, valid_utf8};
use crate::text::{
    digit_value, digits_value, field_numbers, I32_MAX, U16_MAX, fields, param_list, parse_params, unsigned_digits, utf8_char_width,
    utf8_chars, utf8_width,
};

verus! {

pub const ESC: u8 = 0x1B;
pub const DEL: u8 = 0x7F;
/// `[`: after ESC it opens a control sequence (CSI).
pub const LEFT_BRACKET: u8 = 0x5B;
/// `O`: after ESC it opens a single-shift-three sequence (SS3).
pub const LETTER_O: u8 = 0x4F;
pub const QUESTION: u8 = 0x3F;
pub const LESS_THAN: u8 = 0x3C;
pub const TILDE: u8 = 0x7E;

/// Keyboard modifiers held with a key.
#[derive(Clone, Copy, Debug, PartialEq, Eq, Structural)]
pub struct Modifiers {
    pub shift: bool,
    pub alt: bool,
    pub control: bool,
}

pub open spec fn no_mods() -> Modifiers {
    Modifiers { shift: false, alt: false, control: false }
}

pub open spec fn shift_mod() -> Modifiers {
    Modifiers { shift: true, alt: false, control: false }
}

pub open spec fn alt_mod() -> Modifiers {
    Modifiers { shift: false, alt: true, control: false }
}

pub open spec fn control_mod() -> Modifiers {
    Modifiers { shift: false, alt: false, control: true }
}

impl Modifiers {
    pub fn none() -> (r: Modifiers)
        ensures
            r == no_mods(),
    {
        Modifiers { shift: false, alt: false, control: false }
    }

    pub fn is_empty(&self) -> (r: bool)
        ensures
            r == (*self == no_mods()),
    {
        !self.shift && !self.alt && !self.control
    }
}

/// Keys that have a name rather than a character.
#[derive(Clone, Copy, Debug, PartialEq, Eq, Structural)]
pub enum NamedKey {
    Null,
    Enter,
    Tab,
    Backspace,
    Esc,
    Up,
    Down,
    Left,
    Right,
    Home,
    End,
    PageUp,
    PageDown,
    Insert,
    Delete,
    BackTab,
    /// A function key, numbered from 1.
    F(u8),
}

/// A decoded input event.
#[derive(Debug, PartialEq, Eq)]
pub enum DecodedEvent {
    Char(char, Modifiers),
    Named(NamedKey, Modifiers),
    PasteStart,
    PasteEnd,
    Mouse { pressed: bool, x: u32, y: u32, button_id: u32, modifiers: Modifiers },
    /// Bytes that no rule reads, kept as they came.
    Unrecognized(Vec<u8>),
}

/// What a `DecodedEvent` says, with the raw bytes as a sequence.
pub ghost enum EventView {
    Char(char, Modifiers),
    Named(NamedKey, Modifiers),
    PasteStart,
    PasteEnd,
    Mouse { pressed: bool, x: u32, y: u32, button_id: u32, modifiers: Modifiers },
    Unrecognized(Seq<u8>),
}

impl View for DecodedEvent {
    type V = EventView;

    open spec fn view(&self) -> EventView {
        match self {
            DecodedEvent::Char(c, m) => EventView::Char(*c, *m),
            DecodedEvent::Named(k, m) => EventView::Named(*k, *m),
            DecodedEvent::PasteStart => EventView::PasteStart,
            DecodedEvent::PasteEnd => EventView::PasteEnd,
            DecodedEvent::Mouse { pressed, x, y, button_id, modifiers } => EventView::Mouse {
                pressed: *pressed,
                x: *x,
                y: *y,
                button_id: *button_id,
                modifiers: *modifiers,
            },
            DecodedEvent::Unrecognized(b) => EventView::Unrecognized(b@),
        }
    }
}

pub open spec fn opt_view(o: Option<DecodedEvent>) -> Option<EventView> {
    match o {
        Some(e) => Some(e@),
        None => None,
    }
}

// ---------------------------------------------------------------------------
// The rules, as spec functions over the span's bytes.

/// The modifier code of a CSI parameter: 1 plus a bit mask of Shift (1),
/// Alt (2) and Control (4). Other values carry no modifier.
pub open spec fn modifier_code(v: u32) -> Modifiers {
    if 2 <= v && v <= 8 {
        let bits = (v - 1) as int;
        Modifiers { shift: bits % 2 == 1, alt: (bits / 2) % 2 == 1, control: (bits / 4) % 2 == 1 }
    } else {
        no_mods()
    }
}

/// Parameters of a CSI key split into the base ones and the modifiers: with
/// two or more, the last one is a modifier code.
pub open spec fn split_params(p: Seq<u32>) -> (Seq<u32>, Modifiers) {
    if p.len() <= 1 {
        (p, no_mods())
    } else {
        (p.drop_last(), modifier_code(p.last()))
    }
}

/// The key of a `CSI n ~` sequence.
pub open spec fn tilde_key(n: u32) -> Option<NamedKey> {
    if n == 1 || n == 7 {
        Some(NamedKey::Home)
    } else if n == 2 {
        Some(NamedKey::Insert)
    } else if n == 3 {
        Some(NamedKey::Delete)
    } else if n == 4 || n == 8 {
        Some(NamedKey::End)
    } else if n == 5 {
        Some(NamedKey::PageUp)
    } else if n == 6 {
        Some(NamedKey::PageDown)
    } else if 11 <= n && n <= 15 {
        Some(NamedKey::F((n - 10) as u8))
    } else if 17 <= n && n <= 21 {
        Some(NamedKey::F((n - 11) as u8))
    } else if n == 23 || n == 24 {
        Some(NamedKey::F((n - 12) as u8))
    } else {
        None
    }
}

/// The key that a CSI final letter names (`Z` aside, which is BackTab).
pub open spec fn csi_letter_key(f: u8) -> Option<NamedKey> {
    if f == 0x41 {
        Some(NamedKey::Up)
    } else if f == 0x42 {
        Some(NamedKey::Down)
    } else if f == 0x43 {
        Some(NamedKey::Right)
    } else if f == 0x44 {
        Some(NamedKey::Left)
    } else if f == 0x46 {
        Some(NamedKey::End)
    } else if f == 0x48 {
        Some(NamedKey::Home)
    } else {
        None
    }
}

/// The key that a CSI sequence with final byte `f` and parameters `p` names.
pub open spec fn csi_key(f: u8, p: Seq<u32>) -> Option<EventView> {
    let (base, mods) = split_params(p);
    if csi_letter_key(f) is Some {
        Some(EventView::Named(csi_letter_key(f)->0, mods))
    } else if f == 0x5A {
        Some(EventView::Named(NamedKey::BackTab, shift_mod()))
    } else if f == TILDE && base.len() > 0 && tilde_key(base[0]) is Some {
        Some(EventView::Named(tilde_key(base[0])->0, mods))
    } else {
        None
    }
}

pub open spec fn is_final_byte(b: u8) -> bool {
    0x40 <= b && b <= 0x7E
}

/// ESC `[`, then anything, then a final byte.
pub open spec fn is_csi_shape(b: Seq<u8>) -> bool {
    b.len() >= 3 && b[0] == ESC && b[1] == LEFT_BRACKET && is_final_byte(b.last())
}

/// The parameter bytes of a CSI sequence, without one leading `?`.
pub open spec fn csi_param_bytes(b: Seq<u8>) -> Seq<u8> {
    let p = b.subrange(2, b.len() - 1);
    if p.len() > 0 && p[0] == QUESTION {
        p.drop_first()
    } else {
        p
    }
}

/// The final byte and the parameters of a CSI sequence.
pub open spec fn csi_parts(b: Seq<u8>) -> Option<(u8, Seq<u32>)> {
    if is_csi_shape(b) {
        match param_list(csi_param_bytes(b), U16_MAX as nat) {
            Some(p) => Some((b.last(), p)),
            None => None,
        }
    } else {
        None
    }
}

pub open spec fn paste_start_bytes() -> Seq<u8> {
    seq![ESC, LEFT_BRACKET, 0x32u8, 0x30u8, 0x30u8, TILDE]
}

pub open spec fn paste_end_bytes() -> Seq<u8> {
    seq![ESC, LEFT_BRACKET, 0x32u8, 0x30u8, 0x31u8, TILDE]
}

/// ESC `[` `<` ... `M` or `m`: an SGR mouse report.
pub open spec fn is_mouse_shape(b: Seq<u8>) -> bool {
    is_csi_shape(b) && b[2] == LESS_THAN && (b.last() == 0x4D || b.last() == 0x6D)
}

/// An SGR mouse report: the parameters `b;x;y` after the `<`. The low three
/// bits of `b` are the button, the next three a modifier mask, read through
/// the modifier-code table.
pub open spec fn mouse_view(b: Seq<u8>) -> Option<EventView> {
    match param_list(b.subrange(3, b.len() - 1), I32_MAX as nat) {
        Some(p) => if p.len() == 3 {
            Some(
                EventView::Mouse {
                    pressed: b.last() == 0x4D,
                    x: p[1],
                    y: p[2],
                    button_id: (p[0] % 8) as u32,
                    modifiers: modifier_code(((p[0] / 8) % 8 + 1) as u32),
                },
            )
        } else {
            None
        },
        None => None,
    }
}

/// The CSI reading of a span: paste markers, mouse reports, then keys.
pub open spec fn csi_view(b: Seq<u8>) -> Option<EventView> {
    if b == paste_start_bytes() {
        Some(EventView::PasteStart)
    } else if b == paste_end_bytes() {
        Some(EventView::PasteEnd)
    } else if is_mouse_shape(b) {
        mouse_view(b)
    } else {
        match csi_parts(b) {
            Some((f, p)) => csi_key(f, p),
            None => None,
        }
    }
}

/// The key of an SS3 final byte.
pub open spec fn ss3_key(f: u8) -> Option<NamedKey> {
    if 0x50 <= f && f <= 0x53 {
        Some(NamedKey::F((f - 0x4F) as u8))
    } else {
        csi_letter_key(f)
    }
}

/// ESC `O` and one final byte.
pub open spec fn ss3_view(b: Seq<u8>) -> Option<EventView> {
    if b.len() == 3 && b[0] == ESC && b[1] == LETTER_O && ss3_key(b[2]) is Some {
        Some(EventView::Named(ss3_key(b[2])->0, no_mods()))
    } else {
        None
    }
}

/// ESC and exactly one UTF-8 character: that character with Alt.
pub open spec fn alt_view(b: Seq<u8>) -> Option<EventView> {
    let rest = b.drop_first();
    if b.len() >= 2 && b[0] == ESC && valid_utf8(rest) && decode_utf8(rest).len() == 1 {
        Some(EventView::Char(decode_utf8(rest)[0], alt_mod()))
    } else {
        None
    }
}

/// One byte below 0x80: control keys, control letters and printable ASCII.
pub open spec fn single_byte_view(b: Seq<u8>) -> Option<EventView> {
    if b.len() != 1 {
        None
    } else {
        let x = b[0];
        if x == 0 {
            Some(EventView::Named(NamedKey::Null, no_mods()))
        } else if x == 0x0D || x == 0x0A {
            Some(EventView::Named(NamedKey::Enter, no_mods()))
        } else if x == 0x09 {
            Some(EventView::Named(NamedKey::Tab, no_mods()))
        } else if x == DEL {
            Some(EventView::Named(NamedKey::Backspace, no_mods()))
        } else if x == 0x08 {
            Some(EventView::Named(NamedKey::Backspace, control_mod()))
        } else if x == ESC {
            Some(EventView::Named(NamedKey::Esc, no_mods()))
        } else if x <= 0x1F {
            Some(EventView::Char((x + 0x60) as char, control_mod()))
        } else if x <= 0x7E {
            Some(EventView::Char(x as char, no_mods()))
        } else {
            None
        }
    }
}

/// A whole UTF-8 sequence of the width that its lead byte gives.
pub open spec fn utf8_view(b: Seq<u8>) -> Option<EventView> {
    if b.len() >= 1 && utf8_width(b[0]) == b.len() && valid_utf8(b) && decode_utf8(b).len() == 1 {
        Some(EventView::Char(decode_utf8(b)[0], no_mods()))
    } else {
        None
    }
}

/// The first of the readings that applies, in order: CSI, SS3, Alt, single
/// byte, UTF-8.
pub open spec fn interpret(b: Seq<u8>) -> Option<EventView> {
    if b.len() == 0 {
        None
    } else if csi_view(b) is Some {
        csi_view(b)
    } else if ss3_view(b) is Some {
        ss3_view(b)
    } else if alt_view(b) is Some {
        alt_view(b)
    } else if single_byte_view(b) is Some {
        single_byte_view(b)
    } else {
        utf8_view(b)
    }
}

/// The event that a span decodes to; spans that no rule reads are
/// `Unrecognized`, with their bytes.
pub open spec fn decode_spec(b: Seq<u8>) -> EventView {
    match interpret(b) {
        Some(e) => e,
        None => EventView::Unrecognized(b),
    }
}

// ---------------------------------------------------------------------------
// Laws of the decoder.

/// Every printable ASCII byte decodes to that character, with no modifier.
pub proof fn lemma_printable_ascii(b: u8)
    requires
        0x20 <= b <= 0x7E,
    ensures
        decode_spec(seq![b]) == EventView::Char(b as char, no_mods()),
{
}

/// A control byte in 0x01..=0x1A decodes to the letter 0x60 above it with
/// Control, except the four that are keys of their own: 0x08 (Backspace
/// with Control), 0x09 (Tab), 0x0A and 0x0D (Enter).
pub proof fn lemma_control_letter(b: u8)
    requires
        0x01 <= b <= 0x1A,
        b != 0x08,
        b != 0x09,
        b != 0x0A,
        b != 0x0D,
    ensures
        decode_spec(seq![b]) == EventView::Char((b + 0x60) as char, control_mod()),
{
}

/// Decoding depends on the bytes alone: equal spans decode to equal events.
pub proof fn lemma_decode_pure(a: Seq<u8>, b: Seq<u8>)
    requires
        a == b,
    ensures
        decode_spec(a) == decode_spec(b),
{
}

pub open spec fn csi_letter_bytes(f: u8) -> Seq<u8> {
    seq![ESC, LEFT_BRACKET, f]
}

pub open spec fn ss3_bytes(f: u8) -> Seq<u8> {
    seq![ESC, LETTER_O, f]
}

/// The decimal digits of `n`, for `n` below 100.
pub open spec fn small_decimal(n: u32) -> Seq<u8> {
    if n < 10 {
        seq![(0x30 + n) as u8]
    } else {
        seq![(0x30 + n / 10) as u8, (0x30 + n % 10) as u8]
    }
}

/// `ESC [ n ~`.
pub open spec fn tilde_bytes(n: u32) -> Seq<u8> {
    seq![ESC, LEFT_BRACKET] + small_decimal(n) + seq![TILDE]
}

proof fn lemma_no_params(b: Seq<u8>)
    requires
        b.len() == 3,
        b[0] == ESC,
        b[1] == LEFT_BRACKET,
        is_final_byte(b[2]),
        b[2] != LESS_THAN,
    ensures
        csi_parts(b) == Some((b[2], Seq::<u32>::empty())),
{
    assert(b.subrange(2, 2) =~= Seq::<u8>::empty());
    assert(csi_param_bytes(b) =~= Seq::<u8>::empty());
    let e = Seq::<u8>::empty();
    assert(fields(e) == seq![e]);
    assert(seq![e].drop_last() =~= Seq::<Seq<u8>>::empty());
    assert(seq![e].last() == e);
    reveal_with_fuel(field_numbers, 2);
    assert(field_numbers(seq![e], U16_MAX as nat) == Some(Seq::<u32>::empty()));
}

/// The CSI cursor and navigation table reads back: `ESC [ f` decodes to the
/// key of `f`, and two letters of the table never decode to the same event.
pub proof fn lemma_csi_letter_table(f: u8, g: u8)
    requires
        csi_letter_key(f) is Some,
    ensures
        decode_spec(csi_letter_bytes(f)) == EventView::Named(csi_letter_key(f)->0, no_mods()),
        csi_letter_key(g) is Some && g != f ==> decode_spec(csi_letter_bytes(g)) != decode_spec(
            csi_letter_bytes(f),
        ),
        decode_spec(csi_letter_bytes(0x5A)) == EventView::Named(NamedKey::BackTab, shift_mod()),
{
    lemma_no_params(csi_letter_bytes(f));
    lemma_no_params(csi_letter_bytes(0x5A));
    if csi_letter_key(g) is Some {
        lemma_no_params(csi_letter_bytes(g));
    }
}

/// The SS3 table reads back: `ESC O f` decodes to the key of `f`, and two
/// entries never decode to the same event.
pub proof fn lemma_ss3_table(f: u8, g: u8)
    requires
        ss3_key(f) is Some,
    ensures
        decode_spec(ss3_bytes(f)) == EventView::Named(ss3_key(f)->0, no_mods()),
        ss3_key(g) is Some && g != f ==> decode_spec(ss3_bytes(g)) != decode_spec(ss3_bytes(f)),
{
}

proof fn lemma_tilde_params(n: u32)
    requires
        1 <= n < 100,
    ensures
        csi_parts(tilde_bytes(n)) == Some((TILDE, seq![n])),
{
    let b = tilde_bytes(n);
    let d = small_decimal(n);
    reveal_with_fuel(field_numbers, 2);
    assert(csi_param_bytes(b) =~= d);
    if n < 10 {
        let e = Seq::<u8>::empty();
        assert(d.drop_last() =~= e);
        assert(fields(e) == seq![e]);
        assert(e.push(d.last()) =~= d);
        assert(seq![e].update(0, e.push(d.last())) =~= seq![d]);
        assert(fields(d) == seq![d]);
        assert(unsigned_digits(d) == d);
        assert(digits_value(d) == n);
        assert(seq![d].drop_last() =~= Seq::<Seq<u8>>::empty());
        assert(seq![d].last() == d);
        assert(field_numbers(seq![d], U16_MAX as nat) == Some(Seq::<u32>::empty().push(n)));
        assert(seq![n] =~= Seq::<u32>::empty().push(n));
    } else {
        let d0 = d.drop_last();
        let e = Seq::<u8>::empty();
        assert(d0.drop_last() =~= e);
        assert(fields(e) == seq![e]);
        assert(e.push(d0.last()) =~= d0);
        assert(seq![e].update(0, e.push(d0.last())) =~= seq![d0]);
        assert(fields(d0) == seq![d0]);
        assert(d0.push(d.last()) =~= d);
        assert(seq![d0].update(0, d0.push(d.last())) =~= seq![d]);
        assert(fields(d) == seq![d]);
        assert(unsigned_digits(d) == d);
        assert(d0 =~= seq![(0x30 + n / 10) as u8]);
        assert(n / 10 <= 9 && n % 10 <= 9);
        assert(d0.last() == (0x30 + n / 10) as u8);
        assert(digits_value(d0) == digits_value(e) * 10 + digit_value(d0.last()));
        assert(digits_value(d0) == n / 10);
        assert(digits_value(d) == n);
        assert(seq![d].drop_last() =~= Seq::<Seq<u8>>::empty());
        assert(field_numbers(seq![d], U16_MAX as nat) == Some(Seq::<u32>::empty().push(n)));
        assert(seq![n] =~= Seq::<u32>::empty().push(n));
    }
}

/// The `CSI n ~` table reads back: `ESC [ n ~` decodes to the key of `n`.
pub proof fn lemma_tilde_table(n: u32)
    requires
        tilde_key(n) is Some,
    ensures
        decode_spec(tilde_bytes(n)) == EventView::Named(tilde_key(n)->0, no_mods()),
{
    lemma_tilde_params(n);
    let b = tilde_bytes(n);
    assert(b != paste_start_bytes() && b != paste_end_bytes()) by {
        if n < 10 {
            assert(b.len() == 4);
        } else {
            assert(b.len() == 5);
        }
    }
    assert(seq![n].drop_last() =~= Seq::<u32>::empty());
}

/// Apart from the aliases 7 (Home, as 1) and 8 (End, as 4), two codes of
/// the `CSI n ~` table never decode to the same event.
pub proof fn lemma_tilde_table_distinct(n: u32, m: u32)
    requires
        tilde_key(n) is Some,
        tilde_key(m) is Some,
        n != m,
        n != 7 && n != 8,
        m != 7 && m != 8,
    ensures
        decode_spec(tilde_bytes(n)) != decode_spec(tilde_bytes(m)),
{
    lemma_tilde_table(n);
    lemma_tilde_table(m);
}

// ---------------------------------------------------------------------------
// The decoder.

/// The modifiers that a CSI modifier code stands for (2 Shift, 3 Alt,
/// 4 Shift+Alt, 5 Control, 6 Shift+Control, 7 Alt+Control, 8 all three).
pub fn decode_modifier_code(value: u32) -> (r: Modifiers)
    ensures
        r == modifier_code(value),
{
    let (shift, alt, control) = match value {
        2 => (true, false, false),
        3 => (false, true, false),
        4 => (true, true, false),
        5 => (false, false, true),
        6 => (true, false, true),
        7 => (false, true, true),
        8 => (true, true, true),
        _ => (false, false, false),
    };
    Modifiers { shift, alt, control }
}

/// Splits CSI parameters into the base ones and the modifiers that a
/// trailing modifier code gives.
pub fn split_params_and_modifiers(params: &Vec<u32>) -> (r: (Vec<u32>, Modifiers))
    ensures
        (r.0@, r.1) == split_params(params@),
{
    if params.len() <= 1 {
        return (params.clone(), Modifiers::none());
    }
    let n = params.len() - 1;
    let mut base: Vec<u32> = Vec::new();
    let mut i: usize = 0;
    while i < n
        invariant
            n == params@.len() - 1,
            i <= n,
            base@ == params@.subrange(0, i as int),
        decreases n - i,
    {
        base.push(params[i]);
        i = i + 1;
        assert(base@ =~= params@.subrange(0, i as int));
    }
    assert(base@ =~= params@.drop_last());
    (base, decode_modifier_code(params[n]))
}

/// The key of a `CSI n ~` sequence with code `n`.
pub fn tilde_key_of(n: u32) -> (r: Option<NamedKey>)
    ensures
        r == tilde_key(n),
{
    if n == 1 || n == 7 {
        Some(NamedKey::Home)
    } else if n == 2 {
        Some(NamedKey::Insert)
    } else if n == 3 {
        Some(NamedKey::Delete)
    } else if n == 4 || n == 8 {
        Some(NamedKey::End)
    } else if n == 5 {
        Some(NamedKey::PageUp)
    } else if n == 6 {
        Some(NamedKey::PageDown)
    } else if 11 <= n && n <= 15 {
        Some(NamedKey::F((n - 10) as u8))
    } else if 17 <= n && n <= 21 {
        Some(NamedKey::F((n - 11) as u8))
    } else if n == 23 || n == 24 {
        Some(NamedKey::F((n - 12) as u8))
    } else {
        None
    }
}

/// The cursor or navigation key that a CSI final letter names.
pub fn csi_letter_key_of(f: u8) -> (r: Option<NamedKey>)
    ensures
        r == csi_letter_key(f),
{
    match f {
        0x41 => Some(NamedKey::Up),
        0x42 => Some(NamedKey::Down),
        0x43 => Some(NamedKey::Right),
        0x44 => Some(NamedKey::Left),
        0x46 => Some(NamedKey::End),
        0x48 => Some(NamedKey::Home),
        _ => None,
    }
}

/// The key of an SS3 final byte: F1-F4, an arrow, Home or End.
pub fn ss3_key_of(f: u8) -> (r: Option<NamedKey>)
    ensures
        r == ss3_key(f),
{
    if 0x50 <= f && f <= 0x53 {
        Some(NamedKey::F(f - 0x4F))
    } else {
        csi_letter_key_of(f)
    }
}

/// The key of a `CSI n ~` sequence, by its first base parameter.
pub fn interpret_csi_tilde(params: &Vec<u32>) -> (r: Option<DecodedEvent>)
    ensures
        opt_view(r) == csi_key(TILDE, params@),
{
    let (base, modifiers) = split_params_and_modifiers(params);
    if base.len() == 0 {
        return None;
    }
    let key = match tilde_key_of(base[0]) {
        Some(k) => k,
        None => return None,
    };
    Some(DecodedEvent::Named(key, modifiers))
}

/// A cursor or navigation key with the modifiers that `params` carry.
pub fn build_arrow_guess(key: NamedKey, params: &Vec<u32>) -> (r: DecodedEvent)
    ensures
        r@ == EventView::Named(key, split_params(params@).1),
{
    let (_, modifiers) = split_params_and_modifiers(params);
    DecodedEvent::Named(key, modifiers)
}

/// The final byte and the parameters of a CSI sequence: `;`-separated
/// numbers after ESC `[` and an optional `?`.
pub fn parse_csi(bytes: &[u8]) -> (r: Option<(u8, Vec<u32>)>)
    ensures
        r matches Some((f, p)) ==> csi_parts(bytes@) == Some((f, p@)),
        r is None ==> csi_parts(bytes@) is None,
{
    let n = bytes.len();
    if n < 3 || bytes[0] != ESC || bytes[1] != LEFT_BRACKET {
        return None;
    }
    let final_byte = bytes[n - 1];
    if final_byte < 0x40 || final_byte > 0x7E {
        return None;
    }
    let mut lo: usize = 2;
    if lo < n - 1 && bytes[lo] == QUESTION {
        lo = 3;
    }
    proof {
        let p = bytes@.subrange(2, n - 1);
        if p.len() > 0 && p[0] == QUESTION {
            assert(p.drop_first() =~= bytes@.subrange(3, n - 1));
        } else {
            assert(p =~= bytes@.subrange(2, n - 1));
        }
        assert(csi_param_bytes(bytes@) == bytes@.subrange(lo as int, n - 1));
    }
    match parse_params(bytes, lo, n - 1, U16_MAX) {
        Some(params) => Some((final_byte, params)),
        None => None,
    }
}

/// An SGR mouse report `ESC [ < b ; x ; y M` (press) or `... m` (release).
fn interpret_mouse(bytes: &[u8]) -> (r: Option<DecodedEvent>)
    requires
        is_mouse_shape(bytes@),
    ensures
        opt_view(r) == mouse_view(bytes@),
{
    let n = bytes.len();
    match parse_params(bytes, 3, n - 1, I32_MAX) {
        Some(p) => {
            if p.len() != 3 {
                return None;
            }
            let b = p[0];
            Some(
                DecodedEvent::Mouse {
                    pressed: bytes[n - 1] == 0x4D,
                    x: p[1],
                    y: p[2],
                    button_id: b % 8,
                    modifiers: decode_modifier_code((b / 8) % 8 + 1),
                },
            )
        },
        None => None,
    }
}

fn is_paste_marker(bytes: &[u8], last_digit: u8) -> (r: bool)
    ensures
        r == (bytes@ == seq![ESC, LEFT_BRACKET, 0x32u8, 0x30u8, last_digit, TILDE]),
{
    let r = bytes.len() == 6 && bytes[0] == ESC && bytes[1] == LEFT_BRACKET && bytes[2] == 0x32
        && bytes[3] == 0x30 && bytes[4] == last_digit && bytes[5] == TILDE;
    proof {
        if r {
            assert(bytes@ =~= seq![ESC, LEFT_BRACKET, 0x32u8, 0x30u8, last_digit, TILDE]);
        }
    }
    r
}

/// The CSI reading of a span: paste markers, SGR mouse reports, cursor and
/// navigation keys, BackTab and the `~` keys.
pub fn interpret_csi_sequence(bytes: &[u8]) -> (r: Option<DecodedEvent>)
    ensures
        opt_view(r) == csi_view(bytes@),
{
    if is_paste_marker(bytes, 0x30) {
        return Some(DecodedEvent::PasteStart);
    }
    if is_paste_marker(bytes, 0x31) {
        return Some(DecodedEvent::PasteEnd);
    }
    let n = bytes.len();
    if n >= 3 && bytes[0] == ESC && bytes[1] == LEFT_BRACKET && bytes[2] == LESS_THAN && (
    bytes[n - 1] == 0x4D || bytes[n - 1] == 0x6D) {
        return interpret_mouse(bytes);
    }
    let (final_byte, params) = match parse_csi(bytes) {
        Some(parts) => parts,
        None => return None,
    };
    if let Some(key) = csi_letter_key_of(final_byte) {
        Some(build_arrow_guess(key, &params))
    } else if final_byte == 0x5A {
        Some(
            DecodedEvent::Named(NamedKey::BackTab, Modifiers { shift: true, alt: false, control: false }),
        )
    } else if final_byte == TILDE {
        interpret_csi_tilde(&params)
    } else {
        None
    }
}

/// The SS3 reading: ESC `O` and F1-F4, an arrow, Home or End.
pub fn interpret_ss3_sequence(bytes: &[u8]) -> (r: Option<DecodedEvent>)
    ensures
        opt_view(r) == ss3_view(bytes@),
{
    if bytes.len() != 3 || bytes[0] != ESC || bytes[1] != LETTER_O {
        return None;
    }
    let key = match ss3_key_of(bytes[2]) {
        Some(k) => k,
        None => return None,
    };
    Some(DecodedEvent::Named(key, Modifiers::none()))
}

/// ESC followed by exactly one UTF-8 character: that character with Alt.
pub fn interpret_alt_sequence(bytes: &[u8]) -> (r: Option<DecodedEvent>)
    ensures
        opt_view(r) == alt_view(bytes@),
{
    let n = bytes.len();
    if n < 2 || bytes[0] != ESC {
        return None;
    }
    assert(bytes@.subrange(1, n as int) =~= bytes@.drop_first());
    match utf8_chars(bytes, 1, n) {
        Some(chars) => {
            if chars.len() != 1 {
                return None;
            }
            Some(DecodedEvent::Char(chars[0], Modifiers { shift: false, alt: true, control: false }))
        },
        None => None,
    }
}

/// A lone byte below 0x80.
pub fn interpret_single_byte(bytes: &[u8]) -> (r: Option<DecodedEvent>)
    ensures
        opt_view(r) == single_byte_view(bytes@),
{
    if bytes.len() != 1 {
        return None;
    }
    let x = bytes[0];
    let none = Modifiers::none();
    let control = Modifiers { shift: false, alt: false, control: true };
    if x == 0 {
        Some(DecodedEvent::Named(NamedKey::Null, none))
    } else if x == 0x0D || x == 0x0A {
        Some(DecodedEvent::Named(NamedKey::Enter, none))
    } else if x == 0x09 {
        Some(DecodedEvent::Named(NamedKey::Tab, none))
    } else if x == DEL {
        Some(DecodedEvent::Named(NamedKey::Backspace, none))
    } else if x == 0x08 {
        Some(DecodedEvent::Named(NamedKey::Backspace, control))
    } else if x == ESC {
        Some(DecodedEvent::Named(NamedKey::Esc, none))
    } else if x <= 0x1F {
        Some(DecodedEvent::Char((x + 0x60) as char, control))
    } else if x <= 0x7E {
        Some(DecodedEvent::Char(x as char, none))
    } else {
        None
    }
}

/// A whole UTF-8 sequence: exactly as many bytes as its lead byte calls for,
/// encoding one character.
pub fn interpret_utf8_char(bytes: &[u8]) -> (r: Option<DecodedEvent>)
    ensures
        opt_view(r) == utf8_view(bytes@),
{
    let n = bytes.len();
    if n == 0 {
        return None;
    }
    if utf8_char_width(bytes[0]) != n {
        return None;
    }
    assert(bytes@.subrange(0, n as int) =~= bytes@);
    match utf8_chars(bytes, 0, n) {
        Some(chars) => {
            if chars.len() != 1 {
                return None;
            }
            Some(DecodedEvent::Char(chars[0], Modifiers::none()))
        },
        None => None,
    }
}

/// The first reading that applies to `bytes`: CSI, SS3, Alt-prefixed
/// character, single byte, UTF-8 character.
pub fn interpret_bytes(bytes: &[u8]) -> (r: Option<DecodedEvent>)
    ensures
        opt_view(r) == interpret(bytes@),
{
    if bytes.len() == 0 {
        return None;
    }
    let csi = interpret_csi_sequence(bytes);
    if csi.is_some() {
        return csi;
    }
    let ss3 = interpret_ss3_sequence(bytes);
    if ss3.is_some() {
        return ss3;
    }
    let alt = interpret_alt_sequence(bytes);
    if alt.is_some() {
        return alt;
    }
    let single = interpret_single_byte(bytes);
    if single.is_some() {
        return single;
    }
    interpret_utf8_char(bytes)
}

/// Decodes one complete event span. Spans that no rule reads come back as
/// `Unrecognized`, holding their bytes.
pub fn decode(bytes: &[u8]) -> (r: DecodedEvent)
    ensures
        r@ == decode_spec(bytes@),
{
    match interpret_bytes(bytes) {
        Some(e) => e,
        None => DecodedEvent::Unrecognized(slice_to_vec(bytes)),
    }
}

} // verus!
