//! A lighter tokenizer for a raw-mode byte dump: it reads tokens off the
//! front of a byte queue (control bytes, plain bytes, escape sequences it
//! knows, and raw sequences it does not) and renders each one as a short
//! text. Also the control sequences that switch bracketed paste and mouse
//! reporting on and off.

use vstd::prelude::*;
use std::collections::VecDeque;
use crate::decode::{
    csi_letter_key, csi_letter_key_of, is_final_byte, ss3_key, ss3_key_of, tilde_key, tilde_key_of,
    NamedKey, ESC, LEFT_BRACKET, LETTER_O,
};
use crate::describe::{escape_bytes, escape_text};
use crate::segment::{
    csi_span_len, first_final, lemma_first_final_none, lemma_first_final_prefix, CSI_LOOKAHEAD,
};
use crate::text::{
    all_digits, decimal_text, digits_value, param_list, parse_params, push_char, push_decimal,
    I32_MAX,
};

verus! {

/// Keys that the tokenizer names.
#[derive(Clone, Copy, Debug, PartialEq, Eq, Structural)]
pub enum TokenKey {
    Bell,
    Backspace,
    Tab,
    LineFeed,
    CarriageReturn,
    Del,
    Up,
    Down,
    Right,
    Left,
    Home,
    End,
    Insert,
    PageUp,
    PageDown,
    F(u8),
}

/// One token of the byte stream.
#[derive(Debug, PartialEq, Eq)]
pub enum Token {
    /// A byte with no meaning of its own (printable, or part of UTF-8).
    Byte(u8),
    /// A control byte, by the character that follows `CTRL-` (`?` when it
    /// has none).
    Ctrl(char),
    Esc,
    /// A CSI sequence that no rule names: its bytes after ESC.
    Csi(Vec<u8>),
    /// An SS3 sequence that no rule names: its bytes after ESC.
    Ss3(Vec<u8>),
    Key(TokenKey),
    PasteStart,
    PasteEnd,
    Mouse { press: bool, x: u32, y: u32, mods: u32, btn: u32 },
}

pub ghost enum TokenView {
    Byte(u8),
    Ctrl(char),
    Esc,
    Csi(Seq<u8>),
    Ss3(Seq<u8>),
    Key(TokenKey),
    PasteStart,
    PasteEnd,
    Mouse { press: bool, x: u32, y: u32, mods: u32, btn: u32 },
}

impl View for Token {
    type V = TokenView;

    open spec fn view(&self) -> TokenView {
        match self {
            Token::Byte(b) => TokenView::Byte(*b),
            Token::Ctrl(c) => TokenView::Ctrl(*c),
            Token::Esc => TokenView::Esc,
            Token::Csi(s) => TokenView::Csi(s@),
            Token::Ss3(s) => TokenView::Ss3(s@),
            Token::Key(k) => TokenView::Key(*k),
            Token::PasteStart => TokenView::PasteStart,
            Token::PasteEnd => TokenView::PasteEnd,
            Token::Mouse { press, x, y, mods, btn } => TokenView::Mouse {
                press: *press,
                x: *x,
                y: *y,
                mods: *mods,
                btn: *btn,
            },
        }
    }
}

pub open spec fn opt_token(o: Option<Token>) -> Option<TokenView> {
    match o {
        Some(t) => Some(t@),
        None => None,
    }
}

/// The token of a control byte (below 0x20, or DEL).
pub open spec fn control_token(b: u8) -> TokenView {
    if b == 0 {
        TokenView::Ctrl('@')
    } else if 1 <= b && b <= 6 {
        TokenView::Ctrl((b + 0x40) as char)
    } else if b == 7 {
        TokenView::Key(TokenKey::Bell)
    } else if b == 8 {
        TokenView::Key(TokenKey::Backspace)
    } else if b == 9 {
        TokenView::Key(TokenKey::Tab)
    } else if b == 0x0A {
        TokenView::Key(TokenKey::LineFeed)
    } else if b == 0x0D {
        TokenView::Key(TokenKey::CarriageReturn)
    } else if b == 0x7F {
        TokenView::Key(TokenKey::Del)
    } else {
        TokenView::Ctrl('?')
    }
}

/// The tokenizer's name for a key of the decoder's tables.
pub open spec fn token_key_of(k: NamedKey) -> TokenKey {
    match k {
        NamedKey::Up => TokenKey::Up,
        NamedKey::Down => TokenKey::Down,
        NamedKey::Right => TokenKey::Right,
        NamedKey::Left => TokenKey::Left,
        NamedKey::Home => TokenKey::Home,
        NamedKey::End => TokenKey::End,
        NamedKey::Insert => TokenKey::Insert,
        NamedKey::Delete => TokenKey::Del,
        NamedKey::PageUp => TokenKey::PageUp,
        NamedKey::PageDown => TokenKey::PageDown,
        NamedKey::F(n) => TokenKey::F(n),
        _ => TokenKey::Del,
    }
}

/// A number written the plain way: one or two digits, no leading zero.
pub open spec fn plain_number(s: Seq<u8>) -> Option<u32> {
    if 1 <= s.len() <= 2 && all_digits(s) && s[0] != 0x30 {
        Some(digits_value(s) as u32)
    } else {
        None
    }
}

/// The token of a complete CSI sequence `s` (its bytes after ESC, `[`
/// first): the six plain cursor and navigation keys, the paste markers,
/// `n ~` keys, and SGR mouse reports.
pub open spec fn csi_token(s: Seq<u8>) -> Option<TokenView> {
    let n = s.len();
    if n < 2 || s[0] != LEFT_BRACKET {
        None
    } else if n == 2 && csi_letter_key(s[1]) is Some {
        Some(TokenView::Key(token_key_of(csi_letter_key(s[1])->0)))
    } else if s == seq![LEFT_BRACKET, 0x32u8, 0x30u8, 0x30u8, 0x7Eu8] {
        Some(TokenView::PasteStart)
    } else if s == seq![LEFT_BRACKET, 0x32u8, 0x30u8, 0x31u8, 0x7Eu8] {
        Some(TokenView::PasteEnd)
    } else if n >= 2 && s.last() == 0x7E {
        match plain_number(s.subrange(1, n - 1)) {
            Some(v) => match tilde_key(v) {
                Some(k) => Some(TokenView::Key(token_key_of(k))),
                None => None,
            },
            None => None,
        }
    } else if n >= 3 && s[1] == 0x3C && (s.last() == 0x4D || s.last() == 0x6D) {
        match param_list(s.subrange(2, n - 1), I32_MAX as nat) {
            Some(p) => if p.len() == 3 {
                Some(
                    TokenView::Mouse {
                        press: s.last() == 0x4D,
                        x: p[1],
                        y: p[2],
                        mods: ((p[0] / 8) % 8) as u32,
                        btn: (p[0] % 8) as u32,
                    },
                )
            } else {
                None
            },
            None => None,
        }
    } else {
        None
    }
}

/// The token of a complete SS3 sequence `s` (`O` and the final byte): the
/// keys of the decoder's SS3 table (F1-F4, the arrows, Home, End).
pub open spec fn ss3_token(s: Seq<u8>) -> Option<TokenView> {
    if s.len() == 2 && s[0] == LETTER_O && ss3_key(s[1]) is Some {
        Some(TokenView::Key(token_key_of(ss3_key(s[1])->0)))
    } else {
        None
    }
}

/// How many bytes of `q` (ESC, a lead byte, then more) the sequence takes
/// after the ESC, and whether it ended on a final byte. It is measured as
/// the segmenter measures a CSI sequence (`csi_span_len`): through the first
/// final byte after the lead, or cut at `CSI_LOOKAHEAD` bytes counted from
/// the ESC. `None` while neither is there yet.
pub open spec fn sequence_len(q: Seq<u8>) -> Option<(nat, bool)> {
    match csi_span_len(q) {
        Some(n) => Some(((n - 1) as nat, is_final_byte(q[n - 1]))),
        None => None,
    }
}

/// The token at the front of `q` and how many bytes it takes; `None` while
/// the front may still become a longer sequence (a lone ESC, or a sequence
/// with no final byte yet).
pub open spec fn next_token(q: Seq<u8>) -> Option<(TokenView, nat)> {
    if q.len() == 0 {
        None
    } else if q[0] == ESC {
        if q.len() == 1 {
            None
        } else if q[1] == LEFT_BRACKET || q[1] == LETTER_O {
            match sequence_len(q) {
                Some((n, complete)) => {
                    let s = q.subrange(1, n as int + 1);
                    let raw = if q[1] == LEFT_BRACKET {
                        TokenView::Csi(s)
                    } else {
                        TokenView::Ss3(s)
                    };
                    let named = if !complete {
                        None
                    } else if q[1] == LEFT_BRACKET {
                        csi_token(s)
                    } else {
                        ss3_token(s)
                    };
                    match named {
                        Some(t) => Some((t, n + 1)),
                        None => Some((raw, n + 1)),
                    }
                },
                None => None,
            }
        } else {
            Some((TokenView::Esc, 1))
        }
    } else if q[0] <= 0x1F || q[0] == 0x7F {
        Some((control_token(q[0]), 1))
    } else {
        Some((TokenView::Byte(q[0]), 1))
    }
}

/// Takes the sequence that starts at the front of `q` with ESC and `lead`
/// off the queue: returns its bytes after the ESC (lead first) and whether
/// it ended on a final byte, and removes the ESC and those bytes from `q`.
/// While the sequence is still open it returns `None` and leaves `q` as it
/// is.
pub fn gather_ansi(q: &mut VecDeque<u8>, lead: u8) -> (r: Option<(Vec<u8>, bool)>)
    requires
        old(q)@.len() >= 2 ==> old(q)@[1] == lead,
    ensures
        r is None ==> sequence_len(old(q)@) is None && final(q)@ == old(q)@,
        r matches Some((s, complete)) ==> {
            &&& sequence_len(old(q)@) == Some((s@.len(), complete))
            &&& 1 <= s@.len() < old(q)@.len()
            &&& s@ == old(q)@.subrange(1, s@.len() as int + 1)
            &&& final(q)@ == old(q)@.subrange(s@.len() as int + 1, old(q)@.len() as int)
        },
{
    let ghost q0 = q@;
    let n = q.len();
    if n < 3 {
        return None;
    }
    let end: usize = if n < CSI_LOOKAHEAD {
        n
    } else {
        CSI_LOOKAHEAD
    };
    let ghost window = q0.subrange(2, end as int);
    let mut tmp: Vec<u8> = Vec::new();
    tmp.push(lead);
    let mut i: usize = 2;
    assert(q0.subrange(2, 2) =~= Seq::<u8>::empty());
    assert(tmp@ =~= q0.subrange(1, 2));
    while i < end
        invariant
            2 <= i <= end <= n,
            n == q0.len(),
            q@ == q0,
            q0 == old(q)@,
            end == if n < CSI_LOOKAHEAD {
                n
            } else {
                CSI_LOOKAHEAD
            },
            window == q0.subrange(2, end as int),
            first_final(q0.subrange(2, i as int)) is None,
            tmp@ == q0.subrange(1, i as int),
        decreases end - i,
    {
        let c = q[i];
        tmp.push(c);
        let ghost pre = q0.subrange(2, i as int + 1);
        assert(pre.drop_last() =~= q0.subrange(2, i as int));
        assert(tmp@ =~= q0.subrange(1, i as int + 1));
        if 0x40 <= c && c <= 0x7E {
            proof {
                assert(window.subrange(0, i - 1) =~= pre);
                lemma_first_final_prefix(window, i - 1);
            }
            drop_front(q, i + 1);
            return Some((tmp, true));
        }
        i = i + 1;
    }
    assert(q0.subrange(2, i as int) =~= window);
    if n >= CSI_LOOKAHEAD {
        proof {
            lemma_first_final_none(window, CSI_LOOKAHEAD - 3);
        }
        drop_front(q, CSI_LOOKAHEAD);
        Some((tmp, false))
    } else {
        None
    }
}

fn token_key(k: NamedKey) -> (r: TokenKey)
    ensures
        r == token_key_of(k),
{
    match k {
        NamedKey::Up => TokenKey::Up,
        NamedKey::Down => TokenKey::Down,
        NamedKey::Right => TokenKey::Right,
        NamedKey::Left => TokenKey::Left,
        NamedKey::Home => TokenKey::Home,
        NamedKey::End => TokenKey::End,
        NamedKey::Insert => TokenKey::Insert,
        NamedKey::Delete => TokenKey::Del,
        NamedKey::PageUp => TokenKey::PageUp,
        NamedKey::PageDown => TokenKey::PageDown,
        NamedKey::F(n) => TokenKey::F(n),
        _ => TokenKey::Del,
    }
}

fn is_digit_byte(b: u8) -> (r: bool)
    ensures
        r == (0x30 <= b && b <= 0x39),
{
    0x30 <= b && b <= 0x39
}

/// The number in `s[1..n-1]` if it is written the plain way.
fn plain_number_of(s: &[u8]) -> (r: Option<u32>)
    requires
        s@.len() >= 2,
    ensures
        r == plain_number(s@.subrange(1, s@.len() - 1)),
{
    let n = s.len();
    let ghost num = s@.subrange(1, n - 1);
    if n == 3 && is_digit_byte(s[1]) && s[1] != 0x30 {
        assert(num.drop_last() =~= Seq::<u8>::empty());
        assert(digits_value(Seq::<u8>::empty()) == 0);
        assert(num.last() == s@[1]);
        assert(digits_value(num) == (s[1] - 0x30) as nat);
        return Some((s[1] - 0x30) as u32);
    }
    if n == 4 && is_digit_byte(s[1]) && is_digit_byte(s[2]) && s[1] != 0x30 {
        let ghost first = num.drop_last();
        assert(first.drop_last() =~= Seq::<u8>::empty());
        assert(digits_value(Seq::<u8>::empty()) == 0);
        assert(first.last() == s@[1]);
        assert(num.last() == s@[2]);
        assert(digits_value(first) == (s[1] - 0x30) as nat);
        assert(digits_value(num) == (s[1] - 0x30) as nat * 10 + (s[2] - 0x30) as nat);
        return Some(((s[1] - 0x30) as u32) * 10 + (s[2] - 0x30) as u32);
    }
    proof {
        if 1 <= num.len() <= 2 && all_digits(num) && num[0] != 0x30 {
            assert(num.len() == 2 ==> crate::text::is_digit(num[1]));
            assert(crate::text::is_digit(num[0]));
        }
    }
    None
}

/// The token of a complete CSI sequence (its bytes after ESC, `[` first),
/// if a rule names it.
pub fn map_csi(s: &[u8]) -> (r: Option<Token>)
    ensures
        opt_token(r) == csi_token(s@),
{
    let n = s.len();
    if n < 2 || s[0] != LEFT_BRACKET {
        return None;
    }
    if n == 2 {
        if let Some(k) = csi_letter_key_of(s[1]) {
            return Some(Token::Key(token_key(k)));
        }
    }
    if n == 5 && s[0] == LEFT_BRACKET && s[1] == 0x32 && s[2] == 0x30 && s[4] == 0x7E {
        if s[3] == 0x30 {
            assert(s@ =~= seq![LEFT_BRACKET, 0x32u8, 0x30u8, 0x30u8, 0x7Eu8]);
            return Some(Token::PasteStart);
        }
        if s[3] == 0x31 {
            assert(s@ =~= seq![LEFT_BRACKET, 0x32u8, 0x30u8, 0x31u8, 0x7Eu8]);
            return Some(Token::PasteEnd);
        }
    }
    if n >= 2 && s[n - 1] == 0x7E {
        return match plain_number_of(s) {
            Some(v) => match tilde_key_of(v) {
                Some(k) => Some(Token::Key(token_key(k))),
                None => None,
            },
            None => None,
        };
    }
    if n >= 3 && s[1] == 0x3C && (s[n - 1] == 0x4D || s[n - 1] == 0x6D) {
        return match parse_params(s, 2, n - 1, I32_MAX) {
            Some(p) => {
                if p.len() != 3 {
                    return None;
                }
                let b = p[0];
                Some(
                    Token::Mouse {
                        press: s[n - 1] == 0x4D,
                        x: p[1],
                        y: p[2],
                        mods: (b / 8) % 8,
                        btn: b % 8,
                    },
                )
            },
            None => None,
        };
    }
    None
}

/// The token of a complete SS3 sequence (`O` and its final byte), if a
/// rule names it.
pub fn map_ss3(s: &[u8]) -> (r: Option<Token>)
    ensures
        opt_token(r) == ss3_token(s@),
{
    if s.len() != 2 || s[0] != LETTER_O {
        return None;
    }
    match ss3_key_of(s[1]) {
        Some(k) => Some(Token::Key(token_key(k))),
        None => None,
    }
}

fn control_token_of(b: u8) -> (r: Token)
    ensures
        r@ == control_token(b),
{
    if b == 0 {
        Token::Ctrl('@')
    } else if 1 <= b && b <= 6 {
        Token::Ctrl((b + 0x40) as char)
    } else if b == 7 {
        Token::Key(TokenKey::Bell)
    } else if b == 8 {
        Token::Key(TokenKey::Backspace)
    } else if b == 9 {
        Token::Key(TokenKey::Tab)
    } else if b == 0x0A {
        Token::Key(TokenKey::LineFeed)
    } else if b == 0x0D {
        Token::Key(TokenKey::CarriageReturn)
    } else if b == 0x7F {
        Token::Key(TokenKey::Del)
    } else {
        Token::Ctrl('?')
    }
}

fn drop_front(q: &mut VecDeque<u8>, k: usize)
    requires
        k <= old(q)@.len(),
    ensures
        final(q)@ == old(q)@.subrange(k as int, old(q)@.len() as int),
{
    let ghost start = q@;
    let mut i: usize = 0;
    while i < k
        invariant
            i <= k <= start.len(),
            q@ == start.subrange(i as int, start.len() as int),
        decreases k - i,
    {
        let _ = q.pop_front();
        i = i + 1;
        assert(q@ =~= start.subrange(i as int, start.len() as int));
    }
}

/// Takes the next token off the front of `q`. While the front may still
/// grow into a longer sequence (a lone ESC, or a sequence with no final
/// byte yet) it returns `None` and leaves `q` as it is.
pub fn parse_next(q: &mut VecDeque<u8>) -> (r: Option<Token>)
    ensures
        next_token(old(q)@) is None ==> r is None && final(q)@ == old(q)@,
        next_token(old(q)@) matches Some((t, k)) ==> opt_token(r) == Some(t) && final(q)@
            == old(q)@.subrange(k as int, old(q)@.len() as int),
{
    let n = q.len();
    if n == 0 {
        return None;
    }
    let b = q[0];
    if b == ESC {
        if n == 1 {
            return None;
        }
        let lead = q[1];
        if lead == LEFT_BRACKET || lead == LETTER_O {
            match gather_ansi(q, lead) {
                None => {
                    return None;
                },
                Some((seq, complete)) => {
                    let named = if !complete {
                        None
                    } else if lead == LEFT_BRACKET {
                        map_csi(seq.as_slice())
                    } else {
                        map_ss3(seq.as_slice())
                    };
                    let tok = match named {
                        Some(t) => t,
                        None => if lead == LEFT_BRACKET {
                            Token::Csi(seq)
                        } else {
                            Token::Ss3(seq)
                        },
                    };
                    return Some(tok);
                },
            }
        }
        let _ = q.pop_front();
        return Some(Token::Esc);
    }
    let _ = q.pop_front();
    if b <= 0x1F || b == 0x7F {
        Some(control_token_of(b))
    } else {
        Some(Token::Byte(b))
    }
}

/// A digit below sixteen in lower-case hexadecimal.
pub open spec fn lower_hex_digit(d: nat) -> char {
    if d < 10 {
        (0x30 + d) as char
    } else {
        (0x61 + d - 10) as char
    }
}

/// The short name of a key (`UP`, `PGDN`, `F5`).
pub open spec fn key_name(k: TokenKey) -> Seq<char> {
    match k {
        TokenKey::Bell => "BEL"@,
        TokenKey::Backspace => "BS"@,
        TokenKey::Tab => "TAB"@,
        TokenKey::LineFeed => "LF"@,
        TokenKey::CarriageReturn => "CR"@,
        TokenKey::Del => "DEL"@,
        TokenKey::Up => "UP"@,
        TokenKey::Down => "DOWN"@,
        TokenKey::Right => "RIGHT"@,
        TokenKey::Left => "LEFT"@,
        TokenKey::Home => "HOME"@,
        TokenKey::End => "END"@,
        TokenKey::Insert => "INS"@,
        TokenKey::PageUp => "PGUP"@,
        TokenKey::PageDown => "PGDN"@,
        TokenKey::F(n) => "F"@ + decimal_text(n as nat),
    }
}

/// How a token is shown: `\x41` for a plain byte, `<CTRL-A>`, `<ESC>`,
/// `<UP>`, `<CSI ...>` and `<SS3 ...>` with the raw bytes escaped,
/// `<PASTE-START>`, `<PASTE-END>`, and `<MOUSE DOWN btn=0 x=1 y=2 mods=0>`.
pub open spec fn token_text(t: TokenView) -> Seq<char> {
    match t {
        TokenView::Byte(b) => "\\x"@ + seq![lower_hex_digit(b as nat / 16), lower_hex_digit(b as nat % 16)],
        TokenView::Ctrl(c) => "<CTRL-"@ + seq![c] + ">"@,
        TokenView::Esc => "<ESC>"@,
        TokenView::Key(k) => "<"@ + key_name(k) + ">"@,
        TokenView::Csi(s) => "<CSI "@ + escape_text(s) + ">"@,
        TokenView::Ss3(s) => "<SS3 "@ + escape_text(s) + ">"@,
        TokenView::PasteStart => "<PASTE-START>"@,
        TokenView::PasteEnd => "<PASTE-END>"@,
        TokenView::Mouse { press, x, y, mods, btn } => "<MOUSE "@ + (if press {
            "DOWN"@
        } else {
            "UP"@
        }) + " btn="@ + decimal_text(btn as nat) + " x="@ + decimal_text(x as nat) + " y="@
            + decimal_text(y as nat) + " mods="@ + decimal_text(mods as nat) + ">"@,
    }
}

fn lower_hex_char(d: u8) -> (c: char)
    requires
        d < 16,
    ensures
        c == lower_hex_digit(d as nat),
{
    if d < 10 {
        (0x30 + d) as char
    } else {
        (0x61 + d - 10) as char
    }
}

/// The short name of a key.
pub fn key_name_text(k: TokenKey) -> (r: String)
    ensures
        r@ == key_name(k),
{
    match k {
        TokenKey::Bell => "BEL".to_owned(),
        TokenKey::Backspace => "BS".to_owned(),
        TokenKey::Tab => "TAB".to_owned(),
        TokenKey::LineFeed => "LF".to_owned(),
        TokenKey::CarriageReturn => "CR".to_owned(),
        TokenKey::Del => "DEL".to_owned(),
        TokenKey::Up => "UP".to_owned(),
        TokenKey::Down => "DOWN".to_owned(),
        TokenKey::Right => "RIGHT".to_owned(),
        TokenKey::Left => "LEFT".to_owned(),
        TokenKey::Home => "HOME".to_owned(),
        TokenKey::End => "END".to_owned(),
        TokenKey::Insert => "INS".to_owned(),
        TokenKey::PageUp => "PGUP".to_owned(),
        TokenKey::PageDown => "PGDN".to_owned(),
        TokenKey::F(n) => {
            let mut out = "F".to_owned();
            push_decimal(&mut out, n as u64);
            out
        },
    }
}

/// The text that shows a token (see `token_text`).
pub fn print_token(t: &Token) -> (r: String)
    ensures
        r@ == token_text(t@),
{
    match t {
        Token::Byte(b) => {
            let mut out = "\\x".to_owned();
            push_char(&mut out, lower_hex_char(*b / 16));
            push_char(&mut out, lower_hex_char(*b % 16));
            proof {
                let tv = t@;
                assert(out@ =~= token_text(tv));
            }
            out
        },
        Token::Ctrl(c) => {
            let mut out = "<CTRL-".to_owned();
            push_char(&mut out, *c);
            out.append(">");
            proof {
                let tv = t@;
                assert(out@ =~= token_text(tv));
            }
            out
        },
        Token::Esc => "<ESC>".to_owned(),
        Token::Key(k) => {
            let mut out = "<".to_owned();
            let name = key_name_text(*k);
            out.append(name.as_str());
            out.append(">");
            out
        },
        Token::Csi(s) => {
            let mut out = "<CSI ".to_owned();
            let text = escape_bytes(s.as_slice());
            out.append(text.as_str());
            out.append(">");
            out
        },
        Token::Ss3(s) => {
            let mut out = "<SS3 ".to_owned();
            let text = escape_bytes(s.as_slice());
            out.append(text.as_str());
            out.append(">");
            out
        },
        Token::PasteStart => "<PASTE-START>".to_owned(),
        Token::PasteEnd => "<PASTE-END>".to_owned(),
        Token::Mouse { press, x, y, mods, btn } => {
            let mut out = "<MOUSE ".to_owned();
            if *press {
                out.append("DOWN");
            } else {
                out.append("UP");
            }
            out.append(" btn=");
            push_decimal(&mut out, *btn as u64);
            out.append(" x=");
            push_decimal(&mut out, *x as u64);
            out.append(" y=");
            push_decimal(&mut out, *y as u64);
            out.append(" mods=");
            push_decimal(&mut out, *mods as u64);
            out.append(">");
            out
        },
    }
}

/// `ESC [ ? 2004 h`: bracketed paste on.
pub open spec fn paste_on_bytes() -> Seq<u8> {
    seq![ESC, LEFT_BRACKET, 0x3Fu8, 0x32u8, 0x30u8, 0x30u8, 0x34u8, 0x68u8]
}

/// `ESC [ ? 1000 h` and `ESC [ ? 1006 h`: mouse reports on, in SGR form.
pub open spec fn mouse_on_bytes() -> Seq<u8> {
    seq![ESC, LEFT_BRACKET, 0x3Fu8, 0x31u8, 0x30u8, 0x30u8, 0x30u8, 0x68u8]
        + seq![ESC, LEFT_BRACKET, 0x3Fu8, 0x31u8, 0x30u8, 0x30u8, 0x36u8, 0x68u8]
}

/// `ESC [ ? 2004 l` and `ESC [ ? 1000 l`: bracketed paste and mouse
/// reports off.
pub open spec fn capabilities_off_bytes() -> Seq<u8> {
    seq![ESC, LEFT_BRACKET, 0x3Fu8, 0x32u8, 0x30u8, 0x30u8, 0x34u8, 0x6Cu8]
        + seq![ESC, LEFT_BRACKET, 0x3Fu8, 0x31u8, 0x30u8, 0x30u8, 0x30u8, 0x6Cu8]
}

/// The bytes that switch on bracketed paste (if `paste`) and SGR mouse
/// reporting (if `mouse`), in that order.
pub fn enable_capabilities(paste: bool, mouse: bool) -> (r: Vec<u8>)
    ensures
        r@ == (if paste {
            paste_on_bytes()
        } else {
            seq![]
        }) + (if mouse {
            mouse_on_bytes()
        } else {
            seq![]
        }),
{
    let mut out: Vec<u8> = Vec::new();
    if paste {
        let mut on = vec![ESC, LEFT_BRACKET, 0x3F, 0x32, 0x30, 0x30, 0x34, 0x68];
        out.append(&mut on);
    }
    if mouse {
        let mut on = vec![
            ESC, LEFT_BRACKET, 0x3F, 0x31, 0x30, 0x30, 0x30, 0x68,
            ESC, LEFT_BRACKET, 0x3F, 0x31, 0x30, 0x30, 0x36, 0x68,
        ];
        out.append(&mut on);
    }
    proof {
        let p = if paste {
            paste_on_bytes()
        } else {
            seq![]
        };
        let m = if mouse {
            mouse_on_bytes()
        } else {
            seq![]
        };
        assert(out@ =~= p + m);
    }
    out
}

/// The bytes that switch bracketed paste and mouse reporting off again.
pub fn cleanup_capabilities() -> (r: Vec<u8>)
    ensures
        r@ == capabilities_off_bytes(),
{
    let out = vec![
        ESC, LEFT_BRACKET, 0x3F, 0x32, 0x30, 0x30, 0x34, 0x6C,
        ESC, LEFT_BRACKET, 0x3F, 0x31, 0x30, 0x30, 0x30, 0x6C,
    ];
    assert(out@ =~= capabilities_off_bytes());
    out
}

} // verus!
