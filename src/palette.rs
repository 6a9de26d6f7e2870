//! Whether the terminal has a light or a dark background, as the
//! environment tells it: `BACKGROUND` (`light` or `dark`, in any case)
//! first, then the background colour index at the end of `COLORFGBG`. The
//! caller reads the variables and hands their values over as bytes.

use vstd::prelude::*;
use crate::text::{decimal_value, fields, parse_decimal, SEMICOLON};

verus! {

#[derive(Clone, Copy, Debug, PartialEq, Eq, Structural)]
pub enum Preference {
    Dark,
    Light,
    Unknown,
}

impl Default for Preference {
    fn default() -> (r: Preference)
        ensures
            r == Preference::Unknown,
    {
        Preference::Unknown
    }
}

/// An ASCII upper-case letter made lower-case; other bytes unchanged.
pub open spec fn ascii_lower(b: u8) -> u8 {
    if 0x41 <= b && b <= 0x5A {
        (b + 0x20) as u8
    } else {
        b
    }
}

/// `s` equals `word` (lower-case ASCII) when ASCII letters are compared
/// without case.
pub open spec fn equals_ignoring_case(s: Seq<u8>, word: Seq<u8>) -> bool {
    s.len() == word.len() && forall|i: int| 0 <= i < s.len() ==> ascii_lower(#[trigger] s[i]) == word[i]
}

pub open spec fn light_word() -> Seq<u8> {
    seq![0x6Cu8, 0x69u8, 0x67u8, 0x68u8, 0x74u8]
}

pub open spec fn dark_word() -> Seq<u8> {
    seq![0x64u8, 0x61u8, 0x72u8, 0x6Bu8]
}

/// The preference that a `BACKGROUND` value names.
pub open spec fn background_preference(v: Seq<u8>) -> Option<Preference> {
    if equals_ignoring_case(v, light_word()) {
        Some(Preference::Light)
    } else if equals_ignoring_case(v, dark_word()) {
        Some(Preference::Dark)
    } else {
        None
    }
}

/// The preference that a background colour index suggests: the bright
/// whites (7, 15, 231) are light, the other first sixteen colours dark.
pub open spec fn index_preference(i: nat) -> Option<Preference> {
    if i == 7 || i == 15 || i == 231 {
        Some(Preference::Light)
    } else if i <= 6 || (8 <= i && i <= 16) {
        Some(Preference::Dark)
    } else {
        None
    }
}

/// The preference that a `COLORFGBG` value suggests: its last `;`-separated
/// field read as a colour index (a `u8`).
pub open spec fn colorfgbg_preference(v: Seq<u8>) -> Option<Preference> {
    match decimal_value(fields(v).last(), 255) {
        Some(i) => index_preference(i),
        None => None,
    }
}

/// The preference from both variables, `BACKGROUND` first.
pub open spec fn preference(background: Option<Seq<u8>>, colorfgbg: Option<Seq<u8>>) -> Preference {
    let from_background = match background {
        Some(v) => background_preference(v),
        None => None,
    };
    let from_colorfgbg = match colorfgbg {
        Some(v) => colorfgbg_preference(v),
        None => None,
    };
    if from_background is Some {
        from_background->0
    } else if from_colorfgbg is Some {
        from_colorfgbg->0
    } else {
        Preference::Unknown
    }
}

fn lower(b: u8) -> (r: u8)
    ensures
        r == ascii_lower(b),
{
    if 0x41 <= b && b <= 0x5A {
        b + 0x20
    } else {
        b
    }
}

fn equals_word(s: &[u8], word: &[u8]) -> (r: bool)
    ensures
        r == equals_ignoring_case(s@, word@),
{
    if s.len() != word.len() {
        return false;
    }
    let mut i: usize = 0;
    while i < s.len()
        invariant
            i <= s@.len() == word@.len(),
            forall|j: int| 0 <= j < i ==> ascii_lower(#[trigger] s@[j]) == word@[j],
        decreases s@.len() - i,
    {
        if lower(s[i]) != word[i] {
            return false;
        }
        i = i + 1;
    }
    true
}

/// The preference that a `BACKGROUND` value names: `light` or `dark`, in
/// any case.
pub fn detect_from_background(value: &[u8]) -> (r: Option<Preference>)
    ensures
        r == background_preference(value@),
{
    let light: [u8; 5] = [0x6C, 0x69, 0x67, 0x68, 0x74];
    let dark: [u8; 4] = [0x64, 0x61, 0x72, 0x6B];
    assert(light@ =~= light_word());
    assert(dark@ =~= dark_word());
    if equals_word(value, light.as_slice()) {
        Some(Preference::Light)
    } else if equals_word(value, dark.as_slice()) {
        Some(Preference::Dark)
    } else {
        None
    }
}

/// The preference that a `COLORFGBG` value (`fg;bg`) suggests by its last
/// field.
pub fn detect_from_colorfgbg(value: &[u8]) -> (r: Option<Preference>)
    ensures
        r == colorfgbg_preference(value@),
{
    let n = value.len();
    let mut start: usize = 0;
    let mut i: usize = 0;
    assert(value@.subrange(0, 0) =~= Seq::<u8>::empty());
    while i < n
        invariant
            start <= i <= n == value@.len(),
            fields(value@.subrange(0, i as int)).len() >= 1,
            fields(value@.subrange(0, i as int)).last() == value@.subrange(start as int, i as int),
        decreases n - i,
    {
        let ghost pre = value@.subrange(0, i as int);
        let ghost next = value@.subrange(0, i as int + 1);
        assert(next.drop_last() =~= pre);
        if value[i] == SEMICOLON {
            start = i + 1;
            assert(value@.subrange(start as int, i as int + 1) =~= Seq::<u8>::empty());
        } else {
            let ghost f = fields(pre);
            assert(value@.subrange(start as int, i as int + 1) =~= f.last().push(value@[i as int]));
        }
        i = i + 1;
    }
    assert(value@.subrange(0, n as int) =~= value@);
    match parse_decimal(value, start, n, 255) {
        Some(index) => {
            if index == 7 || index == 15 || index == 231 {
                Some(Preference::Light)
            } else if index <= 6 || (8 <= index && index <= 16) {
                Some(Preference::Dark)
            } else {
                None
            }
        },
        None => None,
    }
}

/// Whether the terminal prefers a light or a dark palette, from the values
/// of `BACKGROUND` and `COLORFGBG` (`None` where a variable is unset).
pub fn detect_terminal_color_preference(background: Option<&[u8]>, colorfgbg: Option<&[u8]>) -> (r:
    Preference)
    ensures
        r == preference(
            match background {
                Some(v) => Some(v@),
                None => None,
            },
            match colorfgbg {
                Some(v) => Some(v@),
                None => None,
            },
        ),
{
    if let Some(v) = background {
        if let Some(p) = detect_from_background(v) {
            return p;
        }
    }
    if let Some(v) = colorfgbg {
        if let Some(p) = detect_from_colorfgbg(v) {
            return p;
        }
    }
    Preference::Unknown
}

} // verus!
