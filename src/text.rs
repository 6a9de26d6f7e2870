//! Byte-level helpers shared by the segmenter and the decoder: UTF-8
//! sequence widths and unsigned decimal numbers.

use vstd::prelude::*;
use vstd::utf8::{decode_utf8, valid_utf8};

verus! {

/// `+`, allowed before the digits of an unsigned number.
pub const PLUS: u8 = 0x2B;

/// The largest `i32`, the widest number this crate reads.
pub const I32_MAX: u32 = 0x7FFF_FFFF;

/// The largest `u16`.
pub const U16_MAX: u32 = 0xFFFF;

/// `;`, the separator of control-sequence parameters.
pub const SEMICOLON: u8 = 0x3B;

/// Width in bytes of the UTF-8 sequence that `b` starts, read off its high
/// bits; a byte that starts no multi-byte sequence counts as one.
pub open spec fn utf8_width(b: u8) -> nat {
    if b < 0x80 {
        1
    } else if 0xC0 <= b && b <= 0xDF {
        2
    } else if 0xE0 <= b && b <= 0xEF {
        3
    } else if 0xF0 <= b && b <= 0xF7 {
        4
    } else {
        1
    }
}

/// Width of the UTF-8 sequence led by `first_byte` (1 for ASCII and for
/// bytes that lead no sequence).
pub fn utf8_char_width(first_byte: u8) -> (r: usize)
    ensures
        r as nat == utf8_width(first_byte),
        1 <= r <= 4,
{
    if first_byte < 0x80 {
        1
    } else if 0xC0 <= first_byte && first_byte <= 0xDF {
        2
    } else if 0xE0 <= first_byte && first_byte <= 0xEF {
        3
    } else if 0xF0 <= first_byte && first_byte <= 0xF7 {
        4
    } else {
        1
    }
}

pub open spec fn is_digit(b: u8) -> bool {
    0x30 <= b && b <= 0x39
}

pub open spec fn digit_value(b: u8) -> nat {
    if is_digit(b) {
        (b - 0x30) as nat
    } else {
        0
    }
}

pub open spec fn all_digits(s: Seq<u8>) -> bool {
    forall|i: int| 0 <= i < s.len() ==> is_digit(#[trigger] s[i])
}

/// The value of a string of decimal digits, most significant first.
pub open spec fn digits_value(s: Seq<u8>) -> nat
    decreases s.len(),
{
    if s.len() == 0 {
        0
    } else {
        digits_value(s.drop_last()) * 10 + digit_value(s.last())
    }
}

/// `s` without one leading `+`, if it has one.
pub open spec fn unsigned_digits(s: Seq<u8>) -> Seq<u8> {
    if s.len() > 0 && s[0] == PLUS {
        s.drop_first()
    } else {
        s
    }
}

/// The unsigned number that `s` spells: an optional `+`, then one or more
/// decimal digits, with a value of at most `max`. This is how std's `parse`
/// reads an unsigned integer type whose largest value is `max`.
pub open spec fn decimal_value(s: Seq<u8>, max: nat) -> Option<nat> {
    let d = unsigned_digits(s);
    if d.len() > 0 && all_digits(d) && digits_value(d) <= max {
        Some(digits_value(d))
    } else {
        None
    }
}

proof fn lemma_digits_prefix_le(s: Seq<u8>, k: int)
    requires
        0 <= k <= s.len(),
    ensures
        digits_value(s.subrange(0, k)) <= digits_value(s),
    decreases s.len(),
{
    if k < s.len() {
        lemma_digits_prefix_le(s.drop_last(), k);
        assert(s.drop_last().subrange(0, k) =~= s.subrange(0, k));
    } else {
        assert(s.subrange(0, k) =~= s);
    }
}

/// Reads `s[lo..hi]` as an unsigned decimal number no larger than `max`.
pub fn parse_decimal(s: &[u8], lo: usize, hi: usize, max: u32) -> (r: Option<u32>)
    requires
        lo <= hi <= s@.len(),
        max <= I32_MAX,
    ensures
        r is Some ==> decimal_value(s@.subrange(lo as int, hi as int), max as nat) == Some(
            r->0 as nat,
        ),
        r is None ==> decimal_value(s@.subrange(lo as int, hi as int), max as nat) is None,
{
    let ghost whole = s@.subrange(lo as int, hi as int);
    let mut start: usize = lo;
    if lo < hi && s[lo] == PLUS {
        start = lo + 1;
    }
    let ghost d = s@.subrange(start as int, hi as int);
    assert(unsigned_digits(whole) =~= d);
    if start == hi {
        return None;
    }
    let mut acc: u64 = 0;
    let mut i: usize = start;
    assert(s@.subrange(start as int, start as int) =~= Seq::<u8>::empty());
    while i < hi
        invariant
            lo <= start < hi <= s@.len(),
            start <= i <= hi,
            d == s@.subrange(start as int, hi as int),
            whole == s@.subrange(lo as int, hi as int),
            unsigned_digits(whole) == d,
            acc as nat == digits_value(s@.subrange(start as int, i as int)),
            acc <= max,
            max <= I32_MAX,
            all_digits(s@.subrange(start as int, i as int)),
        decreases hi - i,
    {
        let b = s[i];
        if b < 0x30 || b > 0x39 {
            assert(d[i - start] == b);
            return None;
        }
        let next: u64 = acc * 10 + (b - 0x30) as u64;
        let ghost pre = s@.subrange(start as int, i as int + 1);
        assert(pre.drop_last() =~= s@.subrange(start as int, i as int));
        assert(digits_value(pre) == next as nat);
        if next > max as u64 {
            proof {
                assert(d.subrange(0, i - start + 1) =~= pre);
                lemma_digits_prefix_le(d, i - start + 1);
            }
            return None;
        }
        acc = next;
        i = i + 1;
    }
    assert(s@.subrange(start as int, i as int) =~= d);
    Some(acc as u32)
}

/// The `;`-separated fields of `s`, in order; an empty `s` is one empty field.
pub open spec fn fields(s: Seq<u8>) -> Seq<Seq<u8>>
    decreases s.len(),
{
    if s.len() == 0 {
        seq![Seq::empty()]
    } else {
        let f = fields(s.drop_last());
        if s.last() == SEMICOLON {
            f.push(Seq::empty())
        } else {
            f.update(f.len() - 1, f.last().push(s.last()))
        }
    }
}

/// The numbers that the non-empty fields of `fs` spell, each at most
/// `max`; `None` as soon as one of them spells none.
pub open spec fn field_numbers(fs: Seq<Seq<u8>>, max: nat) -> Option<Seq<u32>>
    decreases fs.len(),
{
    if fs.len() == 0 {
        Some(seq![])
    } else {
        match field_numbers(fs.drop_last(), max) {
            None => None,
            Some(p) => if fs.last().len() == 0 {
                Some(p)
            } else {
                match decimal_value(fs.last(), max) {
                    Some(v) => Some(p.push(v as u32)),
                    None => None,
                }
            },
        }
    }
}

/// The parameters of a control sequence whose parameter bytes are `s`:
/// `;`-separated unsigned decimal numbers of at most `max`, empty fields
/// skipped.
pub open spec fn param_list(s: Seq<u8>, max: nat) -> Option<Seq<u32>> {
    field_numbers(fields(s), max)
}

proof fn lemma_fields_nonempty(s: Seq<u8>)
    ensures
        fields(s).len() >= 1,
    decreases s.len(),
{
    if s.len() > 0 {
        lemma_fields_nonempty(s.drop_last());
    }
}

/// The fields of a prefix, all but the last, stay the leading fields of
/// the whole.
proof fn lemma_fields_prefix(s: Seq<u8>, k: int)
    requires
        0 <= k <= s.len(),
    ensures
        fields(s.subrange(0, k)).len() <= fields(s).len(),
        fields(s).subrange(0, fields(s.subrange(0, k)).len() - 1) == fields(
            s.subrange(0, k),
        ).drop_last(),
    decreases s.len(),
{
    lemma_fields_nonempty(s.subrange(0, k));
    lemma_fields_nonempty(s);
    if k == s.len() {
        assert(s.subrange(0, k) =~= s);
        assert(fields(s).subrange(0, fields(s).len() - 1) =~= fields(s).drop_last());
    } else {
        let t = s.drop_last();
        assert(t.subrange(0, k) =~= s.subrange(0, k));
        lemma_fields_prefix(t, k);
        lemma_fields_nonempty(t);
        let n = fields(s.subrange(0, k)).len() - 1;
        assert(fields(s).subrange(0, n) =~= fields(t).subrange(0, n));
    }
}

/// Once a leading part of the fields spells no number list, neither does
/// the whole.
proof fn lemma_field_numbers_prefix_none(fs: Seq<Seq<u8>>, k: int, max: nat)
    requires
        0 <= k <= fs.len(),
        field_numbers(fs.subrange(0, k), max) is None,
    ensures
        field_numbers(fs, max) is None,
    decreases fs.len(),
{
    if k == fs.len() {
        assert(fs.subrange(0, k) =~= fs);
    } else {
        assert(fs.drop_last().subrange(0, k) =~= fs.subrange(0, k));
        lemma_field_numbers_prefix_none(fs.drop_last(), k, max);
    }
}

/// Reads `s[lo..hi]` as control-sequence parameters of at most `max` (see
/// `param_list`).
pub fn parse_params(s: &[u8], lo: usize, hi: usize, max: u32) -> (r: Option<Vec<u32>>)
    requires
        lo <= hi <= s@.len(),
        max <= I32_MAX,
    ensures
        r is Some ==> param_list(s@.subrange(lo as int, hi as int), max as nat) == Some(r->0@),
        r is None ==> param_list(s@.subrange(lo as int, hi as int), max as nat) is None,
{
    let ghost whole = s@.subrange(lo as int, hi as int);
    let mut params: Vec<u32> = Vec::new();
    let mut start: usize = lo;
    let mut i: usize = lo;
    assert(s@.subrange(lo as int, lo as int) =~= Seq::<u8>::empty());
    assert(s@.subrange(start as int, i as int) =~= Seq::<u8>::empty());
    assert(fields(Seq::<u8>::empty()).drop_last() =~= Seq::<Seq<u8>>::empty());
    while i < hi
        invariant
            lo <= start <= i <= hi <= s@.len(),
            whole == s@.subrange(lo as int, hi as int),
            fields(s@.subrange(lo as int, i as int)).len() >= 1,
            fields(s@.subrange(lo as int, i as int)).last() == s@.subrange(start as int, i as int),
            max <= I32_MAX,
            field_numbers(fields(s@.subrange(lo as int, i as int)).drop_last(), max as nat) == Some(
                params@,
            ),
        decreases hi - i,
    {
        let ghost pre = s@.subrange(lo as int, i as int);
        let ghost next = s@.subrange(lo as int, i as int + 1);
        assert(next.drop_last() =~= pre);
        if s[i] == SEMICOLON {
            let ghost f = fields(pre);
            assert(fields(next) == f.push(Seq::empty()));
            assert(fields(next).drop_last() =~= f);
            assert(f.drop_last() =~= fields(next).drop_last().drop_last());
            if start < i {
                let v = parse_decimal(s, start, i, max);
                match v {
                    Some(n) => {
                        params.push(n);
                    },
                    None => {
                        proof {
                            lemma_fields_prefix(whole, i - lo + 1);
                            assert(whole.subrange(0, i - lo + 1) =~= next);
                            lemma_field_numbers_prefix_none(
                                fields(whole),
                                fields(next).len() - 1,
                                max as nat,
                            );
                        }
                        return None;
                    },
                }
            }
            start = i + 1;
            assert(s@.subrange(start as int, i as int + 1) =~= Seq::<u8>::empty());
        } else {
            let ghost f = fields(pre);
            assert(fields(next) == f.update(f.len() - 1, f.last().push(s[i as int])));
            assert(fields(next).drop_last() =~= f.drop_last());
            assert(s@.subrange(start as int, i as int + 1) =~= f.last().push(s[i as int]));
        }
        i = i + 1;
    }
    assert(s@.subrange(lo as int, i as int) =~= whole);
    let ghost f = fields(whole);
    assert(f.drop_last().push(f.last()) =~= f);
    if start < i {
        let v = parse_decimal(s, start, i, max);
        match v {
            Some(n) => {
                params.push(n);
            },
            None => {
                return None;
            },
        }
    }
    Some(params)
}

/// Relies on `String::push`: the character is appended at the end.
#[verifier::external_body]
pub(crate) fn push_char(s: &mut String, c: char)
    ensures
        final(s)@ == old(s)@.push(c),
{
    s.push(c)
}

/// Appends every character of `cs`, in order.
pub fn push_chars(out: &mut String, cs: &Vec<char>)
    ensures
        final(out)@ == old(out)@ + cs@,
{
    let ghost start = out@;
    let mut i: usize = 0;
    while i < cs.len()
        invariant
            i <= cs@.len(),
            out@ == start + cs@.subrange(0, i as int),
        decreases cs@.len() - i,
    {
        push_char(out, cs[i]);
        i = i + 1;
        assert(out@ =~= start + cs@.subrange(0, i as int));
    }
    assert(cs@.subrange(0, i as int) =~= cs@);
}

/// The character of a digit below sixteen: `0`-`9`, then `A`-`F`.
pub open spec fn hex_digit(d: nat) -> char {
    if d < 10 {
        (0x30 + d) as char
    } else {
        (0x41 + d - 10) as char
    }
}

/// A byte as two upper-case hexadecimal digits.
pub open spec fn hex_byte(b: u8) -> Seq<char> {
    seq![hex_digit(b as nat / 16), hex_digit(b as nat % 16)]
}

/// The decimal digits of `n`, most significant first, without leading zeros.
pub open spec fn decimal_text(n: nat) -> Seq<char>
    decreases n,
{
    if n < 10 {
        seq![(0x30 + n) as char]
    } else {
        decimal_text(n / 10).push((0x30 + n % 10) as char)
    }
}

fn digit_char(d: u8) -> (c: char)
    requires
        d < 16,
    ensures
        c == hex_digit(d as nat),
{
    if d < 10 {
        (0x30 + d) as char
    } else {
        (0x41 + d - 10) as char
    }
}

/// Appends `b` as two upper-case hexadecimal digits.
pub fn push_hex_byte(out: &mut String, b: u8)
    ensures
        final(out)@ == old(out)@ + hex_byte(b),
{
    let ghost start = out@;
    push_char(out, digit_char(b / 16));
    push_char(out, digit_char(b % 16));
    assert(out@ =~= start + hex_byte(b));
}

/// Appends `n` in decimal.
pub fn push_decimal(out: &mut String, n: u64)
    ensures
        final(out)@ == old(out)@ + decimal_text(n as nat),
    decreases n,
{
    let ghost start = out@;
    if n >= 10 {
        push_decimal(out, n / 10);
    }
    push_char(out, digit_char((n % 10) as u8));
    assert(out@ =~= start + decimal_text(n as nat));
}

/// A character as std's `Debug` writes it: between single quotes, escaped as
/// `char::escape_debug` escapes it (with `'` escaped too). The escapes rest on
/// Unicode tables, so the text is named here rather than spelled out.
pub uninterp spec fn char_debug(c: char) -> Seq<char>;

/// Relies on std's `Debug` for `char` (`format!("{:?}", c)`): the text
/// depends on the character alone.
#[verifier::external_body]
pub(crate) fn debug_char(c: char) -> (r: String)
    ensures
        r@ == char_debug(c),
{
    format!("{:?}", c)
}

/// Relies on `std::str::from_utf8`: it accepts `b[lo..hi]` exactly when
/// those bytes are well-formed UTF-8, and the text it returns holds the
/// scalars that they encode, in order.
#[verifier::external_body]
pub(crate) fn utf8_chars(b: &[u8], lo: usize, hi: usize) -> (r: Option<Vec<char>>)
    requires
        lo <= hi <= b@.len(),
    ensures
        r is Some <==> valid_utf8(b@.subrange(lo as int, hi as int)),
        r is Some ==> r->0@ == decode_utf8(b@.subrange(lo as int, hi as int)),
{
    match std::str::from_utf8(&b[lo..hi]) {
        Ok(t) => Some(t.chars().collect()),
        Err(_) => None,
    }
}

} // verus!
