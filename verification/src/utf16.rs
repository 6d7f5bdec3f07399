//! UTF-16, the encoding of the runtime's two-byte strings.
//!
//! Encoding a text is exact.  Decoding is lossy: a code unit that is half of
//! a surrogate pair without its other half becomes U+FFFD, and decoding goes
//! on with the next unit.

use vstd::prelude::*;

verus! {

/// U+FFFD, which stands for each unpaired surrogate in a decoded text.
pub const REPLACEMENT: char = '\u{FFFD}';

/// Assumed of std's `String::push`, not proved: after the call the text is
/// the text before it with `ch` appended.
pub assume_specification[ std::string::String::push ](s: &mut std::string::String, ch: char)
    ensures
        final(s)@ == old(s)@.push(ch),
;

/// Assumed of std's `char::from_u32`, not proved: it gives the character
/// with the given code point, and `None` where the number is no code point
/// of a character, that is a surrogate or above U+10FFFF.
pub assume_specification[ char::from_u32 ](i: u32) -> (r: Option<char>)
    ensures
        r == if is_scalar_value(i) {
            Some(i as char)
        } else {
            None::<char>
        },
;

/// A code point that is a character: not a surrogate, at most U+10FFFF.
pub open spec fn is_scalar_value(v: u32) -> bool {
    v < 0xD800 || (0xE000 <= v && v <= 0x10FFFF)
}

/// The first unit of a surrogate pair.
pub open spec fn is_high_surrogate(u: u16) -> bool {
    0xD800 <= u && u <= 0xDBFF
}

/// The second unit of a surrogate pair.
pub open spec fn is_low_surrogate(u: u16) -> bool {
    0xDC00 <= u && u <= 0xDFFF
}

/// The character that a surrogate pair stands for.
pub open spec fn pair_value(high: u16, low: u16) -> u32 {
    (0x10000 + (high - 0xD800) * 0x400 + (low - 0xDC00)) as u32
}

/// The code units of one character: one unit below U+10000, else a
/// surrogate pair.
pub open spec fn encode_char(c: char) -> Seq<u16> {
    let v = c as u32;
    if v < 0x10000 {
        seq![v as u16]
    } else {
        seq![(0xD800 + (v - 0x10000) / 0x400) as u16, (0xDC00 + (v - 0x10000) % 0x400) as u16]
    }
}

/// The UTF-16 encoding of a text.
pub open spec fn encode_utf16(text: Seq<char>) -> Seq<u16>
    decreases text.len(),
{
    if text.len() == 0 {
        Seq::empty()
    } else {
        encode_char(text[0]) + encode_utf16(text.skip(1))
    }
}

/// How many units the first character of `units` takes: 2 for a surrogate
/// pair, else 1.
pub open spec fn first_width(units: Seq<u16>) -> int {
    if units.len() >= 2 && is_high_surrogate(units[0]) && is_low_surrogate(units[1]) {
        2
    } else {
        1
    }
}

/// The first character of `units`, which is not empty.
pub open spec fn first_char(units: Seq<u16>) -> char {
    if first_width(units) == 2 {
        pair_value(units[0], units[1]) as char
    } else if is_high_surrogate(units[0]) || is_low_surrogate(units[0]) {
        REPLACEMENT
    } else {
        units[0] as char
    }
}

/// The text that `units` decode to, U+FFFD standing for each unpaired
/// surrogate.
pub open spec fn decode_utf16_lossy(units: Seq<u16>) -> Seq<char>
    decreases units.len(),
{
    if units.len() == 0 {
        Seq::empty()
    } else {
        seq![first_char(units)] + decode_utf16_lossy(units.skip(first_width(units)))
    }
}

/// The code units that `text` encodes to.
pub fn encode(text: &str) -> (units: Vec<u16>)
    ensures
        units@ == encode_utf16(text@),
{
    let mut units: Vec<u16> = Vec::new();
    assert(text@.skip(0) =~= text@);
    for c in it: text.chars()
        invariant
            it.seq() == text@,
            encode_utf16(text@) == units@ + encode_utf16(text@.skip(it.index() as int)),
    {
        let v: u32 = c as u32;
        let ghost before = units@;
        proof {
            let rest = text@.skip(it.index() as int);
            assert(rest[0] == c);
            assert(rest.skip(1) =~= text@.skip(it.index() + 1));
        }
        if v < 0x10000 {
            units.push(v as u16);
        } else {
            let w: u32 = v - 0x10000;
            units.push((0xD800 + w / 0x400) as u16);
            units.push((0xDC00 + w % 0x400) as u16);
        }
        assert(units@ =~= before + encode_char(c));
    }
    units
}

/// The text that `units` decode to; an unpaired surrogate becomes U+FFFD.
pub fn decode_lossy(units: &Vec<u16>) -> (text: String)
    ensures
        text@ == decode_utf16_lossy(units@),
{
    let mut text = String::new();
    let mut i: usize = 0;
    assert(units@.skip(0) =~= units@);
    while i < units.len()
        invariant
            i <= units.len(),
            decode_utf16_lossy(units@) == text@ + decode_utf16_lossy(units@.skip(i as int)),
        decreases units.len() - i,
    {
        let ghost before = text@;
        let ghost rest = units@.skip(i as int);
        let unit: u16 = units[i];
        assert(rest[0] == unit);
        if 0xD800 <= unit && unit <= 0xDBFF && i + 1 < units.len() && 0xDC00 <= units[i + 1]
            && units[i + 1] <= 0xDFFF {
            let low: u16 = units[i + 1];
            assert(rest[1] == low);
            let v: u32 = 0x10000 + (unit as u32 - 0xD800) * 0x400 + (low as u32 - 0xDC00);
            match char::from_u32(v) {
                Some(c) => {
                    text.push(c);
                },
                None => {
                    assert(false);
                },
            }
            assert(rest.skip(2) =~= units@.skip(i + 2));
            i += 2;
        } else if 0xD800 <= unit && unit <= 0xDFFF {
            text.push(REPLACEMENT);
            assert(rest.skip(1) =~= units@.skip(i + 1));
            i += 1;
        } else {
            match char::from_u32(unit as u32) {
                Some(c) => {
                    text.push(c);
                },
                None => {
                    assert(false);
                },
            }
            assert(rest.skip(1) =~= units@.skip(i + 1));
            i += 1;
        }
        assert(text@ =~= before + seq![first_char(rest)]);
    }
    text
}

/// The text of a single-byte string: each byte is the code point of one
/// character.
pub open spec fn decode_latin1_spec(bytes: Seq<u8>) -> Seq<char> {
    Seq::new(bytes.len(), |i: int| bytes[i] as char)
}

/// The text that the bytes of a single-byte string stand for.
pub fn decode_latin1(bytes: &Vec<u8>) -> (text: String)
    ensures
        text@ == decode_latin1_spec(bytes@),
{
    let mut text = String::new();
    let mut i: usize = 0;
    while i < bytes.len()
        invariant
            i <= bytes.len(),
            text@ == decode_latin1_spec(bytes@.take(i as int)),
        decreases bytes.len() - i,
    {
        let ghost before = text@;
        text.push(bytes[i] as char);
        i += 1;
        assert(text@ =~= decode_latin1_spec(bytes@.take(i as int)));
    }
    assert(bytes@.take(i as int) =~= bytes@);
    text
}

/// Decoding what one character was encoded to, followed by anything,
/// gives that character first and then what the rest decodes to.
pub proof fn lemma_decode_encoded_char(c: char, rest: Seq<u16>)
    ensures
        decode_utf16_lossy(encode_char(c) + rest) == seq![c] + decode_utf16_lossy(rest),
{
    let units = encode_char(c) + rest;
    let v = c as u32;
    if v < 0x10000 {
        assert(units[0] == v as u16);
        assert(first_width(units) == 1);
        assert(units.skip(1) =~= rest);
        assert((v as u16) as char == c);
    } else {
        let w = (v - 0x10000) as int;
        assert(units[0] == (0xD800 + w / 0x400) as u16);
        assert(units[1] == (0xDC00 + w % 0x400) as u16);
        assert(first_width(units) == 2);
        assert(units.skip(2) =~= rest);
        assert(pair_value(units[0], units[1]) == v);
    }
}

/// Encoding a text and decoding the result gives the text back: a text
/// holds no surrogate, so nothing is replaced.
pub proof fn lemma_utf16_round_trip(text: Seq<char>)
    ensures
        decode_utf16_lossy(encode_utf16(text)) == text,
    decreases text.len(),
{
    if text.len() == 0 {
        assert(decode_utf16_lossy(encode_utf16(text)) =~= text);
    } else {
        lemma_utf16_round_trip(text.skip(1));
        lemma_decode_encoded_char(text[0], encode_utf16(text.skip(1)));
        assert(seq![text[0]] + text.skip(1) =~= text);
    }
}

} // verus!
