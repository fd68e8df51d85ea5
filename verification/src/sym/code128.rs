//! Encoder for Code128 barcodes.
//!
//! Code128 is a popular, high-density symbology that allows for the encoding of alphanumeric
//! data along with many special characters by utilising three separate character-sets.
//!
//! Code128 also offers double-density encoding of digits.
//!
//! ## Character sets
//!
//! Special Unicode characters select the character set(s) which should be
//! used in the barcode:
//!
//! <ul><li>\u{00C0} = Switch to character-set A (À)</li>
//! <li>\u{0181} = Switch to character-set B (Ɓ)</li>
//! <li>\u{0106} = Switch to character-set C (Ć)</li></ul>
//!
//! You must provide both the starting character-set along with any changes during the data. This
//! means all Code128 barcodes must start with either "À", "Ɓ" or "Ć". Simple alphanumeric data
//! can generally use character-set A solely.
//!
//! As an example, this barcode uses character-set B:
//!
//! <ul><li>\u{0181}HE1234A*1</li></ul>
//!
//! And this one starts at character-set A (the default) and then switches to C to encode the
//! digits more effectively:
//!
//! <ul><li>\u{00C0}HE@$A\u{0106}123456</li></ul>
//!
//! ## Unicode characters
//!
//! The invisible unicode characters that are available in character set A should be represented as
//! their Unicode sequences. For example, to represent the 'ACK' character:
//!
//! <ul><li>\u{00C0}\u{0006}</li></ul>
//!
//! ## Special-purpose function characters (FNC1 - 4)
//!
//! The function sequences can be represented via the following unicode characters:
//!
//! - FNC1: ```\u{0179}```
//! - FNC2: ```\u{017A}```
//! - FNC3: ```\u{017B}```
//! - FNC4: ```\u{017C}```
//! - SHIFT: ```\u{017D}```

use crate::error::Error;
use crate::sym::helpers::{
    bit_seq, concat_map, lemma_concat_map_step, lemma_mod_mul_acc, push_bits, splice_front,
};
use vstd::prelude::*;
use vstd::string::*;

verus! {

broadcast use crate::sym::helpers::lemma_bit_seq_len, vstd::slice::axiom_spec_len;

/// One of the three Code128 character sets.
#[derive(Debug, Clone, Copy, PartialEq, Eq, Structural)]
pub enum CharacterSet {
    /// Control characters, upper case, digits and punctuation.
    A,
    /// Upper and lower case, digits and punctuation.
    B,
    /// Double-density digit pairs.
    C,
}

/// The 11-module pattern of the Code128 unit with table index `u`.
pub open spec fn code128_pattern(u: u8) -> Seq<u8> {
    match u {
        0 => bit_seq(0b11011001100, 11),
        1 => bit_seq(0b11001101100, 11),
        2 => bit_seq(0b11001100110, 11),
        3 => bit_seq(0b10010011000, 11),
        4 => bit_seq(0b10010001100, 11),
        5 => bit_seq(0b10001001100, 11),
        6 => bit_seq(0b10011001000, 11),
        7 => bit_seq(0b10011000100, 11),
        8 => bit_seq(0b10001100100, 11),
        9 => bit_seq(0b11001001000, 11),
        10 => bit_seq(0b11001000100, 11),
        11 => bit_seq(0b11000100100, 11),
        12 => bit_seq(0b10110011100, 11),
        13 => bit_seq(0b10011011100, 11),
        14 => bit_seq(0b10011001110, 11),
        15 => bit_seq(0b10111001100, 11),
        16 => bit_seq(0b10011101100, 11),
        17 => bit_seq(0b10011100110, 11),
        18 => bit_seq(0b11001110010, 11),
        19 => bit_seq(0b11001011100, 11),
        20 => bit_seq(0b11001001110, 11),
        21 => bit_seq(0b11011100100, 11),
        22 => bit_seq(0b11001110100, 11),
        23 => bit_seq(0b11101101110, 11),
        24 => bit_seq(0b11101001100, 11),
        25 => bit_seq(0b11100101100, 11),
        26 => bit_seq(0b11100100110, 11),
        27 => bit_seq(0b11101100100, 11),
        28 => bit_seq(0b11100110100, 11),
        29 => bit_seq(0b11100110010, 11),
        30 => bit_seq(0b11011011000, 11),
        31 => bit_seq(0b11011000110, 11),
        32 => bit_seq(0b11000110110, 11),
        33 => bit_seq(0b10100011000, 11),
        34 => bit_seq(0b10001011000, 11),
        35 => bit_seq(0b10001000110, 11),
        36 => bit_seq(0b10110001000, 11),
        37 => bit_seq(0b10001101000, 11),
        38 => bit_seq(0b10001100010, 11),
        39 => bit_seq(0b11010001000, 11),
        40 => bit_seq(0b11000101000, 11),
        41 => bit_seq(0b11000100010, 11),
        42 => bit_seq(0b10110111000, 11),
        43 => bit_seq(0b10110001110, 11),
        44 => bit_seq(0b10001101110, 11),
        45 => bit_seq(0b10111011000, 11),
        46 => bit_seq(0b10111000110, 11),
        47 => bit_seq(0b10001110110, 11),
        48 => bit_seq(0b11101110110, 11),
        49 => bit_seq(0b11010001110, 11),
        50 => bit_seq(0b11000101110, 11),
        51 => bit_seq(0b11011101000, 11),
        52 => bit_seq(0b11011100010, 11),
        53 => bit_seq(0b11011101110, 11),
        54 => bit_seq(0b11101011000, 11),
        55 => bit_seq(0b11101000110, 11),
        56 => bit_seq(0b11100010110, 11),
        57 => bit_seq(0b11101101000, 11),
        58 => bit_seq(0b11101100010, 11),
        59 => bit_seq(0b11100011010, 11),
        60 => bit_seq(0b11101111010, 11),
        61 => bit_seq(0b11001000010, 11),
        62 => bit_seq(0b11110001010, 11),
        63 => bit_seq(0b10100110000, 11),
        64 => bit_seq(0b10100001100, 11),
        65 => bit_seq(0b10010110000, 11),
        66 => bit_seq(0b10010000110, 11),
        67 => bit_seq(0b10000101100, 11),
        68 => bit_seq(0b10000100110, 11),
        69 => bit_seq(0b10110010000, 11),
        70 => bit_seq(0b10110000100, 11),
        71 => bit_seq(0b10011010000, 11),
        72 => bit_seq(0b10011000010, 11),
        73 => bit_seq(0b10000110100, 11),
        74 => bit_seq(0b10000110010, 11),
        75 => bit_seq(0b11000010010, 11),
        76 => bit_seq(0b11001010000, 11),
        77 => bit_seq(0b11110111010, 11),
        78 => bit_seq(0b11000010100, 11),
        79 => bit_seq(0b10001111010, 11),
        80 => bit_seq(0b10100111100, 11),
        81 => bit_seq(0b10010111100, 11),
        82 => bit_seq(0b10010011110, 11),
        83 => bit_seq(0b10111100100, 11),
        84 => bit_seq(0b10011110100, 11),
        85 => bit_seq(0b10011110010, 11),
        86 => bit_seq(0b11110100100, 11),
        87 => bit_seq(0b11110010100, 11),
        88 => bit_seq(0b11110010010, 11),
        89 => bit_seq(0b11011011110, 11),
        90 => bit_seq(0b11011110110, 11),
        91 => bit_seq(0b11110110110, 11),
        92 => bit_seq(0b11110110110, 11),
        93 => bit_seq(0b10100011110, 11),
        94 => bit_seq(0b10001011110, 11),
        95 => bit_seq(0b10111101000, 11),
        96 => bit_seq(0b10111100010, 11),
        97 => bit_seq(0b11110101000, 11),
        98 => bit_seq(0b11110100010, 11),
        99 => bit_seq(0b10111011110, 11),
        100 => bit_seq(0b10111101110, 11),
        101 => bit_seq(0b11101011110, 11),
        102 => bit_seq(0b11110101110, 11),
        103 => bit_seq(0b11010000100, 11),
        104 => bit_seq(0b11010010000, 11),
        105 => bit_seq(0b11010011100, 11),
        _ => Seq::empty(),
    }
}

/// Appends the pattern of the unit with index `u` to `out`.
fn push_code128_pattern(out: &mut Vec<u8>, u: u8)
    requires
        u < 106,
    ensures
        final(out)@ == old(out)@ + code128_pattern(u),
{
    match u {
        0 => push_bits(out, 0b11011001100, 11),
        1 => push_bits(out, 0b11001101100, 11),
        2 => push_bits(out, 0b11001100110, 11),
        3 => push_bits(out, 0b10010011000, 11),
        4 => push_bits(out, 0b10010001100, 11),
        5 => push_bits(out, 0b10001001100, 11),
        6 => push_bits(out, 0b10011001000, 11),
        7 => push_bits(out, 0b10011000100, 11),
        8 => push_bits(out, 0b10001100100, 11),
        9 => push_bits(out, 0b11001001000, 11),
        10 => push_bits(out, 0b11001000100, 11),
        11 => push_bits(out, 0b11000100100, 11),
        12 => push_bits(out, 0b10110011100, 11),
        13 => push_bits(out, 0b10011011100, 11),
        14 => push_bits(out, 0b10011001110, 11),
        15 => push_bits(out, 0b10111001100, 11),
        16 => push_bits(out, 0b10011101100, 11),
        17 => push_bits(out, 0b10011100110, 11),
        18 => push_bits(out, 0b11001110010, 11),
        19 => push_bits(out, 0b11001011100, 11),
        20 => push_bits(out, 0b11001001110, 11),
        21 => push_bits(out, 0b11011100100, 11),
        22 => push_bits(out, 0b11001110100, 11),
        23 => push_bits(out, 0b11101101110, 11),
        24 => push_bits(out, 0b11101001100, 11),
        25 => push_bits(out, 0b11100101100, 11),
        26 => push_bits(out, 0b11100100110, 11),
        27 => push_bits(out, 0b11101100100, 11),
        28 => push_bits(out, 0b11100110100, 11),
        29 => push_bits(out, 0b11100110010, 11),
        30 => push_bits(out, 0b11011011000, 11),
        31 => push_bits(out, 0b11011000110, 11),
        32 => push_bits(out, 0b11000110110, 11),
        33 => push_bits(out, 0b10100011000, 11),
        34 => push_bits(out, 0b10001011000, 11),
        35 => push_bits(out, 0b10001000110, 11),
        36 => push_bits(out, 0b10110001000, 11),
        37 => push_bits(out, 0b10001101000, 11),
        38 => push_bits(out, 0b10001100010, 11),
        39 => push_bits(out, 0b11010001000, 11),
        40 => push_bits(out, 0b11000101000, 11),
        41 => push_bits(out, 0b11000100010, 11),
        42 => push_bits(out, 0b10110111000, 11),
        43 => push_bits(out, 0b10110001110, 11),
        44 => push_bits(out, 0b10001101110, 11),
        45 => push_bits(out, 0b10111011000, 11),
        46 => push_bits(out, 0b10111000110, 11),
        47 => push_bits(out, 0b10001110110, 11),
        48 => push_bits(out, 0b11101110110, 11),
        49 => push_bits(out, 0b11010001110, 11),
        50 => push_bits(out, 0b11000101110, 11),
        51 => push_bits(out, 0b11011101000, 11),
        52 => push_bits(out, 0b11011100010, 11),
        53 => push_bits(out, 0b11011101110, 11),
        54 => push_bits(out, 0b11101011000, 11),
        55 => push_bits(out, 0b11101000110, 11),
        56 => push_bits(out, 0b11100010110, 11),
        57 => push_bits(out, 0b11101101000, 11),
        58 => push_bits(out, 0b11101100010, 11),
        59 => push_bits(out, 0b11100011010, 11),
        60 => push_bits(out, 0b11101111010, 11),
        61 => push_bits(out, 0b11001000010, 11),
        62 => push_bits(out, 0b11110001010, 11),
        63 => push_bits(out, 0b10100110000, 11),
        64 => push_bits(out, 0b10100001100, 11),
        65 => push_bits(out, 0b10010110000, 11),
        66 => push_bits(out, 0b10010000110, 11),
        67 => push_bits(out, 0b10000101100, 11),
        68 => push_bits(out, 0b10000100110, 11),
        69 => push_bits(out, 0b10110010000, 11),
        70 => push_bits(out, 0b10110000100, 11),
        71 => push_bits(out, 0b10011010000, 11),
        72 => push_bits(out, 0b10011000010, 11),
        73 => push_bits(out, 0b10000110100, 11),
        74 => push_bits(out, 0b10000110010, 11),
        75 => push_bits(out, 0b11000010010, 11),
        76 => push_bits(out, 0b11001010000, 11),
        77 => push_bits(out, 0b11110111010, 11),
        78 => push_bits(out, 0b11000010100, 11),
        79 => push_bits(out, 0b10001111010, 11),
        80 => push_bits(out, 0b10100111100, 11),
        81 => push_bits(out, 0b10010111100, 11),
        82 => push_bits(out, 0b10010011110, 11),
        83 => push_bits(out, 0b10111100100, 11),
        84 => push_bits(out, 0b10011110100, 11),
        85 => push_bits(out, 0b10011110010, 11),
        86 => push_bits(out, 0b11110100100, 11),
        87 => push_bits(out, 0b11110010100, 11),
        88 => push_bits(out, 0b11110010010, 11),
        89 => push_bits(out, 0b11011011110, 11),
        90 => push_bits(out, 0b11011110110, 11),
        91 => push_bits(out, 0b11110110110, 11),
        92 => push_bits(out, 0b11110110110, 11),
        93 => push_bits(out, 0b10100011110, 11),
        94 => push_bits(out, 0b10001011110, 11),
        95 => push_bits(out, 0b10111101000, 11),
        96 => push_bits(out, 0b10111100010, 11),
        97 => push_bits(out, 0b11110101000, 11),
        98 => push_bits(out, 0b11110100010, 11),
        99 => push_bits(out, 0b10111011110, 11),
        100 => push_bits(out, 0b10111101110, 11),
        101 => push_bits(out, 0b11101011110, 11),
        102 => push_bits(out, 0b11110101110, 11),
        103 => push_bits(out, 0b11010000100, 11),
        104 => push_bits(out, 0b11010010000, 11),
        105 => push_bits(out, 0b11010011100, 11),
        _ => (),
    }
}
/// The per-unit pattern, as a function value for `concat_map`.
pub open spec fn code128_pattern_fn() -> spec_fn(u8) -> Seq<u8> {
    |u: u8| code128_pattern(u)
}

/// The table index of `c` in character set A, if it has one.
pub open spec fn code128_idx_a(c: char) -> Option<u8> {
    let o = c as u32;
    if 32 <= o <= 95 {
        Some((o - 32) as u8)
    } else if o <= 31 {
        Some((o + 64) as u8)
    } else if o == 0x17B {
        Some(96)
    } else if o == 0x17A {
        Some(97)
    } else if o == 0x17D {
        Some(98)
    } else if o == 0x106 {
        Some(99)
    } else if o == 0x181 {
        Some(100)
    } else if o == 0x17C {
        Some(101)
    } else if o == 0x179 {
        Some(102)
    } else {
        None
    }
}

/// The table index of `c` in character set B, if it has one.
pub open spec fn code128_idx_b(c: char) -> Option<u8> {
    let o = c as u32;
    if 32 <= o <= 126 {
        Some((o - 32) as u8)
    } else if o == 0xF7 {
        Some(95)
    } else if o == 0x17B {
        Some(96)
    } else if o == 0x17A {
        Some(97)
    } else if o == 0x17D {
        Some(98)
    } else if o == 0x106 {
        Some(99)
    } else if o == 0x17C {
        Some(100)
    } else if o == 0xC0 {
        Some(101)
    } else if o == 0x179 {
        Some(102)
    } else {
        None
    }
}

/// The table index of `c` as a single character in character set C, if it
/// has one: only the set-switch and FNC1 symbols stand alone there, digits
/// enter as pairs.
pub open spec fn code128_idx_c(c: char) -> Option<u8> {
    let o = c as u32;
    if o == 0x181 {
        Some(100)
    } else if o == 0xC0 {
        Some(101)
    } else if o == 0x179 {
        Some(102)
    } else {
        None
    }
}

/// The table index of `c` in the given character set.
pub open spec fn set_idx(set: CharacterSet, c: char) -> Option<u8> {
    match set {
        CharacterSet::A => code128_idx_a(c),
        CharacterSet::B => code128_idx_b(c),
        CharacterSet::C => code128_idx_c(c),
    }
}

/// The character set that a switch character selects, if `c` is one.
pub open spec fn switch_set(c: char) -> Option<CharacterSet> {
    let o = c as u32;
    if o == 0xC0 {
        Some(CharacterSet::A)
    } else if o == 0x181 {
        Some(CharacterSet::B)
    } else if o == 0x106 {
        Some(CharacterSet::C)
    } else {
        None
    }
}

/// The START unit index of a character set.
pub open spec fn start_of(set: CharacterSet) -> u8 {
    match set {
        CharacterSet::A => 103,
        CharacterSet::B => 104,
        CharacterSet::C => 105,
    }
}

/// Whether `c` is an ASCII decimal digit.
pub open spec fn is_digit_char(c: char) -> bool {
    48 <= c as u32 <= 57
}

/// The units produced by the characters after the start switch, processing
/// left to right with the active character set and the pending set-C digit
/// as state. `None` is a tokenizing error: an unknown character, a switch
/// that interrupts a digit pair, or input ending on half a digit pair.
pub open spec fn parse_tail(s: Seq<char>, set: CharacterSet, carry: Option<u8>) -> Option<Seq<u8>>
    decreases s.len(),
{
    if s.len() == 0 {
        if carry is Some {
            None
        } else {
            Some(Seq::empty())
        }
    } else {
        let c = s[0];
        if switch_set(c) is Some {
            if set == CharacterSet::C && carry is Some {
                None
            } else {
                match set_idx(set, c) {
                    Some(u) => match parse_tail(s.skip(1), switch_set(c)->Some_0, carry) {
                        Some(us) => Some(seq![u] + us),
                        None => None,
                    },
                    None => None,
                }
            }
        } else if is_digit_char(c) && set == CharacterSet::C {
            match carry {
                None => parse_tail(s.skip(1), set, Some((c as u32 - 48) as u8)),
                Some(n) => match parse_tail(s.skip(1), set, None) {
                    Some(us) => Some(seq![(n * 10 + (c as u32 - 48)) as u8] + us),
                    None => None,
                },
            }
        } else {
            match set_idx(set, c) {
                Some(u) => match parse_tail(s.skip(1), set, carry) {
                    Some(us) => Some(seq![u] + us),
                    None => None,
                },
                None => None,
            }
        }
    }
}

/// The unit indices of a whole Code128 input: a leading switch character
/// selects the starting set and becomes its START unit, and the rest is
/// tokenized by `parse_tail`.
pub open spec fn code128_units(s: Seq<char>) -> Option<Seq<u8>> {
    if s.len() == 0 {
        Some(Seq::empty())
    } else {
        match switch_set(s[0]) {
            Some(set) => match parse_tail(s.skip(1), set, None) {
                Some(us) => Some(seq![start_of(set)] + us),
                None => None,
            },
            None => None,
        }
    }
}

/// What `Code128::new` returns on any input: fewer than two bytes is a
/// length error, and otherwise the tokenizer decides.
pub open spec fn code128_new_spec(data: &str) -> Result<Seq<u8>, Error> {
    if data.spec_bytes().len() < 2 {
        Err(Error::Length)
    } else {
        match code128_units(data@) {
            Some(us) => Ok(us),
            None => Err(Error::Character),
        }
    }
}

/// The modulo-103 weighted sum of the units: the unit at position `i` from
/// the left weighs `i`, except that the first two positions both weigh one.
pub open spec fn code128_weighted(us: Seq<u8>) -> int
    decreases us.len(),
{
    if us.len() == 0 {
        0
    } else {
        let w = if us.len() - 1 >= 1 {
            us.len() - 1
        } else {
            1
        };
        code128_weighted(us.drop_last()) + us.last() * w
    }
}

/// The checksum unit index of a unit sequence.
pub open spec fn code128_checksum(us: Seq<u8>) -> int {
    code128_weighted(us) % 103
}

proof fn lemma_code128_weighted_step(us: Seq<u8>, i: int)
    requires
        0 <= i < us.len(),
    ensures
        code128_weighted(us.take(i + 1)) == code128_weighted(us.take(i)) + us[i] * (
        if i >= 1 {
            i
        } else {
            1
        }),
{
    assert(us.take(i + 1).drop_last() =~= us.take(i));
    assert(us.take(i + 1).last() == us[i]);
}

/// The modules of a Code128 barcode over its unit indices: each unit's
/// 11-module pattern, the checksum unit, and the stop-and-termination
/// pattern.
pub open spec fn code128_encoding(us: Seq<u8>) -> Seq<u8> {
    concat_map(us, code128_pattern_fn()) + code128_pattern(code128_checksum(us) as u8) + bit_seq(
        0b1100011101011,
        13,
    )
}

/// The table index of `c` in the given character set.
fn lookup(set: CharacterSet, c: char) -> (r: Option<u8>)
    ensures
        r == set_idx(set, c),
        r matches Some(u) ==> u < 106,
{
    let o = c as u32;
    match set {
        CharacterSet::A => {
            if 32 <= o && o <= 95 {
                Some((o - 32) as u8)
            } else if o <= 31 {
                Some((o + 64) as u8)
            } else if o == 0x17B {
                Some(96)
            } else if o == 0x17A {
                Some(97)
            } else if o == 0x17D {
                Some(98)
            } else if o == 0x106 {
                Some(99)
            } else if o == 0x181 {
                Some(100)
            } else if o == 0x17C {
                Some(101)
            } else if o == 0x179 {
                Some(102)
            } else {
                None
            }
        },
        CharacterSet::B => {
            if 32 <= o && o <= 126 {
                Some((o - 32) as u8)
            } else if o == 0xF7 {
                Some(95)
            } else if o == 0x17B {
                Some(96)
            } else if o == 0x17A {
                Some(97)
            } else if o == 0x17D {
                Some(98)
            } else if o == 0x106 {
                Some(99)
            } else if o == 0x17C {
                Some(100)
            } else if o == 0xC0 {
                Some(101)
            } else if o == 0x179 {
                Some(102)
            } else {
                None
            }
        },
        CharacterSet::C => {
            if o == 0x181 {
                Some(100)
            } else if o == 0xC0 {
                Some(101)
            } else if o == 0x179 {
                Some(102)
            } else {
                None
            }
        },
    }
}

/// The Code128 barcode type.
#[derive(Debug)]
pub struct Code128(Vec<u8>);

impl View for Code128 {
    type V = Seq<u8>;

    closed spec fn view(&self) -> Seq<u8> {
        self.0@
    }
}

impl Code128 {
    /// A tokenized value holds unit indices of the 106-entry table.
    #[verifier::type_invariant]
    spec fn inv(self) -> bool {
        forall|i: int| 0 <= i < self.0@.len() ==> self.0@[i] < 106
    }

    /// Creates a new barcode by tokenizing the data into character-set
    /// tagged units.
    pub fn new(data: &str) -> (r: Result<Code128, Error>)
        ensures
            match r {
                Ok(b) => code128_new_spec(data) == Ok::<Seq<u8>, Error>(b@),
                Err(e) => code128_new_spec(data) == Err::<Seq<u8>, Error>(e),
            },
    {
        if data.as_bytes().len() < 2 {
            return Err(Error::Length);
        }
        let ghost s = data@;
        let n = data.unicode_len();
        if n == 0 {
            proof {
                assert(data.spec_bytes().len() == 0);
                assert(false);
            }
            return Err(Error::Character);
        }
        let first = data.get_char(0);
        let fo = first as u32;
        let mut set: CharacterSet = if fo == 0xC0 {
            CharacterSet::A
        } else if fo == 0x181 {
            CharacterSet::B
        } else if fo == 0x106 {
            CharacterSet::C
        } else {
            return Err(Error::Character);
        };
        let mut units: Vec<u8> = Vec::new();
        match set {
            CharacterSet::A => units.push(103),
            CharacterSet::B => units.push(104),
            CharacterSet::C => units.push(105),
        }
        let mut carry: Option<u8> = None;
        let mut i: usize = 1;
        assert(units@ =~= seq![start_of(set)]);
        while i < n
            invariant
                1 <= i <= n,
                n == s.len(),
                data@ == s,
                s.len() > 0,
                2 <= data.spec_bytes().len(),
                forall|j: int| 0 <= j < units@.len() ==> units@[j] < 106,
                carry matches Some(d) ==> d < 10,
                code128_units(s) == (match parse_tail(s.skip(i as int), set, carry) {
                    Some(us) => Some(units@ + us),
                    None => None::<Seq<u8>>,
                }),
            decreases n - i,
        {
            let c = data.get_char(i);
            let o = c as u32;
            proof {
                assert(s.skip(i as int).skip(1) =~= s.skip(i as int + 1));
                assert(s.skip(i as int)[0] == s[i as int]);
            }
            if o == 0xC0 || o == 0x181 || o == 0x106 {
                if set == CharacterSet::C && carry.is_some() {
                    return Err(Error::Character);
                }
                let u = match lookup(set, c) {
                    Some(u) => u,
                    None => {
                        return Err(Error::Character);
                    },
                };
                let ghost next = switch_set(c)->Some_0;
                proof {
                    assert(parse_tail(s.skip(i as int + 1), next, carry) matches Some(us) ==> (
                    units@ + (seq![u] + us)) =~= (units@.push(u) + us));
                }
                units.push(u);
                if o == 0xC0 {
                    set = CharacterSet::A;
                } else if o == 0x181 {
                    set = CharacterSet::B;
                } else {
                    set = CharacterSet::C;
                }
            } else if 48 <= o && o <= 57 && set == CharacterSet::C {
                match carry {
                    None => {
                        carry = Some((o - 48) as u8);
                    },
                    Some(nv) => {
                        let u = nv * 10 + (o - 48) as u8;
                        proof {
                            assert(parse_tail(s.skip(i as int + 1), set, None::<u8>)
                                matches Some(us) ==> (units@ + (seq![u] + us)) =~= (units@.push(u)
                                + us));
                        }
                        units.push(u);
                        carry = None;
                    },
                }
            } else {
                let u = match lookup(set, c) {
                    Some(u) => u,
                    None => {
                        return Err(Error::Character);
                    },
                };
                proof {
                    assert(parse_tail(s.skip(i as int + 1), set, carry) matches Some(us) ==> (
                    units@ + (seq![u] + us)) =~= (units@.push(u) + us));
                }
                units.push(u);
            }
            i = i + 1;
        }
        assert(s.skip(n as int) =~= Seq::<char>::empty());
        if carry.is_some() {
            return Err(Error::Character);
        }
        assert(units@ + Seq::<u8>::empty() =~= units@);
        Ok(Code128(units))
    }

    /// The modulo-103 checksum unit of the stored units.
    fn checksum_unit(&self) -> (r: u8)
        ensures
            r as int == code128_checksum(self@),
            r < 103,
    {
        proof {
            use_type_invariant(&*self);
        }
        let ghost us = self.0@;
        let mut acc: u32 = 0;
        let mut wrap: u32 = 0;
        let mut i: usize = 0;
        assert(us.take(0) =~= Seq::<u8>::empty());
        while i < self.0.len()
            invariant
                i <= us.len(),
                self.0@ == us,
                acc < 103,
                wrap < 103,
                wrap as int == i as int % 103,
                forall|j: int| 0 <= j < us.len() ==> us[j] < 106,
                acc as int == code128_weighted(us.take(i as int)) % 103,
            decreases us.len() - i,
        {
            let u = self.0[i];
            let w: u32 = if i == 0 {
                1
            } else {
                wrap
            };
            proof {
                lemma_code128_weighted_step(us, i as int);
                let wi: int = if i as int >= 1 {
                    i as int
                } else {
                    1
                };
                assert(w as int == wi % 103);
                assert((u as int) * (w as int) <= 105 * 102) by (nonlinear_arith)
                    requires
                        u < 106,
                        w < 103,
                ;
                vstd::arithmetic::div_mod::lemma_add_mod_noop_right(
                    acc as int,
                    (u as int) * (wi % 103),
                    103,
                );
                lemma_mod_mul_acc(
                    code128_weighted(us.take(i as int)),
                    us[i as int] as int,
                    wi,
                    103,
                );
                vstd::arithmetic::div_mod::lemma_add_mod_noop(i as int, 1, 103);
            }
            acc = (acc + (u as u32 * w) % 103) % 103;
            wrap = if wrap == 102 {
                0
            } else {
                wrap + 1
            };
            i = i + 1;
        }
        assert(us.take(us.len() as int) =~= us);
        acc as u8
    }

    /// Encodes the barcode (1 = bar, 0 = space).
    ///
    /// The output is a pure function of the tokenized units, so repeated
    /// calls return identical sequences.
    pub fn encode(&self) -> (r: Vec<u8>)
        ensures
            r@ == code128_encoding(self@),
    {
        proof {
            use_type_invariant(&*self);
        }
        let ghost us = self.0@;
        let mut out: Vec<u8> = Vec::new();
        assert(out@ =~= concat_map(us.take(0), code128_pattern_fn()));
        let mut i: usize = 0;
        while i < self.0.len()
            invariant
                i <= us.len(),
                self.0@ == us,
                forall|j: int| 0 <= j < us.len() ==> us[j] < 106,
                out@ == concat_map(us.take(i as int), code128_pattern_fn()),
            decreases us.len() - i,
        {
            push_code128_pattern(&mut out, self.0[i]);
            proof {
                lemma_concat_map_step(us, code128_pattern_fn(), i as int);
                assert(out@ =~= concat_map(us.take(i + 1), code128_pattern_fn()));
            }
            i = i + 1;
        }
        assert(us.take(us.len() as int) =~= us);
        let cs = self.checksum_unit();
        push_code128_pattern(&mut out, cs);
        push_bits(&mut out, 0b1100011101011, 13);
        assert(out@ =~= code128_encoding(us));
        out
    }

    /// Encodes the barcode into the front of `buffer`.
    ///
    /// Returns `None`, writing nothing, when `buffer` is smaller than the
    /// encoded output; any elements past the output keep their values.
    pub fn encode_in_place(&self, buffer: &mut Vec<u8>) -> (r: Option<()>)
        ensures
            match r {
                Some(_) => old(buffer)@.len() >= code128_encoding(self@).len() && final(buffer)@
                    == code128_encoding(self@) + old(buffer)@.skip(
                    code128_encoding(self@).len() as int,
                ),
                None => old(buffer)@.len() < code128_encoding(self@).len() && final(buffer)@
                    == old(buffer)@,
            },
    {
        let enc = self.encode();
        if buffer.len() < enc.len() {
            return None;
        }
        splice_front(buffer, enc);
        Some(())
    }
}

} // verus!
