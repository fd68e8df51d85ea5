//! Encoder for Code39 barcodes.
//!
//! Code39 is a discrete, variable-length barcode. They are often referred to as "3-of-9".
//!
//! Code39 is the standard barcode used by the United States Department of Defense and is also
//! popular in non-retail environments. It was one of the first symbologies to support encoding
//! of the ASCII alphabet.

use crate::error::Error;
use crate::sym::helpers::{
    bit_seq, concat_map, lemma_concat_map_step, push_bits, splice_front, validate_spec,
};
use vstd::prelude::*;

verus! {

broadcast use crate::sym::helpers::lemma_bit_seq_len;

/// Whether `c` is one of the 43 Code39 characters.
pub open spec fn code39_char(c: u8) -> bool {
    (48 <= c <= 57) || (65 <= c <= 90) || c == 45 || c == 46 || c == 32 || c == 36 || c == 47
        || c == 43 || c == 37
}

/// Whether every byte of `s` is a Code39 character.
pub open spec fn all_code39_chars(s: Seq<u8>) -> bool {
    forall|i: int| 0 <= i < s.len() ==> code39_char(#[trigger] s[i])
}

fn is_code39_char(c: u8) -> (r: bool)
    ensures
        r == code39_char(c),
{
    (48 <= c && c <= 57) || (65 <= c && c <= 90) || c == 45 || c == 46 || c == 32 || c == 36
        || c == 47 || c == 43 || c == 37
}

/// The 12-module pattern of one Code39 character.
pub open spec fn code39_pattern(c: u8) -> Seq<u8> {
    match c {
        48 => bit_seq(0b101001101101, 12),
        49 => bit_seq(0b110100101011, 12),
        50 => bit_seq(0b101100101011, 12),
        51 => bit_seq(0b110110010101, 12),
        52 => bit_seq(0b101001101011, 12),
        53 => bit_seq(0b110100110101, 12),
        54 => bit_seq(0b101100110101, 12),
        55 => bit_seq(0b101001011011, 12),
        56 => bit_seq(0b110100101101, 12),
        57 => bit_seq(0b101100101101, 12),
        65 => bit_seq(0b110101001011, 12),
        66 => bit_seq(0b101101001011, 12),
        67 => bit_seq(0b110110100101, 12),
        68 => bit_seq(0b101011001011, 12),
        69 => bit_seq(0b110101100101, 12),
        70 => bit_seq(0b101101100101, 12),
        71 => bit_seq(0b101010011011, 12),
        72 => bit_seq(0b110101001101, 12),
        73 => bit_seq(0b101101001101, 12),
        74 => bit_seq(0b101011001101, 12),
        75 => bit_seq(0b110101010011, 12),
        76 => bit_seq(0b101101010011, 12),
        77 => bit_seq(0b110110101001, 12),
        78 => bit_seq(0b101011010011, 12),
        79 => bit_seq(0b110101101001, 12),
        80 => bit_seq(0b101101101001, 12),
        81 => bit_seq(0b101010110011, 12),
        82 => bit_seq(0b110101011001, 12),
        83 => bit_seq(0b101101011001, 12),
        84 => bit_seq(0b101011011001, 12),
        85 => bit_seq(0b110010101011, 12),
        86 => bit_seq(0b100110101011, 12),
        87 => bit_seq(0b110011010101, 12),
        88 => bit_seq(0b100101101011, 12),
        89 => bit_seq(0b110010110101, 12),
        90 => bit_seq(0b100110110101, 12),
        45 => bit_seq(0b100101011011, 12),
        46 => bit_seq(0b110010101101, 12),
        32 => bit_seq(0b100110101101, 12),
        36 => bit_seq(0b100100100101, 12),
        47 => bit_seq(0b100100101001, 12),
        43 => bit_seq(0b100101001001, 12),
        37 => bit_seq(0b101001001001, 12),
        _ => Seq::empty(),
    }
}

/// Appends the `code39_pattern` pattern of `c` to `out`.
fn push_code39_pattern(out: &mut Vec<u8>, c: u8)
    requires
        code39_char(c),
    ensures
        final(out)@ == old(out)@ + code39_pattern(c),
{
    match c {
        48 => push_bits(out, 0b101001101101, 12),
        49 => push_bits(out, 0b110100101011, 12),
        50 => push_bits(out, 0b101100101011, 12),
        51 => push_bits(out, 0b110110010101, 12),
        52 => push_bits(out, 0b101001101011, 12),
        53 => push_bits(out, 0b110100110101, 12),
        54 => push_bits(out, 0b101100110101, 12),
        55 => push_bits(out, 0b101001011011, 12),
        56 => push_bits(out, 0b110100101101, 12),
        57 => push_bits(out, 0b101100101101, 12),
        65 => push_bits(out, 0b110101001011, 12),
        66 => push_bits(out, 0b101101001011, 12),
        67 => push_bits(out, 0b110110100101, 12),
        68 => push_bits(out, 0b101011001011, 12),
        69 => push_bits(out, 0b110101100101, 12),
        70 => push_bits(out, 0b101101100101, 12),
        71 => push_bits(out, 0b101010011011, 12),
        72 => push_bits(out, 0b110101001101, 12),
        73 => push_bits(out, 0b101101001101, 12),
        74 => push_bits(out, 0b101011001101, 12),
        75 => push_bits(out, 0b110101010011, 12),
        76 => push_bits(out, 0b101101010011, 12),
        77 => push_bits(out, 0b110110101001, 12),
        78 => push_bits(out, 0b101011010011, 12),
        79 => push_bits(out, 0b110101101001, 12),
        80 => push_bits(out, 0b101101101001, 12),
        81 => push_bits(out, 0b101010110011, 12),
        82 => push_bits(out, 0b110101011001, 12),
        83 => push_bits(out, 0b101101011001, 12),
        84 => push_bits(out, 0b101011011001, 12),
        85 => push_bits(out, 0b110010101011, 12),
        86 => push_bits(out, 0b100110101011, 12),
        87 => push_bits(out, 0b110011010101, 12),
        88 => push_bits(out, 0b100101101011, 12),
        89 => push_bits(out, 0b110010110101, 12),
        90 => push_bits(out, 0b100110110101, 12),
        45 => push_bits(out, 0b100101011011, 12),
        46 => push_bits(out, 0b110010101101, 12),
        32 => push_bits(out, 0b100110101101, 12),
        36 => push_bits(out, 0b100100100101, 12),
        47 => push_bits(out, 0b100100101001, 12),
        43 => push_bits(out, 0b100101001001, 12),
        37 => push_bits(out, 0b101001001001, 12),
        _ => (),
    }
}

/// The position of a Code39 character in its 43-symbol table.
pub open spec fn code39_id(c: u8) -> int {
    match c {
        48 => 0,
        49 => 1,
        50 => 2,
        51 => 3,
        52 => 4,
        53 => 5,
        54 => 6,
        55 => 7,
        56 => 8,
        57 => 9,
        65 => 10,
        66 => 11,
        67 => 12,
        68 => 13,
        69 => 14,
        70 => 15,
        71 => 16,
        72 => 17,
        73 => 18,
        74 => 19,
        75 => 20,
        76 => 21,
        77 => 22,
        78 => 23,
        79 => 24,
        80 => 25,
        81 => 26,
        82 => 27,
        83 => 28,
        84 => 29,
        85 => 30,
        86 => 31,
        87 => 32,
        88 => 33,
        89 => 34,
        90 => 35,
        45 => 36,
        46 => 37,
        32 => 38,
        36 => 39,
        47 => 40,
        43 => 41,
        37 => 42,
        _ => 0,
    }
}

/// The Code39 character standing at table position `i`.
pub open spec fn code39_char_of_id(i: int) -> u8 {
    if i == 0 {
        48
    }
    else if i == 1 {
        49
    }
    else if i == 2 {
        50
    }
    else if i == 3 {
        51
    }
    else if i == 4 {
        52
    }
    else if i == 5 {
        53
    }
    else if i == 6 {
        54
    }
    else if i == 7 {
        55
    }
    else if i == 8 {
        56
    }
    else if i == 9 {
        57
    }
    else if i == 10 {
        65
    }
    else if i == 11 {
        66
    }
    else if i == 12 {
        67
    }
    else if i == 13 {
        68
    }
    else if i == 14 {
        69
    }
    else if i == 15 {
        70
    }
    else if i == 16 {
        71
    }
    else if i == 17 {
        72
    }
    else if i == 18 {
        73
    }
    else if i == 19 {
        74
    }
    else if i == 20 {
        75
    }
    else if i == 21 {
        76
    }
    else if i == 22 {
        77
    }
    else if i == 23 {
        78
    }
    else if i == 24 {
        79
    }
    else if i == 25 {
        80
    }
    else if i == 26 {
        81
    }
    else if i == 27 {
        82
    }
    else if i == 28 {
        83
    }
    else if i == 29 {
        84
    }
    else if i == 30 {
        85
    }
    else if i == 31 {
        86
    }
    else if i == 32 {
        87
    }
    else if i == 33 {
        88
    }
    else if i == 34 {
        89
    }
    else if i == 35 {
        90
    }
    else if i == 36 {
        45
    }
    else if i == 37 {
        46
    }
    else if i == 38 {
        32
    }
    else if i == 39 {
        36
    }
    else if i == 40 {
        47
    }
    else if i == 41 {
        43
    }
    else if i == 42 {
        37
    }
    else {
        48
    }
}

/// The table position of a Code39 character.
fn code39_id_of(c: u8) -> (r: u8)
    requires
        code39_char(c),
    ensures
        r as int == code39_id(c),
        r < 43,
{
    match c {
        48 => 0,
        49 => 1,
        50 => 2,
        51 => 3,
        52 => 4,
        53 => 5,
        54 => 6,
        55 => 7,
        56 => 8,
        57 => 9,
        65 => 10,
        66 => 11,
        67 => 12,
        68 => 13,
        69 => 14,
        70 => 15,
        71 => 16,
        72 => 17,
        73 => 18,
        74 => 19,
        75 => 20,
        76 => 21,
        77 => 22,
        78 => 23,
        79 => 24,
        80 => 25,
        81 => 26,
        82 => 27,
        83 => 28,
        84 => 29,
        85 => 30,
        86 => 31,
        87 => 32,
        88 => 33,
        89 => 34,
        90 => 35,
        45 => 36,
        46 => 37,
        32 => 38,
        36 => 39,
        47 => 40,
        43 => 41,
        37 => 42,
        _ => 0,
    }
}

/// The character standing at Code39 table position `i`.
fn code39_char_at(i: u8) -> (r: u8)
    requires
        i < 43,
    ensures
        r == code39_char_of_id(i as int),
        code39_char(r),
{
    match i {
        0 => 48,
        1 => 49,
        2 => 50,
        3 => 51,
        4 => 52,
        5 => 53,
        6 => 54,
        7 => 55,
        8 => 56,
        9 => 57,
        10 => 65,
        11 => 66,
        12 => 67,
        13 => 68,
        14 => 69,
        15 => 70,
        16 => 71,
        17 => 72,
        18 => 73,
        19 => 74,
        20 => 75,
        21 => 76,
        22 => 77,
        23 => 78,
        24 => 79,
        25 => 80,
        26 => 81,
        27 => 82,
        28 => 83,
        29 => 84,
        30 => 85,
        31 => 86,
        32 => 87,
        33 => 88,
        34 => 89,
        35 => 90,
        36 => 45,
        37 => 46,
        38 => 32,
        39 => 36,
        40 => 47,
        41 => 43,
        42 => 37,
        _ => 48,
    }
}
/// The sum of the table positions of the characters of `s`.
pub open spec fn code39_id_sum(s: Seq<u8>) -> int
    decreases s.len(),
{
    if s.len() == 0 {
        0
    } else {
        code39_id_sum(s.drop_last()) + code39_id(s.last())
    }
}

/// The modulo-43 checksum: the summed table positions, reduced.
pub open spec fn code39_checksum(s: Seq<u8>) -> int {
    code39_id_sum(s) % 43
}

proof fn lemma_code39_id_sum_step(s: Seq<u8>, i: int)
    requires
        0 <= i < s.len(),
    ensures
        code39_id_sum(s.take(i + 1)) == code39_id_sum(s.take(i)) + code39_id(s[i]),
{
    assert(s.take(i + 1).drop_last() =~= s.take(i));
    assert(s.take(i + 1).last() == s[i]);
}

/// One encoded character: its 12-module pattern and the narrow gap after it.
pub open spec fn code39_unit(c: u8) -> Seq<u8> {
    code39_pattern(c) + seq![0u8]
}

/// The per-character encoding, as a function value for `concat_map`.
pub open spec fn code39_unit_fn() -> spec_fn(u8) -> Seq<u8> {
    |c: u8| code39_unit(c)
}

fn push_code39_unit(out: &mut Vec<u8>, c: u8)
    requires
        code39_char(c),
    ensures
        final(out)@ == old(out)@ + code39_unit(c),
{
    push_code39_pattern(out, c);
    out.push(0);
    assert(out@ =~= old(out)@ + code39_unit(c));
}

/// What `Code39::new` and `Code39::with_checksum` return on any input:
/// between 1 and 256 characters, all drawn from the Code39 alphabet; the
/// data is kept as given.
pub open spec fn code39_new_spec(data: Seq<u8>) -> Result<Seq<u8>, Error> {
    if data.len() < 1 || data.len() > 256 {
        Err(Error::Length)
    } else if !all_code39_chars(data) {
        Err(Error::Character)
    } else {
        Ok(data)
    }
}

/// The modules of a Code39 barcode: a `*` guard, then each character
/// followed by a narrow gap, the optional modulo-43 checksum character, and
/// the closing guard.
pub open spec fn code39_encoding(s: Seq<u8>, checksum: bool) -> Seq<u8> {
    let body = bit_seq(0b100101101101, 12) + seq![0u8] + concat_map(s, code39_unit_fn());
    if checksum {
        body + code39_unit(code39_char_of_id(code39_checksum(s))) + bit_seq(0b100101101101, 12)
    } else {
        body + bit_seq(0b100101101101, 12)
    }
}

/// The Code39 barcode type.
#[derive(Debug)]
pub struct Code39 {
    /// Indicates whether to encode a checksum digit.
    pub checksum: bool,
    data: Vec<u8>,
}

impl View for Code39 {
    type V = Seq<u8>;

    closed spec fn view(&self) -> Seq<u8> {
        self.data@
    }
}

impl Code39 {
    /// Whether this value appends the checksum character when encoded.
    pub closed spec fn checksum_enabled(&self) -> bool {
        self.checksum
    }

    /// A validated value holds 1 to 256 Code39 characters.
    #[verifier::type_invariant]
    spec fn inv(self) -> bool {
        1 <= self.data@.len() <= 256 && all_code39_chars(self.data@)
    }

    fn validated(data: &[u8]) -> (r: Result<Vec<u8>, Error>)
        ensures
            match r {
                Ok(b) => code39_new_spec(data@) == Ok::<Seq<u8>, Error>(b@),
                Err(e) => code39_new_spec(data@) == Err::<Seq<u8>, Error>(e),
            },
    {
        if data.len() < 1 || data.len() > 256 {
            return Err(Error::Length);
        }
        let mut i: usize = 0;
        while i < data.len()
            invariant
                i <= data@.len(),
                1 <= data@.len() <= 256,
                forall|j: int| 0 <= j < i ==> code39_char(#[trigger] data@[j]),
            decreases data@.len() - i,
        {
            if !is_code39_char(data[i]) {
                assert(!code39_char(data@[i as int]));
                return Err(Error::Character);
            }
            i = i + 1;
        }
        Ok(vstd::slice::slice_to_vec(data))
    }

    /// Creates a new barcode, without a checksum character.
    pub fn new(data: &[u8]) -> (r: Result<Code39, Error>)
        ensures
            match r {
                Ok(b) => code39_new_spec(data@) == Ok::<Seq<u8>, Error>(b@) && !b.checksum_enabled(),
                Err(e) => code39_new_spec(data@) == Err::<Seq<u8>, Error>(e),
            },
    {
        match Self::validated(data) {
            Ok(d) => Ok(Code39 { checksum: false, data: d }),
            Err(e) => Err(e),
        }
    }

    /// Creates a new Code39 barcode, with the checksum enabled.
    pub fn with_checksum(data: &[u8]) -> (r: Result<Code39, Error>)
        ensures
            match r {
                Ok(b) => code39_new_spec(data@) == Ok::<Seq<u8>, Error>(b@) && b.checksum_enabled(),
                Err(e) => code39_new_spec(data@) == Err::<Seq<u8>, Error>(e),
            },
    {
        match Self::validated(data) {
            Ok(d) => Ok(Code39 { checksum: true, data: d }),
            Err(e) => Err(e),
        }
    }

    /// The modulo-43 checksum character of the stored data.
    fn checksum_char(&self) -> (r: u8)
        ensures
            r == code39_char_of_id(code39_checksum(self@)),
            code39_char(r),
    {
        proof {
            use_type_invariant(&*self);
        }
        let ghost s = self.data@;
        let mut acc: u32 = 0;
        let mut i: usize = 0;
        assert(s.take(0) =~= Seq::<u8>::empty());
        while i < self.data.len()
            invariant
                i <= s.len(),
                self.data@ == s,
                s.len() <= 256,
                all_code39_chars(s),
                acc as int == code39_id_sum(s.take(i as int)),
                acc <= 43 * i,
            decreases s.len() - i,
        {
            let id = code39_id_of(self.data[i]);
            proof {
                lemma_code39_id_sum_step(s, i as int);
            }
            acc = acc + id as u32;
            i = i + 1;
        }
        assert(s.take(s.len() as int) =~= s);
        code39_char_at((acc % 43) as u8)
    }

    /// Encodes the barcode (1 = bar, 0 = space).
    ///
    /// The output is a pure function of the validated value and the checksum
    /// flag, so repeated calls return identical sequences.
    pub fn encode(&self) -> (r: Vec<u8>)
        ensures
            r@ == code39_encoding(self@, self.checksum_enabled()),
    {
        proof {
            use_type_invariant(&*self);
        }
        let ghost s = self.data@;
        let mut out: Vec<u8> = Vec::new();
        push_bits(&mut out, 0b100101101101, 12);
        out.push(0);
        let ghost pre = out@;
        assert(pre =~= bit_seq(0b100101101101, 12) + seq![0u8]);
        assert(out@ =~= pre + concat_map(s.take(0), code39_unit_fn()));
        let mut i: usize = 0;
        while i < self.data.len()
            invariant
                i <= s.len(),
                self.data@ == s,
                all_code39_chars(s),
                out@ == pre + concat_map(s.take(i as int), code39_unit_fn()),
            decreases s.len() - i,
        {
            push_code39_unit(&mut out, self.data[i]);
            proof {
                lemma_concat_map_step(s, code39_unit_fn(), i as int);
                assert(out@ =~= pre + concat_map(s.take(i + 1), code39_unit_fn()));
            }
            i = i + 1;
        }
        assert(s.take(s.len() as int) =~= s);
        if self.checksum {
            let c = self.checksum_char();
            push_code39_unit(&mut out, c);
        }
        push_bits(&mut out, 0b100101101101, 12);
        assert(out@ =~= code39_encoding(s, self.checksum));
        out
    }

    /// Encodes the barcode into the front of `buffer`.
    ///
    /// Returns `None`, writing nothing, when `buffer` is smaller than the
    /// encoded output; any elements past the output keep their values.
    pub fn encode_in_place(&self, buffer: &mut Vec<u8>) -> (r: Option<()>)
        ensures
            match r {
                Some(_) => old(buffer)@.len() >= code39_encoding(self@, self.checksum_enabled()).len()
                    && final(buffer)@ == code39_encoding(self@, self.checksum_enabled())
                    + old(buffer)@.skip(code39_encoding(self@, self.checksum_enabled()).len() as int),
                None => old(buffer)@.len() < code39_encoding(self@, self.checksum_enabled()).len()
                    && final(buffer)@ == old(buffer)@,
            },
    {
        let enc = self.encode();
        if buffer.len() < enc.len() {
            return None;
        }
        splice_front(buffer, enc);
        Some(())
    }
}


/// The constructor follows the shared validation scheme of
/// `validate_spec`, instantiated with the Code39 alphabet and the 1 to 256 length window.
pub proof fn lemma_code39_new_follows_validate(data: Seq<u8>)
    ensures
        code39_new_spec(data) == validate_spec(data, 1, 256, |c: u8| code39_char(c)),
{
    if 1 <= data.len() <= 256 && !all_code39_chars(data) {
        let i = choose|i: int| 0 <= i < data.len() && !code39_char(#[trigger] data[i]);
        assert(0 <= i < data.len() && !((|c: u8| code39_char(c))(data[i])));
    }
}

} // verus!
