//! Encoder for Code93 barcodes.
//!
//! Code93 is intented to improve upon Code39 barcodes by offering a wider array of encodable
//! ASCII characters. It also produces denser barcodes than Code39.
//!
//! Code93 is a continuous, variable-length symbology.
//!
//! NOTE: This encoder currently only supports the basic Code93 implementation and not full-ASCII
//! mode.

use crate::error::Error;
use crate::sym::helpers::{
    bit_seq, concat_map, cycle_weight, lemma_concat_map_step, lemma_weighted_from_right_unfold,
    push_bits, splice_front, validate_spec, weighted_from_right,
};
use vstd::prelude::*;

verus! {

broadcast use crate::sym::helpers::lemma_bit_seq_len;

/// Whether `c` is one of the 47 Code93 characters (the last four stand for
/// the special full-ASCII shift symbols).
pub open spec fn code93_char(c: u8) -> bool {
    (48 <= c <= 57) || (65 <= c <= 90) || c == 45 || c == 46 || c == 32 || c == 36 || c == 47
        || c == 43 || c == 37 || c == 40 || c == 41 || c == 91 || c == 93
}

/// Whether every byte of `s` is a Code93 character.
pub open spec fn all_code93_chars(s: Seq<u8>) -> bool {
    forall|i: int| 0 <= i < s.len() ==> code93_char(#[trigger] s[i])
}

fn is_code93_char(c: u8) -> (r: bool)
    ensures
        r == code93_char(c),
{
    (48 <= c && c <= 57) || (65 <= c && c <= 90) || c == 45 || c == 46 || c == 32 || c == 36
        || c == 47 || c == 43 || c == 37 || c == 40 || c == 41 || c == 91 || c == 93
}

/// The 9-module pattern of one Code93 character.
pub open spec fn code93_pattern(c: u8) -> Seq<u8> {
    match c {
        48 => bit_seq(0b100010100, 9),
        49 => bit_seq(0b101001000, 9),
        50 => bit_seq(0b101000100, 9),
        51 => bit_seq(0b101000010, 9),
        52 => bit_seq(0b100101000, 9),
        53 => bit_seq(0b100100100, 9),
        54 => bit_seq(0b100100010, 9),
        55 => bit_seq(0b101010000, 9),
        56 => bit_seq(0b100010010, 9),
        57 => bit_seq(0b100001010, 9),
        65 => bit_seq(0b110101000, 9),
        66 => bit_seq(0b110100100, 9),
        67 => bit_seq(0b110100010, 9),
        68 => bit_seq(0b110010100, 9),
        69 => bit_seq(0b110010010, 9),
        70 => bit_seq(0b110001010, 9),
        71 => bit_seq(0b101101000, 9),
        72 => bit_seq(0b101100100, 9),
        73 => bit_seq(0b101100010, 9),
        74 => bit_seq(0b100110100, 9),
        75 => bit_seq(0b100011010, 9),
        76 => bit_seq(0b101011000, 9),
        77 => bit_seq(0b101001100, 9),
        78 => bit_seq(0b101000110, 9),
        79 => bit_seq(0b100101100, 9),
        80 => bit_seq(0b100010110, 9),
        81 => bit_seq(0b110110100, 9),
        82 => bit_seq(0b110110010, 9),
        83 => bit_seq(0b110101100, 9),
        84 => bit_seq(0b110100110, 9),
        85 => bit_seq(0b110010110, 9),
        86 => bit_seq(0b110011010, 9),
        87 => bit_seq(0b101101100, 9),
        88 => bit_seq(0b101100110, 9),
        89 => bit_seq(0b100110110, 9),
        90 => bit_seq(0b100111010, 9),
        45 => bit_seq(0b100101110, 9),
        46 => bit_seq(0b111010100, 9),
        32 => bit_seq(0b111010010, 9),
        36 => bit_seq(0b111001010, 9),
        47 => bit_seq(0b101101110, 9),
        43 => bit_seq(0b101110110, 9),
        37 => bit_seq(0b110101110, 9),
        40 => bit_seq(0b100100110, 9),
        41 => bit_seq(0b111011010, 9),
        91 => bit_seq(0b111010110, 9),
        93 => bit_seq(0b100110010, 9),
        _ => Seq::empty(),
    }
}

/// Appends the `code93_pattern` pattern of `c` to `out`.
fn push_code93_pattern(out: &mut Vec<u8>, c: u8)
    requires
        code93_char(c),
    ensures
        final(out)@ == old(out)@ + code93_pattern(c),
{
    match c {
        48 => push_bits(out, 0b100010100, 9),
        49 => push_bits(out, 0b101001000, 9),
        50 => push_bits(out, 0b101000100, 9),
        51 => push_bits(out, 0b101000010, 9),
        52 => push_bits(out, 0b100101000, 9),
        53 => push_bits(out, 0b100100100, 9),
        54 => push_bits(out, 0b100100010, 9),
        55 => push_bits(out, 0b101010000, 9),
        56 => push_bits(out, 0b100010010, 9),
        57 => push_bits(out, 0b100001010, 9),
        65 => push_bits(out, 0b110101000, 9),
        66 => push_bits(out, 0b110100100, 9),
        67 => push_bits(out, 0b110100010, 9),
        68 => push_bits(out, 0b110010100, 9),
        69 => push_bits(out, 0b110010010, 9),
        70 => push_bits(out, 0b110001010, 9),
        71 => push_bits(out, 0b101101000, 9),
        72 => push_bits(out, 0b101100100, 9),
        73 => push_bits(out, 0b101100010, 9),
        74 => push_bits(out, 0b100110100, 9),
        75 => push_bits(out, 0b100011010, 9),
        76 => push_bits(out, 0b101011000, 9),
        77 => push_bits(out, 0b101001100, 9),
        78 => push_bits(out, 0b101000110, 9),
        79 => push_bits(out, 0b100101100, 9),
        80 => push_bits(out, 0b100010110, 9),
        81 => push_bits(out, 0b110110100, 9),
        82 => push_bits(out, 0b110110010, 9),
        83 => push_bits(out, 0b110101100, 9),
        84 => push_bits(out, 0b110100110, 9),
        85 => push_bits(out, 0b110010110, 9),
        86 => push_bits(out, 0b110011010, 9),
        87 => push_bits(out, 0b101101100, 9),
        88 => push_bits(out, 0b101100110, 9),
        89 => push_bits(out, 0b100110110, 9),
        90 => push_bits(out, 0b100111010, 9),
        45 => push_bits(out, 0b100101110, 9),
        46 => push_bits(out, 0b111010100, 9),
        32 => push_bits(out, 0b111010010, 9),
        36 => push_bits(out, 0b111001010, 9),
        47 => push_bits(out, 0b101101110, 9),
        43 => push_bits(out, 0b101110110, 9),
        37 => push_bits(out, 0b110101110, 9),
        40 => push_bits(out, 0b100100110, 9),
        41 => push_bits(out, 0b111011010, 9),
        91 => push_bits(out, 0b111010110, 9),
        93 => push_bits(out, 0b100110010, 9),
        _ => (),
    }
}

/// The position of a Code93 character in its 47-symbol table.
pub open spec fn code93_id(c: u8) -> int {
    match c {
        48 => 0,
        49 => 1,
        50 => 2,
        51 => 3,
        52 => 4,
        53 => 5,
        54 => 6,
        55 => 7,
        56 => 8,
        57 => 9,
        65 => 10,
        66 => 11,
        67 => 12,
        68 => 13,
        69 => 14,
        70 => 15,
        71 => 16,
        72 => 17,
        73 => 18,
        74 => 19,
        75 => 20,
        76 => 21,
        77 => 22,
        78 => 23,
        79 => 24,
        80 => 25,
        81 => 26,
        82 => 27,
        83 => 28,
        84 => 29,
        85 => 30,
        86 => 31,
        87 => 32,
        88 => 33,
        89 => 34,
        90 => 35,
        45 => 36,
        46 => 37,
        32 => 38,
        36 => 39,
        47 => 40,
        43 => 41,
        37 => 42,
        40 => 43,
        41 => 44,
        91 => 45,
        93 => 46,
        _ => 0,
    }
}

/// The Code93 character standing at table position `i`.
pub open spec fn code93_char_of_id(i: int) -> u8 {
    if i == 0 {
        48
    }
    else if i == 1 {
        49
    }
    else if i == 2 {
        50
    }
    else if i == 3 {
        51
    }
    else if i == 4 {
        52
    }
    else if i == 5 {
        53
    }
    else if i == 6 {
        54
    }
    else if i == 7 {
        55
    }
    else if i == 8 {
        56
    }
    else if i == 9 {
        57
    }
    else if i == 10 {
        65
    }
    else if i == 11 {
        66
    }
    else if i == 12 {
        67
    }
    else if i == 13 {
        68
    }
    else if i == 14 {
        69
    }
    else if i == 15 {
        70
    }
    else if i == 16 {
        71
    }
    else if i == 17 {
        72
    }
    else if i == 18 {
        73
    }
    else if i == 19 {
        74
    }
    else if i == 20 {
        75
    }
    else if i == 21 {
        76
    }
    else if i == 22 {
        77
    }
    else if i == 23 {
        78
    }
    else if i == 24 {
        79
    }
    else if i == 25 {
        80
    }
    else if i == 26 {
        81
    }
    else if i == 27 {
        82
    }
    else if i == 28 {
        83
    }
    else if i == 29 {
        84
    }
    else if i == 30 {
        85
    }
    else if i == 31 {
        86
    }
    else if i == 32 {
        87
    }
    else if i == 33 {
        88
    }
    else if i == 34 {
        89
    }
    else if i == 35 {
        90
    }
    else if i == 36 {
        45
    }
    else if i == 37 {
        46
    }
    else if i == 38 {
        32
    }
    else if i == 39 {
        36
    }
    else if i == 40 {
        47
    }
    else if i == 41 {
        43
    }
    else if i == 42 {
        37
    }
    else if i == 43 {
        40
    }
    else if i == 44 {
        41
    }
    else if i == 45 {
        91
    }
    else if i == 46 {
        93
    }
    else {
        48
    }
}

/// The table position of a Code93 character.
fn code93_id_of(c: u8) -> (r: u8)
    requires
        code93_char(c),
    ensures
        r as int == code93_id(c),
        r < 47,
{
    match c {
        48 => 0,
        49 => 1,
        50 => 2,
        51 => 3,
        52 => 4,
        53 => 5,
        54 => 6,
        55 => 7,
        56 => 8,
        57 => 9,
        65 => 10,
        66 => 11,
        67 => 12,
        68 => 13,
        69 => 14,
        70 => 15,
        71 => 16,
        72 => 17,
        73 => 18,
        74 => 19,
        75 => 20,
        76 => 21,
        77 => 22,
        78 => 23,
        79 => 24,
        80 => 25,
        81 => 26,
        82 => 27,
        83 => 28,
        84 => 29,
        85 => 30,
        86 => 31,
        87 => 32,
        88 => 33,
        89 => 34,
        90 => 35,
        45 => 36,
        46 => 37,
        32 => 38,
        36 => 39,
        47 => 40,
        43 => 41,
        37 => 42,
        40 => 43,
        41 => 44,
        91 => 45,
        93 => 46,
        _ => 0,
    }
}

/// The character standing at Code93 table position `i`.
fn code93_char_at(i: u8) -> (r: u8)
    requires
        i < 47,
    ensures
        r == code93_char_of_id(i as int),
        code93_char(r),
{
    match i {
        0 => 48,
        1 => 49,
        2 => 50,
        3 => 51,
        4 => 52,
        5 => 53,
        6 => 54,
        7 => 55,
        8 => 56,
        9 => 57,
        10 => 65,
        11 => 66,
        12 => 67,
        13 => 68,
        14 => 69,
        15 => 70,
        16 => 71,
        17 => 72,
        18 => 73,
        19 => 74,
        20 => 75,
        21 => 76,
        22 => 77,
        23 => 78,
        24 => 79,
        25 => 80,
        26 => 81,
        27 => 82,
        28 => 83,
        29 => 84,
        30 => 85,
        31 => 86,
        32 => 87,
        33 => 88,
        34 => 89,
        35 => 90,
        36 => 45,
        37 => 46,
        38 => 32,
        39 => 36,
        40 => 47,
        41 => 43,
        42 => 37,
        43 => 40,
        44 => 41,
        45 => 91,
        46 => 93,
        _ => 48,
    }
}
/// The table position of each character, as a function value for the
/// weighted checksum sums.
pub open spec fn code93_val_fn() -> spec_fn(u8) -> int {
    |c: u8| code93_id(c)
}

/// The per-character pattern, as a function value for `concat_map`.
pub open spec fn code93_pattern_fn() -> spec_fn(u8) -> Seq<u8> {
    |c: u8| code93_pattern(c)
}

/// The C checksum: table positions weighted 1, 2, 3, ... from the right,
/// cycling at 20, reduced modulo 47.
pub open spec fn code93_checksum_c(s: Seq<u8>) -> int {
    weighted_from_right(s, 20, 1, code93_val_fn()) % 47
}

/// The K checksum: table positions weighted 2, 3, 4, ... from the right,
/// cycling at 15, plus the C checksum position, reduced modulo 47.
pub open spec fn code93_checksum_k(s: Seq<u8>) -> int {
    (weighted_from_right(s, 15, 2, code93_val_fn()) + code93_checksum_c(s)) % 47
}

/// The weighted sum of the stored table positions, iterating from the right.
fn weighted_sum(data: &Vec<u8>, thr: u32, off: u32) -> (r: u32)
    requires
        1 <= thr <= 20,
        1 <= off <= 2,
        data@.len() <= 256,
        all_code93_chars(data@),
    ensures
        r as int == weighted_from_right(data@, thr as int, off as int, code93_val_fn()),
{
    let ghost s = data@;
    let mut acc: u32 = 0;
    let mut j: usize = data.len();
    assert(s.skip(j as int) =~= Seq::<u8>::empty());
    while j > 0
        invariant
            j <= s.len() <= 256,
            data@ == s,
            all_code93_chars(s),
            1 <= thr <= 20,
            1 <= off <= 2,
            acc as int == weighted_from_right(s.skip(j as int), thr as int, off as int, code93_val_fn()),
            acc <= (s.len() - j) * 920,
        decreases j,
    {
        j = j - 1;
        let id = code93_id_of(data[j]);
        let pos = (data.len() - 1 - j) as u32 + off;
        let m = pos % thr;
        let w = if m == 0 {
            thr
        } else {
            m
        };
        proof {
            lemma_weighted_from_right_unfold(s, thr as int, off as int, code93_val_fn(), j as int);
            assert(w == cycle_weight(s.len() - 1 - j + off, thr as int));
            assert((w as int) * (id as int) <= 920) by (nonlinear_arith)
                requires
                    w <= 20,
                    0 <= id < 47,
            ;
        }
        acc = acc + w * (id as u32);
    }
    assert(s.skip(0) =~= s);
    acc
}

/// What `Code93::new` returns on any input: between 1 and 256 characters,
/// all drawn from the Code93 alphabet; the data is kept as given.
pub open spec fn code93_new_spec(data: Seq<u8>) -> Result<Seq<u8>, Error> {
    if data.len() < 1 || data.len() > 256 {
        Err(Error::Length)
    } else if !all_code93_chars(data) {
        Err(Error::Character)
    } else {
        Ok(data)
    }
}

/// The modules of a Code93 barcode: a guard, the nine-module pattern of
/// every character, the C and K checksum characters, the closing guard and a
/// single termination bar.
pub open spec fn code93_encoding(s: Seq<u8>) -> Seq<u8> {
    bit_seq(0b101011110, 9) + concat_map(s, code93_pattern_fn()) + code93_pattern(
        code93_char_of_id(code93_checksum_c(s)),
    ) + code93_pattern(code93_char_of_id(code93_checksum_k(s))) + bit_seq(0b101011110, 9)
        + seq![1u8]
}

/// The Code93 barcode type.
#[derive(Debug)]
pub struct Code93(Vec<u8>);

impl View for Code93 {
    type V = Seq<u8>;

    closed spec fn view(&self) -> Seq<u8> {
        self.0@
    }
}

impl Code93 {
    /// A validated value holds 1 to 256 Code93 characters.
    #[verifier::type_invariant]
    spec fn inv(self) -> bool {
        1 <= self.0@.len() <= 256 && all_code93_chars(self.0@)
    }

    /// Creates a new barcode from 1 to 256 Code93 characters.
    pub fn new(data: &[u8]) -> (r: Result<Code93, Error>)
        ensures
            match r {
                Ok(b) => code93_new_spec(data@) == Ok::<Seq<u8>, Error>(b@),
                Err(e) => code93_new_spec(data@) == Err::<Seq<u8>, Error>(e),
            },
    {
        if data.len() < 1 || data.len() > 256 {
            return Err(Error::Length);
        }
        let mut i: usize = 0;
        while i < data.len()
            invariant
                i <= data@.len(),
                1 <= data@.len() <= 256,
                forall|j: int| 0 <= j < i ==> code93_char(#[trigger] data@[j]),
            decreases data@.len() - i,
        {
            if !is_code93_char(data[i]) {
                assert(!code93_char(data@[i as int]));
                return Err(Error::Character);
            }
            i = i + 1;
        }
        Ok(Code93(vstd::slice::slice_to_vec(data)))
    }

    /// Encodes the barcode (1 = bar, 0 = space).
    ///
    /// The output is a pure function of the validated value, so repeated
    /// calls return identical sequences.
    #[verifier::rlimit(60)]
    pub fn encode(&self) -> (r: Vec<u8>)
        ensures
            r@ == code93_encoding(self@),
    {
        proof {
            use_type_invariant(&*self);
        }
        let ghost s = self.0@;
        let mut out: Vec<u8> = Vec::new();
        push_bits(&mut out, 0b101011110, 9);
        let ghost pre = out@;
        assert(out@ =~= pre + concat_map(s.take(0), code93_pattern_fn()));
        let mut i: usize = 0;
        while i < self.0.len()
            invariant
                i <= s.len(),
                self.0@ == s,
                1 <= s.len() <= 256,
                all_code93_chars(s),
                out@ == pre + concat_map(s.take(i as int), code93_pattern_fn()),
            decreases s.len() - i,
        {
            push_code93_pattern(&mut out, self.0[i]);
            proof {
                lemma_concat_map_step(s, code93_pattern_fn(), i as int);
                assert(out@ =~= pre + concat_map(s.take(i + 1), code93_pattern_fn()));
            }
            i = i + 1;
        }
        assert(s.take(s.len() as int) =~= s);
        let cw = weighted_sum(&self.0, 20, 1);
        let c_idx = (cw % 47) as u8;
        let kw = weighted_sum(&self.0, 15, 2);
        let k_idx = ((kw % 47 + c_idx as u32) % 47) as u8;
        proof {
            vstd::arithmetic::div_mod::lemma_add_mod_noop(
                weighted_from_right(s, 15, 2, code93_val_fn()),
                code93_checksum_c(s),
                47,
            );
            vstd::arithmetic::div_mod::lemma_mod_twice(code93_checksum_c(s), 47);
        }
        push_code93_pattern(&mut out, code93_char_at(c_idx));
        push_code93_pattern(&mut out, code93_char_at(k_idx));
        push_bits(&mut out, 0b101011110, 9);
        out.push(1);
        assert(out@ =~= code93_encoding(s));
        out
    }

    /// Encodes the barcode into the front of `buffer`.
    ///
    /// Returns `None`, writing nothing, when `buffer` is smaller than the
    /// encoded output; any elements past the output keep their values.
    pub fn encode_in_place(&self, buffer: &mut Vec<u8>) -> (r: Option<()>)
        ensures
            match r {
                Some(_) => old(buffer)@.len() >= code93_encoding(self@).len() && final(buffer)@
                    == code93_encoding(self@) + old(buffer)@.skip(
                    code93_encoding(self@).len() as int,
                ),
                None => old(buffer)@.len() < code93_encoding(self@).len() && final(buffer)@
                    == old(buffer)@,
            },
    {
        let enc = self.encode();
        if buffer.len() < enc.len() {
            return None;
        }
        splice_front(buffer, enc);
        Some(())
    }
}


/// The constructor follows the shared validation scheme of
/// `validate_spec`, instantiated with the Code93 alphabet and the 1 to 256 length window.
pub proof fn lemma_code93_new_follows_validate(data: Seq<u8>)
    ensures
        code93_new_spec(data) == validate_spec(data, 1, 256, |c: u8| code93_char(c)),
{
    if 1 <= data.len() <= 256 && !all_code93_chars(data) {
        let i = choose|i: int| 0 <= i < data.len() && !code93_char(#[trigger] data[i]);
        assert(0 <= i < data.len() && !((|c: u8| code93_char(c))(data[i])));
    }
}

} // verus!
