//! Encoder for UPC and EAN barcodes.
//!
//! EAN13 barcodes are very common in retail. 90% of the products you purchase from a supermarket
//! will use EAN13.
//!
//! This module defines types for:
//!   * UPC-A
//!   * EAN-13
//!   * Bookland
//!   * JAN

use crate::error::Error;
use crate::sym::helpers::{
    all_digits, bit_seq, digit_values, is_digit_byte, mod10_checksum, push_bits, splice_front,
    validate_spec,
};
use vstd::prelude::*;

pub use crate::sym::helpers::modulo_10_checksum;

verus! {

broadcast use crate::sym::helpers::lemma_bit_seq_len;

/// The left-side odd-parity (table A) pattern of a digit.
pub open spec fn ean_left_a(c: u8) -> Seq<u8> {
    match c {
        0 => bit_seq(0b0001101, 7),
        1 => bit_seq(0b0011001, 7),
        2 => bit_seq(0b0010011, 7),
        3 => bit_seq(0b0111101, 7),
        4 => bit_seq(0b0100011, 7),
        5 => bit_seq(0b0110001, 7),
        6 => bit_seq(0b0101111, 7),
        7 => bit_seq(0b0111011, 7),
        8 => bit_seq(0b0110111, 7),
        9 => bit_seq(0b0001011, 7),
        _ => Seq::empty(),
    }
}

/// Appends the `ean_left_a` pattern of `c` to `out`.
pub fn push_ean_left_a(out: &mut Vec<u8>, c: u8)
    requires
        c < 10,
    ensures
        final(out)@ == old(out)@ + ean_left_a(c),
{
    match c {
        0 => push_bits(out, 0b0001101, 7),
        1 => push_bits(out, 0b0011001, 7),
        2 => push_bits(out, 0b0010011, 7),
        3 => push_bits(out, 0b0111101, 7),
        4 => push_bits(out, 0b0100011, 7),
        5 => push_bits(out, 0b0110001, 7),
        6 => push_bits(out, 0b0101111, 7),
        7 => push_bits(out, 0b0111011, 7),
        8 => push_bits(out, 0b0110111, 7),
        9 => push_bits(out, 0b0001011, 7),
        _ => (),
    }
}

/// The left-side even-parity (table B) pattern of a digit.
pub open spec fn ean_left_b(c: u8) -> Seq<u8> {
    match c {
        0 => bit_seq(0b0100111, 7),
        1 => bit_seq(0b0110011, 7),
        2 => bit_seq(0b0011011, 7),
        3 => bit_seq(0b0100001, 7),
        4 => bit_seq(0b0011101, 7),
        5 => bit_seq(0b0111001, 7),
        6 => bit_seq(0b0000101, 7),
        7 => bit_seq(0b0010001, 7),
        8 => bit_seq(0b0001001, 7),
        9 => bit_seq(0b0010111, 7),
        _ => Seq::empty(),
    }
}

/// Appends the `ean_left_b` pattern of `c` to `out`.
pub fn push_ean_left_b(out: &mut Vec<u8>, c: u8)
    requires
        c < 10,
    ensures
        final(out)@ == old(out)@ + ean_left_b(c),
{
    match c {
        0 => push_bits(out, 0b0100111, 7),
        1 => push_bits(out, 0b0110011, 7),
        2 => push_bits(out, 0b0011011, 7),
        3 => push_bits(out, 0b0100001, 7),
        4 => push_bits(out, 0b0011101, 7),
        5 => push_bits(out, 0b0111001, 7),
        6 => push_bits(out, 0b0000101, 7),
        7 => push_bits(out, 0b0010001, 7),
        8 => push_bits(out, 0b0001001, 7),
        9 => push_bits(out, 0b0010111, 7),
        _ => (),
    }
}

/// The right-side pattern of a digit.
pub open spec fn ean_right(c: u8) -> Seq<u8> {
    match c {
        0 => bit_seq(0b1110010, 7),
        1 => bit_seq(0b1100110, 7),
        2 => bit_seq(0b1101100, 7),
        3 => bit_seq(0b1000010, 7),
        4 => bit_seq(0b1011100, 7),
        5 => bit_seq(0b1001110, 7),
        6 => bit_seq(0b1010000, 7),
        7 => bit_seq(0b1000100, 7),
        8 => bit_seq(0b1001000, 7),
        9 => bit_seq(0b1110100, 7),
        _ => Seq::empty(),
    }
}

/// Appends the `ean_right` pattern of `c` to `out`.
pub fn push_ean_right(out: &mut Vec<u8>, c: u8)
    requires
        c < 10,
    ensures
        final(out)@ == old(out)@ + ean_right(c),
{
    match c {
        0 => push_bits(out, 0b1110010, 7),
        1 => push_bits(out, 0b1100110, 7),
        2 => push_bits(out, 0b1101100, 7),
        3 => push_bits(out, 0b1000010, 7),
        4 => push_bits(out, 0b1011100, 7),
        5 => push_bits(out, 0b1001110, 7),
        6 => push_bits(out, 0b1010000, 7),
        7 => push_bits(out, 0b1000100, 7),
        8 => push_bits(out, 0b1001000, 7),
        9 => push_bits(out, 0b1110100, 7),
        _ => (),
    }
}

/// Which of the five left payload digits use the even-parity table,
/// selected by the leading number-system digit.
pub open spec fn ean13_parity(first: u8) -> Seq<bool> {
    match first {
        0 => seq![false, false, false, false, false],
        1 => seq![false, true, false, true, true],
        2 => seq![false, true, true, false, true],
        3 => seq![false, true, true, true, false],
        4 => seq![true, false, false, true, true],
        5 => seq![true, true, false, false, true],
        6 => seq![true, true, true, false, false],
        7 => seq![true, false, true, false, true],
        8 => seq![true, false, true, true, false],
        9 => seq![true, true, false, true, false],
        _ => seq![false, false, false, false, false],
    }
}

/// The five parity selectors for the given number-system digit.
fn parity_row(first: u8) -> (r: (bool, bool, bool, bool, bool))
    requires
        first < 10,
    ensures
        r.0 == ean13_parity(first)[0],
        r.1 == ean13_parity(first)[1],
        r.2 == ean13_parity(first)[2],
        r.3 == ean13_parity(first)[3],
        r.4 == ean13_parity(first)[4],
{
    match first {
        0 => (false, false, false, false, false),
        1 => (false, true, false, true, true),
        2 => (false, true, true, false, true),
        3 => (false, true, true, true, false),
        4 => (true, false, false, true, true),
        5 => (true, true, false, false, true),
        6 => (true, true, true, false, false),
        7 => (true, false, true, false, true),
        8 => (true, false, true, true, false),
        9 => (true, true, false, true, false),
        _ => (false, false, false, false, false),
    }
}
/// The pattern of a left payload digit under the chosen parity table.
pub open spec fn ean_left(even: bool, d: u8) -> Seq<u8> {
    if even {
        ean_left_b(d)
    } else {
        ean_left_a(d)
    }
}

/// Appends the parity-selected left pattern of `d` to `out`.
pub(crate) fn push_ean_left(out: &mut Vec<u8>, even: bool, d: u8)
    requires
        d < 10,
    ensures
        final(out)@ == old(out)@ + ean_left(even, d),
{
    if even {
        push_ean_left_b(out, d);
    } else {
        push_ean_left_a(out, d);
    }
}

/// The checksum digit of twelve EAN-13 digit values: odd positions are
/// tripled ("even-start" weighting).
pub open spec fn ean13_checksum(d: Seq<u8>) -> int {
    mod10_checksum(d, true)
}

/// What `EAN13::new` returns on any input: twelve or thirteen ASCII digits
/// are accepted, and a supplied thirteenth digit must equal the checksum of
/// the first twelve.
pub open spec fn ean13_new_spec(data: Seq<u8>) -> Result<Seq<u8>, Error> {
    if data.len() != 12 && data.len() != 13 {
        Err(Error::Length)
    } else if !all_digits(data) {
        Err(Error::Character)
    } else if data.len() == 13 && ean13_checksum(digit_values(data.take(12))) != data[12] - 48 {
        Err(Error::Checksum)
    } else {
        Ok(digit_values(data.take(12)))
    }
}

/// The 95 modules of an EAN-13 barcode over the digit values `d`: left
/// guard, the number-system digit, five parity-selected left digits, the
/// middle guard, five right digits, the checksum digit and the right guard.
pub open spec fn ean13_encoding(d: Seq<u8>) -> Seq<u8> {
    let par = ean13_parity(d[0]);
    bit_seq(0b101, 3) + ean_left_a(d[1]) + ean_left(par[0], d[2]) + ean_left(par[1], d[3])
        + ean_left(par[2], d[4]) + ean_left(par[3], d[5]) + ean_left(par[4], d[6]) + bit_seq(
        0b01010,
        5,
    ) + ean_right(d[7]) + ean_right(d[8]) + ean_right(d[9]) + ean_right(d[10]) + ean_right(d[11])
        + ean_right(ean13_checksum(d) as u8) + bit_seq(0b101, 3)
}

/// The EAN-13 barcode type.
#[derive(Debug)]
pub struct EAN13(Vec<u8>);

impl View for EAN13 {
    type V = Seq<u8>;

    closed spec fn view(&self) -> Seq<u8> {
        self.0@
    }
}

impl EAN13 {
    /// A validated value always holds exactly twelve digit values.
    #[verifier::type_invariant]
    spec fn inv(self) -> bool {
        self.0@.len() == 12 && forall|i: int| 0 <= i < 12 ==> self.0@[i] < 10
    }

    /// Creates a new barcode from twelve ASCII digits, or thirteen when the
    /// trailing checksum digit is supplied explicitly.
    pub fn new(data: &[u8]) -> (r: Result<EAN13, Error>)
        ensures
            match r {
                Ok(b) => ean13_new_spec(data@) == Ok::<Seq<u8>, Error>(b@),
                Err(e) => ean13_new_spec(data@) == Err::<Seq<u8>, Error>(e),
            },
    {
        if data.len() != 12 && data.len() != 13 {
            return Err(Error::Length);
        }
        let mut digits: Vec<u8> = Vec::new();
        let mut i: usize = 0;
        assert(digits@ =~= digit_values(data@.take(0)));
        while i < data.len()
            invariant
                i <= data@.len(),
                12 <= data@.len() <= 13,
                digits@ == digit_values(data@.take(if i <= 12 { i as int } else { 12 })),
                forall|j: int| 0 <= j < i ==> is_digit_byte(#[trigger] data@[j]),
                forall|j: int| 0 <= j < digits@.len() ==> digits@[j] < 10,
            decreases data@.len() - i,
        {
            let byte = data[i];
            if byte < 48 || byte > 57 {
                return Err(Error::Character);
            }
            if i < 12 {
                digits.push(byte - 48);
                assert(digits@ =~= digit_values(data@.take(i + 1)));
            }
            i = i + 1;
        }
        let cs = modulo_10_checksum(digits.as_slice(), true);
        if data.len() == 13 {
            if cs != data[12] - 48 {
                return Err(Error::Checksum);
            }
        }
        Ok(EAN13(digits))
    }

    /// Encodes the barcode into its 95 modules (1 = bar, 0 = space).
    ///
    /// The output is a pure function of the validated value, so repeated
    /// calls return identical sequences.
    pub fn encode(&self) -> (r: Vec<u8>)
        ensures
            r@ == ean13_encoding(self@),
            r@.len() == 95,
    {
        proof {
            use_type_invariant(&*self);
        }
        let mut out: Vec<u8> = Vec::new();
        push_bits(&mut out, 0b101, 3);
        push_ean_left_a(&mut out, self.0[1]);
        let p = parity_row(self.0[0]);
        push_ean_left(&mut out, p.0, self.0[2]);
        push_ean_left(&mut out, p.1, self.0[3]);
        push_ean_left(&mut out, p.2, self.0[4]);
        push_ean_left(&mut out, p.3, self.0[5]);
        push_ean_left(&mut out, p.4, self.0[6]);
        push_bits(&mut out, 0b01010, 5);
        push_ean_right(&mut out, self.0[7]);
        push_ean_right(&mut out, self.0[8]);
        push_ean_right(&mut out, self.0[9]);
        push_ean_right(&mut out, self.0[10]);
        push_ean_right(&mut out, self.0[11]);
        let cs = modulo_10_checksum(self.0.as_slice(), true);
        push_ean_right(&mut out, cs);
        push_bits(&mut out, 0b101, 3);
        assert(out@ =~= ean13_encoding(self@));
        out
    }

    /// Encodes the barcode into the front of `buffer` without allocating.
    ///
    /// Returns `None`, writing nothing, when `buffer` holds fewer than the
    /// 95 modules of output; any elements past the output keep their values.
    pub fn encode_in_place(&self, buffer: &mut Vec<u8>) -> (r: Option<()>)
        ensures
            match r {
                Some(_) => old(buffer)@.len() >= 95 && final(buffer)@ == ean13_encoding(self@)
                    + old(buffer)@.skip(95),
                None => old(buffer)@.len() < 95 && final(buffer)@ == old(buffer)@,
            },
    {
        if buffer.len() < 95 {
            return None;
        }
        let enc = self.encode();
        splice_front(buffer, enc);
        Some(())
    }
}


/// An explicitly supplied trailing checksum digit changes nothing when it is
/// right, and is rejected as a checksum error when it is wrong: appending
/// the digit `extra` to 12 valid digits accepts exactly the value that the
/// 12 digits alone produce iff `extra` is their checksum digit.
pub proof fn lemma_ean13_explicit_checksum(data: Seq<u8>, extra: u8)
    requires
        data.len() == 12,
        all_digits(data),
        is_digit_byte(extra),
    ensures
        ean13_new_spec(data.push(extra)) == (if extra - 48 == ean13_checksum(digit_values(data)) {
            ean13_new_spec(data)
        } else {
            Err::<Seq<u8>, Error>(Error::Checksum)
        }),
{
    let d = data.push(extra);
    assert(d.take(12) =~= data);
    assert(data.take(12) =~= data);
    assert forall|i: int| 0 <= i < d.len() implies is_digit_byte(#[trigger] d[i]) by {
        if i < 12 {
            assert(d[i] == data[i]);
        }
    }
}

/// The Bookland barcode type.
/// Bookland are EAN-13 that use number system 978.
pub type Bookland = EAN13;

/// The UPC-A barcode type.
/// UPC-A are EAN-13 that start with a 0.
pub type UPCA = EAN13;

/// The JAN barcode type.
/// JAN are EAN-13 that use number system 49.
pub type JAN = EAN13;


/// The constructor follows the shared validation scheme of
/// `validate_spec`, instantiated with the decimal digits and the 12 to
/// 13 length window, followed by the explicit checksum comparison.
pub proof fn lemma_ean13_new_follows_validate(data: Seq<u8>)
    ensures
        ean13_new_spec(data) == (match validate_spec(data, 12, 13, |c: u8| is_digit_byte(c)) {
            Ok(d) => if d.len() == 13 && ean13_checksum(digit_values(d.take(12))) != d[12] - 48 {
                Err::<Seq<u8>, Error>(Error::Checksum)
            } else {
                Ok::<Seq<u8>, Error>(digit_values(d.take(12)))
            },
            Err(e) => Err::<Seq<u8>, Error>(e),
        }),
{
    if 12 <= data.len() <= 13 && !all_digits(data) {
        let i = choose|i: int| 0 <= i < data.len() && !is_digit_byte(#[trigger] data[i]);
        assert(0 <= i < data.len() && !((|c: u8| is_digit_byte(c))(data[i])));
    }
}

} // verus!
