//! Encoders for supplemental 2-digit and 5-digit EAN barcodes.
//!
//! EAN-2 barcodes are used in magazines and newspapers to indicate issue number.
//!
//! EAN-5 barcodes are often used to indicate the suggested retail price of books.
//!
//! These supplemental barcodes never appear without a full EAN-13 barcode alongside them.

use crate::error::Error;
use crate::sym::ean13::{ean_left, push_ean_left};
use crate::sym::helpers::{
    all_digits, bit_seq, digit_values, is_digit_byte, push_bits, splice_front, validate_spec,
};
use vstd::prelude::*;

verus! {

broadcast use crate::sym::helpers::lemma_bit_seq_len;

/// Which of the two EAN-2 digits use the even-parity table, selected by the
/// two-digit value modulo four.
pub open spec fn ean2_parity(m: int) -> Seq<bool> {
    if m == 0 {
        seq![false, false]
    } else if m == 1 {
        seq![false, true]
    } else if m == 2 {
        seq![true, false]
    } else {
        seq![true, true]
    }
}

/// The two parity selectors for the given two-digit value modulo four.
fn ean2_parity_row(m: u8) -> (r: (bool, bool))
    requires
        m < 4,
    ensures
        r.0 == ean2_parity(m as int)[0],
        r.1 == ean2_parity(m as int)[1],
{
    match m {
        0 => (false, false),
        1 => (false, true),
        2 => (true, false),
        _ => (true, true),
    }
}

/// Which of the five EAN-5 digits use the even-parity table, selected by the
/// checksum digit.
pub open spec fn ean5_parity(c: int) -> Seq<bool> {
    if c == 0 {
        seq![false, false, true, true, true]
    } else if c == 1 {
        seq![true, false, true, false, false]
    } else if c == 2 {
        seq![true, false, false, true, false]
    } else if c == 3 {
        seq![true, false, false, false, true]
    } else if c == 4 {
        seq![false, true, true, false, false]
    } else if c == 5 {
        seq![false, false, true, true, false]
    } else if c == 6 {
        seq![false, false, false, true, true]
    } else if c == 7 {
        seq![false, true, false, true, false]
    } else if c == 8 {
        seq![false, true, false, false, true]
    } else {
        seq![false, false, true, false, true]
    }
}

/// The five parity selectors for the given checksum digit.
fn ean5_parity_row(c: u8) -> (r: (bool, bool, bool, bool, bool))
    requires
        c < 10,
    ensures
        r.0 == ean5_parity(c as int)[0],
        r.1 == ean5_parity(c as int)[1],
        r.2 == ean5_parity(c as int)[2],
        r.3 == ean5_parity(c as int)[3],
        r.4 == ean5_parity(c as int)[4],
{
    match c {
        0 => (false, false, true, true, true),
        1 => (true, false, true, false, false),
        2 => (true, false, false, true, false),
        3 => (true, false, false, false, true),
        4 => (false, true, true, false, false),
        5 => (false, false, true, true, false),
        6 => (false, false, false, true, true),
        7 => (false, true, false, true, false),
        8 => (false, true, false, false, true),
        _ => (false, false, true, false, true),
    }
}

/// What `EAN2::new` returns on any input: exactly two ASCII digits.
pub open spec fn ean2_new_spec(data: Seq<u8>) -> Result<Seq<u8>, Error> {
    if data.len() != 2 {
        Err(Error::Length)
    } else if !all_digits(data) {
        Err(Error::Character)
    } else {
        Ok(digit_values(data))
    }
}

/// The 20 modules of an EAN-2 barcode over the digit values `d`: left guard,
/// then the two digits under the parity chosen by their value modulo four,
/// with a two-module separator between them.
pub open spec fn ean2_encoding(d: Seq<u8>) -> Seq<u8> {
    let par = ean2_parity((d[0] * 10 + d[1]) % 4);
    bit_seq(0b1011, 4) + ean_left(par[0], d[0]) + bit_seq(0b01, 2) + ean_left(par[1], d[1])
}

/// EAN-2 supplemental barcode type.
#[derive(Debug)]
pub struct EAN2(Vec<u8>);

impl View for EAN2 {
    type V = Seq<u8>;

    closed spec fn view(&self) -> Seq<u8> {
        self.0@
    }
}

impl EAN2 {
    /// A validated value always holds exactly two digit values.
    #[verifier::type_invariant]
    spec fn inv(self) -> bool {
        self.0@.len() == 2 && forall|i: int| 0 <= i < 2 ==> self.0@[i] < 10
    }

    /// Creates a new barcode from two ASCII digits.
    pub fn new(data: &[u8]) -> (r: Result<EAN2, Error>)
        ensures
            match r {
                Ok(b) => ean2_new_spec(data@) == Ok::<Seq<u8>, Error>(b@),
                Err(e) => ean2_new_spec(data@) == Err::<Seq<u8>, Error>(e),
            },
    {
        if data.len() != 2 {
            return Err(Error::Length);
        }
        let b0 = data[0];
        let b1 = data[1];
        if b0 < 48 || b0 > 57 || b1 < 48 || b1 > 57 {
            return Err(Error::Character);
        }
        let mut digits: Vec<u8> = Vec::new();
        digits.push(b0 - 48);
        digits.push(b1 - 48);
        assert(digits@ =~= digit_values(data@));
        Ok(EAN2(digits))
    }

    /// Encodes the barcode into its 20 modules (1 = bar, 0 = space).
    ///
    /// The output is a pure function of the validated value, so repeated
    /// calls return identical sequences.
    pub fn encode(&self) -> (r: Vec<u8>)
        ensures
            r@ == ean2_encoding(self@),
            r@.len() == 20,
    {
        proof {
            use_type_invariant(&*self);
        }
        let d0 = self.0[0];
        let d1 = self.0[1];
        let m = (d0 * 10 + d1) % 4;
        let p = ean2_parity_row(m);
        let mut out: Vec<u8> = Vec::new();
        push_bits(&mut out, 0b1011, 4);
        push_ean_left(&mut out, p.0, d0);
        push_bits(&mut out, 0b01, 2);
        push_ean_left(&mut out, p.1, d1);
        assert(out@ =~= ean2_encoding(self@));
        out
    }

    /// Encodes the barcode into the front of `buffer` without allocating.
    ///
    /// Returns `None`, writing nothing, when `buffer` holds fewer than the
    /// 20 modules of output; any elements past the output keep their values.
    pub fn encode_in_place(&self, buffer: &mut Vec<u8>) -> (r: Option<()>)
        ensures
            match r {
                Some(_) => old(buffer)@.len() >= 20 && final(buffer)@ == ean2_encoding(self@)
                    + old(buffer)@.skip(20),
                None => old(buffer)@.len() < 20 && final(buffer)@ == old(buffer)@,
            },
    {
        if buffer.len() < 20 {
            return None;
        }
        let enc = self.encode();
        splice_front(buffer, enc);
        Some(())
    }
}

/// What `EAN5::new` returns on any input: exactly five ASCII digits.
pub open spec fn ean5_new_spec(data: Seq<u8>) -> Result<Seq<u8>, Error> {
    if data.len() != 5 {
        Err(Error::Length)
    } else if !all_digits(data) {
        Err(Error::Character)
    } else {
        Ok(digit_values(data))
    }
}

/// The checksum digit selecting the EAN-5 parity pattern: digits at even
/// positions are tripled and those at odd positions are weighted by nine.
pub open spec fn ean5_checksum(d: Seq<u8>) -> int {
    ((d[0] + d[2] + d[4]) * 3 + (d[1] + d[3]) * 9) % 10
}

/// The 47 modules of an EAN-5 barcode over the digit values `d`: left guard,
/// then the five digits under the parity chosen by the checksum digit, with
/// two-module separators between them.
pub open spec fn ean5_encoding(d: Seq<u8>) -> Seq<u8> {
    let par = ean5_parity(ean5_checksum(d));
    bit_seq(0b1011, 4) + ean_left(par[0], d[0]) + bit_seq(0b01, 2) + ean_left(par[1], d[1])
        + bit_seq(0b01, 2) + ean_left(par[2], d[2]) + bit_seq(0b01, 2) + ean_left(par[3], d[3])
        + bit_seq(0b01, 2) + ean_left(par[4], d[4])
}

/// EAN-5 supplemental barcode type.
#[derive(Debug)]
pub struct EAN5(Vec<u8>);

impl View for EAN5 {
    type V = Seq<u8>;

    closed spec fn view(&self) -> Seq<u8> {
        self.0@
    }
}

impl EAN5 {
    /// A validated value always holds exactly five digit values.
    #[verifier::type_invariant]
    spec fn inv(self) -> bool {
        self.0@.len() == 5 && forall|i: int| 0 <= i < 5 ==> self.0@[i] < 10
    }

    /// Creates a new barcode from five ASCII digits.
    pub fn new(data: &[u8]) -> (r: Result<EAN5, Error>)
        ensures
            match r {
                Ok(b) => ean5_new_spec(data@) == Ok::<Seq<u8>, Error>(b@),
                Err(e) => ean5_new_spec(data@) == Err::<Seq<u8>, Error>(e),
            },
    {
        if data.len() != 5 {
            return Err(Error::Length);
        }
        let mut digits: Vec<u8> = Vec::new();
        let mut i: usize = 0;
        assert(digits@ =~= digit_values(data@.take(0)));
        while i < data.len()
            invariant
                i <= data@.len(),
                data@.len() == 5,
                digits@ == digit_values(data@.take(i as int)),
                forall|j: int| 0 <= j < i ==> is_digit_byte(#[trigger] data@[j]),
                forall|j: int| 0 <= j < digits@.len() ==> digits@[j] < 10,
            decreases data@.len() - i,
        {
            let byte = data[i];
            if byte < 48 || byte > 57 {
                return Err(Error::Character);
            }
            digits.push(byte - 48);
            assert(digits@ =~= digit_values(data@.take(i + 1)));
            i = i + 1;
        }
        assert(data@.take(5) =~= data@);
        Ok(EAN5(digits))
    }

    /// Encodes the barcode into its 47 modules (1 = bar, 0 = space).
    ///
    /// The output is a pure function of the validated value, so repeated
    /// calls return identical sequences.
    pub fn encode(&self) -> (r: Vec<u8>)
        ensures
            r@ == ean5_encoding(self@),
            r@.len() == 47,
    {
        proof {
            use_type_invariant(&*self);
        }
        let d0 = self.0[0];
        let d1 = self.0[1];
        let d2 = self.0[2];
        let d3 = self.0[3];
        let d4 = self.0[4];
        let cs = ((d0 as u32 + d2 as u32 + d4 as u32) * 3 + (d1 as u32 + d3 as u32) * 9) % 10;
        let p = ean5_parity_row(cs as u8);
        let mut out: Vec<u8> = Vec::new();
        push_bits(&mut out, 0b1011, 4);
        push_ean_left(&mut out, p.0, d0);
        push_bits(&mut out, 0b01, 2);
        push_ean_left(&mut out, p.1, d1);
        push_bits(&mut out, 0b01, 2);
        push_ean_left(&mut out, p.2, d2);
        push_bits(&mut out, 0b01, 2);
        push_ean_left(&mut out, p.3, d3);
        push_bits(&mut out, 0b01, 2);
        push_ean_left(&mut out, p.4, d4);
        assert(out@ =~= ean5_encoding(self@));
        out
    }

    /// Encodes the barcode into the front of `buffer` without allocating.
    ///
    /// Returns `None`, writing nothing, when `buffer` holds fewer than the
    /// 47 modules of output; any elements past the output keep their values.
    pub fn encode_in_place(&self, buffer: &mut Vec<u8>) -> (r: Option<()>)
        ensures
            match r {
                Some(_) => old(buffer)@.len() >= 47 && final(buffer)@ == ean5_encoding(self@)
                    + old(buffer)@.skip(47),
                None => old(buffer)@.len() < 47 && final(buffer)@ == old(buffer)@,
            },
    {
        if buffer.len() < 47 {
            return None;
        }
        let enc = self.encode();
        splice_front(buffer, enc);
        Some(())
    }
}


/// The constructor follows the shared validation scheme of
/// `validate_spec`, instantiated with the decimal digits and the length
/// window of exactly 2; accepted bytes are kept as their digit values.
pub proof fn lemma_ean2_new_follows_validate(data: Seq<u8>)
    ensures
        ean2_new_spec(data) == (match validate_spec(data, 2, 2, |c: u8| is_digit_byte(c)) {
            Ok(d) => Ok::<Seq<u8>, Error>(digit_values(d)),
            Err(e) => Err::<Seq<u8>, Error>(e),
        }),
{
    if data.len() == 2 && !all_digits(data) {
        let i = choose|i: int| 0 <= i < data.len() && !is_digit_byte(#[trigger] data[i]);
        assert(0 <= i < data.len() && !((|c: u8| is_digit_byte(c))(data[i])));
    }
}

/// The constructor follows the shared validation scheme of
/// `validate_spec`, instantiated with the decimal digits and the length
/// window of exactly 5; accepted bytes are kept as their digit values.
pub proof fn lemma_ean5_new_follows_validate(data: Seq<u8>)
    ensures
        ean5_new_spec(data) == (match validate_spec(data, 5, 5, |c: u8| is_digit_byte(c)) {
            Ok(d) => Ok::<Seq<u8>, Error>(digit_values(d)),
            Err(e) => Err::<Seq<u8>, Error>(e),
        }),
{
    if data.len() == 5 && !all_digits(data) {
        let i = choose|i: int| 0 <= i < data.len() && !is_digit_byte(#[trigger] data[i]);
        assert(0 <= i < data.len() && !((|c: u8| is_digit_byte(c))(data[i])));
    }
}

} // verus!
