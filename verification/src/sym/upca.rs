//! Encoder for UPCA barcodes.
//!
//! UPCA barcodes are common in retail in the US.
//!
//! This module defines types for:
//!   * UPC-A

use crate::error::Error;
use crate::sym::ean13::{
    ean_left_a, ean_right, modulo_10_checksum, push_ean_left_a, push_ean_right,
};
use crate::sym::helpers::{
    all_digits, bit_seq, digit_values, is_digit_byte, mod10_checksum, push_bits, splice_front,
    validate_spec,
};
use vstd::prelude::*;

verus! {

broadcast use crate::sym::helpers::lemma_bit_seq_len;

/// The checksum digit of eleven UPC-A digit values: even positions are
/// tripled ("odd-start" weighting).
pub open spec fn upca_checksum(d: Seq<u8>) -> int {
    mod10_checksum(d, false)
}

/// What `UPCA::new` returns on any input: eleven or twelve ASCII digits are
/// accepted, and a supplied twelfth digit must equal the checksum of the
/// first eleven.
pub open spec fn upca_new_spec(data: Seq<u8>) -> Result<Seq<u8>, Error> {
    if data.len() != 11 && data.len() != 12 {
        Err(Error::Length)
    } else if !all_digits(data) {
        Err(Error::Character)
    } else if data.len() == 12 && upca_checksum(digit_values(data.take(11))) != data[11] - 48 {
        Err(Error::Checksum)
    } else {
        Ok(digit_values(data.take(11)))
    }
}

/// The 95 modules of a UPC-A barcode over the digit values `d`: left guard,
/// six left digits in table A, the middle guard, five right digits, the
/// checksum digit and the right guard.
pub open spec fn upca_encoding(d: Seq<u8>) -> Seq<u8> {
    bit_seq(0b101, 3) + ean_left_a(d[0]) + ean_left_a(d[1]) + ean_left_a(d[2]) + ean_left_a(d[3])
        + ean_left_a(d[4]) + ean_left_a(d[5]) + bit_seq(0b01010, 5) + ean_right(d[6]) + ean_right(
        d[7],
    ) + ean_right(d[8]) + ean_right(d[9]) + ean_right(d[10]) + ean_right(upca_checksum(d) as u8)
        + bit_seq(0b101, 3)
}

/// The UPCA barcode type.
#[derive(Debug)]
pub struct UPCA(Vec<u8>);

impl View for UPCA {
    type V = Seq<u8>;

    closed spec fn view(&self) -> Seq<u8> {
        self.0@
    }
}

impl UPCA {
    /// A validated value always holds exactly eleven digit values.
    #[verifier::type_invariant]
    spec fn inv(self) -> bool {
        self.0@.len() == 11 && forall|i: int| 0 <= i < 11 ==> self.0@[i] < 10
    }

    /// Creates a new barcode from eleven ASCII digits, or twelve when the
    /// trailing checksum digit is supplied explicitly.
    pub fn new(data: &[u8]) -> (r: Result<UPCA, Error>)
        ensures
            match r {
                Ok(b) => upca_new_spec(data@) == Ok::<Seq<u8>, Error>(b@),
                Err(e) => upca_new_spec(data@) == Err::<Seq<u8>, Error>(e),
            },
    {
        if data.len() != 11 && data.len() != 12 {
            return Err(Error::Length);
        }
        let mut digits: Vec<u8> = Vec::new();
        let mut i: usize = 0;
        assert(digits@ =~= digit_values(data@.take(0)));
        while i < data.len()
            invariant
                i <= data@.len(),
                11 <= data@.len() <= 12,
                digits@ == digit_values(data@.take(if i <= 11 { i as int } else { 11 })),
                forall|j: int| 0 <= j < i ==> is_digit_byte(#[trigger] data@[j]),
                forall|j: int| 0 <= j < digits@.len() ==> digits@[j] < 10,
            decreases data@.len() - i,
        {
            let byte = data[i];
            if byte < 48 || byte > 57 {
                return Err(Error::Character);
            }
            if i < 11 {
                digits.push(byte - 48);
                assert(digits@ =~= digit_values(data@.take(i + 1)));
            }
            i = i + 1;
        }
        let cs = modulo_10_checksum(digits.as_slice(), false);
        if data.len() == 12 {
            if cs != data[11] - 48 {
                return Err(Error::Checksum);
            }
        }
        Ok(UPCA(digits))
    }

    /// Encodes the barcode into its 95 modules (1 = bar, 0 = space).
    ///
    /// The output is a pure function of the validated value, so repeated
    /// calls return identical sequences.
    pub fn encode(&self) -> (r: Vec<u8>)
        ensures
            r@ == upca_encoding(self@),
            r@.len() == 95,
    {
        proof {
            use_type_invariant(&*self);
        }
        let mut out: Vec<u8> = Vec::new();
        push_bits(&mut out, 0b101, 3);
        push_ean_left_a(&mut out, self.0[0]);
        push_ean_left_a(&mut out, self.0[1]);
        push_ean_left_a(&mut out, self.0[2]);
        push_ean_left_a(&mut out, self.0[3]);
        push_ean_left_a(&mut out, self.0[4]);
        push_ean_left_a(&mut out, self.0[5]);
        push_bits(&mut out, 0b01010, 5);
        push_ean_right(&mut out, self.0[6]);
        push_ean_right(&mut out, self.0[7]);
        push_ean_right(&mut out, self.0[8]);
        push_ean_right(&mut out, self.0[9]);
        push_ean_right(&mut out, self.0[10]);
        let cs = modulo_10_checksum(self.0.as_slice(), false);
        push_ean_right(&mut out, cs);
        push_bits(&mut out, 0b101, 3);
        assert(out@ =~= upca_encoding(self@));
        out
    }

    /// Encodes the barcode into the front of `buffer` without allocating.
    ///
    /// Returns `None`, writing nothing, when `buffer` holds fewer than the
    /// 95 modules of output; any elements past the output keep their values.
    pub fn encode_in_place(&self, buffer: &mut Vec<u8>) -> (r: Option<()>)
        ensures
            match r {
                Some(_) => old(buffer)@.len() >= 95 && final(buffer)@ == upca_encoding(self@)
                    + old(buffer)@.skip(95),
                None => old(buffer)@.len() < 95 && final(buffer)@ == old(buffer)@,
            },
    {
        if buffer.len() < 95 {
            return None;
        }
        let enc = self.encode();
        splice_front(buffer, enc);
        Some(())
    }
}


/// An explicitly supplied trailing checksum digit changes nothing when it is
/// right, and is rejected as a checksum error when it is wrong: appending
/// the digit `extra` to 11 valid digits accepts exactly the value that the
/// 11 digits alone produce iff `extra` is their checksum digit.
pub proof fn lemma_upca_explicit_checksum(data: Seq<u8>, extra: u8)
    requires
        data.len() == 11,
        all_digits(data),
        is_digit_byte(extra),
    ensures
        upca_new_spec(data.push(extra)) == (if extra - 48 == upca_checksum(digit_values(data)) {
            upca_new_spec(data)
        } else {
            Err::<Seq<u8>, Error>(Error::Checksum)
        }),
{
    let d = data.push(extra);
    assert(d.take(11) =~= data);
    assert(data.take(11) =~= data);
    assert forall|i: int| 0 <= i < d.len() implies is_digit_byte(#[trigger] d[i]) by {
        if i < 11 {
            assert(d[i] == data[i]);
        }
    }
}


/// The constructor follows the shared validation scheme of
/// `validate_spec`, instantiated with the decimal digits and the 11 to
/// 12 length window, followed by the explicit checksum comparison.
pub proof fn lemma_upca_new_follows_validate(data: Seq<u8>)
    ensures
        upca_new_spec(data) == (match validate_spec(data, 11, 12, |c: u8| is_digit_byte(c)) {
            Ok(d) => if d.len() == 12 && upca_checksum(digit_values(d.take(11))) != d[11] - 48 {
                Err::<Seq<u8>, Error>(Error::Checksum)
            } else {
                Ok::<Seq<u8>, Error>(digit_values(d.take(11)))
            },
            Err(e) => Err::<Seq<u8>, Error>(e),
        }),
{
    if 11 <= data.len() <= 12 && !all_digits(data) {
        let i = choose|i: int| 0 <= i < data.len() && !is_digit_byte(#[trigger] data[i]);
        assert(0 <= i < data.len() && !((|c: u8| is_digit_byte(c))(data[i])));
    }
}

} // verus!
