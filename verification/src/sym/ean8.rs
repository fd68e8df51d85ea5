//! Encoder for EAN-8 barcodes.
//!
//! EAN-8 barcodes are EAN style barcodes for smaller packages on products like
//! cigaretts, chewing gum, etc where package space is limited.

use crate::error::Error;
use crate::sym::ean13::{
    ean_left_a, ean_right, modulo_10_checksum, push_ean_left_a, push_ean_right,
};
use crate::sym::helpers::{
    all_digits, bit_seq, digit_values, is_digit_byte, mod10_checksum, push_bits, splice_front,
    validate_spec,
};
use vstd::prelude::*;

verus! {

broadcast use crate::sym::helpers::lemma_bit_seq_len;

/// The checksum digit of seven EAN-8 digit values: even positions are
/// tripled ("odd-start" weighting).
pub open spec fn ean8_checksum(d: Seq<u8>) -> int {
    mod10_checksum(d, false)
}

/// What `EAN8::new` returns on any input: seven or eight ASCII digits are
/// accepted, and a supplied eighth digit must equal the checksum of the
/// first seven.
pub open spec fn ean8_new_spec(data: Seq<u8>) -> Result<Seq<u8>, Error> {
    if data.len() != 7 && data.len() != 8 {
        Err(Error::Length)
    } else if !all_digits(data) {
        Err(Error::Character)
    } else if data.len() == 8 && ean8_checksum(digit_values(data.take(7))) != data[7] - 48 {
        Err(Error::Checksum)
    } else {
        Ok(digit_values(data.take(7)))
    }
}

/// The 67 modules of an EAN-8 barcode over the digit values `d`: left guard,
/// four left digits in table A, the middle guard, three right digits, the
/// checksum digit and the right guard.
pub open spec fn ean8_encoding(d: Seq<u8>) -> Seq<u8> {
    bit_seq(0b101, 3) + ean_left_a(d[0]) + ean_left_a(d[1]) + ean_left_a(d[2]) + ean_left_a(d[3])
        + bit_seq(0b01010, 5) + ean_right(d[4]) + ean_right(d[5]) + ean_right(d[6]) + ean_right(
        ean8_checksum(d) as u8,
    ) + bit_seq(0b101, 3)
}

/// The EAN-8 barcode type.
#[derive(Debug)]
pub struct EAN8(Vec<u8>);

impl View for EAN8 {
    type V = Seq<u8>;

    closed spec fn view(&self) -> Seq<u8> {
        self.0@
    }
}

impl EAN8 {
    /// A validated value always holds exactly seven digit values.
    #[verifier::type_invariant]
    spec fn inv(self) -> bool {
        self.0@.len() == 7 && forall|i: int| 0 <= i < 7 ==> self.0@[i] < 10
    }

    /// Creates a new barcode from seven ASCII digits, or eight when the
    /// trailing checksum digit is supplied explicitly.
    pub fn new(data: &[u8]) -> (r: Result<EAN8, Error>)
        ensures
            match r {
                Ok(b) => ean8_new_spec(data@) == Ok::<Seq<u8>, Error>(b@),
                Err(e) => ean8_new_spec(data@) == Err::<Seq<u8>, Error>(e),
            },
    {
        if data.len() != 7 && data.len() != 8 {
            return Err(Error::Length);
        }
        let mut digits: Vec<u8> = Vec::new();
        let mut i: usize = 0;
        assert(digits@ =~= digit_values(data@.take(0)));
        while i < data.len()
            invariant
                i <= data@.len(),
                7 <= data@.len() <= 8,
                digits@ == digit_values(data@.take(if i <= 7 { i as int } else { 7 })),
                forall|j: int| 0 <= j < i ==> is_digit_byte(#[trigger] data@[j]),
                forall|j: int| 0 <= j < digits@.len() ==> digits@[j] < 10,
            decreases data@.len() - i,
        {
            let byte = data[i];
            if byte < 48 || byte > 57 {
                return Err(Error::Character);
            }
            if i < 7 {
                digits.push(byte - 48);
                assert(digits@ =~= digit_values(data@.take(i + 1)));
            }
            i = i + 1;
        }
        let cs = modulo_10_checksum(digits.as_slice(), false);
        if data.len() == 8 {
            if cs != data[7] - 48 {
                return Err(Error::Checksum);
            }
        }
        Ok(EAN8(digits))
    }

    /// Encodes the barcode into its 67 modules (1 = bar, 0 = space).
    ///
    /// The output is a pure function of the validated value, so repeated
    /// calls return identical sequences.
    pub fn encode(&self) -> (r: Vec<u8>)
        ensures
            r@ == ean8_encoding(self@),
            r@.len() == 67,
    {
        proof {
            use_type_invariant(&*self);
        }
        let mut out: Vec<u8> = Vec::new();
        push_bits(&mut out, 0b101, 3);
        push_ean_left_a(&mut out, self.0[0]);
        push_ean_left_a(&mut out, self.0[1]);
        push_ean_left_a(&mut out, self.0[2]);
        push_ean_left_a(&mut out, self.0[3]);
        push_bits(&mut out, 0b01010, 5);
        push_ean_right(&mut out, self.0[4]);
        push_ean_right(&mut out, self.0[5]);
        push_ean_right(&mut out, self.0[6]);
        let cs = modulo_10_checksum(self.0.as_slice(), false);
        push_ean_right(&mut out, cs);
        push_bits(&mut out, 0b101, 3);
        assert(out@ =~= ean8_encoding(self@));
        out
    }

    /// Encodes the barcode into the front of `buffer` without allocating.
    ///
    /// Returns `None`, writing nothing, when `buffer` holds fewer than the
    /// 67 modules of output; any elements past the output keep their values.
    pub fn encode_in_place(&self, buffer: &mut Vec<u8>) -> (r: Option<()>)
        ensures
            match r {
                Some(_) => old(buffer)@.len() >= 67 && final(buffer)@ == ean8_encoding(self@)
                    + old(buffer)@.skip(67),
                None => old(buffer)@.len() < 67 && final(buffer)@ == old(buffer)@,
            },
    {
        if buffer.len() < 67 {
            return None;
        }
        let enc = self.encode();
        splice_front(buffer, enc);
        Some(())
    }
}


/// An explicitly supplied trailing checksum digit changes nothing when it is
/// right, and is rejected as a checksum error when it is wrong: appending
/// the digit `extra` to 7 valid digits accepts exactly the value that the
/// 7 digits alone produce iff `extra` is their checksum digit.
pub proof fn lemma_ean8_explicit_checksum(data: Seq<u8>, extra: u8)
    requires
        data.len() == 7,
        all_digits(data),
        is_digit_byte(extra),
    ensures
        ean8_new_spec(data.push(extra)) == (if extra - 48 == ean8_checksum(digit_values(data)) {
            ean8_new_spec(data)
        } else {
            Err::<Seq<u8>, Error>(Error::Checksum)
        }),
{
    let d = data.push(extra);
    assert(d.take(7) =~= data);
    assert(data.take(7) =~= data);
    assert forall|i: int| 0 <= i < d.len() implies is_digit_byte(#[trigger] d[i]) by {
        if i < 7 {
            assert(d[i] == data[i]);
        }
    }
}


/// The constructor follows the shared validation scheme of
/// `validate_spec`, instantiated with the decimal digits and the 7 to
/// 8 length window, followed by the explicit checksum comparison.
pub proof fn lemma_ean8_new_follows_validate(data: Seq<u8>)
    ensures
        ean8_new_spec(data) == (match validate_spec(data, 7, 8, |c: u8| is_digit_byte(c)) {
            Ok(d) => if d.len() == 8 && ean8_checksum(digit_values(d.take(7))) != d[7] - 48 {
                Err::<Seq<u8>, Error>(Error::Checksum)
            } else {
                Ok::<Seq<u8>, Error>(digit_values(d.take(7)))
            },
            Err(e) => Err::<Seq<u8>, Error>(e),
        }),
{
    if 7 <= data.len() <= 8 && !all_digits(data) {
        let i = choose|i: int| 0 <= i < data.len() && !is_digit_byte(#[trigger] data[i]);
        assert(0 <= i < data.len() && !((|c: u8| is_digit_byte(c))(data[i])));
    }
}

} // verus!
