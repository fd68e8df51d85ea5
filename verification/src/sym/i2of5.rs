//! This module provides types for Interleaved 2-of-5 barcodes.
//! I2of5 barcodes are often used by Airlines and in some industrial settings.
//! they also make an appearance in retail where they are sometimes used for the outer cartons on
//! groups of products (cartons of Cola, etc).

use crate::error::Error;
use crate::sym::helpers::{
    all_digits, bit_seq, digit_values, is_digit_byte, modulo_10_checksum, push_bits, splice_front,
    validate_spec,
};
use crate::sym::tf::{itf_padded, itf_payload, lemma_itf_payload_step, push_itf_pair};
use vstd::prelude::*;

verus! {

broadcast use crate::sym::helpers::lemma_bit_seq_len;

/// What `I2OF5::new` returns on any input: between 1 and 256 ASCII digits;
/// the stored digit values carry the computed checksum digit when the count
/// was odd.
pub open spec fn i2of5_new_spec(data: Seq<u8>) -> Result<Seq<u8>, Error> {
    if data.len() < 1 || data.len() > 256 {
        Err(Error::Length)
    } else if !all_digits(data) {
        Err(Error::Character)
    } else {
        Ok(itf_padded(data))
    }
}

/// The modules of an interleaved 2-of-5 barcode over the stored digit
/// values: a start guard, the values interleaved pair by pair, and a stop
/// guard.
pub open spec fn i2of5_encoding(v: Seq<u8>) -> Seq<u8> {
    bit_seq(0b1010, 4) + itf_payload(v) + bit_seq(0b1101, 4)
}

/// The Interleaved 2-of-5 barcode type.
#[derive(Debug)]
pub struct I2OF5(Vec<u8>);

impl View for I2OF5 {
    type V = Seq<u8>;

    closed spec fn view(&self) -> Seq<u8> {
        self.0@
    }
}

impl I2OF5 {
    /// A validated value holds an even number of digit values.
    #[verifier::type_invariant]
    spec fn inv(self) -> bool {
        1 <= self.0@.len() <= 257 && self.0@.len() % 2 == 0 && forall|i: int|
            0 <= i < self.0@.len() ==> self.0@[i] < 10
    }

    /// Creates a new barcode from 1 to 256 ASCII digits.
    /// If the length of the given data is odd, a checksum value will be computed and appended to
    /// the data for encoding.
    pub fn new(data: &[u8]) -> (r: Result<I2OF5, Error>)
        ensures
            match r {
                Ok(b) => i2of5_new_spec(data@) == Ok::<Seq<u8>, Error>(b@),
                Err(e) => i2of5_new_spec(data@) == Err::<Seq<u8>, Error>(e),
            },
    {
        if data.len() < 1 || data.len() > 256 {
            return Err(Error::Length);
        }
        let ghost s = data@;
        let mut vals: Vec<u8> = Vec::new();
        let mut i: usize = 0;
        assert(vals@ =~= digit_values(s.take(0)));
        while i < data.len()
            invariant
                i <= s.len(),
                data@ == s,
                1 <= s.len() <= 256,
                vals@ == digit_values(s.take(i as int)),
                forall|j: int| 0 <= j < i ==> is_digit_byte(#[trigger] s[j]),
                forall|j: int| 0 <= j < vals@.len() ==> vals@[j] < 10,
            decreases s.len() - i,
        {
            let byte = data[i];
            if byte < 48 || byte > 57 {
                assert(!is_digit_byte(s[i as int]));
                return Err(Error::Character);
            }
            vals.push(byte - 48);
            assert(vals@ =~= digit_values(s.take(i + 1)));
            i = i + 1;
        }
        assert(s.take(s.len() as int) =~= s);
        if vals.len() % 2 == 1 {
            let cs = modulo_10_checksum(vals.as_slice(), false);
            vals.push(cs);
        }
        assert(vals@ == itf_padded(s));
        Ok(I2OF5(vals))
    }

    /// Returns the stored digit values, including the appended checksum
    /// digit when one was computed.
    pub fn raw_data(&self) -> (r: &[u8])
        ensures
            r@ == self@,
    {
        self.0.as_slice()
    }

    /// Returns a reference to the last stored digit: the checksum digit
    /// whenever one was appended.
    pub fn checksum_digit(&self) -> (r: &u8)
        ensures
            *r == self@.last(),
    {
        proof {
            use_type_invariant(&*self);
        }
        &self.0[self.0.len() - 1]
    }

    /// Encodes the barcode (1 = bar, 0 = space).
    ///
    /// The output is a pure function of the validated value, so repeated
    /// calls return identical sequences.
    pub fn encode(&self) -> (r: Vec<u8>)
        ensures
            r@ == i2of5_encoding(self@),
    {
        proof {
            use_type_invariant(&*self);
        }
        let ghost v = self.0@;
        let mut out: Vec<u8> = Vec::new();
        push_bits(&mut out, 0b1010, 4);
        let ghost pre = out@;
        assert(out@ =~= pre + itf_payload(v.take(0)));
        let mut k: usize = 0;
        while k + 1 < self.0.len()
            invariant
                k <= v.len(),
                k % 2 == 0,
                v.len() % 2 == 0,
                self.0@ == v,
                forall|j: int| 0 <= j < v.len() ==> v[j] < 10,
                out@ == pre + itf_payload(v.take(k as int)),
            decreases v.len() - k,
        {
            push_itf_pair(&mut out, self.0[k], self.0[k + 1]);
            proof {
                lemma_itf_payload_step(v, k as int);
                assert(out@ =~= pre + itf_payload(v.take(k + 2)));
            }
            k = k + 2;
        }
        assert(v.take(v.len() as int) =~= v);
        push_bits(&mut out, 0b1101, 4);
        assert(out@ =~= i2of5_encoding(v));
        out
    }

    /// Encodes the barcode into the front of `buffer`.
    ///
    /// Returns `None`, writing nothing, when `buffer` is smaller than the
    /// encoded output; any elements past the output keep their values.
    pub fn encode_in_place(&self, buffer: &mut Vec<u8>) -> (r: Option<()>)
        ensures
            match r {
                Some(_) => old(buffer)@.len() >= i2of5_encoding(self@).len() && final(buffer)@
                    == i2of5_encoding(self@) + old(buffer)@.skip(
                    i2of5_encoding(self@).len() as int,
                ),
                None => old(buffer)@.len() < i2of5_encoding(self@).len() && final(buffer)@ == old(
                    buffer,
                )@,
            },
    {
        let enc = self.encode();
        if buffer.len() < enc.len() {
            return None;
        }
        splice_front(buffer, enc);
        Some(())
    }
}


/// The constructor follows the shared validation scheme of
/// `validate_spec`, instantiated with the decimal digits and the 1 to 256
/// length window; accepted data is stored as its padded digit values.
pub proof fn lemma_i2of5_new_follows_validate(data: Seq<u8>)
    ensures
        i2of5_new_spec(data) == (match validate_spec(data, 1, 256, |c: u8| is_digit_byte(c)) {
            Ok(d) => Ok::<Seq<u8>, Error>(itf_padded(d)),
            Err(e) => Err::<Seq<u8>, Error>(e),
        }),
{
    if 1 <= data.len() <= 256 && !all_digits(data) {
        let i = choose|i: int| 0 <= i < data.len() && !is_digit_byte(#[trigger] data[i]);
        assert(0 <= i < data.len() && !((|c: u8| is_digit_byte(c))(data[i])));
    }
}

} // verus!
