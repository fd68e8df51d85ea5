//! Encoder for Codabar barcodes.
//!
//! Codabar is a simple, self-checking symbology without a standard for a checksum digit.
//!
//! Codabar is used in the USA by FedEx, some Hospitals, and photo labs.
//!
//! Barcodes of this variant should start and end with either A, B, C, or D depending on
//! the industry.

use crate::error::Error;
use crate::sym::helpers::{bit_seq, push_bits, splice_front, validate_spec};
use vstd::prelude::*;

verus! {

broadcast use crate::sym::helpers::lemma_bit_seq_len;

/// Whether `c` is one of the twenty Codabar characters.
pub open spec fn codabar_char(c: u8) -> bool {
    (48 <= c <= 57) || c == 45 || c == 36 || c == 58 || c == 47 || c == 46 || c == 43
        || (65 <= c <= 68)
}

/// Whether every byte of `s` is a Codabar character.
pub open spec fn all_codabar_chars(s: Seq<u8>) -> bool {
    forall|i: int| 0 <= i < s.len() ==> codabar_char(#[trigger] s[i])
}

fn is_codabar_char(c: u8) -> (r: bool)
    ensures
        r == codabar_char(c),
{
    (48 <= c && c <= 57) || c == 45 || c == 36 || c == 58 || c == 47 || c == 46
        || c == 43 || (65 <= c && c <= 68)
}

/// The module pattern of one Codabar character.
pub open spec fn codabar_pattern(c: u8) -> Seq<u8> {
    match c {
        48 => bit_seq(0b101010011, 9),
        49 => bit_seq(0b101011001, 9),
        50 => bit_seq(0b101001011, 9),
        51 => bit_seq(0b110010101, 9),
        52 => bit_seq(0b101101001, 9),
        53 => bit_seq(0b110101001, 9),
        54 => bit_seq(0b100101011, 9),
        55 => bit_seq(0b100101101, 9),
        56 => bit_seq(0b100110101, 9),
        57 => bit_seq(0b110100101, 9),
        45 => bit_seq(0b101001101, 9),
        36 => bit_seq(0b101100101, 9),
        58 => bit_seq(0b1101011011, 10),
        47 => bit_seq(0b1101101011, 10),
        46 => bit_seq(0b1101101101, 10),
        43 => bit_seq(0b10110011001, 11),
        65 => bit_seq(0b1011001001, 10),
        66 => bit_seq(0b1010010011, 10),
        67 => bit_seq(0b1001001011, 10),
        68 => bit_seq(0b1010011001, 10),
        _ => Seq::empty(),
    }
}

/// Appends the `codabar_pattern` pattern of `c` to `out`.
fn push_codabar_pattern(out: &mut Vec<u8>, c: u8)
    requires
        codabar_char(c),
    ensures
        final(out)@ == old(out)@ + codabar_pattern(c),
{
    match c {
        48 => push_bits(out, 0b101010011, 9),
        49 => push_bits(out, 0b101011001, 9),
        50 => push_bits(out, 0b101001011, 9),
        51 => push_bits(out, 0b110010101, 9),
        52 => push_bits(out, 0b101101001, 9),
        53 => push_bits(out, 0b110101001, 9),
        54 => push_bits(out, 0b100101011, 9),
        55 => push_bits(out, 0b100101101, 9),
        56 => push_bits(out, 0b100110101, 9),
        57 => push_bits(out, 0b110100101, 9),
        45 => push_bits(out, 0b101001101, 9),
        36 => push_bits(out, 0b101100101, 9),
        58 => push_bits(out, 0b1101011011, 10),
        47 => push_bits(out, 0b1101101011, 10),
        46 => push_bits(out, 0b1101101101, 10),
        43 => push_bits(out, 0b10110011001, 11),
        65 => push_bits(out, 0b1011001001, 10),
        66 => push_bits(out, 0b1010010011, 10),
        67 => push_bits(out, 0b1001001011, 10),
        68 => push_bits(out, 0b1010011001, 10),
        _ => (),
    }
}
/// What `Codabar::new` returns on any input: between 1 and 256 characters,
/// all drawn from the Codabar alphabet; the data is kept as given.
pub open spec fn codabar_new_spec(data: Seq<u8>) -> Result<Seq<u8>, Error> {
    if data.len() < 1 || data.len() > 256 {
        Err(Error::Length)
    } else if !all_codabar_chars(data) {
        Err(Error::Character)
    } else {
        Ok(data)
    }
}

/// The modules of a Codabar barcode: the pattern of each character, with a
/// single space module between characters and none after the last.
pub open spec fn codabar_encoding(s: Seq<u8>) -> Seq<u8>
    decreases s.len(),
{
    if s.len() == 0 {
        Seq::empty()
    } else if s.len() == 1 {
        codabar_pattern(s[0])
    } else {
        codabar_encoding(s.drop_last()) + seq![0u8] + codabar_pattern(s.last())
    }
}

proof fn lemma_codabar_step(s: Seq<u8>, i: int)
    requires
        1 <= i < s.len(),
    ensures
        codabar_encoding(s.take(i + 1)) == codabar_encoding(s.take(i)) + seq![0u8]
            + codabar_pattern(s[i]),
{
    assert(s.take(i + 1).drop_last() =~= s.take(i));
    assert(s.take(i + 1).last() == s[i]);
}

/// The Codabar barcode type.
#[derive(Debug)]
pub struct Codabar(Vec<u8>);

impl View for Codabar {
    type V = Seq<u8>;

    closed spec fn view(&self) -> Seq<u8> {
        self.0@
    }
}

impl Codabar {
    /// A validated value holds 1 to 256 Codabar characters.
    #[verifier::type_invariant]
    spec fn inv(self) -> bool {
        1 <= self.0@.len() <= 256 && all_codabar_chars(self.0@)
    }

    /// Creates a new barcode from 1 to 256 Codabar characters.
    pub fn new(data: &[u8]) -> (r: Result<Codabar, Error>)
        ensures
            match r {
                Ok(b) => codabar_new_spec(data@) == Ok::<Seq<u8>, Error>(b@),
                Err(e) => codabar_new_spec(data@) == Err::<Seq<u8>, Error>(e),
            },
    {
        if data.len() < 1 || data.len() > 256 {
            return Err(Error::Length);
        }
        let mut i: usize = 0;
        while i < data.len()
            invariant
                i <= data@.len(),
                1 <= data@.len() <= 256,
                forall|j: int| 0 <= j < i ==> codabar_char(#[trigger] data@[j]),
            decreases data@.len() - i,
        {
            if !is_codabar_char(data[i]) {
                assert(!codabar_char(data@[i as int]));
                return Err(Error::Character);
            }
            i = i + 1;
        }
        Ok(Codabar(vstd::slice::slice_to_vec(data)))
    }

    /// Encodes the barcode (1 = bar, 0 = space).
    ///
    /// The output is a pure function of the validated value, so repeated
    /// calls return identical sequences.
    pub fn encode(&self) -> (r: Vec<u8>)
        ensures
            r@ == codabar_encoding(self@),
    {
        proof {
            use_type_invariant(&*self);
        }
        let ghost s = self.0@;
        let mut out: Vec<u8> = Vec::new();
        let mut i: usize = 0;
        assert(out@ =~= codabar_encoding(s.take(0)));
        while i < self.0.len()
            invariant
                i <= s.len(),
                self.0@ == s,
                1 <= s.len() <= 256,
                all_codabar_chars(s),
                out@ == codabar_encoding(s.take(i as int)),
            decreases s.len() - i,
        {
            if i > 0 {
                out.push(0);
                assert(out@ =~= codabar_encoding(s.take(i as int)) + seq![0u8]);
            }
            push_codabar_pattern(&mut out, self.0[i]);
            proof {
                if i > 0 {
                    lemma_codabar_step(s, i as int);
                } else {
                    assert(s.take(1)[0] == s[0]);
                }
            }
            i = i + 1;
        }
        assert(s.take(s.len() as int) =~= s);
        out
    }

    /// Encodes the barcode into the front of `buffer`.
    ///
    /// Returns `None`, writing nothing, when `buffer` is smaller than the
    /// encoded output; any elements past the output keep their values.
    pub fn encode_in_place(&self, buffer: &mut Vec<u8>) -> (r: Option<()>)
        ensures
            match r {
                Some(_) => old(buffer)@.len() >= codabar_encoding(self@).len() && final(buffer)@
                    == codabar_encoding(self@) + old(buffer)@.skip(
                    codabar_encoding(self@).len() as int,
                ),
                None => old(buffer)@.len() < codabar_encoding(self@).len() && final(buffer)@
                    == old(buffer)@,
            },
    {
        let enc = self.encode();
        if buffer.len() < enc.len() {
            return None;
        }
        splice_front(buffer, enc);
        Some(())
    }
}


/// The constructor follows the shared validation scheme of
/// `validate_spec`, instantiated with the Codabar alphabet and the 1 to 256 length window.
pub proof fn lemma_codabar_new_follows_validate(data: Seq<u8>)
    ensures
        codabar_new_spec(data) == validate_spec(data, 1, 256, |c: u8| codabar_char(c)),
{
    if 1 <= data.len() <= 256 && !all_codabar_chars(data) {
        let i = choose|i: int| 0 <= i < data.len() && !codabar_char(#[trigger] data[i]);
        assert(0 <= i < data.len() && !((|c: u8| codabar_char(c))(data[i])));
    }
}

} // verus!
