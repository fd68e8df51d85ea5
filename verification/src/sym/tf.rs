//! Encoder for 2-of-5 barcodes.
//!
//! 2-of-5 barcodes are often used by Airlines and in some industrial settings.
//!
//! They also make an appearance in retail where they are sometimes used for the outer cartons on
//! groups of products (cartons of Cola, etc).
//!
//! Most of the time you will want to use the interleaved barcode over the standard option.

use crate::error::Error;
use crate::sym::helpers::{
    all_digits, bit_seq, concat_map, digit_values, is_digit_byte, lemma_concat_map_step,
    mod10_checksum, modulo_10_checksum, push_bits, push_run, repeated, splice_front, validate_spec,
};
use vstd::prelude::*;

verus! {

broadcast use crate::sym::helpers::lemma_bit_seq_len;

/// The 14-module pattern of one standard 2-of-5 digit value.
pub open spec fn stf_pattern(c: u8) -> Seq<u8> {
    match c {
        0 => bit_seq(0b10101110111010, 14),
        1 => bit_seq(0b11101010101110, 14),
        2 => bit_seq(0b10111010101110, 14),
        3 => bit_seq(0b11101110101010, 14),
        4 => bit_seq(0b10101110101110, 14),
        5 => bit_seq(0b11101011101010, 14),
        6 => bit_seq(0b10111011101010, 14),
        7 => bit_seq(0b10101011101110, 14),
        8 => bit_seq(0b11101010111010, 14),
        9 => bit_seq(0b10111010111010, 14),
        _ => Seq::empty(),
    }
}

/// Appends the `stf_pattern` pattern of `c` to `out`.
fn push_stf_pattern(out: &mut Vec<u8>, c: u8)
    requires
        c < 10,
    ensures
        final(out)@ == old(out)@ + stf_pattern(c),
{
    match c {
        0 => push_bits(out, 0b10101110111010, 14),
        1 => push_bits(out, 0b11101010101110, 14),
        2 => push_bits(out, 0b10111010101110, 14),
        3 => push_bits(out, 0b11101110101010, 14),
        4 => push_bits(out, 0b10101110101110, 14),
        5 => push_bits(out, 0b11101011101010, 14),
        6 => push_bits(out, 0b10111011101010, 14),
        7 => push_bits(out, 0b10101011101110, 14),
        8 => push_bits(out, 0b11101010111010, 14),
        9 => push_bits(out, 0b10111010111010, 14),
        _ => (),
    }
}

/// The five bar or space widths of an interleaved 2-of-5 digit value.
pub open spec fn itf_widths(d: u8) -> Seq<u8> {
    match d {
        0 => seq![1, 1, 3, 3, 1],
        1 => seq![3, 1, 1, 1, 3],
        2 => seq![1, 3, 1, 1, 3],
        3 => seq![3, 3, 1, 1, 1],
        4 => seq![1, 1, 3, 1, 3],
        5 => seq![3, 1, 3, 1, 1],
        6 => seq![1, 3, 3, 1, 1],
        7 => seq![1, 1, 1, 3, 3],
        8 => seq![3, 1, 1, 3, 1],
        9 => seq![1, 3, 1, 3, 1],
        _ => seq![1, 1, 1, 1, 1],
    }
}

/// The five widths of the given digit value.
fn itf_width_row(d: u8) -> (r: (u8, u8, u8, u8, u8))
    requires
        d < 10,
    ensures
        r.0 == itf_widths(d)[0],
        r.1 == itf_widths(d)[1],
        r.2 == itf_widths(d)[2],
        r.3 == itf_widths(d)[3],
        r.4 == itf_widths(d)[4],
{
    match d {
        0 => (1, 1, 3, 3, 1),
        1 => (3, 1, 1, 1, 3),
        2 => (1, 3, 1, 1, 3),
        3 => (3, 3, 1, 1, 1),
        4 => (1, 1, 3, 1, 3),
        5 => (3, 1, 3, 1, 1),
        6 => (1, 3, 3, 1, 1),
        7 => (1, 1, 1, 3, 3),
        8 => (3, 1, 1, 3, 1),
        9 => (1, 3, 1, 3, 1),
        _ => (1, 1, 1, 1, 1),
    }
}
/// The per-digit-byte encoding, as a function value for `concat_map`.
pub open spec fn stf_unit_fn() -> spec_fn(u8) -> Seq<u8> {
    |c: u8| stf_pattern((c - 48) as u8)
}

/// What `ToF::new` and `ToF::interleaved` accept: between 1 and 256 ASCII
/// digits; the data is kept as given.
pub open spec fn tf_new_spec(data: Seq<u8>) -> Result<Seq<u8>, Error> {
    if data.len() < 1 || data.len() > 256 {
        Err(Error::Length)
    } else if !all_digits(data) {
        Err(Error::Character)
    } else {
        Ok(data)
    }
}

/// The modules of a standard 2-of-5 barcode: a start guard, the 14-module
/// pattern of every digit, and a stop guard.
pub open spec fn stf_encoding(s: Seq<u8>) -> Seq<u8> {
    bit_seq(0b11011010, 8) + concat_map(s, stf_unit_fn()) + bit_seq(0b11010110, 8)
}

/// The standard 2-of-5 barcode type.
#[derive(Debug)]
pub struct ToF(Vec<u8>);

impl View for ToF {
    type V = Seq<u8>;

    closed spec fn view(&self) -> Seq<u8> {
        self.0@
    }
}

impl ToF {
    /// A validated value holds 1 to 256 ASCII digits.
    #[verifier::type_invariant]
    spec fn inv(self) -> bool {
        1 <= self.0@.len() <= 256 && all_digits(self.0@)
    }

    /// Creates a new standard 2-of-5 barcode from 1 to 256 ASCII digits.
    pub fn new(data: &[u8]) -> (r: Result<ToF, Error>)
        ensures
            match r {
                Ok(b) => tf_new_spec(data@) == Ok::<Seq<u8>, Error>(b@),
                Err(e) => tf_new_spec(data@) == Err::<Seq<u8>, Error>(e),
            },
    {
        if data.len() < 1 || data.len() > 256 {
            return Err(Error::Length);
        }
        let mut i: usize = 0;
        while i < data.len()
            invariant
                i <= data@.len(),
                1 <= data@.len() <= 256,
                forall|j: int| 0 <= j < i ==> is_digit_byte(#[trigger] data@[j]),
            decreases data@.len() - i,
        {
            let byte = data[i];
            if byte < 48 || byte > 57 {
                assert(!is_digit_byte(data@[i as int]));
                return Err(Error::Character);
            }
            i = i + 1;
        }
        Ok(ToF(vstd::slice::slice_to_vec(data)))
    }

    /// Create a new interleaved 2-of-5 barcode.
    pub fn interleaved(data: &[u8]) -> (r: Result<ToFI, Error>)
        ensures
            match r {
                Ok(b) => tf_new_spec(data@) == Ok::<Seq<u8>, Error>(b@),
                Err(e) => tf_new_spec(data@) == Err::<Seq<u8>, Error>(e),
            },
    {
        ToFI::new(data)
    }

    /// Encodes the barcode (1 = bar, 0 = space).
    ///
    /// The output is a pure function of the validated value, so repeated
    /// calls return identical sequences.
    pub fn encode(&self) -> (r: Vec<u8>)
        ensures
            r@ == stf_encoding(self@),
    {
        proof {
            use_type_invariant(&*self);
        }
        let ghost s = self.0@;
        let mut out: Vec<u8> = Vec::new();
        push_bits(&mut out, 0b11011010, 8);
        let ghost pre = out@;
        assert(out@ =~= pre + concat_map(s.take(0), stf_unit_fn()));
        let mut i: usize = 0;
        while i < self.0.len()
            invariant
                i <= s.len(),
                self.0@ == s,
                all_digits(s),
                out@ == pre + concat_map(s.take(i as int), stf_unit_fn()),
            decreases s.len() - i,
        {
            push_stf_pattern(&mut out, self.0[i] - 48);
            proof {
                lemma_concat_map_step(s, stf_unit_fn(), i as int);
                assert(out@ =~= pre + concat_map(s.take(i + 1), stf_unit_fn()));
            }
            i = i + 1;
        }
        assert(s.take(s.len() as int) =~= s);
        push_bits(&mut out, 0b11010110, 8);
        assert(out@ =~= stf_encoding(s));
        out
    }

    /// Encodes the barcode into the front of `buffer`.
    ///
    /// Returns `None`, writing nothing, when `buffer` is smaller than the
    /// encoded output; any elements past the output keep their values.
    pub fn encode_in_place(&self, buffer: &mut Vec<u8>) -> (r: Option<()>)
        ensures
            match r {
                Some(_) => old(buffer)@.len() >= stf_encoding(self@).len() && final(buffer)@
                    == stf_encoding(self@) + old(buffer)@.skip(stf_encoding(self@).len() as int),
                None => old(buffer)@.len() < stf_encoding(self@).len() && final(buffer)@ == old(
                    buffer,
                )@,
            },
    {
        let enc = self.encode();
        if buffer.len() < enc.len() {
            return None;
        }
        splice_front(buffer, enc);
        Some(())
    }
}

/// The digit values to interleave: the data's digits, with the modulo-10
/// checksum digit appended when their count is odd.
pub open spec fn itf_padded(s: Seq<u8>) -> Seq<u8> {
    let v = digit_values(s);
    if s.len() % 2 == 1 {
        v.push(mod10_checksum(v, false) as u8)
    } else {
        v
    }
}

/// The eighteen modules of one interleaved digit pair: the bar widths of `a`
/// interleaved with the space widths of `b`.
pub open spec fn itf_pair(a: u8, b: u8) -> Seq<u8> {
    repeated(1u8, itf_widths(a)[0] as nat) + repeated(0u8, itf_widths(b)[0] as nat) + repeated(
        1u8,
        itf_widths(a)[1] as nat,
    ) + repeated(0u8, itf_widths(b)[1] as nat) + repeated(1u8, itf_widths(a)[2] as nat) + repeated(
        0u8,
        itf_widths(b)[2] as nat,
    ) + repeated(1u8, itf_widths(a)[3] as nat) + repeated(0u8, itf_widths(b)[3] as nat) + repeated(
        1u8,
        itf_widths(a)[4] as nat,
    ) + repeated(0u8, itf_widths(b)[4] as nat)
}

/// The interleaved patterns of consecutive digit-value pairs, laid end to
/// end.
pub open spec fn itf_payload(v: Seq<u8>) -> Seq<u8>
    decreases v.len(),
{
    if v.len() < 2 {
        Seq::empty()
    } else {
        itf_payload(v.take(v.len() - 2)) + itf_pair(v[v.len() - 2], v[v.len() - 1])
    }
}

pub proof fn lemma_itf_payload_step(v: Seq<u8>, i: int)
    requires
        0 <= i,
        i + 2 <= v.len(),
    ensures
        itf_payload(v.take(i + 2)) == itf_payload(v.take(i)) + itf_pair(v[i], v[i + 1]),
{
    assert(v.take(i + 2).take(i) =~= v.take(i));
    assert(v.take(i + 2)[i] == v[i]);
    assert(v.take(i + 2)[i + 1] == v[i + 1]);
}

/// The modules of an interleaved 2-of-5 barcode: a start guard, the padded
/// digit values interleaved pair by pair, and a stop guard.
pub open spec fn itf_encoding(s: Seq<u8>) -> Seq<u8> {
    bit_seq(0b1010, 4) + itf_payload(itf_padded(s)) + bit_seq(0b1101, 4)
}

pub(crate) fn push_itf_pair(out: &mut Vec<u8>, a: u8, b: u8)
    requires
        a < 10,
        b < 10,
    ensures
        final(out)@ == old(out)@ + itf_pair(a, b),
{
    let wa = itf_width_row(a);
    let wb = itf_width_row(b);
    push_run(out, 1, wa.0 as usize);
    push_run(out, 0, wb.0 as usize);
    push_run(out, 1, wa.1 as usize);
    push_run(out, 0, wb.1 as usize);
    push_run(out, 1, wa.2 as usize);
    push_run(out, 0, wb.2 as usize);
    push_run(out, 1, wa.3 as usize);
    push_run(out, 0, wb.3 as usize);
    push_run(out, 1, wa.4 as usize);
    push_run(out, 0, wb.4 as usize);
    assert(out@ =~= old(out)@ + itf_pair(a, b));
}

/// The interleaved 2-of-5 barcode type.
#[derive(Debug)]
pub struct ToFI(Vec<u8>);

impl View for ToFI {
    type V = Seq<u8>;

    closed spec fn view(&self) -> Seq<u8> {
        self.0@
    }
}

impl ToFI {
    /// A validated value holds 1 to 256 ASCII digits.
    #[verifier::type_invariant]
    spec fn inv(self) -> bool {
        1 <= self.0@.len() <= 256 && all_digits(self.0@)
    }

    /// Creates a new interleaved 2-of-5 barcode from 1 to 256 ASCII digits.
    pub fn new(data: &[u8]) -> (r: Result<ToFI, Error>)
        ensures
            match r {
                Ok(b) => tf_new_spec(data@) == Ok::<Seq<u8>, Error>(b@),
                Err(e) => tf_new_spec(data@) == Err::<Seq<u8>, Error>(e),
            },
    {
        if data.len() < 1 || data.len() > 256 {
            return Err(Error::Length);
        }
        let mut i: usize = 0;
        while i < data.len()
            invariant
                i <= data@.len(),
                1 <= data@.len() <= 256,
                forall|j: int| 0 <= j < i ==> is_digit_byte(#[trigger] data@[j]),
            decreases data@.len() - i,
        {
            let byte = data[i];
            if byte < 48 || byte > 57 {
                assert(!is_digit_byte(data@[i as int]));
                return Err(Error::Character);
            }
            i = i + 1;
        }
        Ok(ToFI(vstd::slice::slice_to_vec(data)))
    }

    /// Encodes the barcode (1 = bar, 0 = space).
    ///
    /// An odd number of digits is padded with the computed modulo-10
    /// checksum digit before interleaving, so the payload always interleaves
    /// whole pairs. The output is a pure function of the validated value, so
    /// repeated calls return identical sequences.
    pub fn encode(&self) -> (r: Vec<u8>)
        ensures
            r@ == itf_encoding(self@),
    {
        proof {
            use_type_invariant(&*self);
        }
        let ghost s = self.0@;
        let mut vals: Vec<u8> = Vec::new();
        let mut i: usize = 0;
        assert(vals@ =~= digit_values(s.take(0)));
        while i < self.0.len()
            invariant
                i <= s.len(),
                self.0@ == s,
                all_digits(s),
                vals@ == digit_values(s.take(i as int)),
                forall|j: int| 0 <= j < vals@.len() ==> vals@[j] < 10,
            decreases s.len() - i,
        {
            vals.push(self.0[i] - 48);
            assert(vals@ =~= digit_values(s.take(i + 1)));
            i = i + 1;
        }
        assert(s.take(s.len() as int) =~= s);
        if vals.len() % 2 == 1 {
            let cs = modulo_10_checksum(vals.as_slice(), false);
            vals.push(cs);
        }
        assert(vals@ == itf_padded(s));
        let ghost v = vals@;
        let mut out: Vec<u8> = Vec::new();
        push_bits(&mut out, 0b1010, 4);
        let ghost pre = out@;
        assert(out@ =~= pre + itf_payload(v.take(0)));
        let mut k: usize = 0;
        while k + 1 < vals.len()
            invariant
                k <= v.len(),
                k % 2 == 0,
                v.len() % 2 == 0,
                vals@ == v,
                forall|j: int| 0 <= j < v.len() ==> v[j] < 10,
                out@ == pre + itf_payload(v.take(k as int)),
            decreases v.len() - k,
        {
            push_itf_pair(&mut out, vals[k], vals[k + 1]);
            proof {
                lemma_itf_payload_step(v, k as int);
                assert(out@ =~= pre + itf_payload(v.take(k + 2)));
            }
            k = k + 2;
        }
        assert(v.take(v.len() as int) =~= v);
        push_bits(&mut out, 0b1101, 4);
        assert(out@ =~= itf_encoding(s));
        out
    }

    /// Encodes the barcode into the front of `buffer`.
    ///
    /// Returns `None`, writing nothing, when `buffer` is smaller than the
    /// encoded output; any elements past the output keep their values.
    pub fn encode_in_place(&self, buffer: &mut Vec<u8>) -> (r: Option<()>)
        ensures
            match r {
                Some(_) => old(buffer)@.len() >= itf_encoding(self@).len() && final(buffer)@
                    == itf_encoding(self@) + old(buffer)@.skip(itf_encoding(self@).len() as int),
                None => old(buffer)@.len() < itf_encoding(self@).len() && final(buffer)@ == old(
                    buffer,
                )@,
            },
    {
        let enc = self.encode();
        if buffer.len() < enc.len() {
            return None;
        }
        splice_front(buffer, enc);
        Some(())
    }
}


/// The constructor follows the shared validation scheme of
/// `validate_spec`, instantiated with the decimal digits and the 1 to 256 length window.
pub proof fn lemma_tf_new_follows_validate(data: Seq<u8>)
    ensures
        tf_new_spec(data) == validate_spec(data, 1, 256, |c: u8| is_digit_byte(c)),
{
    if 1 <= data.len() <= 256 && !all_digits(data) {
        let i = choose|i: int| 0 <= i < data.len() && !is_digit_byte(#[trigger] data[i]);
        assert(0 <= i < data.len() && !((|c: u8| is_digit_byte(c))(data[i])));
    }
}

} // verus!
