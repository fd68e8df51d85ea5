//! Encoder for Code11 (USD-8) barcodes.
//!
//! Code11 is able to encode all of the decimal digits and the dash character. It is mainly
//! used in the telecommunications industry.
//!
//! Code11 is a discrete symbology. This encoder always provides a C checksum. For barcodes longer
//! than 10 characters, a second checksum digit (K) is appended.

use crate::error::Error;
use crate::sym::helpers::{
    bit_seq, concat_map, cycle_weight, lemma_concat_map_step, lemma_weighted_from_right_unfold,
    push_bits, splice_front, validate_spec, weighted_from_right,
};
use vstd::prelude::*;

verus! {

broadcast use crate::sym::helpers::lemma_bit_seq_len;

/// Whether `c` is one of the eleven Code11 characters: a digit or a dash.
pub open spec fn code11_char(c: u8) -> bool {
    (48 <= c <= 57) || c == 45
}

/// Whether every byte of `s` is a Code11 character.
pub open spec fn all_code11_chars(s: Seq<u8>) -> bool {
    forall|i: int| 0 <= i < s.len() ==> code11_char(#[trigger] s[i])
}

fn is_code11_char(c: u8) -> (r: bool)
    ensures
        r == code11_char(c),
{
    (48 <= c && c <= 57) || c == 45
}

/// The value of a Code11 character: its digit, or ten for the dash.
pub open spec fn code11_val(c: u8) -> int {
    if c == 45 {
        10
    } else {
        c - 48
    }
}

/// The character with the given Code11 value.
pub open spec fn code11_char_of_val(v: int) -> u8 {
    if v == 10 {
        45
    } else {
        (48 + v) as u8
    }
}

/// The module pattern of one Code11 character.
pub open spec fn code11_pattern(c: u8) -> Seq<u8> {
    match c {
        48 => bit_seq(0b101011, 6),
        49 => bit_seq(0b1101011, 7),
        50 => bit_seq(0b1001011, 7),
        51 => bit_seq(0b1100101, 7),
        52 => bit_seq(0b1011011, 7),
        53 => bit_seq(0b1101101, 7),
        54 => bit_seq(0b1001101, 7),
        55 => bit_seq(0b1010011, 7),
        56 => bit_seq(0b1101001, 7),
        57 => bit_seq(0b110101, 6),
        45 => bit_seq(0b101101, 6),
        _ => Seq::empty(),
    }
}

/// Appends the `code11_pattern` pattern of `c` to `out`.
fn push_code11_pattern(out: &mut Vec<u8>, c: u8)
    requires
        code11_char(c),
    ensures
        final(out)@ == old(out)@ + code11_pattern(c),
{
    match c {
        48 => push_bits(out, 0b101011, 6),
        49 => push_bits(out, 0b1101011, 7),
        50 => push_bits(out, 0b1001011, 7),
        51 => push_bits(out, 0b1100101, 7),
        52 => push_bits(out, 0b1011011, 7),
        53 => push_bits(out, 0b1101101, 7),
        54 => push_bits(out, 0b1001101, 7),
        55 => push_bits(out, 0b1010011, 7),
        56 => push_bits(out, 0b1101001, 7),
        57 => push_bits(out, 0b110101, 6),
        45 => push_bits(out, 0b101101, 6),
        _ => (),
    }
}
/// The character values, as a function value for the weighted checksum sums.
pub open spec fn code11_val_fn() -> spec_fn(u8) -> int {
    |c: u8| code11_val(c)
}

/// One encoded character: its pattern and the narrow gap after it.
pub open spec fn code11_unit(c: u8) -> Seq<u8> {
    code11_pattern(c) + seq![0u8]
}

/// The per-character encoding, as a function value for `concat_map`.
pub open spec fn code11_unit_fn() -> spec_fn(u8) -> Seq<u8> {
    |c: u8| code11_unit(c)
}

/// The C checksum value: character values weighted 1, 2, 3, ... from the
/// right, cycling at 10, reduced modulo 11.
pub open spec fn code11_checksum_c(s: Seq<u8>) -> int {
    weighted_from_right(s, 10, 1, code11_val_fn()) % 11
}

/// The K checksum value: character values weighted 2, 3, 4, ... from the
/// right, cycling at 9, plus the C checksum value, reduced modulo 11.
pub open spec fn code11_checksum_k(s: Seq<u8>) -> int {
    (weighted_from_right(s, 9, 2, code11_val_fn()) + code11_checksum_c(s)) % 11
}

fn push_code11_unit(out: &mut Vec<u8>, c: u8)
    requires
        code11_char(c),
    ensures
        final(out)@ == old(out)@ + code11_unit(c),
{
    push_code11_pattern(out, c);
    out.push(0);
    assert(out@ =~= old(out)@ + code11_unit(c));
}

/// The character value of a Code11 character.
fn code11_val_of(c: u8) -> (r: u8)
    requires
        code11_char(c),
    ensures
        r as int == code11_val(c),
        r <= 10,
{
    if c == 45 {
        10
    } else {
        c - 48
    }
}

/// The character with the given Code11 value.
fn code11_char_at(v: u8) -> (r: u8)
    requires
        v <= 10,
    ensures
        r == code11_char_of_val(v as int),
        code11_char(r),
{
    if v == 10 {
        45
    } else {
        48 + v
    }
}

/// The weighted sum of the stored character values, iterating from the right.
fn weighted_sum(data: &Vec<u8>, thr: u32, off: u32) -> (r: u32)
    requires
        1 <= thr <= 10,
        1 <= off <= 2,
        data@.len() <= 256,
        all_code11_chars(data@),
    ensures
        r as int == weighted_from_right(data@, thr as int, off as int, code11_val_fn()),
{
    let ghost s = data@;
    let mut acc: u32 = 0;
    let mut j: usize = data.len();
    assert(s.skip(j as int) =~= Seq::<u8>::empty());
    while j > 0
        invariant
            j <= s.len() <= 256,
            data@ == s,
            all_code11_chars(s),
            1 <= thr <= 10,
            1 <= off <= 2,
            acc as int == weighted_from_right(s.skip(j as int), thr as int, off as int, code11_val_fn()),
            acc <= (s.len() - j) * 100,
        decreases j,
    {
        j = j - 1;
        let v = code11_val_of(data[j]);
        let pos = (data.len() - 1 - j) as u32 + off;
        let m = pos % thr;
        let w = if m == 0 {
            thr
        } else {
            m
        };
        proof {
            lemma_weighted_from_right_unfold(s, thr as int, off as int, code11_val_fn(), j as int);
            assert(w == cycle_weight(s.len() - 1 - j + off, thr as int));
            assert((w as int) * (v as int) <= 100) by (nonlinear_arith)
                requires
                    w <= 10,
                    0 <= v <= 10,
            ;
        }
        acc = acc + w * (v as u32);
    }
    assert(s.skip(0) =~= s);
    acc
}

/// What `Code11::new` returns on any input: between 1 and 256 characters,
/// each a digit or a dash; the data is kept as given.
pub open spec fn code11_new_spec(data: Seq<u8>) -> Result<Seq<u8>, Error> {
    if data.len() < 1 || data.len() > 256 {
        Err(Error::Length)
    } else if !all_code11_chars(data) {
        Err(Error::Character)
    } else {
        Ok(data)
    }
}

/// The modules of a Code11 barcode: a guard, each character with a narrow
/// gap after it, the C checksum character, the K checksum character when the
/// data is longer than ten characters, and the closing guard.
pub open spec fn code11_encoding(s: Seq<u8>) -> Seq<u8> {
    let body = bit_seq(0b1011001, 7) + seq![0u8] + concat_map(s, code11_unit_fn()) + code11_unit(
        code11_char_of_val(code11_checksum_c(s)),
    );
    if s.len() > 10 {
        body + code11_unit(code11_char_of_val(code11_checksum_k(s))) + bit_seq(0b1011001, 7)
    } else {
        body + bit_seq(0b1011001, 7)
    }
}

/// The Code11 barcode type.
#[derive(Debug)]
pub struct Code11(Vec<u8>);

impl View for Code11 {
    type V = Seq<u8>;

    closed spec fn view(&self) -> Seq<u8> {
        self.0@
    }
}

impl Code11 {
    /// A validated value holds 1 to 256 Code11 characters.
    #[verifier::type_invariant]
    spec fn inv(self) -> bool {
        1 <= self.0@.len() <= 256 && all_code11_chars(self.0@)
    }

    /// Creates a new barcode from 1 to 256 digits or dashes.
    pub fn new(data: &[u8]) -> (r: Result<Code11, Error>)
        ensures
            match r {
                Ok(b) => code11_new_spec(data@) == Ok::<Seq<u8>, Error>(b@),
                Err(e) => code11_new_spec(data@) == Err::<Seq<u8>, Error>(e),
            },
    {
        if data.len() < 1 || data.len() > 256 {
            return Err(Error::Length);
        }
        let mut i: usize = 0;
        while i < data.len()
            invariant
                i <= data@.len(),
                1 <= data@.len() <= 256,
                forall|j: int| 0 <= j < i ==> code11_char(#[trigger] data@[j]),
            decreases data@.len() - i,
        {
            if !is_code11_char(data[i]) {
                assert(!code11_char(data@[i as int]));
                return Err(Error::Character);
            }
            i = i + 1;
        }
        Ok(Code11(vstd::slice::slice_to_vec(data)))
    }

    /// Encodes the barcode (1 = bar, 0 = space).
    ///
    /// The output is a pure function of the validated value, so repeated
    /// calls return identical sequences.
    #[verifier::rlimit(60)]
    pub fn encode(&self) -> (r: Vec<u8>)
        ensures
            r@ == code11_encoding(self@),
    {
        proof {
            use_type_invariant(&*self);
        }
        let ghost s = self.0@;
        let mut out: Vec<u8> = Vec::new();
        push_bits(&mut out, 0b1011001, 7);
        out.push(0);
        let ghost pre = out@;
        assert(pre =~= bit_seq(0b1011001, 7) + seq![0u8]);
        assert(out@ =~= pre + concat_map(s.take(0), code11_unit_fn()));
        let mut i: usize = 0;
        while i < self.0.len()
            invariant
                i <= s.len(),
                self.0@ == s,
                1 <= s.len() <= 256,
                all_code11_chars(s),
                out@ == pre + concat_map(s.take(i as int), code11_unit_fn()),
            decreases s.len() - i,
        {
            push_code11_unit(&mut out, self.0[i]);
            proof {
                lemma_concat_map_step(s, code11_unit_fn(), i as int);
                assert(out@ =~= pre + concat_map(s.take(i + 1), code11_unit_fn()));
            }
            i = i + 1;
        }
        assert(s.take(s.len() as int) =~= s);
        let cw = weighted_sum(&self.0, 10, 1);
        let c_val = (cw % 11) as u8;
        push_code11_unit(&mut out, code11_char_at(c_val));
        if self.0.len() > 10 {
            let kw = weighted_sum(&self.0, 9, 2);
            let k_val = ((kw % 11 + c_val as u32) % 11) as u8;
            proof {
                vstd::arithmetic::div_mod::lemma_add_mod_noop(
                    weighted_from_right(s, 9, 2, code11_val_fn()),
                    code11_checksum_c(s),
                    11,
                );
                vstd::arithmetic::div_mod::lemma_mod_twice(code11_checksum_c(s), 11);
            }
            push_code11_unit(&mut out, code11_char_at(k_val));
        }
        push_bits(&mut out, 0b1011001, 7);
        assert(out@ =~= code11_encoding(s));
        out
    }

    /// Encodes the barcode into the front of `buffer`.
    ///
    /// Returns `None`, writing nothing, when `buffer` is smaller than the
    /// encoded output; any elements past the output keep their values.
    pub fn encode_in_place(&self, buffer: &mut Vec<u8>) -> (r: Option<()>)
        ensures
            match r {
                Some(_) => old(buffer)@.len() >= code11_encoding(self@).len() && final(buffer)@
                    == code11_encoding(self@) + old(buffer)@.skip(
                    code11_encoding(self@).len() as int,
                ),
                None => old(buffer)@.len() < code11_encoding(self@).len() && final(buffer)@
                    == old(buffer)@,
            },
    {
        let enc = self.encode();
        if buffer.len() < enc.len() {
            return None;
        }
        splice_front(buffer, enc);
        Some(())
    }
}


/// The constructor follows the shared validation scheme of
/// `validate_spec`, instantiated with the Code11 alphabet and the 1 to 256 length window.
pub proof fn lemma_code11_new_follows_validate(data: Seq<u8>)
    ensures
        code11_new_spec(data) == validate_spec(data, 1, 256, |c: u8| code11_char(c)),
{
    if 1 <= data.len() <= 256 && !all_code11_chars(data) {
        let i = choose|i: int| 0 <= i < data.len() && !code11_char(#[trigger] data[i]);
        assert(0 <= i < data.len() && !((|c: u8| code11_char(c))(data[i])));
    }
}

} // verus!
