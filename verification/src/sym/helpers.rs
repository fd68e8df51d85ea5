//! Shared machinery: bit-pattern sequences, run building, and the
//! modulo-10 weighting checksum used by the EAN/UPC family and the
//! interleaved 2-of-5 encoder.

use crate::error::Error;
use vstd::arithmetic::div_mod::{lemma_add_mod_noop, lemma_mod_twice, lemma_mul_mod_noop_left};
use vstd::prelude::*;

verus! {

/// The validation scheme every byte-keyed symbology shares: a length
/// outside the window from `min` to `max` is a length error, checked first;
/// otherwise any byte outside the symbology's alphabet is a character
/// error; otherwise the data is accepted as given. Each constructor's own
/// behaviour is proved equal to an instance of this scheme.
pub open spec fn validate_spec(
    data: Seq<u8>,
    min: int,
    max: int,
    allowed: spec_fn(u8) -> bool,
) -> Result<Seq<u8>, Error> {
    if data.len() < min || data.len() > max {
        Err(Error::Length)
    } else if exists|i: int| 0 <= i < data.len() && !allowed(#[trigger] data[i]) {
        Err(Error::Character)
    } else {
        Ok(data)
    }
}

/// The sequence of `width` module values whose bits, read most significant
/// first, spell out `bits`: `bit_seq(0b101, 3)` is `[1, 0, 1]`.
pub open spec fn bit_seq(bits: u32, width: nat) -> Seq<u8>
    decreases width,
{
    if width == 0 {
        Seq::empty()
    } else {
        bit_seq(bits / 2, (width - 1) as nat).push((bits % 2) as u8)
    }
}

/// Appends the `width` lowest bits of `bits` to `out`, most significant first.
pub fn push_bits(out: &mut Vec<u8>, bits: u32, width: u32)
    requires
        width <= 16,
    ensures
        final(out)@ == old(out)@ + bit_seq(bits, width as nat),
    decreases width,
{
    if width == 0 {
        assert(out@ =~= old(out)@ + bit_seq(bits, 0));
    } else {
        push_bits(out, bits / 2, width - 1);
        out.push((bits % 2) as u8);
        assert(out@ =~= old(out)@ + bit_seq(bits, width as nat));
    }
}

/// Every pattern sequence has as many modules as its stated width.
pub broadcast proof fn lemma_bit_seq_len(bits: u32, width: nat)
    ensures
        #[trigger] bit_seq(bits, width).len() == width,
    decreases width,
{
    if width > 0 {
        lemma_bit_seq_len(bits / 2, (width - 1) as nat);
    }
}

/// `n` copies of the value `v`.
pub open spec fn repeated<T>(v: T, n: nat) -> Seq<T> {
    Seq::new(n, |i: int| v)
}

/// Appends `n` copies of `v` to `out`.
pub fn push_run<T: Copy>(out: &mut Vec<T>, v: T, n: usize)
    ensures
        final(out)@ == old(out)@ + repeated(v, n as nat),
{
    let mut k: usize = 0;
    while k < n
        invariant
            k <= n,
            out@ == old(out)@ + repeated(v, k as nat),
        decreases n - k,
    {
        out.push(v);
        k = k + 1;
        assert(out@ =~= old(out)@ + repeated(v, k as nat));
    }
}

/// The patterns of each element of `s`, laid end to end.
pub open spec fn concat_map(s: Seq<u8>, f: spec_fn(u8) -> Seq<u8>) -> Seq<u8>
    decreases s.len(),
{
    if s.len() == 0 {
        Seq::empty()
    } else {
        concat_map(s.drop_last(), f) + f(s.last())
    }
}

/// Extending the prefix by one element appends that element's pattern.
pub proof fn lemma_concat_map_step(s: Seq<u8>, f: spec_fn(u8) -> Seq<u8>, i: int)
    requires
        0 <= i < s.len(),
    ensures
        concat_map(s.take(i + 1), f) == concat_map(s.take(i), f) + f(s[i]),
{
    assert(s.take(i + 1).drop_last() =~= s.take(i));
    assert(s.take(i + 1).last() == s[i]);
}

/// Whether `b` is the ASCII code of a decimal digit.
pub open spec fn is_digit_byte(b: u8) -> bool {
    48 <= b <= 57
}

/// Whether every byte of `s` is an ASCII decimal digit.
pub open spec fn all_digits(s: Seq<u8>) -> bool {
    forall|i: int| 0 <= i < s.len() ==> is_digit_byte(#[trigger] s[i])
}

/// The digit values (0 to 9) of a string of ASCII digit bytes.
pub open spec fn digit_values(s: Seq<u8>) -> Seq<u8> {
    s.map_values(|b: u8| (b - 48) as u8)
}

/// Replaces the first `enc.len()` elements of `buffer` with `enc`, leaving
/// the remainder untouched.
pub fn splice_front(buffer: &mut Vec<u8>, enc: Vec<u8>)
    requires
        enc@.len() <= old(buffer)@.len(),
    ensures
        final(buffer)@ == enc@ + old(buffer)@.skip(enc@.len() as int),
{
    let n = buffer.len();
    let ghost e = enc@;
    let mut out = enc;
    let mut j: usize = out.len();
    assert(out@ =~= e + buffer@.subrange(e.len() as int, j as int));
    while j < n
        invariant
            e.len() <= j <= n,
            n == buffer@.len(),
            buffer@ == old(buffer)@,
            out@ == e + buffer@.subrange(e.len() as int, j as int),
        decreases n - j,
    {
        let b = buffer[j];
        out.push(b);
        j = j + 1;
        assert(out@ =~= e + buffer@.subrange(e.len() as int, j as int));
    }
    *buffer = out;
    assert(buffer@ =~= e + old(buffer)@.skip(e.len() as int));
}

/// The weight of the symbol whose 1-based position from the right is `n`:
/// weights cycle from 1 up to `thr`, never dropping to zero.
pub open spec fn cycle_weight(n: int, thr: int) -> int {
    if n % thr == 0 {
        thr
    } else {
        n % thr
    }
}

/// The position-weighted sum used by the Code93 and Code11 checksums: the
/// symbol `i` places from the right end carries weight `cycle_weight(i + off,
/// thr)` (so the last symbol weighs `off`, the one before it `off + 1`, and
/// so on, cycling).
pub open spec fn weighted_from_right(
    s: Seq<u8>,
    thr: int,
    off: int,
    val: spec_fn(u8) -> int,
) -> int
    decreases s.len(),
{
    if s.len() == 0 {
        0
    } else {
        cycle_weight(s.len() - 1 + off, thr) * val(s[0]) + weighted_from_right(
            s.skip(1),
            thr,
            off,
            val,
        )
    }
}

/// Peeling the element at `j` off the suffix starting there.
pub proof fn lemma_weighted_from_right_unfold(
    s: Seq<u8>,
    thr: int,
    off: int,
    val: spec_fn(u8) -> int,
    j: int,
)
    requires
        0 <= j < s.len(),
    ensures
        weighted_from_right(s.skip(j), thr, off, val) == cycle_weight(s.len() - 1 - j + off, thr)
            * val(s[j]) + weighted_from_right(s.skip(j + 1), thr, off, val),
{
    assert(s.skip(j).skip(1) =~= s.skip(j + 1));
    assert(s.skip(j)[0] == s[j]);
}

/// The sum of the elements of `s` standing at an index of parity `p`
/// (`p` is 0 for even indices, 1 for odd ones).
pub open spec fn parity_sum(s: Seq<u8>, p: int) -> int
    decreases s.len(),
{
    if s.len() == 0 {
        0
    } else {
        parity_sum(s.drop_last(), p) + if (s.len() - 1) % 2 == p {
            s.last() as int
        } else {
            0
        }
    }
}

/// The modulo-10 weighting checksum: one parity class of digits is tripled,
/// and the checksum is what takes the weighted total up to a multiple of ten.
pub open spec fn mod10_checksum(s: Seq<u8>, even_start: bool) -> int {
    let weighted = if even_start {
        parity_sum(s, 1) * 3 + parity_sum(s, 0)
    } else {
        parity_sum(s, 1) + parity_sum(s, 0) * 3
    };
    (10 - (weighted % 10)) % 10
}

proof fn lemma_parity_sum_step(s: Seq<u8>, p: int, i: int)
    requires
        0 <= i < s.len(),
    ensures
        parity_sum(s.take(i + 1), p) == parity_sum(s.take(i), p) + if i % 2 == p {
            s[i] as int
        } else {
            0
        },
{
    assert(s.take(i + 1).drop_last() =~= s.take(i));
    assert(s.take(i + 1).last() == s[i]);
}

/// Adding `b` to a value already reduced modulo `m` reduces like adding it
/// to the unreduced value.
proof fn lemma_mod_add_left(a: int, b: int, m: int)
    requires
        m > 0,
    ensures
        ((a % m) + b) % m == (a + b) % m,
{
    lemma_mod_twice(a, m);
    lemma_add_mod_noop(a % m, b, m);
    lemma_add_mod_noop(a, b, m);
}

/// Tripling a value already reduced modulo `m` reduces like tripling the
/// unreduced value.
proof fn lemma_mod_mul3_left(a: int, m: int)
    requires
        m > 0,
    ensures
        ((a % m) * 3) % m == (a * 3) % m,
{
    lemma_mod_twice(a, m);
    lemma_mul_mod_noop_left(a % m, 3, m);
    lemma_mul_mod_noop_left(a, 3, m);
}

/// Reducing both parity sums modulo 10 before weighting them does not change
/// the weighted total modulo 10.
proof fn lemma_weighted_reduced(po: int, pe: int)
    ensures
        ((po % 10) * 3 + pe % 10) % 10 == (po * 3 + pe) % 10,
        (po % 10 + (pe % 10) * 3) % 10 == (po + pe * 3) % 10,
{
    lemma_mod_add_left(pe, (po % 10) * 3, 10);
    lemma_mod_mul3_left(po, 10);
    lemma_mod_add_left((po % 10) * 3, pe, 10);
    lemma_mod_add_left(po * 3, pe, 10);
    lemma_mod_add_left(po, (pe % 10) * 3, 10);
    lemma_mod_mul3_left(pe, 10);
    lemma_mod_add_left((pe % 10) * 3, po, 10);
    lemma_mod_add_left(pe * 3, po, 10);
}

/// Folding one weighted term into an accumulator already reduced modulo `m`,
/// with the weight itself reduced, reduces like folding the plain term.
pub proof fn lemma_mod_mul_acc(t: int, u: int, w: int, m: int)
    requires
        m > 0,
    ensures
        ((t % m) + u * (w % m)) % m == (t + u * w) % m,
{
    vstd::arithmetic::div_mod::lemma_mul_mod_noop_right(u, w, m);
    vstd::arithmetic::div_mod::lemma_add_mod_noop(t % m, u * (w % m), m);
    lemma_mod_twice(t, m);
    vstd::arithmetic::div_mod::lemma_add_mod_noop(t, u * w, m);
}

/// Calculates the checksum digit using a modulo-10 weighting algorithm.
///
/// `data` holds the digit values (not their ASCII codes). With `even_start`
/// the digits at even positions count single and the odd positions are
/// tripled, as EAN-13 weighs them; without it the even positions are tripled,
/// as EAN-8, UPC-A and the interleaved 2-of-5 checksum weigh them.
pub fn modulo_10_checksum(data: &[u8], even_start: bool) -> (r: u8)
    ensures
        r as int == mod10_checksum(data@, even_start),
        r < 10,
{
    let ghost s = data@;
    let mut odds: u32 = 0;
    let mut evens: u32 = 0;
    let mut i: usize = 0;
    while i < data.len()
        invariant
            i <= s.len(),
            s == data@,
            odds < 10,
            evens < 10,
            odds as int == parity_sum(s.take(i as int), 1) % 10,
            evens as int == parity_sum(s.take(i as int), 0) % 10,
        decreases s.len() - i,
    {
        let d = data[i];
        proof {
            lemma_parity_sum_step(s, 1, i as int);
            lemma_parity_sum_step(s, 0, i as int);
            if i % 2 == 1 {
                lemma_mod_add_left(parity_sum(s.take(i as int), 1), d as int, 10);
            } else {
                lemma_mod_add_left(parity_sum(s.take(i as int), 0), d as int, 10);
            }
        }
        if i % 2 == 1 {
            odds = (odds + d as u32) % 10;
        } else {
            evens = (evens + d as u32) % 10;
        }
        i = i + 1;
    }
    proof {
        assert(s.take(s.len() as int) =~= s);
        lemma_weighted_reduced(parity_sum(s, 1), parity_sum(s, 0));
    }
    let weighted: u32 = if even_start {
        odds * 3 + evens
    } else {
        odds + evens * 3
    };
    ((10 - weighted % 10) % 10) as u8
}

} // verus!
