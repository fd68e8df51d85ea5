//! This module provides types for generating ASCII representations of barcodes. This is useful for
//! testing and simple verification of barcode correctness.

use crate::error::Error;
use crate::sym::helpers::repeated;
use vstd::prelude::*;
use vstd::string::*;

verus! {

/// The character a module is drawn with: a space for 0, a hash for 1.
pub open spec fn ascii_char(b: u8) -> char {
    if b == 0 {
        ' '
    } else {
        '#'
    }
}

/// One rendered row: each module's character, `xdim` columns wide.
pub open spec fn ascii_row(s: Seq<u8>, xdim: nat) -> Seq<char>
    decreases s.len(),
{
    if s.len() == 0 {
        Seq::empty()
    } else {
        ascii_row(s.drop_last(), xdim) + repeated(ascii_char(s.last()), xdim)
    }
}

/// The full rendering: `height` copies of the row, joined by newlines.
pub open spec fn ascii_output(s: Seq<u8>, height: nat, xdim: nat) -> Seq<char>
    decreases height,
{
    if height == 0 {
        Seq::empty()
    } else if height == 1 {
        ascii_row(s, xdim)
    } else {
        ascii_output(s, (height - 1) as nat, xdim) + seq!['\n'] + ascii_row(s, xdim)
    }
}

proof fn lemma_ascii_row_step(s: Seq<u8>, xdim: nat, i: int)
    requires
        0 <= i < s.len(),
    ensures
        ascii_row(s.take(i + 1), xdim) == ascii_row(s.take(i), xdim) + repeated(
            ascii_char(s[i]),
            xdim,
        ),
{
    assert(s.take(i + 1).drop_last() =~= s.take(i));
    assert(s.take(i + 1).last() == s[i]);
}

/// Appends `n` columns of the character drawing module `b`.
fn append_module_run(out: &mut String, b: u8, n: usize)
    ensures
        final(out)@ == old(out)@ + repeated(ascii_char(b), n as nat),
{
    let mut k: usize = 0;
    assert(out@ =~= old(out)@ + repeated(ascii_char(b), 0));
    while k < n
        invariant
            k <= n,
            out@ == old(out)@ + repeated(ascii_char(b), k as nat),
        decreases n - k,
    {
        if b == 0 {
            proof {
                reveal_strlit(" ");
            }
            out.append(" ");
        } else {
            proof {
                reveal_strlit("#");
            }
            out.append("#");
        }
        k = k + 1;
        assert(out@ =~= old(out)@ + repeated(ascii_char(b), k as nat));
    }
}

/// The ASCII barcode generator type.
#[derive(Copy, Clone, Debug)]
pub struct ASCII {
    /// The height of the barcode (```self.height``` characters high for ASCII).
    pub height: usize,
    /// The X dimension. Specifies the width of the "narrow" bars.
    /// For ASCII, each will be ```self.xdim``` characters wide.
    pub xdim: usize,
}

impl ASCII {
    /// Returns a new ASCII with default values.
    pub fn new() -> (r: ASCII)
        ensures
            r.height == 10,
            r.xdim == 1,
    {
        ASCII { height: 10, xdim: 1 }
    }

    fn generate_row(&self, barcode: &[u8]) -> (r: String)
        ensures
            r@ == ascii_row(barcode@, self.xdim as nat),
    {
        let ghost s = barcode@;
        let mut out = String::new();
        let mut i: usize = 0;
        assert(out@ =~= ascii_row(s.take(0), self.xdim as nat));
        while i < barcode.len()
            invariant
                i <= s.len(),
                barcode@ == s,
                out@ == ascii_row(s.take(i as int), self.xdim as nat),
            decreases s.len() - i,
        {
            append_module_run(&mut out, barcode[i], self.xdim);
            proof {
                lemma_ascii_row_step(s, self.xdim as nat, i as int);
            }
            i = i + 1;
        }
        assert(s.take(s.len() as int) =~= s);
        out
    }

    /// Generates the given barcode. Returns a String of `height` rows of
    /// spaces and hashes, joined by newlines.
    pub fn generate(&self, barcode: &[u8]) -> (r: Result<String, Error>)
        ensures
            match r {
                Ok(s) => s@ == ascii_output(barcode@, self.height as nat, self.xdim as nat),
                Err(_) => false,
            },
    {
        let row = self.generate_row(barcode);
        let ghost rs = row@;
        let mut out = String::new();
        let mut i: usize = 0;
        while i < self.height
            invariant
                i <= self.height,
                row@ == rs,
                rs == ascii_row(barcode@, self.xdim as nat),
                out@ == (if i == 0 {
                    Seq::<char>::empty()
                } else if i < self.height {
                    ascii_output(barcode@, i as nat, self.xdim as nat) + seq!['\n']
                } else {
                    ascii_output(barcode@, i as nat, self.xdim as nat)
                }),
            decreases self.height - i,
        {
            out.append(row.as_str());
            proof {
                if i == 0 {
                    assert(out@ =~= ascii_output(barcode@, 1, self.xdim as nat));
                } else {
                    assert(out@ =~= ascii_output(barcode@, (i + 1) as nat, self.xdim as nat));
                }
            }
            if i < self.height - 1 {
                proof {
                    reveal_strlit("\n");
                    assert("\n"@ =~= seq!['\n']);
                }
                out.append("\n");
            }
            i = i + 1;
        }
        Ok(out)
    }
}

} // verus!
