//! Functionality for generating JSON representations of barcodes.
//!
//! This is useful for passing encoded data to third-party systems in a conventional format.
//!
//! Output will be of the format:
//! ```javascript
//! {
//!   "height": 10,
//!   "xdim": 1,
//!   "encoding": [1, 0, 0, 1, 1, 0, ...],
//! }
//! ```

use crate::error::Error;
use crate::generators::text::{append_decimal, decimal_chars};
use vstd::prelude::*;
use vstd::string::*;

verus! {

/// The character a module is written as: every non-zero module counts as a
/// bar.
pub open spec fn json_bit_char(b: u8) -> char {
    if b == 0 {
        '0'
    } else {
        '1'
    }
}

/// The comma-separated module list.
pub open spec fn json_bits(s: Seq<u8>) -> Seq<char>
    decreases s.len(),
{
    if s.len() == 0 {
        Seq::empty()
    } else if s.len() == 1 {
        seq![json_bit_char(s[0])]
    } else {
        json_bits(s.drop_last()) + seq![',', json_bit_char(s.last())]
    }
}

proof fn lemma_json_bits_step(s: Seq<u8>, i: int)
    requires
        1 <= i < s.len(),
    ensures
        json_bits(s.take(i + 1)) == json_bits(s.take(i)) + seq![',', json_bit_char(s[i])],
{
    assert(s.take(i + 1).drop_last() =~= s.take(i));
    assert(s.take(i + 1).last() == s[i]);
}

/// The whole JSON object for a barcode with the given settings.
pub open spec fn json_output(s: Seq<u8>, height: int, xdim: int) -> Seq<char> {
    ("{\"height\":")@ + decimal_chars(height) + (",\"xdim\":")@ + decimal_chars(xdim) + (
    ",\"encoding\":[")@ + json_bits(s) + ("]}")@
}

/// The JSON  barcode generator type.
#[derive(Copy, Clone, Debug)]
pub struct JSON {
    /// The height of the barcode.
    pub height: usize,
    /// The X dimension. Specifies the width of the "narrow" bars.
    pub xdim: usize,
}

impl Default for JSON {
    fn default() -> (r: Self)
        ensures
            r.height == 10,
            r.xdim == 1,
    {
        Self::new()
    }
}

impl JSON {
    /// Returns a new JSON with default values.
    pub fn new() -> (r: JSON)
        ensures
            r.height == 10,
            r.xdim == 1,
    {
        JSON { height: 10, xdim: 1 }
    }

    /// Generates the given barcode as a JSON object holding the height, the
    /// bar width and the module list.
    pub fn generate(&self, barcode: &[u8]) -> (r: Result<String, Error>)
        ensures
            match r {
                Ok(s) => s@ == json_output(barcode@, self.height as int, self.xdim as int),
                Err(_) => false,
            },
    {
        let ghost s = barcode@;
        let mut out = String::new();
        out.append("{\"height\":");
        append_decimal(&mut out, self.height);
        out.append(",\"xdim\":");
        append_decimal(&mut out, self.xdim);
        out.append(",\"encoding\":[");
        let ghost pre = out@;
        assert(out@ =~= pre + json_bits(s.take(0)));
        let mut i: usize = 0;
        while i < barcode.len()
            invariant
                i <= s.len(),
                barcode@ == s,
                out@ == pre + json_bits(s.take(i as int)),
            decreases s.len() - i,
        {
            if i > 0 {
                proof {
                    reveal_strlit(",");
                    assert(","@ =~= seq![',']);
                }
                out.append(",");
            }
            let b = barcode[i];
            if b == 0 {
                proof {
                    reveal_strlit("0");
                    assert("0"@ =~= seq!['0']);
                }
                out.append("0");
            } else {
                proof {
                    reveal_strlit("1");
                    assert("1"@ =~= seq!['1']);
                }
                out.append("1");
            }
            proof {
                if i > 0 {
                    lemma_json_bits_step(s, i as int);
                    assert(out@ =~= pre + json_bits(s.take(i + 1)));
                } else {
                    assert(s.take(1)[0] == s[0]);
                    assert(out@ =~= pre + json_bits(s.take(1)));
                }
            }
            i = i + 1;
        }
        assert(s.take(s.len() as int) =~= s);
        out.append("]}");
        assert(out@ =~= json_output(s, self.height as int, self.xdim as int));
        Ok(out)
    }
}

} // verus!
