//! Functionality for generating SVG representations of barcodes.
//!
//! An SVG can be constructed via the standard constructor pattern
//! or via a constructor method if you want default values.
//!
//! For example:
//!
//! ```rust
//! use barcoders::generators::svg::*;
//!
//! // Specify your own struct fields.
//! let svg = SVG{height: 80,
//!               xdim: 1,
//!               background: Color{rgba: [255, 0, 0, 255]},
//!               foreground: Color::black(),
//!               xmlns: Some(String::from("http://www.w3.org/2000/svg"))};
//!
//! // Or use the constructor for defaults (you must specify the height).
//! let svg = SVG::new(100)
//!               .xdim(2)
//!               .background(Color::white())
//!               .foreground(Color::black())
//!               .xmlns(String::from("http://www.w3.org/2000/svg"));
//! ```

use crate::error::Error;
use crate::generators::text::{append_decimal, append_digit, decimal_chars, digit_char};
use vstd::prelude::*;
use vstd::string::*;

verus! {

/// The lower-case hexadecimal character of a value below sixteen.
pub open spec fn hex_char(d: int) -> char {
    if d == 0 {
        '0'
    } else if d == 1 {
        '1'
    } else if d == 2 {
        '2'
    } else if d == 3 {
        '3'
    } else if d == 4 {
        '4'
    } else if d == 5 {
        '5'
    } else if d == 6 {
        '6'
    } else if d == 7 {
        '7'
    } else if d == 8 {
        '8'
    } else if d == 9 {
        '9'
    } else if d == 10 {
        'a'
    } else if d == 11 {
        'b'
    } else if d == 12 {
        'c'
    } else if d == 13 {
        'd'
    } else if d == 14 {
        'e'
    } else {
        'f'
    }
}

/// The two hexadecimal characters of one byte.
pub open spec fn hex_byte_chars(b: int) -> Seq<char> {
    seq![hex_char(b / 16), hex_char(b % 16)]
}

fn append_hex_digit(out: &mut String, d: u8)
    requires
        d < 16,
    ensures
        final(out)@ == old(out)@ + seq![hex_char(d as int)],
{
    if d < 10 {
        append_digit(out, d);
    } else {
        match d {
            10 => {
                proof {
                    reveal_strlit("a");
                    assert("a"@ =~= seq!['a']);
                }
                out.append("a");
            },
            11 => {
                proof {
                    reveal_strlit("b");
                    assert("b"@ =~= seq!['b']);
                }
                out.append("b");
            },
            12 => {
                proof {
                    reveal_strlit("c");
                    assert("c"@ =~= seq!['c']);
                }
                out.append("c");
            },
            13 => {
                proof {
                    reveal_strlit("d");
                    assert("d"@ =~= seq!['d']);
                }
                out.append("d");
            },
            14 => {
                proof {
                    reveal_strlit("e");
                    assert("e"@ =~= seq!['e']);
                }
                out.append("e");
            },
            _ => {
                proof {
                    reveal_strlit("f");
                    assert("f"@ =~= seq!['f']);
                }
                out.append("f");
            },
        }
    }
}

fn append_hex_byte(out: &mut String, b: u8)
    ensures
        final(out)@ == old(out)@ + hex_byte_chars(b as int),
{
    append_hex_digit(out, b / 16);
    append_hex_digit(out, b % 16);
    assert(out@ =~= old(out)@ + hex_byte_chars(b as int));
}

/// Represents a RGBA color for the barcode foreground and background.
#[derive(Copy, Clone, Debug)]
pub struct Color {
    /// Reg, Green, Blue, Alpha value.
    pub rgba: [u8; 4],
}

impl Color {
    /// Constructor.
    pub fn new(rgba: [u8; 4]) -> (r: Color)
        ensures
            r.rgba == rgba,
    {
        Color { rgba }
    }

    /// Constructor for black (#000000).
    pub fn black() -> (r: Color)
        ensures
            r.rgba@ == seq![0u8, 0u8, 0u8, 255u8],
    {
        let c = Color::new([0, 0, 0, 255]);
        assert(c.rgba@ =~= seq![0u8, 0u8, 0u8, 255u8]);
        c
    }

    /// Constructor for white (#FFFFFF).
    pub fn white() -> (r: Color)
        ensures
            r.rgba@ == seq![255u8, 255u8, 255u8, 255u8],
    {
        let c = Color::new([255, 255, 255, 255]);
        assert(c.rgba@ =~= seq![255u8, 255u8, 255u8, 255u8]);
        c
    }
}

/// The six hexadecimal characters of a color's red, green and blue bytes.
pub open spec fn color_hex(c: Color) -> Seq<char> {
    hex_byte_chars(c.rgba@[0] as int) + hex_byte_chars(c.rgba@[1] as int) + hex_byte_chars(
        c.rgba@[2] as int,
    )
}

/// A color's opacity in hundredths: its alpha byte scaled from 255 to 100,
/// rounded to the nearest hundredth.
pub open spec fn opacity_hundredths(a: int) -> int {
    (a * 200 + 255) / 510
}

/// The fill-opacity attribute of a color: empty at full opacity, else the
/// opacity written with two decimal places.
pub open spec fn opacity_attr(a: int) -> Seq<char> {
    let n = opacity_hundredths(a);
    if n == 100 {
        Seq::empty()
    } else {
        (" fill-opacity=\"0.")@ + seq![digit_char(n / 10), digit_char(n % 10)] + ("\" ")@
    }
}

fn append_opacity(out: &mut String, a: u8)
    ensures
        final(out)@ == old(out)@ + opacity_attr(a as int),
{
    let n = (a as u32 * 200 + 255) / 510;
    if n != 100 {
        out.append(" fill-opacity=\"0.");
        append_digit(out, (n / 10) as u8);
        append_digit(out, (n % 10) as u8);
        out.append("\" ");
        assert(out@ =~= old(out)@ + opacity_attr(a as int));
    }
}

/// The SVG barcode generator type.
#[derive(Clone, Debug)]
pub struct SVG {
    /// The height of the barcode (```self.height``` pixels high for SVG).
    pub height: u32,
    /// The X dimension. Specifies the width of the "narrow" bars.
    /// For SVG, each will be ```self.xdim``` pixels wide.
    pub xdim: u32,
    /// The RGBA color for the foreground.
    pub foreground: Color,
    /// The RGBA color for the foreground.
    pub background: Color,
    /// The XML namespace
    pub xmlns: Option<String>,
}

/// One rect element: its offset, width, the generator's height, the fill
/// color of the chosen style and that color's opacity.
pub open spec fn rect_chars(svg: SVG, style: u8, offset: int, width: int) -> Seq<char> {
    let fill = if style == 1 {
        svg.foreground
    } else {
        svg.background
    };
    ("<rect x=\"")@ + decimal_chars(offset) + ("\" y=\"0\" width=\"")@ + decimal_chars(width) + (
    "\" height=\"")@ + decimal_chars(svg.height as int) + ("\" fill=\"#")@ + color_hex(fill) + (
    "\"")@ + opacity_attr(fill.rgba@[3] as int) + ("/>")@
}

/// One foreground rect per bar module, at the module's offset.
pub open spec fn svg_rects(svg: SVG, s: Seq<u8>) -> Seq<char>
    decreases s.len(),
{
    if s.len() == 0 {
        Seq::empty()
    } else {
        svg_rects(svg, s.drop_last()) + (if s.last() == 1 {
            rect_chars(svg, 1, (s.len() - 1) * svg.xdim, svg.xdim as int)
        } else {
            Seq::empty()
        })
    }
}

proof fn lemma_svg_rects_step(svg: SVG, s: Seq<u8>, i: int)
    requires
        0 <= i < s.len(),
    ensures
        svg_rects(svg, s.take(i + 1)) == svg_rects(svg, s.take(i)) + (if s[i] == 1 {
            rect_chars(svg, 1, i * svg.xdim, svg.xdim as int)
        } else {
            Seq::empty()
        }),
{
    assert(s.take(i + 1).drop_last() =~= s.take(i));
    assert(s.take(i + 1).last() == s[i]);
}

/// The xmlns attribute, when a namespace was set.
pub open spec fn xmlns_chars(x: Option<String>) -> Seq<char> {
    match x {
        Some(uri) => ("xmlns=\"")@ + uri@ + ("\" ")@,
        None => Seq::empty(),
    }
}

/// The whole SVG document: the background rect over the full width followed
/// by one rect per bar module.
pub open spec fn svg_output(svg: SVG, s: Seq<u8>) -> Seq<char> {
    let w = s.len() * svg.xdim;
    ("<svg version=\"1.1\" ")@ + xmlns_chars(svg.xmlns) + ("viewBox=\"0 0 ")@ + decimal_chars(
        w as int,
    ) + (" ")@ + decimal_chars(svg.height as int) + ("\">")@ + rect_chars(svg, 0, 0, w as int)
        + svg_rects(svg, s) + ("</svg>")@
}

impl SVG {
    /// Returns a new SVG with default values.
    pub fn new(height: u32) -> (r: SVG)
        ensures
            r.height == height,
            r.xdim == 1,
            r.foreground.rgba@ == seq![0u8, 0u8, 0u8, 255u8],
            r.background.rgba@ == seq![255u8, 255u8, 255u8, 255u8],
            r.xmlns is None,
    {
        SVG {
            height,
            xdim: 1,
            foreground: Color::black(),
            background: Color::white(),
            xmlns: None,
        }
    }

    /// Set the xml namespace (xmlns) of the SVG
    pub fn xmlns(self, xmlns_uri: String) -> (r: Self)
        ensures
            r == (SVG { xmlns: Some(xmlns_uri), ..self }),
    {
        SVG { xmlns: Some(xmlns_uri), ..self }
    }

    /// Set the x dimensional bar width
    pub fn xdim(self, xdim: u32) -> (r: Self)
        ensures
            r == (SVG { xdim, ..self }),
    {
        SVG { xdim, ..self }
    }

    /// Set the foreground (bar) color
    pub fn foreground(self, color: Color) -> (r: Self)
        ensures
            r == (SVG { foreground: color, ..self }),
    {
        SVG { foreground: color, ..self }
    }

    /// Set the background color
    pub fn background(self, color: Color) -> (r: Self)
        ensures
            r == (SVG { background: color, ..self }),
    {
        SVG { background: color, ..self }
    }

    fn push_rect(&self, out: &mut String, style: u8, offset: usize, width: usize)
        ensures
            final(out)@ == old(out)@ + rect_chars(*self, style, offset as int, width as int),
    {
        let fill = if style == 1 {
            self.foreground
        } else {
            self.background
        };
        out.append("<rect x=\"");
        append_decimal(out, offset);
        out.append("\" y=\"0\" width=\"");
        append_decimal(out, width);
        out.append("\" height=\"");
        append_decimal(out, self.height as usize);
        out.append("\" fill=\"#");
        append_hex_byte(out, fill.rgba[0]);
        append_hex_byte(out, fill.rgba[1]);
        append_hex_byte(out, fill.rgba[2]);
        out.append("\"");
        append_opacity(out, fill.rgba[3]);
        out.append("/>");
        assert(out@ =~= old(out)@ + rect_chars(*self, style, offset as int, width as int));
    }

    /// Generates the given barcode as an SVG document, one rect per bar
    /// module over a background rect.
    pub fn generate(&self, barcode: &[u8]) -> (r: Result<String, Error>)
        requires
            barcode@.len() * self.xdim <= u32::MAX,
        ensures
            match r {
                Ok(s) => s@ == svg_output(*self, barcode@),
                Err(_) => false,
            },
    {
        let ghost s = barcode@;
        let width: usize = barcode.len() * (self.xdim as usize);
        assert(width as int == s.len() * self.xdim);
        let mut out = String::new();
        out.append("<svg version=\"1.1\" ");
        match &self.xmlns {
            Some(uri) => {
                out.append("xmlns=\"");
                out.append(uri.as_str());
                out.append("\" ");
            },
            None => {},
        }
        out.append("viewBox=\"0 0 ");
        append_decimal(&mut out, width);
        out.append(" ");
        append_decimal(&mut out, self.height as usize);
        out.append("\">");
        self.push_rect(&mut out, 0, 0, width);
        let ghost pre = out@;
        assert(out@ =~= pre + svg_rects(*self, s.take(0)));
        let mut i: usize = 0;
        while i < barcode.len()
            invariant
                i <= s.len(),
                barcode@ == s,
                s.len() * self.xdim <= u32::MAX,
                out@ == pre + svg_rects(*self, s.take(i as int)),
            decreases s.len() - i,
        {
            if barcode[i] == 1 {
                proof {
                    assert((i as int) * self.xdim <= s.len() * self.xdim) by (nonlinear_arith)
                        requires
                            0 <= self.xdim,
                            (i as int) <= s.len(),
                    ;
                }
                let offset: usize = i * (self.xdim as usize);
                self.push_rect(&mut out, 1, offset, self.xdim as usize);
            }
            proof {
                lemma_svg_rects_step(*self, s, i as int);
                assert(out@ =~= pre + svg_rects(*self, s.take(i + 1)));
            }
            i = i + 1;
        }
        assert(s.take(s.len() as int) =~= s);
        out.append("</svg>");
        assert(out@ =~= svg_output(*self, s));
        Ok(out)
    }
}

} // verus!
