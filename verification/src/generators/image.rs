//! Functionality for generating image representations of barcodes.
//!
//! Each enum variant can be constructed via the standard constructor pattern
//! or via a constructor method if you want default values.
//!
//! For example:
//!
//! ```rust
//! use barcoders::generators::image::*;
//!
//! // Specify your own struct fields.
//! let png = Image::PNG{height: 80,
//!                      xdim: 1,
//!                      rotation: Rotation::Zero,
//!                      foreground: Color::new([0, 0, 0, 255]),
//!                      background: Color::new([255, 255, 255, 255])};
//!
//! // Or use the constructor for defaults (you must specify the height).
//! let png = Image::png(100);
//! ```

use crate::error::Error;
use vstd::prelude::*;

verus! {

broadcast use vstd::slice::axiom_spec_len;

/// Represents a RGBA color for the barcode foreground and background.
#[derive(Copy, Clone, Debug)]
pub struct Color {
    rgba: [u8; 4],
}

/// The four channel bytes of a color.
pub closed spec fn color_bytes(c: Color) -> Seq<u8> {
    c.rgba@
}

impl Color {
    /// Constructor.
    pub fn new(rgba: [u8; 4]) -> (r: Color)
        ensures
            color_bytes(r) == rgba@,
    {
        Color { rgba }
    }

    /// Constructor for black (#000000).
    pub fn black() -> (r: Color)
        ensures
            color_bytes(r) == seq![0u8, 0u8, 0u8, 255u8],
    {
        let c = Color::new([0, 0, 0, 255]);
        assert(color_bytes(c) =~= seq![0u8, 0u8, 0u8, 255u8]);
        c
    }

    /// Constructor for white (#FFFFFF).
    pub fn white() -> (r: Color)
        ensures
            color_bytes(r) == seq![255u8, 255u8, 255u8, 255u8],
    {
        let c = Color::new([255, 255, 255, 255]);
        assert(color_bytes(c) =~= seq![255u8, 255u8, 255u8, 255u8]);
        c
    }
}

/// Possible rotation values for images.
#[derive(Copy, Clone, Debug)]
pub enum Rotation {
    /// No rotation. This is the default.
    Zero,
    /// Rotated 90 degrees.
    Ninety,
    /// Rotated 180 degrees.
    OneEighty,
    /// Rotated 270 degrees.
    TwoSeventy,
}

/// `n` copies of the byte group `p`, laid end to end.
pub open spec fn repeat_chunk(p: Seq<u8>, n: nat) -> Seq<u8>
    decreases n,
{
    if n == 0 {
        Seq::empty()
    } else {
        repeat_chunk(p, (n - 1) as nat) + p
    }
}

proof fn lemma_repeat_chunk_len(p: Seq<u8>, n: nat)
    ensures
        repeat_chunk(p, n).len() == (n as int) * (p.len() as int),
    decreases n,
{
    if n > 0 {
        lemma_repeat_chunk_len(p, (n - 1) as nat);
        assert(repeat_chunk(p, n) == repeat_chunk(p, (n - 1) as nat) + p);
        assert(repeat_chunk(p, n).len() == repeat_chunk(p, (n - 1) as nat).len() + p.len());
        assert((n as int - 1) * (p.len() as int) + p.len() == (n as int) * (p.len() as int))
            by (nonlinear_arith);
    } else {
        assert(repeat_chunk(p, n).len() == 0);
        assert((n as int) * (p.len() as int) == 0) by (nonlinear_arith)
            requires
                n == 0,
        ;
    }
}

/// The pixels of one module: the background color for a space, the
/// foreground color for a bar, `xdim` pixels wide.
pub open spec fn module_pixels(fg: Color, bg: Color, b: u8, xdim: nat) -> Seq<u8> {
    repeat_chunk(
        if b == 0 {
            color_bytes(bg)
        } else {
            color_bytes(fg)
        },
        xdim,
    )
}

/// One row of the rendered image: each module's pixels in order.
pub open spec fn image_row(s: Seq<u8>, xdim: nat, fg: Color, bg: Color) -> Seq<u8>
    decreases s.len(),
{
    if s.len() == 0 {
        Seq::empty()
    } else {
        image_row(s.drop_last(), xdim, fg, bg) + module_pixels(fg, bg, s.last(), xdim)
    }
}

proof fn lemma_image_row_step(s: Seq<u8>, xdim: nat, fg: Color, bg: Color, i: int)
    requires
        0 <= i < s.len(),
    ensures
        image_row(s.take(i + 1), xdim, fg, bg) == image_row(s.take(i), xdim, fg, bg)
            + module_pixels(fg, bg, s[i], xdim),
{
    assert(s.take(i + 1).drop_last() =~= s.take(i));
    assert(s.take(i + 1).last() == s[i]);
}

proof fn lemma_image_row_len(s: Seq<u8>, xdim: nat, fg: Color, bg: Color)
    ensures
        image_row(s, xdim, fg, bg).len() == (s.len() as int) * (xdim as int) * 4,
    decreases s.len(),
{
    if s.len() > 0 {
        lemma_image_row_len(s.drop_last(), xdim, fg, bg);
        lemma_repeat_chunk_len(
            if s.last() == 0 {
                color_bytes(bg)
            } else {
                color_bytes(fg)
            },
            xdim,
        );
        assert((s.len() as int - 1) * (xdim as int) * 4 + (xdim as int) * 4 == (s.len() as int) * (
        xdim as int) * 4) by (nonlinear_arith);
    }
}

/// The unrotated rendering: `height` copies of the row, top to bottom, as
/// RGBA bytes in row-major order.
pub open spec fn image_grid(s: Seq<u8>, height: nat, xdim: nat, fg: Color, bg: Color) -> Seq<u8> {
    repeat_chunk(image_row(s, xdim, fg, bg), height)
}

/// A `w` by `h` RGBA grid rotated a quarter turn clockwise: the pixel at
/// column x and row y of the result is the source pixel at column y and row
/// `h - 1 - x`.
pub open spec fn rotate90_grid(w: int, h: int, d: Seq<u8>) -> Seq<u8> {
    Seq::new(
        d.len(),
        |k: int|
            {
                let x = (k / 4) % h;
                let y = (k / 4) / h;
                let c = k % 4;
                d[4 * ((h - 1 - x) * w + y) + c]
            },
    )
}

/// A `w` by `h` RGBA grid rotated a half turn: the pixel at column x and
/// row y of the result is the source pixel at column `w - 1 - x` and row
/// `h - 1 - y`.
pub open spec fn rotate180_grid(w: int, h: int, d: Seq<u8>) -> Seq<u8> {
    Seq::new(
        d.len(),
        |k: int|
            {
                let x = (k / 4) % w;
                let y = (k / 4) / w;
                let c = k % 4;
                d[4 * ((h - 1 - y) * w + (w - 1 - x)) + c]
            },
    )
}

/// A `w` by `h` RGBA grid rotated a quarter turn counter-clockwise: the
/// pixel at column x and row y of the result is the source pixel at column
/// `w - 1 - y` and row x.
pub open spec fn rotate270_grid(w: int, h: int, d: Seq<u8>) -> Seq<u8> {
    Seq::new(
        d.len(),
        |k: int|
            {
                let x = (k / 4) % h;
                let y = (k / 4) / h;
                let c = k % 4;
                d[4 * (x * w + (w - 1 - y)) + c]
            },
    )
}

/// A rendered RGBA image: a wrapper around the image buffer that the
/// `image` crate's operations work on.
#[verifier::external_body]
#[derive(Debug)]
pub struct RgbaBuffer(image::ImageBuffer<image::Rgba<u8>, Vec<u8>>);

/// What a buffer holds: its RGBA bytes in row-major order.
pub uninterp spec fn buffer_pixels(b: RgbaBuffer) -> Seq<u8>;

/// A buffer's width and height.
pub uninterp spec fn buffer_dims(b: RgbaBuffer) -> (u32, u32);

impl RgbaBuffer {
    /// Relies on image::ImageBuffer::width, which returns the width the
    /// buffer was made with.
    #[verifier::external_body]
    pub fn width(&self) -> (r: u32)
        ensures
            r == buffer_dims(*self).0,
    {
        self.0.width()
    }

    /// Relies on image::ImageBuffer::height, which returns the height the
    /// buffer was made with.
    #[verifier::external_body]
    pub fn height(&self) -> (r: u32)
        ensures
            r == buffer_dims(*self).1,
    {
        self.0.height()
    }

    /// Relies on image::ImageBuffer::into_raw, which hands back the pixel
    /// container unchanged.
    #[verifier::external_body]
    pub fn into_raw(self) -> (r: Vec<u8>)
        ensures
            r@ == buffer_pixels(self),
    {
        self.0.into_raw()
    }
}

/// Relies on image::ImageBuffer::from_raw: a container holding exactly
/// width * height RGBA pixels is wrapped, unchanged, with the given
/// dimensions. The call itself also accepts a larger container and keeps
/// all of it; the exact-size bound keeps the stored pixels in step with the
/// stored dimensions.
#[verifier::external_body]
fn buffer_from_raw(width: u32, height: u32, data: Vec<u8>) -> (r: Option<RgbaBuffer>)
    requires
        data@.len() == 4 * width * height,
    ensures
        r is Some,
        r matches Some(b) ==> buffer_pixels(b) == data@ && buffer_dims(b) == (width, height),
{
    match image::ImageBuffer::from_raw(width, height, data) {
        Some(b) => Some(RgbaBuffer(b)),
        None => None,
    }
}

/// Relies on image::imageops::rotate90, which rotates a quarter turn
/// clockwise.
#[verifier::external_body]
fn rotate90_buffer(img: &RgbaBuffer) -> (r: RgbaBuffer)
    requires
        buffer_pixels(*img).len() == 4 * buffer_dims(*img).0 * buffer_dims(*img).1,
    ensures
        buffer_dims(r) == (buffer_dims(*img).1, buffer_dims(*img).0),
        buffer_pixels(r) == rotate90_grid(
            buffer_dims(*img).0 as int,
            buffer_dims(*img).1 as int,
            buffer_pixels(*img),
        ),
{
    RgbaBuffer(image::imageops::rotate90(&img.0))
}

/// Relies on image::imageops::rotate180, which rotates a half turn.
#[verifier::external_body]
fn rotate180_buffer(img: &RgbaBuffer) -> (r: RgbaBuffer)
    requires
        buffer_pixels(*img).len() == 4 * buffer_dims(*img).0 * buffer_dims(*img).1,
    ensures
        buffer_dims(r) == buffer_dims(*img),
        buffer_pixels(r) == rotate180_grid(
            buffer_dims(*img).0 as int,
            buffer_dims(*img).1 as int,
            buffer_pixels(*img),
        ),
{
    RgbaBuffer(image::imageops::rotate180(&img.0))
}

/// Relies on image::imageops::rotate270, which rotates a quarter turn
/// counter-clockwise.
#[verifier::external_body]
fn rotate270_buffer(img: &RgbaBuffer) -> (r: RgbaBuffer)
    requires
        buffer_pixels(*img).len() == 4 * buffer_dims(*img).0 * buffer_dims(*img).1,
    ensures
        buffer_dims(r) == (buffer_dims(*img).1, buffer_dims(*img).0),
        buffer_pixels(r) == rotate270_grid(
            buffer_dims(*img).0 as int,
            buffer_dims(*img).1 as int,
            buffer_pixels(*img),
        ),
{
    RgbaBuffer(image::imageops::rotate270(&img.0))
}

/// The GIF encoding of an RGBA image with the given dimensions and pixels.
pub uninterp spec fn gif_bytes(width: u32, height: u32, pixels: Seq<u8>) -> Seq<u8>;

/// The PNG encoding of an RGBA image with the given dimensions and pixels.
pub uninterp spec fn png_bytes(width: u32, height: u32, pixels: Seq<u8>) -> Seq<u8>;

/// The WEBP encoding of an RGBA image with the given dimensions and pixels.
pub uninterp spec fn webp_bytes(width: u32, height: u32, pixels: Seq<u8>) -> Seq<u8>;

/// Relies on image::DynamicImage::write_to with the GIF format: the encoded
/// bytes depend on the image dimensions and pixels alone, and the only
/// failing step is a dimension that does not fit in sixteen bits.
#[verifier::external_body]
fn encode_gif(img: RgbaBuffer) -> (r: Result<Vec<u8>, Error>)
    ensures
        buffer_dims(img).0 <= 65535 && buffer_dims(img).1 <= 65535 ==> r is Ok,
        r matches Ok(v) ==> v@ == gif_bytes(
            buffer_dims(img).0,
            buffer_dims(img).1,
            buffer_pixels(img),
        ),
        r matches Err(e) ==> e == Error::Generate,
{
    let mut bytes: Vec<u8> = vec![];
    let out = image::DynamicImage::ImageRgba8(img.0).write_to(
        &mut std::io::Cursor::new(&mut bytes),
        image::ImageFormat::Gif,
    );
    match out {
        Ok(_) => Ok(bytes),
        _ => Err(Error::Generate),
    }
}

/// Relies on image::DynamicImage::write_to with the PNG format: the encoded
/// bytes depend on the image dimensions and pixels alone, and only a zero
/// dimension is refused.
#[verifier::external_body]
fn encode_png(img: RgbaBuffer) -> (r: Result<Vec<u8>, Error>)
    ensures
        buffer_dims(img).0 >= 1 && buffer_dims(img).1 >= 1 ==> r is Ok,
        r matches Ok(v) ==> v@ == png_bytes(
            buffer_dims(img).0,
            buffer_dims(img).1,
            buffer_pixels(img),
        ),
        r matches Err(e) ==> e == Error::Generate,
{
    let mut bytes: Vec<u8> = vec![];
    let out = image::DynamicImage::ImageRgba8(img.0).write_to(
        &mut std::io::Cursor::new(&mut bytes),
        image::ImageFormat::Png,
    );
    match out {
        Ok(_) => Ok(bytes),
        _ => Err(Error::Generate),
    }
}

/// Relies on image::DynamicImage::write_to with the WEBP format: the
/// encoded bytes depend on the image dimensions and pixels alone, and the
/// lossless encoder accepts exactly the dimensions from one up to 16384.
#[verifier::external_body]
fn encode_webp(img: RgbaBuffer) -> (r: Result<Vec<u8>, Error>)
    ensures
        1 <= buffer_dims(img).0 <= 16384 && 1 <= buffer_dims(img).1 <= 16384 ==> r is Ok,
        r matches Ok(v) ==> v@ == webp_bytes(
            buffer_dims(img).0,
            buffer_dims(img).1,
            buffer_pixels(img),
        ),
        r matches Err(e) ==> e == Error::Generate,
{
    let mut bytes: Vec<u8> = vec![];
    let out = image::DynamicImage::ImageRgba8(img.0).write_to(
        &mut std::io::Cursor::new(&mut bytes),
        image::ImageFormat::WebP,
    );
    match out {
        Ok(_) => Ok(bytes),
        _ => Err(Error::Generate),
    }
}

/// The image generator type.
#[derive(Copy, Clone, Debug)]
pub enum Image {
    /// GIF image generator type.
    GIF {
        /// The height of the barcode in pixels.
        height: u32,
        /// The X dimension. Specifies the width of the "narrow" bars, each
        /// of which will be ```self.xdim``` pixels wide.
        xdim: u32,
        /// The rotation to apply to the generated barcode.
        rotation: Rotation,
        /// The RGBA color for the foreground.
        foreground: Color,
        /// The RGBA color for the background.
        background: Color,
    },
    /// PNG image generator type.
    PNG {
        /// The height of the barcode in pixels.
        height: u32,
        /// The X dimension. Specifies the width of the "narrow" bars, each
        /// of which will be ```self.xdim``` pixels wide.
        xdim: u32,
        /// The rotation to apply to the generated barcode.
        rotation: Rotation,
        /// The RGBA color for the foreground.
        foreground: Color,
        /// The RGBA color for the background.
        background: Color,
    },
    /// WEBP image generator type.
    WEBP {
        /// The height of the barcode in pixels.
        height: u32,
        /// The X dimension. Specifies the width of the "narrow" bars, each
        /// of which will be ```self.xdim``` pixels wide.
        xdim: u32,
        /// The rotation to apply to the generated barcode.
        rotation: Rotation,
        /// The RGBA color for the foreground.
        foreground: Color,
        /// The RGBA color for the background.
        background: Color,
    },
    /// Image Buffer generator type.
    ImageBuffer {
        /// The height of the barcode in pixels.
        height: u32,
        /// The X dimension. Specifies the width of the "narrow" bars, each
        /// of which will be ```self.xdim``` pixels wide.
        xdim: u32,
        /// The rotation to apply to the generated barcode.
        rotation: Rotation,
        /// The RGBA color for the foreground.
        foreground: Color,
        /// The RGBA color for the background.
        background: Color,
    },
}

/// The height setting of a generator.
pub open spec fn img_height(img: Image) -> u32 {
    match img {
        Image::GIF { height, .. } => height,
        Image::PNG { height, .. } => height,
        Image::WEBP { height, .. } => height,
        Image::ImageBuffer { height, .. } => height,
    }
}

/// The bar width setting of a generator.
pub open spec fn img_xdim(img: Image) -> u32 {
    match img {
        Image::GIF { xdim, .. } => xdim,
        Image::PNG { xdim, .. } => xdim,
        Image::WEBP { xdim, .. } => xdim,
        Image::ImageBuffer { xdim, .. } => xdim,
    }
}

/// The rotation setting of a generator.
pub open spec fn img_rotation(img: Image) -> Rotation {
    match img {
        Image::GIF { rotation, .. } => rotation,
        Image::PNG { rotation, .. } => rotation,
        Image::WEBP { rotation, .. } => rotation,
        Image::ImageBuffer { rotation, .. } => rotation,
    }
}

/// The foreground color of a generator.
pub open spec fn img_foreground(img: Image) -> Color {
    match img {
        Image::GIF { foreground, .. } => foreground,
        Image::PNG { foreground, .. } => foreground,
        Image::WEBP { foreground, .. } => foreground,
        Image::ImageBuffer { foreground, .. } => foreground,
    }
}

/// The background color of a generator.
pub open spec fn img_background(img: Image) -> Color {
    match img {
        Image::GIF { background, .. } => background,
        Image::PNG { background, .. } => background,
        Image::WEBP { background, .. } => background,
        Image::ImageBuffer { background, .. } => background,
    }
}

/// The rendered image for a barcode: its width, height and RGBA pixels
/// after the configured rotation.
pub open spec fn rendered(img: Image, s: Seq<u8>) -> (int, int, Seq<u8>) {
    let w = s.len() * img_xdim(img);
    let h = img_height(img) as int;
    let g = image_grid(s, img_height(img) as nat, img_xdim(img) as nat, img_foreground(img), img_background(img));
    match img_rotation(img) {
        Rotation::Zero => (w, h, g),
        Rotation::Ninety => (h, w, rotate90_grid(w, h, g)),
        Rotation::OneEighty => (w, h, rotate180_grid(w, h, g)),
        Rotation::TwoSeventy => (h, w, rotate270_grid(w, h, g)),
    }
}

/// Appends the four channel bytes of `c`.
fn push_color(out: &mut Vec<u8>, c: Color)
    ensures
        final(out)@ == old(out)@ + color_bytes(c),
{
    out.push(c.rgba[0]);
    out.push(c.rgba[1]);
    out.push(c.rgba[2]);
    out.push(c.rgba[3]);
    assert(out@ =~= old(out)@ + color_bytes(c));
}

/// Paints the unrotated pixel grid of a barcode.
fn place_pixels(barcode: &[u8], height: u32, xdim: u32, fg: Color, bg: Color) -> (r: Vec<u8>)
    requires
        barcode@.len() * xdim <= u32::MAX,
        4 * (barcode@.len() * xdim) * height <= usize::MAX,
    ensures
        r@ == image_grid(barcode@, height as nat, xdim as nat, fg, bg),
        r@.len() == 4 * (barcode@.len() * xdim) * height,
{
    let ghost s = barcode@;
    let mut row: Vec<u8> = Vec::new();
    let mut i: usize = 0;
    assert(row@ =~= image_row(s.take(0), xdim as nat, fg, bg));
    while i < barcode.len()
        invariant
            i <= s.len(),
            barcode@ == s,
            row@ == image_row(s.take(i as int), xdim as nat, fg, bg),
        decreases s.len() - i,
    {
        let c = if barcode[i] == 0 {
            bg
        } else {
            fg
        };
        let ghost chunk = color_bytes(c);
        let ghost pre = row@;
        let mut k: u32 = 0;
        assert(row@ =~= pre + repeat_chunk(chunk, 0));
        while k < xdim
            invariant
                k <= xdim,
                color_bytes(c) == chunk,
                row@ == pre + repeat_chunk(chunk, k as nat),
            decreases xdim - k,
        {
            push_color(&mut row, c);
            k = k + 1;
            assert(row@ =~= pre + repeat_chunk(chunk, k as nat));
        }
        proof {
            lemma_image_row_step(s, xdim as nat, fg, bg, i as int);
            assert(row@ =~= image_row(s.take(i + 1), xdim as nat, fg, bg));
        }
        i = i + 1;
    }
    assert(s.take(s.len() as int) =~= s);
    proof {
        lemma_image_row_len(s, xdim as nat, fg, bg);
    }
    let ghost rowdata = row@;
    let mut out: Vec<u8> = Vec::new();
    let mut y: u32 = 0;
    assert(out@ =~= repeat_chunk(rowdata, 0));
    while y < height
        invariant
            y <= height,
            row@ == rowdata,
            rowdata.len() == s.len() * xdim * 4,
            4 * (s.len() * xdim) * height <= usize::MAX,
            out@ == repeat_chunk(rowdata, y as nat),
        decreases height - y,
    {
        proof {
            lemma_repeat_chunk_len(rowdata, y as nat);
            assert((y as int) * (s.len() * xdim * 4) + s.len() * xdim * 4 <= 4 * (s.len() * xdim)
                * height) by (nonlinear_arith)
                requires
                    (y as int) < height,
                    rowdata.len() == s.len() * xdim * 4,
            ;
        }
        let ghost pre = out@;
        let mut j: usize = 0;
        while j < row.len()
            invariant
                j <= rowdata.len(),
                row@ == rowdata,
                pre.len() + rowdata.len() <= usize::MAX,
                out@ == pre + rowdata.take(j as int),
            decreases rowdata.len() - j,
        {
            let b = row[j];
            out.push(b);
            j = j + 1;
            assert(out@ =~= pre + rowdata.take(j as int));
        }
        assert(rowdata.take(rowdata.len() as int) =~= rowdata);
        y = y + 1;
        assert(out@ =~= repeat_chunk(rowdata, y as nat));
    }
    proof {
        lemma_repeat_chunk_len(rowdata, height as nat);
        assert((height as int) * (s.len() * xdim * 4) == 4 * (s.len() * xdim) * height)
            by (nonlinear_arith);
    }
    out
}

impl Image {
    /// Returns a new GIF with default values.
    pub fn gif(height: u32) -> (r: Image)
        ensures
            r matches Image::GIF { .. },
            img_height(r) == height,
            img_xdim(r) == 1,
            img_rotation(r) is Zero,
            color_bytes(img_foreground(r)) == seq![0u8, 0u8, 0u8, 255u8],
            color_bytes(img_background(r)) == seq![255u8, 255u8, 255u8, 255u8],
    {
        let r = Image::GIF {
            height,
            xdim: 1,
            rotation: Rotation::Zero,
            foreground: Color::black(),
            background: Color::white(),
        };
        r
    }

    /// Returns a new PNG with default values.
    pub fn png(height: u32) -> (r: Image)
        ensures
            r matches Image::PNG { .. },
            img_height(r) == height,
            img_xdim(r) == 1,
            img_rotation(r) is Zero,
            color_bytes(img_foreground(r)) == seq![0u8, 0u8, 0u8, 255u8],
            color_bytes(img_background(r)) == seq![255u8, 255u8, 255u8, 255u8],
    {
        let r = Image::PNG {
            height,
            xdim: 1,
            rotation: Rotation::Zero,
            foreground: Color::black(),
            background: Color::white(),
        };
        r
    }

    /// Returns a new WEBP with default values.
    pub fn webp(height: u32) -> (r: Image)
        ensures
            r matches Image::WEBP { .. },
            img_height(r) == height,
            img_xdim(r) == 1,
            img_rotation(r) is Zero,
            color_bytes(img_foreground(r)) == seq![0u8, 0u8, 0u8, 255u8],
            color_bytes(img_background(r)) == seq![255u8, 255u8, 255u8, 255u8],
    {
        let r = Image::WEBP {
            height,
            xdim: 1,
            rotation: Rotation::Zero,
            foreground: Color::black(),
            background: Color::white(),
        };
        r
    }

    /// Returns a new ImageBuffer with default values.
    pub fn image_buffer(height: u32) -> (r: Image)
        ensures
            r matches Image::ImageBuffer { .. },
            img_height(r) == height,
            img_xdim(r) == 1,
            img_rotation(r) is Zero,
            color_bytes(img_foreground(r)) == seq![0u8, 0u8, 0u8, 255u8],
            color_bytes(img_background(r)) == seq![255u8, 255u8, 255u8, 255u8],
    {
        let r = Image::ImageBuffer {
            height,
            xdim: 1,
            rotation: Rotation::Zero,
            foreground: Color::black(),
            background: Color::white(),
        };
        r
    }

    /// The five settings of this generator, whatever its output format.
    fn params(&self) -> (r: (u32, u32, Rotation, Color, Color))
        ensures
            r.0 == img_height(*self),
            r.1 == img_xdim(*self),
            r.2 == img_rotation(*self),
            r.3 == img_foreground(*self),
            r.4 == img_background(*self),
    {
        match *self {
            Image::GIF { height, xdim, rotation, foreground, background } => (
                height,
                xdim,
                rotation,
                foreground,
                background,
            ),
            Image::PNG { height, xdim, rotation, foreground, background } => (
                height,
                xdim,
                rotation,
                foreground,
                background,
            ),
            Image::WEBP { height, xdim, rotation, foreground, background } => (
                height,
                xdim,
                rotation,
                foreground,
                background,
            ),
            Image::ImageBuffer { height, xdim, rotation, foreground, background } => (
                height,
                xdim,
                rotation,
                foreground,
                background,
            ),
        }
    }

    /// Generates the given barcode to an image buffer holding the rendered,
    /// rotated pixels.
    pub fn generate_buffer(self, barcode: &[u8]) -> (r: Result<RgbaBuffer, Error>)
        requires
            barcode@.len() * img_xdim(self) <= u32::MAX,
            4 * (barcode@.len() * img_xdim(self)) * img_height(self) <= usize::MAX,
        ensures
            match r {
                Ok(b) => {
                    let (w, h, g) = rendered(self, barcode@);
                    buffer_dims(b) == (w as u32, h as u32) && buffer_pixels(b) == g
                },
                Err(_) => false,
            },
    {
        let p = self.params();
        let grid = place_pixels(barcode, p.0, p.1, p.3, p.4);
        let wide: usize = barcode.len() * (p.1 as usize);
        let w: u32 = wide as u32;
        let buf = match buffer_from_raw(w, p.0, grid) {
            Some(b) => b,
            None => {
                proof {
                    assert(false);
                }
                return Err(Error::Generate);
            },
        };
        match p.2 {
            Rotation::Zero => Ok(buf),
            Rotation::Ninety => Ok(rotate90_buffer(&buf)),
            Rotation::OneEighty => Ok(rotate180_buffer(&buf)),
            Rotation::TwoSeventy => Ok(rotate270_buffer(&buf)),
        }
    }

    /// Generates the given barcode as encoded image bytes in this
    /// generator's format; an `ImageBuffer` generator has no byte format
    /// and always signals a generation error.
    pub fn generate(&self, barcode: &[u8]) -> (r: Result<Vec<u8>, Error>)
        requires
            barcode@.len() * img_xdim(*self) <= u32::MAX,
            4 * (barcode@.len() * img_xdim(*self)) * img_height(*self) <= usize::MAX,
        ensures
            match r {
                Ok(v) => {
                    let (w, h, g) = rendered(*self, barcode@);
                    match *self {
                        Image::GIF { .. } => v@ == gif_bytes(w as u32, h as u32, g),
                        Image::PNG { .. } => v@ == png_bytes(w as u32, h as u32, g),
                        Image::WEBP { .. } => v@ == webp_bytes(w as u32, h as u32, g),
                        Image::ImageBuffer { .. } => false,
                    }
                },
                Err(e) => e == Error::Generate,
            },
            *self matches Image::GIF { .. } && rendered(*self, barcode@).0 <= 65535 && rendered(
                *self,
                barcode@,
            ).1 <= 65535 ==> r is Ok,
            *self matches Image::PNG { .. } && rendered(*self, barcode@).0 >= 1 && rendered(
                *self,
                barcode@,
            ).1 >= 1 ==> r is Ok,
            *self matches Image::WEBP { .. } && 1 <= rendered(*self, barcode@).0 <= 16384 && 1
                <= rendered(*self, barcode@).1 <= 16384 ==> r is Ok,
    {
        match *self {
            Image::ImageBuffer { .. } => {
                return Err(Error::Generate);
            },
            _ => {},
        }
        let buf = match (*self).generate_buffer(barcode) {
            Ok(b) => b,
            Err(_) => {
                proof {
                    assert(false);
                }
                return Err(Error::Generate);
            },
        };
        match *self {
            Image::GIF { .. } => encode_gif(buf),
            Image::PNG { .. } => encode_png(buf),
            Image::WEBP { .. } => encode_webp(buf),
            Image::ImageBuffer { .. } => Err(Error::Generate),
        }
    }
}

} // verus!
