use barcoders::generators::image::{Color, Image, Rotation};
use barcoders::sym::codabar::Codabar;
use barcoders::sym::code11::Code11;
use barcoders::sym::code128::Code128;
use barcoders::sym::code39::Code39;
use barcoders::sym::code93::Code93;
use barcoders::sym::ean13::EAN13;
use barcoders::sym::ean8::EAN8;
use barcoders::sym::ean_supp::{EAN2, EAN5};
use barcoders::sym::tf::ToF;

#[test]
fn image_ean_13_as_gif() {
    let ean13 = EAN13::new(b"750103131130").unwrap();
    let gif = Image::gif(80);
    let generated = gif.generate(&ean13.encode()[..]).unwrap();

    assert_eq!(generated.len(), 918);
}

#[test]
fn image_ean_13_as_png() {
    let ean13 = EAN13::new(b"750103131130").unwrap();
    let png = Image::PNG {
        height: 100,
        xdim: 1,
        rotation: Rotation::Zero,
        foreground: Color::new([0, 0, 0, 255]),
        background: Color::new([255, 255, 255, 255]),
    };
    let generated = png.generate(&ean13.encode()[..]).unwrap();

    assert_eq!(generated.len(), 872);
}

#[test]
fn rotated_ean_13_as_png() {
    let ean13 = EAN13::new(b"750103131130").unwrap();
    let png = Image::PNG {
        height: 100,
        xdim: 1,
        rotation: Rotation::Ninety,
        foreground: Color::new([0, 0, 0, 255]),
        background: Color::new([255, 255, 255, 255]),
    };
    let generated = png.generate(&ean13.encode()[..]).unwrap();

    assert_eq!(generated.len(), 716);
}

#[test]
fn ean_13_as_webp() {
    let ean13 = EAN13::new(b"999988881234").unwrap();
    let webp = Image::WEBP {
        height: 100,
        xdim: 3,
        rotation: Rotation::Zero,
        foreground: Color::new([0, 0, 0, 255]),
        background: Color::new([255, 255, 255, 255]),
    };
    let generated = webp.generate(&ean13.encode()[..]).unwrap();

   assert_eq!(generated.len(), 150);
}

#[test]
fn ean_13_as_image_buffer() {
    let ean13 = EAN13::new(b"750399599113").unwrap();
    let img = Image::ImageBuffer {
        height: 99,
        xdim: 1,
        rotation: Rotation::Zero,
        foreground: Color::new([0, 0, 0, 255]),
        background: Color::new([255, 255, 255, 255]),
    };
    let generated = img.generate_buffer(&ean13.encode()[..]).unwrap();

    assert_eq!(generated.height(), 99);
    assert_eq!(generated.width(), 95);
}

#[test]
fn colored_ean_13_as_gif() {
    let ean13 = EAN13::new(b"750103131130").unwrap();
    let gif = Image::GIF {
        height: 99,
        xdim: 1,
        rotation: Rotation::Zero,
        foreground: Color::new([255, 38, 42, 255]),
        background: Color::new([34, 52, 255, 255]),
    };

    let generated = gif.generate(&ean13.encode()[..]).unwrap();

    assert_eq!(generated.len(), 1084);
}

#[test]
fn colored_semi_opaque_ean_13_as_png() {
    let ean13 = EAN13::new(b"750153666132").unwrap();
    let png = Image::PNG {
        height: 99,
        xdim: 1,
        rotation: Rotation::Zero,
        foreground: Color::new([255, 38, 42, 120]),
        background: Color::new([34, 52, 255, 120]),
    };

    let generated = png.generate(&ean13.encode()[..]).unwrap();

    assert_eq!(generated.len(), 1027);
}

#[test]
fn code39_as_png() {
    let code39 = Code39::new(b"ILOVEMEL").unwrap();
    let png = Image::PNG {
        height: 60,
        xdim: 1,
        rotation: Rotation::Zero,
        foreground: Color::new([0, 0, 0, 255]),
        background: Color::new([255, 255, 255, 255]),
    };
    let generated = png.generate(&code39.encode()[..]).unwrap();

    assert_eq!(generated.len(), 716);
}

#[test]
fn code39_as_gif() {
    let code39 = Code39::new(b"WIKIPEDIA").unwrap();
    let gif = Image::GIF {
        height: 60,
        xdim: 1,
        rotation: Rotation::Zero,
        foreground: Color::new([0, 0, 0, 255]),
        background: Color::new([255, 255, 255, 255]),
    };
    let generated = gif.generate(&code39.encode()[..]).unwrap();

    assert_eq!(generated.len(), 911);
}

#[test]
fn rotated_code39_as_gif() {
    let code39 = Code39::new(b"HELLOWORLD").unwrap();
    let gif = Image::GIF {
        height: 60,
        xdim: 1,
        rotation: Rotation::OneEighty,
        foreground: Color::new([0, 0, 0, 255]),
        background: Color::new([255, 255, 255, 255]),
    };
    let generated = gif.generate(&code39.encode()[..]).unwrap();

    assert_eq!(generated.len(), 969);
}

#[test]
fn code93_as_png() {
    let code93 = Code93::new(b"ILOVEBAH").unwrap();
    let png = Image::PNG {
        height: 60,
        xdim: 1,
        rotation: Rotation::Zero,
        foreground: Color::new([0, 0, 0, 255]),
        background: Color::new([255, 255, 255, 255]),
    };
    let generated = png.generate(&code93.encode()[..]).unwrap();

    assert_eq!(generated.len(), 681);
}

#[test]
fn code93_as_gif() {
    let code93 = Code93::new(b"CIVIC VIDEO").unwrap();
    let gif = Image::GIF {
        height: 60,
        xdim: 1,
        rotation: Rotation::Zero,
        foreground: Color::new([0, 0, 0, 255]),
        background: Color::new([255, 255, 255, 255]),
    };
    let generated = gif.generate(&code93.encode()[..]).unwrap();

    assert_eq!(generated.len(), 982);
}

#[test]
fn rotated_code93_as_gif() {
    let code93 = Code93::new(b"TWISTIES 100").unwrap();
    let gif = Image::GIF {
        height: 60,
        xdim: 1,
        rotation: Rotation::OneEighty,
        foreground: Color::new([0, 0, 0, 255]),
        background: Color::new([255, 255, 255, 255]),
    };
    let generated = gif.generate(&code93.encode()[..]).unwrap();

    assert_eq!(generated.len(), 1061);
}

#[test]
fn code11_as_png() {
    let code11 = Code11::new(b"9923-1111").unwrap();
    let png = Image::PNG {
        height: 60,
        xdim: 1,
        rotation: Rotation::Zero,
        foreground: Color::new([0, 0, 0, 255]),
        background: Color::new([255, 255, 255, 255]),
    };
    let generated = png.generate(&code11.encode()[..]).unwrap();

    assert_eq!(generated.len(), 602);
}

#[test]
fn code11_as_gif() {
    let code11 = Code11::new(b"122333444455556666").unwrap();
    let gif = Image::GIF {
        height: 60,
        xdim: 1,
        rotation: Rotation::Zero,
        foreground: Color::new([0, 0, 0, 255]),
        background: Color::new([255, 255, 255, 255]),
    };
    let generated = gif.generate(&code11.encode()[..]).unwrap();

    assert_eq!(generated.len(), 981);
}

#[test]
fn codabar_as_png() {
    let codabar = Codabar::new(b"B12354999A").unwrap();
    let png = Image::PNG {
        height: 60,
        xdim: 1,
        rotation: Rotation::Zero,
        foreground: Color::new([0, 0, 0, 255]),
        background: Color::new([255, 255, 255, 255]),
    };
    let generated = png.generate(&codabar.encode()[..]).unwrap();

    assert_eq!(generated.len(), 681);
}

#[test]
fn codabar_as_gif() {
    let codabar = Codabar::new(b"A5675+++3$$B").unwrap();
    let gif = Image::GIF {
        height: 80,
        xdim: 2,
        rotation: Rotation::Zero,
        foreground: Color::new([0, 0, 0, 255]),
        background: Color::new([255, 255, 255, 255]),
    };
    let generated = gif.generate(&codabar.encode()[..]).unwrap();

    // 127 modules: the per-character widths of A5675+++3$$B plus the
    // eleven single-module gaps, with nothing after the last character.
    assert_eq!(generated.len(), 1578);
}

#[test]
fn rotated_codabar_as_gif() {
    let codabar = Codabar::new(b"C1234D").unwrap();
    let gif = Image::GIF {
        height: 60,
        xdim: 1,
        rotation: Rotation::Ninety,
        foreground: Color::new([0, 0, 0, 255]),
        background: Color::new([255, 255, 255, 255]),
    };
    let generated = gif.generate(&codabar.encode()[..]).unwrap();

    assert_eq!(generated.len(), 174);
}

#[test]
fn code128_as_png() {
    let code128 = Code128::new("ÀHIĆ345678").unwrap();
    let png = Image::PNG {
        height: 60,
        xdim: 1,
        rotation: Rotation::Zero,
        foreground: Color::new([0, 0, 0, 255]),
        background: Color::new([255, 255, 255, 255]),
    };
    let generated = png.generate(&code128.encode()[..]).unwrap();

    assert_eq!(generated.len(), 659);
}

#[test]
fn code128_as_gif() {
    let code128 = Code128::new("ÀHELLOWORLD").unwrap();
    let gif = Image::GIF {
        height: 90,
        xdim: 3,
        rotation: Rotation::Zero,
        foreground: Color::new([0, 0, 0, 255]),
        background: Color::new([255, 255, 255, 255]),
    };
    let generated = gif.generate(&code128.encode()[..]).unwrap();

    assert_eq!(generated.len(), 2741);
}

#[test]
fn rotated_code128_as_gif() {
    let code128 = Code128::new("ÀHELLOWORLD").unwrap();
    let gif = Image::GIF {
        height: 90,
        xdim: 3,
        rotation: Rotation::OneEighty,
        foreground: Color::new([0, 0, 0, 255]),
        background: Color::new([255, 255, 255, 255]),
    };
    let generated = gif.generate(&code128.encode()[..]).unwrap();

    assert_eq!(generated.len(), 2752);
}

#[test]
fn rotated_code128_as_image_buffer() {
    let code128 = Code128::new("ƁCLOJURE").unwrap();
    let img = Image::ImageBuffer {
        height: 93,
        xdim: 2,
        rotation: Rotation::OneEighty,
        foreground: Color::new([0, 0, 0, 255]),
        background: Color::new([255, 255, 255, 255]),
    };
    let generated = img.generate_buffer(&code128.encode()[..]).unwrap();

    assert_eq!(generated.height(), 93);
    assert_eq!(generated.width(), 224);
}

#[test]
fn ean8_as_png() {
    let ean8 = EAN8::new(b"5512345").unwrap();
    let png = Image::PNG {
        height: 70,
        xdim: 2,
        rotation: Rotation::Zero,
        foreground: Color::new([0, 0, 0, 255]),
        background: Color::new([255, 255, 255, 255]),
    };
    let generated = png.generate(&ean8.encode()[..]).unwrap();

    assert_eq!(generated.len(), 692);
}

#[test]
fn rotated_ean8_as_png() {
    let ean8 = EAN8::new(b"5512345").unwrap();
    let png = Image::PNG {
        height: 70,
        xdim: 2,
        rotation: Rotation::TwoSeventy,
        foreground: Color::new([0, 0, 0, 255]),
        background: Color::new([255, 255, 255, 255]),
    };
    let generated = png.generate(&ean8.encode()[..]).unwrap();

    assert_eq!(generated.len(), 808);
}

#[test]
fn ean8_as_gif() {
    let ean8 = EAN8::new(b"9992227").unwrap();
    let gif = Image::GIF {
        height: 70,
        xdim: 2,
        rotation: Rotation::Zero,
        foreground: Color::new([0, 0, 0, 255]),
        background: Color::new([255, 255, 255, 255]),
    };
    let generated = gif.generate(&ean8.encode()[..]).unwrap();

    assert_eq!(generated.len(), 897);
}

#[test]
fn ean8_as_webp() {
    let ean8 = EAN8::new(b"9992227").unwrap();
    let webp = Image::WEBP {
        height: 70,
        xdim: 2,
        rotation: Rotation::Zero,
        foreground: Color::new([0, 0, 0, 255]),
        background: Color::new([255, 255, 255, 255]),
    };
    let generated = webp.generate(&ean8.encode()[..]).unwrap();

    assert_eq!(generated.len(), 114);
}

#[test]
fn ean2_as_png() {
    let ean2 = EAN2::new(b"94").unwrap();
    let png = Image::PNG {
        height: 70,
        xdim: 2,
        rotation: Rotation::Zero,
        foreground: Color::new([0, 0, 0, 255]),
        background: Color::new([255, 255, 255, 255]),
    };
    let generated = png.generate(&ean2.encode()[..]).unwrap();

    assert_eq!(generated.len(), 485);
}

#[test]
fn ean5_as_gif() {
    let ean5 = EAN5::new(b"51234").unwrap();
    let gif = Image::GIF {
        height: 70,
        xdim: 2,
        rotation: Rotation::Zero,
        foreground: Color::new([0, 0, 0, 255]),
        background: Color::new([255, 255, 255, 255]),
    };
    let generated = gif.generate(&ean5.encode()[..]).unwrap();

    assert_eq!(generated.len(), 655);
}

#[test]
fn ean5_as_webp() {
    let ean5 = EAN5::new(b"51574").unwrap();
    let webp = Image::WEBP {
        height: 140,
        xdim: 5,
        rotation: Rotation::Zero,
        foreground: Color::new([0, 0, 0, 255]),
        background: Color::new([255, 255, 255, 255]),
    };
    let generated = webp.generate(&ean5.encode()[..]).unwrap();

    assert_eq!(generated.len(), 124);
}

#[test]
fn ean5_as_imagebuffer() {
    let ean5 = EAN5::new(b"99888").unwrap();
    let img = Image::ImageBuffer {
        height: 140,
        xdim: 1,
        rotation: Rotation::Zero,
        foreground: Color::new([0, 0, 0, 255]),
        background: Color::new([255, 255, 255, 255]),
    };
    let generated = img.generate_buffer(&ean5.encode()[..]).unwrap();

    assert_eq!(generated.height(), 140);
    assert_eq!(generated.width(), 47);
}

#[test]
fn itf_as_png() {
    let itf = ToF::interleaved(b"1234567").unwrap();
    let png = Image::PNG {
        height: 100,
        xdim: 2,
        rotation: Rotation::Zero,
        foreground: Color::new([0, 0, 0, 255]),
        background: Color::new([255, 255, 255, 255]),
    };
    let generated = png.generate(&itf.encode()[..]).unwrap();

    assert_eq!(generated.len(), 911);
}

#[test]
fn stf_as_png() {
    let stf = ToF::new(b"1234567").unwrap();
    let png = Image::PNG {
        height: 100,
        xdim: 2,
        rotation: Rotation::Zero,
        foreground: Color::new([0, 0, 0, 255]),
        background: Color::new([255, 255, 255, 255]),
    };
    let generated = png.generate(&stf.encode()[..]).unwrap();

    assert_eq!(generated.len(), 1131);
}

#[test]
fn itf_as_gif() {
    let itf = ToF::interleaved(b"98766543561").unwrap();
    let gif = Image::GIF {
        height: 130,
        xdim: 1,
        rotation: Rotation::Zero,
        foreground: Color::new([0, 0, 0, 255]),
        background: Color::new([255, 255, 255, 255]),
    };
    let generated = gif.generate(&itf.encode()[..]).unwrap();

    assert_eq!(generated.len(), 1410);
}

#[test]
fn itf_as_webp() {
    let itf = ToF::interleaved(b"98766543561").unwrap();
    let webp = Image::WEBP {
        height: 130,
        xdim: 1,
        rotation: Rotation::Zero,
        foreground: Color::new([0, 0, 0, 255]),
        background: Color::new([255, 255, 255, 255]),
    };
    let generated = webp.generate(&itf.encode()[..]).unwrap();

    assert_eq!(generated.len(), 116);
}

#[test]
fn itf_as_imagebuffer() {
    let itf = ToF::interleaved(b"98766543561").unwrap();
    let img = Image::ImageBuffer {
        height: 130,
        xdim: 1,
        rotation: Rotation::Zero,
        foreground: Color::new([0, 0, 0, 255]),
        background: Color::new([255, 255, 255, 255]),
    };
    let generated = img.generate_buffer(&itf.encode()[..]).unwrap();

    assert_eq!(generated.height(), 130);
    assert_eq!(generated.width(), 116);
}

#[test]
fn image_buffer_fails_on_generate() {
    let itf = ToF::interleaved(b"98766543561").unwrap();
    let img = Image::ImageBuffer {
        height: 130,
        xdim: 1,
        rotation: Rotation::Zero,
        foreground: Color::new([0, 0, 0, 255]),
        background: Color::new([255, 255, 255, 255]),
    };

    assert!(img.generate(&itf.encode()[..]).is_err());
}
