use barcoders::generators::svg::{Color, SVG};
use barcoders::sym::codabar::Codabar;
use barcoders::sym::code11::Code11;
use barcoders::sym::code128::Code128;
use barcoders::sym::code39::Code39;
use barcoders::sym::code93::Code93;
use barcoders::sym::ean13::EAN13;
use barcoders::sym::ean8::EAN8;
use barcoders::sym::ean_supp::EAN2;
use barcoders::sym::tf::ToF;

#[test]
fn ean_13_as_svg() {
    let ean13 = EAN13::new(b"750103131130").unwrap();
    let svg = SVG::new(80);
    let generated = svg.generate(&ean13.encode()[..]).unwrap();

    assert_eq!(generated.len(), 2890);
}

#[test]
fn colored_ean_13_as_svg() {
    let ean13 = EAN13::new(b"750103131130").unwrap();
    let svg = SVG {
        height: 80,
        xdim: 1,
        background: Color {
            rgba: [255, 0, 0, 255],
        },
        foreground: Color {
            rgba: [0, 0, 255, 255],
        },
        xmlns: None
    };
    let generated = svg.generate(&ean13.encode()[..]).unwrap();

    assert_eq!(generated.len(), 2890);
}

#[test]
fn colored_semi_transparent_ean_13_as_svg() {
    let ean13 = EAN13::new(b"750103131130").unwrap();
    let svg = SVG {
        height: 70,
        xdim: 1,
        background: Color {
            rgba: [255, 0, 0, 128],
        },
        foreground: Color {
            rgba: [0, 0, 255, 128],
        },
        xmlns: None
    };
    let generated = svg.generate(&ean13.encode()[..]).unwrap();

    assert_eq!(generated.len(), 3940);
}

#[test]
fn ean_8_as_svg() {
    let ean8 = EAN8::new(b"9998823").unwrap();
    let svg = SVG::new(80).xmlns("http://www.w3.org/2000/svg".to_string());
    let generated = svg.generate(&ean8.encode()[..]).unwrap();

    assert_eq!(generated.len(), 1956);
}

#[test]
fn code39_as_svg() {
    let code39 = Code39::new(b"IGOT99PROBLEMS").unwrap();
    let svg = SVG::new(80).xmlns("http://www.w3.org/2000/svg".to_string());
    let generated = svg.generate(&code39.encode()[..]).unwrap();

    assert_eq!(generated.len(), 6574);
}

#[test]
fn code93_as_svg() {
    let code93 = Code93::new(b"IGOT99PROBLEMS").unwrap();
    let svg = SVG::new(80).xmlns("http://www.w3.org/2000/svg".to_string());
    let generated = svg.generate(&code93.encode()[..]).unwrap();

    assert_eq!(generated.len(), 4493);
}

#[test]
fn codabar_as_svg() {
    let codabar = Codabar::new(b"A12----34A").unwrap();
    let svg = SVG::new(80).xmlns("http://www.w3.org/2000/svg".to_string());
    let generated = svg.generate(&codabar.encode()[..]).unwrap();

    assert_eq!(generated.len(), 2985);
}

#[test]
fn code128_as_svg() {
    let code128 = Code128::new("ÀHIĆ345678").unwrap();
    let svg = SVG::new(80).xmlns("http://www.w3.org/2000/svg".to_string());
    let generated = svg.generate(&code128.encode()[..]).unwrap();

    assert_eq!(generated.len(), 2758);
}

#[test]
fn ean_2_as_svg() {
    let ean2 = EAN2::new(b"78").unwrap();
    let svg = SVG::new(80).xmlns("http://www.w3.org/2000/svg".to_string());
    let generated = svg.generate(&ean2.encode()[..]).unwrap();

    assert_eq!(generated.len(), 760);
}

#[test]
fn itf_as_svg() {
    let itf = ToF::interleaved(b"1234123488993344556677118").unwrap();
    let svg = SVG {
        height: 80,
        xdim: 1,
        background: Color::black(),
        foreground: Color::white(),
        xmlns: None
    };
    let generated = svg.generate(&itf.encode()[..]).unwrap();

    assert_eq!(generated.len(), 7123);
}

#[test]
fn code11_as_svg() {
    let code11 = Code11::new(b"9988-45643201").unwrap();
    let svg = SVG {
        height: 80,
        xdim: 1,
        background: Color::black(),
        foreground: Color::white(),
        xmlns: None
    };
    let generated = svg.generate(&code11.encode()[..]).unwrap();

    assert_eq!(generated.len(), 4219);
}
