use barcoders::error::Error;
use barcoders::generators::image::{Color as ImageColor, Image, Rotation};
use barcoders::generators::svg::{Color, SVG};
use barcoders::sym::codabar::Codabar;
use barcoders::sym::code128::Code128;
use barcoders::sym::code39::Code39;
use barcoders::sym::ean13::{modulo_10_checksum, EAN13};
use barcoders::sym::ean8::EAN8;
use barcoders::sym::tf::ToF;
use barcoders::sym::upca::UPCA;

fn collapse_vec(v: Vec<u8>) -> String {
    let chars = v.iter().map(|d| char::from_digit(*d as u32, 10).unwrap());
    chars.collect()
}

#[test]
fn length_error_at_boundaries() {
    assert_eq!(Codabar::new(&[]).err().unwrap(), Error::Length);
    assert!(Codabar::new(&vec![b'5'; 256]).is_ok());
    assert_eq!(Codabar::new(&vec![b'5'; 257]).err().unwrap(), Error::Length);
    assert!(Codabar::new(b"5").is_ok());
}

#[test]
fn character_error_reported_before_checksum() {
    // The 13th byte is checked as a character before any checksum comparison.
    assert_eq!(EAN13::new(b"750103131130x").err().unwrap(), Error::Character);
    assert_eq!(EAN8::new(b"5512345x").err().unwrap(), Error::Character);
}

#[test]
fn explicit_checksum_round_trips_ean13() {
    // Checksum digit of 750103131130 is 9.
    let implicit = EAN13::new(b"750103131130").unwrap();
    let explicit = EAN13::new(b"7501031311309").unwrap();
    assert_eq!(implicit.encode(), explicit.encode());
    assert_eq!(EAN13::new(b"7501031311301").err().unwrap(), Error::Checksum);
}

#[test]
fn explicit_checksum_round_trips_ean8() {
    // Checksum digit of 5512345 is 7.
    let implicit = EAN8::new(b"5512345").unwrap();
    let explicit = EAN8::new(b"55123457").unwrap();
    assert_eq!(implicit.encode(), explicit.encode());
    assert_eq!(EAN8::new(b"55123450").err().unwrap(), Error::Checksum);
}

#[test]
fn explicit_checksum_round_trips_upca() {
    // Checksum digit of 72527273070 is 6.
    let implicit = UPCA::new(b"72527273070").unwrap();
    let explicit = UPCA::new(b"725272730706").unwrap();
    assert_eq!(implicit.encode(), explicit.encode());
    assert_eq!(UPCA::new(b"725272730701").err().unwrap(), Error::Checksum);
}

#[test]
fn encode_is_idempotent() {
    let ean13 = EAN13::new(b"750103131130").unwrap();
    assert_eq!(ean13.encode(), ean13.encode());
    let code128 = Code128::new("ÀHELLO").unwrap();
    assert_eq!(code128.encode(), code128.encode());
    let codabar = Codabar::new(b"A1234B").unwrap();
    assert_eq!(codabar.encode(), codabar.encode());
}

#[test]
fn encode_in_place_exact_buffer() {
    let ean13 = EAN13::new(b"750103131130").unwrap();
    let mut exact = vec![9u8; 95];
    assert_eq!(ean13.encode_in_place(&mut exact), Some(()));
    assert_eq!(exact, ean13.encode());

    let mut short = vec![9u8; 94];
    assert_eq!(ean13.encode_in_place(&mut short), None);
    assert_eq!(short, vec![9u8; 94]);
}

#[test]
fn encode_in_place_keeps_the_tail() {
    let code39 = Code39::new(b"1234").unwrap();
    let enc = code39.encode();
    let mut buffer = vec![7u8; enc.len() + 3];
    assert_eq!(code39.encode_in_place(&mut buffer), Some(()));
    assert_eq!(&buffer[..enc.len()], &enc[..]);
    assert_eq!(&buffer[enc.len()..], &[7u8, 7, 7]);

    let mut short = vec![7u8; enc.len() - 1];
    assert_eq!(code39.encode_in_place(&mut short), None);
    assert_eq!(short, vec![7u8; enc.len() - 1]);
}

#[test]
fn interleaved_pads_odd_input_with_checksum() {
    // The checksum digit of 12345 under odd-start weighting is 7, so six
    // digits are interleaved: 4 + 6 * 9 + 4 modules.
    let itf = ToF::interleaved(b"12345").unwrap();
    assert_eq!(itf.encode().len(), 62);
    // 1234567 has checksum digit 0.
    let itf = ToF::interleaved(b"1234567").unwrap();
    assert_eq!(
        collapse_vec(itf.encode()),
        "10101110100010101110001110111010001010001110100011100010101010100011100011101101"
    );
}

#[test]
fn codabar_modules_match_table_widths() {
    // A(10) + 4 digits(9 each) + B(10) with five single-module gaps.
    let codabar = Codabar::new(b"A1234B").unwrap();
    assert_eq!(codabar.encode().len(), 10 + 9 * 4 + 10 + 5);
}

#[test]
fn modulo_10_checksum_values() {
    assert_eq!(modulo_10_checksum(&[7, 5, 0, 1, 0, 3, 1, 3, 1, 1, 3, 0], true), 9);
    assert_eq!(modulo_10_checksum(&[5, 5, 1, 2, 3, 4, 5], false), 7);
    assert_eq!(modulo_10_checksum(&[1, 2, 3, 4, 5], false), 7);
    assert_eq!(modulo_10_checksum(&[], true), 0);
}

#[test]
fn code128_rejects_unswitched_and_half_pairs() {
    // No leading character-set switch.
    assert_eq!(Code128::new("1234").err().unwrap(), Error::Character);
    // An unmatched trailing digit in set C.
    assert_eq!(Code128::new("Ć123").err().unwrap(), Error::Character);
    // A switch interrupting a digit pair in set C.
    assert_eq!(Code128::new("Ć1À2").err().unwrap(), Error::Character);
}

#[test]
fn svg_document_written_out() {
    let svg = SVG::new(2);
    let generated = svg.generate(&[1, 0]).unwrap();
    assert_eq!(
        generated,
        "<svg version=\"1.1\" viewBox=\"0 0 2 2\">\
         <rect x=\"0\" y=\"0\" width=\"2\" height=\"2\" fill=\"#ffffff\"/>\
         <rect x=\"0\" y=\"0\" width=\"1\" height=\"2\" fill=\"#000000\"/></svg>"
    );
}

#[test]
fn svg_semi_transparent_fill() {
    let svg = SVG {
        height: 1,
        xdim: 1,
        foreground: Color { rgba: [0, 0, 255, 128] },
        background: Color { rgba: [255, 255, 255, 255] },
        xmlns: None,
    };
    let generated = svg.generate(&[1]).unwrap();
    assert_eq!(
        generated,
        "<svg version=\"1.1\" viewBox=\"0 0 1 1\">\
         <rect x=\"0\" y=\"0\" width=\"1\" height=\"1\" fill=\"#ffffff\"/>\
         <rect x=\"0\" y=\"0\" width=\"1\" height=\"1\" fill=\"#0000ff\" fill-opacity=\"0.50\" />\
         </svg>"
    );
}

#[test]
fn rotation_swaps_buffer_dimensions() {
    let img = Image::ImageBuffer {
        height: 5,
        xdim: 1,
        rotation: Rotation::Ninety,
        foreground: ImageColor::black(),
        background: ImageColor::white(),
    };
    let buffer = img.generate_buffer(&[1, 0, 1]).unwrap();
    assert_eq!(buffer.width(), 5);
    assert_eq!(buffer.height(), 3);
}

#[test]
fn rotation_reorders_pixels() {
    let img = Image::ImageBuffer {
        height: 1,
        xdim: 1,
        rotation: Rotation::OneEighty,
        foreground: ImageColor::black(),
        background: ImageColor::white(),
    };
    // A bar then a space, turned half way round: a space then a bar.
    let buffer = img.generate_buffer(&[1, 0]).unwrap();
    assert_eq!(buffer.into_raw(), vec![255, 255, 255, 255, 0, 0, 0, 255]);
}

#[test]
fn unrotated_buffer_holds_painted_pixels() {
    let img = Image::ImageBuffer {
        height: 2,
        xdim: 2,
        rotation: Rotation::Zero,
        foreground: ImageColor::new([1, 2, 3, 4]),
        background: ImageColor::white(),
    };
    let buffer = img.generate_buffer(&[1]).unwrap();
    assert_eq!(buffer.width(), 2);
    assert_eq!(buffer.height(), 2);
    assert_eq!(buffer.into_raw(), vec![1, 2, 3, 4, 1, 2, 3, 4, 1, 2, 3, 4, 1, 2, 3, 4]);
}
