use barcoders::error::Error;
use barcoders::sym::codabar::Codabar;

fn collapse_vec(v: Vec<u8>) -> String {
    let chars = v.iter().map(|d| char::from_digit(*d as u32, 10).unwrap());
    chars.collect()
}

#[test]
fn invalid_length_codabar() {
    let codabar = Codabar::new(b"");

    assert_eq!(codabar.err().unwrap(), Error::Length);
}

#[test]
fn invalid_data_codabar() {
    let codabar = Codabar::new(b"A12345G");

    assert_eq!(codabar.err().unwrap(), Error::Character);
}

#[test]
fn codabar_encode() {
    let codabar_a = Codabar::new(b"A1234B").unwrap();
    let codabar_b = Codabar::new(b"A40156B").unwrap();

    assert_eq!(
        codabar_a.encode(),
        vec![
            1, 0, 1, 1, 0, 0, 1, 0, 0, 1, // A
            0,
            1, 0, 1, 0, 1, 1, 0, 0, 1, // 1
            0,
            1, 0, 1, 0, 0, 1, 0, 1, 1, // 2
            0,
            1, 1, 0, 0, 1, 0, 1, 0, 1, // 3
            0,
            1, 0, 1, 1, 0, 1, 0, 0, 1, // 4
            0,
            1, 0, 1, 0, 0, 1, 0, 0, 1, 1, // B
        ]
    );
    assert_eq!(
        collapse_vec(codabar_b.encode()),
        "10110010010101101001010101001101010110010110101001010010101101010010011"
    );
}
