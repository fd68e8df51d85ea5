use barcoders::error::Error;
use barcoders::sym::code11::Code11;

fn collapse_vec(v: Vec<u8>) -> String {
    let chars = v.iter().map(|d| char::from_digit(*d as u32, 10).unwrap());
    chars.collect()
}

#[test]
fn invalid_length_code11() {
    let code11 = Code11::new(b"");

    assert_eq!(code11.err().unwrap(), Error::Length);
}

#[test]
fn invalid_data_code11() {
    let code11 = Code11::new(b"NOTDIGITS");

    assert_eq!(code11.err().unwrap(), Error::Character);
}

#[test]
fn code11_encode_less_than_10_chars() {
    let code111 = Code11::new(b"123-45").unwrap();
    let code112 = Code11::new(b"666").unwrap();
    let code113 = Code11::new(b"12-9").unwrap();

    let code111encoded = code111.encode();
    let expected = vec![
        1, 0, 1, 1, 0, 0, 1, // Start guard
        0, // Padding
        1, 1, 0, 1, 0, 1, 1, // 1
        0, // Padding
        1, 0, 0, 1, 0, 1, 1, // 2
        0, // Padding
        1, 1, 0, 0, 1, 0, 1, // 3
        0, // Padding
        1, 0, 1, 1, 0, 1, // -
        0, // Padding
        1, 0, 1, 1, 0, 1, 1, // 4
        0, // Padding
        1, 1, 0, 1, 1, 0, 1, // 5
        0, // Padding
        1, 1, 0, 1, 1, 0, 1, // C Checksum
        0, // Padding
        1, 0, 1, 1, 0, 0, 1, // End guard
    ];
    assert_eq!(expected, code111encoded);
    assert_eq!(
        "10110010100110101001101010011010110010101011001",
        collapse_vec(code112.encode())
    );
    assert_eq!(
        "10110010110101101001011010110101101010100110101011001",
        collapse_vec(code113.encode())
    );
}

#[test]
fn code11_encode_more_than_10_chars() {
    let code111 = Code11::new(b"1234-5678-4321").unwrap();

    assert_eq!(
        "101100101101011010010110110010101011011010110101101101010011010101001101101001010110101011011011001010100101101101011011011010100110101011001",
        collapse_vec(code111.encode()),
    );
}
