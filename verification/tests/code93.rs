use barcoders::error::Error;
use barcoders::sym::code93::Code93;

fn collapse_vec(v: Vec<u8>) -> String {
    let chars = v.iter().map(|d| char::from_digit(*d as u32, 10).unwrap());
    chars.collect()
}

#[test]
fn invalid_length_code93() {
    let code93 = Code93::new(b"");

    assert_eq!(code93.err().unwrap(), Error::Length);
}

#[test]
fn invalid_data_code93() {
    let code93 = Code93::new(b"lowerCASE");

    assert_eq!(code93.err().unwrap(), Error::Character);
}

#[test]
fn code93_encode() {
    // Tests for data longer than 15, data longer than 20
    let code931 = Code93::new(b"TEST93").unwrap();
    let code932 = Code93::new(b"FLAM").unwrap();
    let code933 = Code93::new(b"99").unwrap();
    let code934 = Code93::new(b"1111111111111111111111").unwrap();

    let expected = vec![
        1, 0, 1, 0, 1, 1, 1, 1, 0, // Start guard
        1, 1, 0, 1, 0, 0, 1, 1, 0, // T
        1, 1, 0, 0, 1, 0, 0, 1, 0, // E
        1, 1, 0, 1, 0, 1, 1, 0, 0, // S
        1, 1, 0, 1, 0, 0, 1, 1, 0, // T
        1, 0, 0, 0, 0, 1, 0, 1, 0, // 9
        1, 0, 1, 0, 0, 0, 0, 1, 0, // 3
        1, 0, 1, 1, 1, 0, 1, 1, 0, // Checksum C
        1, 0, 0, 1, 0, 0, 0, 1, 0, // Checksum K
        1, 0, 1, 0, 1, 1, 1, 1, 0, // End guard
        1, // Terminator
    ];
    assert_eq!(expected, code931.encode());
    assert_eq!(
        collapse_vec(code932.encode()),
        "1010111101100010101010110001101010001010011001001011001010011001010111101"
    );
    assert_eq!(
        collapse_vec(code933.encode()),
        "1010111101000010101000010101101100101000101101010111101"
    );
    assert_eq!(collapse_vec(code934.encode()), "1010111101010010001010010001010010001010010001010010001010010001010010001010010001010010001010010001010010001010010001010010001010010001010010001010010001010010001010010001010010001010010001010010001010010001000101101110010101010111101");
}
