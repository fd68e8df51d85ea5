use barcoders::error::Error;
use barcoders::sym::code39::Code39;

fn collapse_vec(v: Vec<u8>) -> String {
    let chars = v.iter().map(|d| char::from_digit(*d as u32, 10).unwrap());
    chars.collect()
}

#[test]
fn new_code39() {
    let code39 = Code39::new(b"12345");

    assert!(code39.is_ok());
}

#[test]
fn invalid_data_code39() {
    let code39 = Code39::new(b"1212s");

    assert_eq!(code39.err().unwrap(), Error::Character);
}

#[test]
fn invalid_len_code39() {
    let code39 = Code39::new(b"");

    assert_eq!(code39.err().unwrap(), Error::Length);
}

#[test]
fn code39_encode() {
    let code391 = Code39::new(b"1234").unwrap();
    let code392 = Code39::new(b"983RD512").unwrap();
    let code393 = Code39::new(b"TEST8052").unwrap();

    assert_eq!(
        "10010110110101101001010110101100101011011011001010101010011010110100101101101",
        collapse_vec(code391.encode())
    );
    assert_eq!(
        "100101101101010110010110101101001011010110110010101011010101100101010110010110110100110101011010010101101011001010110100101101101",
        collapse_vec(code392.encode())
    );
    assert_eq!(
        "100101101101010101101100101101011001010101101011001010101101100101101001011010101001101101011010011010101011001010110100101101101",
        collapse_vec(code393.encode())
    );
}

#[test]
fn code39_encode_with_checksum() {
    let code391 = Code39::with_checksum(b"1234").unwrap();
    let code392 = Code39::with_checksum(b"983RD512").unwrap();

    assert_eq!(
        "100101101101011010010101101011001010110110110010101010100110101101101010010110100101101101",
        collapse_vec(code391.encode())
    );
    assert_eq!(
        "1001011011010101100101101011010010110101101100101010110101011001010101100101101101001101010110100101011010110010101101011011010010100101101101",
        collapse_vec(code392.encode())
    );
}
