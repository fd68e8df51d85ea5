use barcoders::error::Error;
use barcoders::sym::ean8::EAN8;

fn collapse_vec(v: Vec<u8>) -> String {
    let chars = v.iter().map(|d| char::from_digit(*d as u32, 10).unwrap());
    chars.collect()
}

#[test]
fn new_ean8() {
    let ean8 = EAN8::new(b"1234567");

    assert!(ean8.is_ok());
}

#[test]
fn invalid_data_ean8() {
    let ean8 = EAN8::new(b"1234er1");

    assert_eq!(ean8.err().unwrap(), Error::Character);
}

#[test]
fn invalid_len_ean8() {
    let ean8 = EAN8::new(b"1111112222222333333");

    assert_eq!(ean8.err().unwrap(), Error::Length);
}

#[test]
fn invalid_checksum_ean8() {
    let ean8 = EAN8::new(b"88023020");

    assert_eq!(ean8.err().unwrap(), Error::Checksum)
}

#[test]
fn ean8_encode() {
    let ean81 = EAN8::new(b"5512345").unwrap(); // Check digit: 7
    let ean82 = EAN8::new(b"9834651").unwrap(); // Check digit: 3

    assert_eq!(
        "1010110001011000100110010010011010101000010101110010011101000100101",
        collapse_vec(ean81.encode())
    );
    assert_eq!(
        "1010001011011011101111010100011010101010000100111011001101010000101",
        collapse_vec(ean82.encode())
    );
}

#[test]
fn ean8_encode_with_checksum() {
    let ean8 = EAN8::new(b"98346516").unwrap();

    assert_eq!(
        "1010001011011011101111010100011010101010000100111011001101010000101",
        collapse_vec(ean8.encode())
    );
}
