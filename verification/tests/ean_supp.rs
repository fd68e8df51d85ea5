use barcoders::error::Error;
use barcoders::sym::ean_supp::{EAN2, EAN5};

fn collapse_vec(v: Vec<u8>) -> String {
    let chars = v.iter().map(|d| char::from_digit(*d as u32, 10).unwrap());
    chars.collect()
}

#[test]
fn new_ean2() {
    let ean2 = EAN2::new(b"12");

    assert!(ean2.is_ok());
}

#[test]
fn new_ean5() {
    let ean5 = EAN5::new(b"12345");

    assert!(ean5.is_ok());
}

#[test]
fn invalid_data_ean2() {
    let ean2 = EAN2::new(b"AT");

    assert_eq!(ean2.err().unwrap(), Error::Character);
}

#[test]
fn invalid_len_ean2() {
    let ean2 = EAN2::new(b"123");

    assert_eq!(ean2.err().unwrap(), Error::Length);
}

#[test]
fn ean2_encode() {
    let ean21 = EAN2::new(b"34").unwrap();

    assert_eq!("10110100001010100011", collapse_vec(ean21.encode()));
}

#[test]
fn ean5_encode() {
    let ean51 = EAN5::new(b"51234").unwrap();

    assert_eq!(
        "10110110001010011001010011011010111101010011101",
        collapse_vec(ean51.encode())
    );
}
