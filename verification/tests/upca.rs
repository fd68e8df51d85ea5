use barcoders::error::Error;
use barcoders::sym::upca::UPCA;

fn collapse_vec(v: Vec<u8>) -> String {
    let chars = v.iter().map(|d| char::from_digit(*d as u32, 10).unwrap());
    chars.collect()
}

#[test]
fn new_upca() {
    let upca = UPCA::new(b"72527273070");

    assert!(upca.is_ok());
}

#[test]
fn invalid_data_upca() {
    let upca = UPCA::new(b"012345612a45");

    assert_eq!(upca.err().unwrap(), Error::Character)
}

#[test]
fn invalid_len_upca() {
    let upca = UPCA::new(b"1234561234589");

    assert_eq!(upca.err().unwrap(), Error::Length)
}

#[test]
fn invalid_checksum_upca() {
    let upca = UPCA::new(b"725272730705");

    assert_eq!(upca.err().unwrap(), Error::Checksum)
}

#[test]
fn valid_checksum_upca() {
    let upca = UPCA::new(b"725272730706");

    assert!(upca.is_ok());
}

#[test]
fn upce_encode() {
    let upca1 = UPCA::new(b"72527273070").unwrap();
    let upca2 = UPCA::new(b"738312014094").unwrap();
    let upca3 = UPCA::new(b"095421076611").unwrap();

    assert_eq!(collapse_vec(upca1.encode()), "10101110110010011011000100100110111011001001101010100010010000101110010100010011100101010000101");
    assert_eq!(collapse_vec(upca2.encode()), "10101110110111101011011101111010011001001001101010111001011001101011100111001011101001011100101");
    assert_eq!(collapse_vec(upca3.encode()), "10100011010001011011000101000110010011001100101010111001010001001010000101000011001101100110101");
}
