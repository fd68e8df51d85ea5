use barcoders::error::Error;
use barcoders::sym::tf::ToF;

fn collapse_vec(v: Vec<u8>) -> String {
    let chars = v.iter().map(|d| char::from_digit(*d as u32, 10).unwrap());
    chars.collect()
}

#[test]
fn new_itf() {
    let itf = ToF::interleaved(b"12345679");

    assert!(itf.is_ok());
}

#[test]
fn new() {
    let tof = ToF::new(b"12345");

    assert!(tof.is_ok());
}

#[test]
fn invalid_data_itf() {
    let itf = ToF::interleaved(b"1234er123412");

    assert_eq!(itf.err().unwrap(), Error::Character);
}

#[test]
fn invalid_data() {
    let tof = ToF::new(b"WORDUP");

    assert_eq!(tof.err().unwrap(), Error::Character);
}

#[test]
fn itf_encode() {
    let itf = ToF::interleaved(b"1234567").unwrap(); // Check digit: 0

    assert_eq!(
        "10101110100010101110001110111010001010001110100011100010101010100011100011101101",
        collapse_vec(itf.encode())
    );
}

#[test]
fn encode() {
    let tof = ToF::new(b"1234567").unwrap();

    assert_eq!(
        "110110101110101010111010111010101110111011101010101010111010111011101011101010101110111010101010101110111011010110",
        collapse_vec(tof.encode())
    );
}
