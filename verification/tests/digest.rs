use pdf_viewer::digest::checksum;
use pdf_viewer::digest::lower_hex;
use sha2::Digest;
use sha2::Sha256;

#[test]
fn checksum_of_nothing() {
    assert_eq!(
        checksum(&Vec::new()),
        "e3b0c44298fc1c149afbf4c8996fb92427ae41e4649b934ca495991b7852b855"
    );
}

#[test]
fn checksum_of_abc() {
    assert_eq!(
        checksum(&b"abc".to_vec()),
        "ba7816bf8f01cfea414140de5dae2223b00361a396177a9cb410ff61f20015ad"
    );
}

#[test]
fn checksum_formats_as_sha2_does() {
    for len in [0usize, 1, 55, 56, 63, 64, 65, 1000] {
        let data: Vec<u8> = (0..len).map(|i| (i * 7 + 3) as u8).collect();
        assert_eq!(checksum(&data), format!("{:x}", Sha256::digest(&data)));
    }
}

#[test]
fn hex_of_every_byte() {
    let bytes: Vec<u8> = (0..=255).collect();
    let expected: String = bytes.iter().map(|b| format!("{:02x}", b)).collect();
    assert_eq!(lower_hex(&bytes), expected);
}

#[test]
fn hex_of_nothing() {
    assert_eq!(lower_hex(&Vec::new()), "");
}

#[test]
fn hex_keeps_leading_zeros() {
    assert_eq!(lower_hex(&vec![0, 1, 0x0a, 0xa0]), "00010aa0");
}
