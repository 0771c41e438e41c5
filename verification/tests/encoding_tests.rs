use candidate_block::encoding::hex_encode;

#[test]
fn hex_encode_empty() {
    let out = hex_encode(&Vec::new());
    assert_eq!(out, Vec::<u8>::new());
}

#[test]
fn hex_encode_exact_digits() {
    let out = hex_encode(&vec![0x00u8, 0x0f, 0xa0, 0xff]);
    assert_eq!(out, b"000fa0ff".to_vec());
}

#[test]
fn hex_encode_matches_reference() {
    let input = vec![0xabu8, 0x01, 0x7f, 0x00, 0xde, 0xad, 0xbe, 0xef];
    let ours = hex_encode(&input);
    let reference = hex::encode(&input).into_bytes();
    assert_eq!(ours, reference);
}
