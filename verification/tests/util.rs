use capsula::util::hex_encode;

#[test]
fn hex_encode_empty() {
    assert_eq!(hex_encode(&[]), "");
}

#[test]
fn hex_encode_single_bytes() {
    assert_eq!(hex_encode(&[0x00]), "00");
    assert_eq!(hex_encode(&[0xff]), "ff");
    assert_eq!(hex_encode(&[0xab, 0xcd, 0xef]), "abcdef");
}

#[test]
fn hex_encode_is_lowercase_two_digits_per_byte() {
    assert_eq!(hex_encode(&[0x01, 0x0a, 0xa0, 0x7f]), "010aa07f");
}

#[test]
fn hex_text_has_two_digits_per_byte_and_reads_back() {
    let bytes: Vec<u8> = (0u8..=255).collect();
    let s = hex_encode(&bytes);
    assert_eq!(s.len(), 2 * bytes.len());
    assert!(s.chars().all(|c| matches!(c, '0'..='9' | 'a'..='f')));
    for (i, b) in bytes.iter().enumerate() {
        assert_eq!(u8::from_str_radix(&s[2 * i..2 * i + 2], 16), Ok(*b));
    }
    let (a, b) = bytes.split_at(100);
    assert_eq!(hex_encode(&bytes), format!("{}{}", hex_encode(a), hex_encode(b)));
}
