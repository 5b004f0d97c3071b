use gmocoin::textnum::parse_u64;
use gmocoin::textnum::parse_u64_list;
use gmocoin::textnum::u64_to_dec;

#[test]
fn formats_decimal() {
    assert_eq!(u64_to_dec(0), b"0".to_vec());
    assert_eq!(u64_to_dec(7), b"7".to_vec());
    assert_eq!(u64_to_dec(42), b"42".to_vec());
    assert_eq!(u64_to_dec(1700000000000), b"1700000000000".to_vec());
    assert_eq!(u64_to_dec(u64::MAX), b"18446744073709551615".to_vec());
}

#[test]
fn parses_digits_only() {
    assert_eq!(parse_u64(b"0"), Some(0));
    assert_eq!(parse_u64(b"42"), Some(42));
    assert_eq!(parse_u64(b"18446744073709551615"), Some(u64::MAX));
    assert_eq!(parse_u64(b""), None);
    assert_eq!(parse_u64(b"+42"), None);
    assert_eq!(parse_u64(b"-1"), None);
    assert_eq!(parse_u64(b"4 2"), None);
    assert_eq!(parse_u64(b"18446744073709551616"), None);
}

#[test]
fn round_trips() {
    for n in [0u64, 1, 9, 10, 99, 12345, u64::MAX] {
        assert_eq!(parse_u64(&u64_to_dec(n)), Some(n));
    }
}

#[test]
fn parses_lists_strictly() {
    assert_eq!(
        parse_u64_list(&vec![b"1".to_vec(), b"22".to_vec(), b"333".to_vec()]),
        Some(vec![1, 22, 333])
    );
    assert_eq!(parse_u64_list(&Vec::new()), Some(Vec::new()));
    assert_eq!(parse_u64_list(&vec![b"1".to_vec(), b"x".to_vec()]), None);
}
