use gmocoin::sign::HttpMethod;
use gmocoin::sign::generate_signature;
use gmocoin::sign::hex_encode;
use gmocoin::sign::hmac_sha256_hex;
use gmocoin::sign::sign_text;
use hmac::Mac;

#[test]
fn hmac_sha256_known_vector() {
    // RFC 4231 test case 2.
    let out = hmac_sha256_hex(b"Jefe", b"what do ya want for nothing?");
    assert_eq!(
        String::from_utf8(out).unwrap(),
        "5bdcc146bf60754e6a042426089575c75a003f089d2739839dec58b964ec3843"
    );
}

#[test]
fn signature_is_deterministic() {
    let a = generate_signature(b"secret", 1700000000000, &HttpMethod::Post, b"/v1/order", b"{}");
    let b = generate_signature(b"secret", 1700000000000, &HttpMethod::Post, b"/v1/order", b"{}");
    assert_eq!(a, b);
    assert_eq!(a.len(), 64);
}

#[test]
fn get_sign_text_excludes_body() {
    let t = sign_text(1234, &HttpMethod::Get, b"/v1/account/margin", b"");
    assert_eq!(t, b"1234GET/v1/account/margin".to_vec());
}

#[test]
fn post_sign_text_includes_body() {
    let t = sign_text(1234, &HttpMethod::Post, b"/v1/order", b"{\"symbol\":\"BTC_JPY\"}");
    assert_eq!(t, b"1234POST/v1/order{\"symbol\":\"BTC_JPY\"}".to_vec());
}

#[test]
fn signature_matches_direct_hmac() {
    // The same signature the hmac/sha2/hex crates produce directly.
    let secret = b"0123456789abcdef";
    let text = b"1700000000000PUT/v1/ws-auth{\"token\":\"tok\"}";
    let mut mac = <hmac::Hmac<sha2::Sha256>>::new_from_slice(secret).unwrap();
    mac.update(text);
    let expected = hex::encode(mac.finalize().into_bytes());

    let got = generate_signature(
        secret,
        1700000000000,
        &HttpMethod::Put,
        b"/v1/ws-auth",
        b"{\"token\":\"tok\"}",
    );
    assert_eq!(String::from_utf8(got).unwrap(), expected);
}

#[test]
fn hex_encode_matches_reference() {
    let data: Vec<u8> = vec![0x00, 0x01, 0x0f, 0x10, 0xab, 0xcd, 0xef, 0xff];
    let ours = String::from_utf8(hex_encode(&data)).unwrap();
    assert_eq!(ours, hex::encode(&data));
}

#[test]
fn hex_encode_empty() {
    assert_eq!(hex_encode(b"").len(), 0);
}
