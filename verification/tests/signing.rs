use meme_relay::encoding::{base64_encode, percent_encode, str_bytes, u64_to_dec};
use meme_relay::signer::{
    base_string, clamp_epoch, fresh_nonce, oauth_params, param_segment, sign_request,
    signed_query, signing_key, Credential,
};

fn pair(k: &str, v: &str) -> (Vec<u8>, Vec<u8>) {
    (k.as_bytes().to_vec(), v.as_bytes().to_vec())
}

#[test]
fn percent_encoding_exact() {
    assert_eq!(percent_encode(b"abc-XYZ_0.9~"), b"abc-XYZ_0.9~".to_vec());
    assert_eq!(percent_encode(b"a b/c"), b"a%20b%2Fc".to_vec());
    assert_eq!(percent_encode(b"="), b"%3D".to_vec());
    assert_eq!(percent_encode(b""), b"".to_vec());
    assert_eq!(percent_encode(&[0xffu8]), b"%FF".to_vec());
}

#[test]
fn decimal_rendering() {
    assert_eq!(u64_to_dec(0), b"0".to_vec());
    assert_eq!(u64_to_dec(7), b"7".to_vec());
    assert_eq!(u64_to_dec(1800000), b"1800000".to_vec());
    assert_eq!(u64_to_dec(u64::MAX), b"18446744073709551615".to_vec());
}

#[test]
fn base64_known_values() {
    assert_eq!(base64_encode(b"Man"), b"TWFu".to_vec());
    assert_eq!(base64_encode(b"M"), b"TQ==".to_vec());
    assert_eq!(base64_encode(b""), b"".to_vec());
}

#[test]
fn str_bytes_is_utf8() {
    assert_eq!(str_bytes("abc"), b"abc".to_vec());
}

#[test]
fn param_segment_is_key_sorted() {
    let ps = vec![pair("z_last", "1"), pair("a_first", "2"), pair("m_mid", "3")];
    let seg = param_segment(ps);
    assert_eq!(seg, b"a_first=2&m_mid=3&z_last=1".to_vec());
}

#[test]
fn param_segment_ignores_insertion_order() {
    let one = param_segment(vec![pair("b", "2"), pair("a", "1"), pair("c", "3")]);
    let two = param_segment(vec![pair("c", "3"), pair("b", "2"), pair("a", "1")]);
    assert_eq!(one, b"a=1&b=2&c=3".to_vec());
    assert_eq!(one, two);
}

#[test]
fn param_segment_encodes_keys_and_values() {
    let seg = param_segment(vec![pair("status", "hello world")]);
    assert_eq!(seg, b"status=hello%20world".to_vec());
}

#[test]
fn base_string_shape() {
    let b = base_string(b"GET", b"http://host/path", vec![pair("a", "1")]);
    assert_eq!(b, b"GET&http%3A%2F%2Fhost%2Fpath&a%3D1".to_vec());
}

#[test]
fn signing_key_shape() {
    let k = signing_key(b"cs", Some(&b"ts".to_vec()));
    assert_eq!(k, b"cs&ts".to_vec());
    // during the request-token step the token secret is empty
    let k = signing_key(b"c s", None);
    assert_eq!(k, b"c%20s&".to_vec());
}

#[test]
fn signing_is_deterministic_and_order_free() {
    let consumer = Credential::new(b"ck".to_vec(), b"cs".to_vec());
    let access = Credential::new(b"ak".to_vec(), b"as".to_vec());
    let e1 = vec![pair("x", "1"), pair("y", "2")];
    let e2 = vec![pair("y", "2"), pair("x", "1")];
    let nonce = b"fixednonce".to_vec();
    let q1 = signed_query("POST", "http://host/p", &consumer, Some(&access), &e1, &nonce, 1000);
    let q2 = signed_query("POST", "http://host/p", &consumer, Some(&access), &e2, &nonce, 1000);
    let q3 = signed_query("POST", "http://host/p", &consumer, Some(&access), &e1, &nonce, 1000);
    assert_eq!(q1, q3);
    assert_eq!(q1, q2);
    // a different timestamp changes the signed set
    let q4 = signed_query("POST", "http://host/p", &consumer, Some(&access), &e1, &nonce, 1001);
    assert_ne!(q1, q4);
}

#[test]
fn signed_request_holds_control_parameters() {
    let consumer = Credential::new(b"ck".to_vec(), b"cs".to_vec());
    let access = Credential::new(b"ak".to_vec(), b"as".to_vec());
    let extra = vec![pair("status", "hi")];
    let nonce = b"n0n5e".to_vec();
    let signed = sign_request("POST", "http://host/p", &consumer, Some(&access), &extra, &nonce, 99);
    let keys: Vec<&[u8]> = signed.iter().map(|p| p.0.as_slice()).collect();
    assert_eq!(
        keys,
        vec![
            b"oauth_consumer_key".as_slice(),
            b"oauth_nonce",
            b"oauth_signature_method",
            b"oauth_timestamp",
            b"oauth_version",
            b"oauth_token",
            b"status",
            b"oauth_signature",
        ]
    );
    assert_eq!(signed[0].1, b"ck".to_vec());
    assert_eq!(signed[1].1, b"n0n5e".to_vec());
    assert_eq!(signed[2].1, b"HMAC-SHA1".to_vec());
    assert_eq!(signed[3].1, b"99".to_vec());
    assert_eq!(signed[4].1, b"1.0".to_vec());
    assert_eq!(signed[5].1, b"ak".to_vec());
    assert_eq!(signed[6].1, b"hi".to_vec());
    // base64 of a 20-byte HMAC-SHA1 tag: 28 characters; a signature could
    // not be the message handed back unchanged
    assert_eq!(signed[7].1.len(), 28);
}

#[test]
fn oauth_params_without_token_omit_oauth_token() {
    let ps = oauth_params(b"ck", b"nn", 5, None, &vec![]);
    let keys: Vec<&[u8]> = ps.iter().map(|p| p.0.as_slice()).collect();
    assert_eq!(
        keys,
        vec![
            b"oauth_consumer_key".as_slice(),
            b"oauth_nonce",
            b"oauth_signature_method",
            b"oauth_timestamp",
            b"oauth_version",
        ]
    );
}

#[test]
fn epoch_clamp() {
    assert_eq!(clamp_epoch(-5), 0);
    assert_eq!(clamp_epoch(0), 0);
    assert_eq!(clamp_epoch(1800), 1800);
    assert_eq!(clamp_epoch(i64::MAX), i64::MAX as u64);
}

#[test]
fn nonce_is_fresh_and_alphanumeric() {
    let a = fresh_nonce();
    let b = fresh_nonce();
    assert_eq!(a.len(), 32);
    assert_eq!(b.len(), 32);
    assert!(a.iter().all(|c| c.is_ascii_alphanumeric()));
    // 62^32 draws: two equal nonces would mean the randomness is broken
    assert_ne!(a, b);
}
