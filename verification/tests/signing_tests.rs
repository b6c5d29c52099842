use hmac::{Hmac, KeyInit, Mac};
use blive::signing::{
    batch_heartbeat_body, build_signing_string, content_md5_hex, end_body, heartbeat_body,
    signature_hex, signed_headers, start_body,
};

#[test]
fn content_md5_matches_the_known_digests() {
    assert_eq!(content_md5_hex(""), "d41d8cd98f00b204e9800998ecf8427e");
    assert_eq!(content_md5_hex("abc"), "900150983cd24fb0d6963f7d28e17f72");
}

#[test]
fn signing_string_joins_the_headers_in_dictionary_order() {
    let s = build_signing_string("key-id", "md5hex", "nonce-1", "1700000000");
    assert_eq!(
        s,
        "x-bili-accesskeyid:key-id\n\
         x-bili-content-md5:md5hex\n\
         x-bili-signature-method:HMAC-SHA256\n\
         x-bili-signature-nonce:nonce-1\n\
         x-bili-signature-version:1.0\n\
         x-bili-timestamp:1700000000"
    );
}

#[test]
fn signature_matches_an_independent_computation() {
    let secret = "a-test-signing-key";
    let signing = build_signing_string("id", "feedbeef", "42", "1700000000");
    let mut mac: Hmac<sha2::Sha256> = Hmac::new_from_slice(secret.as_bytes()).unwrap();
    Mac::update(&mut mac, signing.as_bytes());
    let expected = hex::encode(mac.finalize().into_bytes());
    assert_eq!(signature_hex("id", "feedbeef", "42", "1700000000", secret), expected);
}

#[test]
fn signed_headers_carry_every_field_and_the_signature() {
    let headers = signed_headers("id", r#"{"code":"c","app_id":1}"#, "7", "1700000000", "sec");
    assert_eq!(headers.len(), 9);
    let get = |name: &str| -> &str {
        &headers.iter().find(|(k, _)| k == name).unwrap().1
    };
    assert_eq!(get("Accept"), "application/json");
    assert_eq!(get("Content-Type"), "application/json");
    assert_eq!(get("x-bili-accesskeyid"), "id");
    assert_eq!(
        get("x-bili-content-md5"),
        content_md5_hex(r#"{"code":"c","app_id":1}"#)
    );
    assert_eq!(get("x-bili-signature-method"), "HMAC-SHA256");
    assert_eq!(get("x-bili-signature-nonce"), "7");
    assert_eq!(get("x-bili-signature-version"), "1.0");
    assert_eq!(get("x-bili-timestamp"), "1700000000");
    let md5 = content_md5_hex(r#"{"code":"c","app_id":1}"#);
    assert_eq!(
        get("Authorization"),
        signature_hex("id", &md5, "7", "1700000000", "sec")
    );
}

#[test]
fn request_bodies_are_written_as_the_endpoints_expect() {
    assert_eq!(start_body("c0de", "17"), r#"{"code":"c0de","app_id":17}"#);
    assert_eq!(end_body("17", "game-1"), r#"{"app_id":17,"game_id":"game-1"}"#);
    assert_eq!(heartbeat_body("game-1"), r#"{"game_id":"game-1"}"#);
}

#[test]
fn batch_body_quotes_and_joins_every_game_id() {
    assert_eq!(batch_heartbeat_body(&vec![]), r#"{"game_ids":[]}"#);
    assert_eq!(
        batch_heartbeat_body(&vec!["a".to_string()]),
        r#"{"game_ids":["a"]}"#
    );
    assert_eq!(
        batch_heartbeat_body(&vec!["a".to_string(), "b".to_string(), "c".to_string()]),
        r#"{"game_ids":["a","b","c"]}"#
    );
}
