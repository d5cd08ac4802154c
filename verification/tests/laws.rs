use qiniu::canonical::canonical_v2;
use qiniu::credential::Credential;
use qiniu::headers::{collect_signed, Header};
use qiniu::parsed_url::ParsedUrl;
use rustc_serialize::base64::FromBase64;

fn header(name: &str, value: &str) -> Header {
    Header { name: name.as_bytes().to_vec(), value: value.as_bytes().to_vec() }
}

#[test]
fn signing_twice_gives_one_token() {
    let c = Credential::new("abcdefghklmnopq", "1234567890");
    let again = Credential::new("abcdefghklmnopq", "1234567890");
    for data in [&b""[..], &b"hello"[..], &[0u8, 255, 10, 13][..]] {
        assert_eq!(c.sign(data), c.sign(data));
        assert_eq!(c.sign(data), again.sign(data));
        assert_eq!(c.sign_with_data(data), again.sign_with_data(data));
    }
    assert_ne!(c.sign(b"hello"), c.sign(b"hellp"));
    assert_ne!(c.sign(b"hello"), Credential::new("abcdefghklmnopq", "1234567891").sign(b"hello"));
}

#[test]
fn keys_of_any_length_sign() {
    let empty = Credential::new("", "");
    assert_eq!(empty.sign(b""), ":-9sdGxiqbAgyS31ktx-3Y3BpDh0=");
    let long_key = "k".repeat(200);
    let long = Credential::new("ak", &long_key);
    let token = long.sign(b"hello");
    assert!(token.starts_with("ak:"));
    assert_eq!(token.len(), 3 + 28);
}

#[test]
fn bare_prefix_is_never_signed() {
    let with = vec![
        header("x-qiniu-", "value"),
        header("x-qiniu-a", "1"),
        header("X-Qiniu", "value"),
        header("X-QINIU-", "other"),
    ];
    let without = vec![header("x-qiniu-a", "1")];
    let signed = collect_signed(&with);
    assert_eq!(signed.len(), 1);
    assert_eq!(signed[0].name, b"X-Qiniu-A".to_vec());
    assert_eq!(signed[0].value, b"1".to_vec());
    let url = ParsedUrl::parse("http://upload.qiniup.com/").unwrap();
    assert_eq!(canonical_v2("GET", &url, &with, b"body"), canonical_v2("GET", &url, &without, b"body"));
    assert_eq!(
        canonical_v2("GET", &url, &with, b"body"),
        Some(b"GET /\nHost: upload.qiniup.com\nX-Qiniu-A: 1\n\n".to_vec())
    );
}

#[test]
fn body_without_content_type_is_never_signed() {
    let url = ParsedUrl::parse("http://upload.qiniup.com/").unwrap();
    let headers = vec![header("x-qiniu-a", "1"), header("content-length", "4")];
    let expected = Some(b"GET /\nHost: upload.qiniup.com\nX-Qiniu-A: 1\n\n".to_vec());
    assert_eq!(canonical_v2("GET", &url, &headers, b""), expected);
    assert_eq!(canonical_v2("GET", &url, &headers, b"body"), expected);
    assert_eq!(canonical_v2("GET", &url, &headers, b"{\"name\":\"test\"}"), expected);
    assert_eq!(canonical_v2("GET", &url, &headers, &[0u8, 255]), expected);
    let c = Credential::new("abcdefghklmnopq", "1234567890");
    let mut map = http::HeaderMap::new();
    map.insert("X-Qbox-Meta", http::HeaderValue::from_static("value"));
    assert_eq!(
        c.sign_request_v2("GET", "http://upload.qiniup.com/", &map, b"{\"name\":\"test\"}"),
        c.sign_request_v2("GET", "http://upload.qiniup.com/", &map, b"")
    );
}

#[test]
fn token_with_data_gives_the_data_back() {
    let c = Credential::new("abcdefghklmnopq", "1234567890");
    for data in [
        &b""[..],
        &b"h"[..],
        &b"he"[..],
        &b"hel"[..],
        &b"hello"[..],
        &b"a:b:c"[..],
        &[0u8, 255, 254, 62, 63][..],
    ] {
        let token = c.sign_with_data(data);
        let segments: Vec<&str> = token.split(':').collect();
        assert_eq!(segments.len(), 3);
        assert_eq!(segments[2].from_base64().unwrap(), data.to_vec());
        assert_eq!(format!("{}:{}", segments[0], segments[1]), c.sign(segments[2].as_bytes()));
        assert_eq!(segments[2], qiniu::base64::urlsafe(data));
    }
}

#[test]
fn colon_in_access_key_moves_the_segments() {
    let c = Credential::new("ab:cd", "1234567890");
    let token = c.sign_with_data(b"hello");
    let segments: Vec<&str> = token.split(':').collect();
    assert_eq!(segments.len(), 4);
    assert_eq!(segments[3], "aGVsbG8=");
}

#[test]
fn token_is_access_key_and_encoded_tag() {
    let c = Credential::new("abcdefghklmnopq", "1234567890");
    assert_eq!(c.token_for_tag(b"hello"), "abcdefghklmnopq:aGVsbG8=");
    assert_eq!(c.token_for_tag(b""), "abcdefghklmnopq:");
    assert_eq!(c.token_for_tag(&[0xfb, 0xff, 0xbe, 0xff]), "abcdefghklmnopq:-_--_w==");
}

#[test]
fn v1_without_content_type_never_signs_the_body() {
    let c = Credential::new("abcdefghklmnopq", "1234567890");
    for body in [&b""[..], &b"name=test&language=go"[..], &b"{\"name\":\"test\"}"[..]] {
        assert_eq!(c.sign_request_v1("http://upload.qiniup.com/", "", body), Ok(c.sign(b"/\n")));
    }
}
