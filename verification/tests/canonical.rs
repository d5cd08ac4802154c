use qiniu::canonical::{canonical_v1, canonical_v2, find_content_type};
use qiniu::credential::Credential;
use qiniu::error::SignError;
use qiniu::headers::Header;
use qiniu::mime::{BINARY_MIME, FORM_MIME, JSON_MIME};
use qiniu::parsed_url::ParsedUrl;

fn url(text: &str) -> ParsedUrl {
    ParsedUrl::parse(text).unwrap()
}

fn header(name: &str, value: &str) -> Header {
    Header { name: name.as_bytes().to_vec(), value: value.as_bytes().to_vec() }
}

#[test]
fn url_is_taken_apart() {
    let u = url("http://upload.qiniup.com:8080/find/sdk?v=2#part");
    assert_eq!(u.text, "http://upload.qiniup.com:8080/find/sdk?v=2#part");
    assert_eq!(u.path, "/find/sdk");
    assert_eq!(u.query, Some("v=2".to_string()));
    assert_eq!(u.host, Some("upload.qiniup.com".to_string()));
    assert_eq!(u.port, Some(8080));
    let u = url("HTTP://Upload.Qiniup.com:80");
    assert_eq!(u.text, "http://upload.qiniup.com/");
    assert_eq!(u.path, "/");
    assert_eq!(u.query, None);
    assert_eq!(u.host, Some("upload.qiniup.com".to_string()));
    assert_eq!(u.port, None);
    let u = url("mailto:someone@example.com");
    assert_eq!(u.path, "someone@example.com");
    assert_eq!(u.host, None);
}

#[test]
fn url_that_does_not_parse_is_refused() {
    assert!(matches!(ParsedUrl::parse("/find/sdk"), Err(SignError::UrlParse)));
    assert!(matches!(ParsedUrl::parse(""), Err(SignError::UrlParse)));
    assert!(matches!(ParsedUrl::parse("http://[::1"), Err(SignError::UrlParse)));
    let c = Credential::new("abcdefghklmnopq", "1234567890");
    assert_eq!(c.sign_request_v1("upload.qiniup.com", FORM_MIME, b"a=b"), Err(SignError::UrlParse));
    assert_eq!(
        c.authorization_v1_for_request("upload.qiniup.com", FORM_MIME, b"a=b"),
        Err(SignError::UrlParse)
    );
    let headers = http::HeaderMap::new();
    assert_eq!(c.sign_request_v2("GET", "upload.qiniup.com", &headers, b""), Err(SignError::UrlParse));
    assert_eq!(
        c.authorization_v2_for_request("GET", "upload.qiniup.com", &headers, b""),
        Err(SignError::UrlParse)
    );
}

#[test]
fn url_without_host_is_refused_by_v2() {
    let c = Credential::new("abcdefghklmnopq", "1234567890");
    let headers = http::HeaderMap::new();
    assert_eq!(
        c.sign_request_v2("GET", "mailto:someone@example.com", &headers, b""),
        Err(SignError::UrlParse)
    );
    assert_eq!(canonical_v2("GET", &url("mailto:someone@example.com"), &vec![], b""), None);
    // The first protocol needs no host.
    assert_eq!(
        c.sign_request_v1("mailto:someone@example.com", "", b""),
        Ok(c.sign(b"someone@example.com\n"))
    );
}

#[test]
fn v1_signs_path_query_and_form_body() {
    let u = url("http://upload.qiniup.com/find/sdk?v=2");
    assert_eq!(canonical_v1(&u, FORM_MIME, b"name=test"), b"/find/sdk?v=2\nname=test".to_vec());
    assert_eq!(
        canonical_v1(&u, "Application/X-WWW-Form-Urlencoded", b"name=test"),
        b"/find/sdk?v=2\nname=test".to_vec()
    );
    assert_eq!(canonical_v1(&u, FORM_MIME, b""), b"/find/sdk?v=2\n".to_vec());
    assert_eq!(canonical_v1(&u, "", b"name=test"), b"/find/sdk?v=2\n".to_vec());
    assert_eq!(canonical_v1(&u, JSON_MIME, b"name=test"), b"/find/sdk?v=2\n".to_vec());
    assert_eq!(canonical_v1(&u, BINARY_MIME, b"name=test"), b"/find/sdk?v=2\n".to_vec());
    assert_eq!(
        canonical_v1(&u, "application/x-www-form-urlencoded; charset=utf-8", b"name=test"),
        b"/find/sdk?v=2\n".to_vec()
    );
}

#[test]
fn empty_query_leaves_no_question_mark() {
    let u = url("http://upload.qiniup.com/find?");
    assert_eq!(u.query, Some(String::new()));
    assert_eq!(canonical_v1(&u, "", b""), b"/find\n".to_vec());
    assert_eq!(
        canonical_v2("GET", &u, &vec![], b""),
        Some(b"GET /find\nHost: upload.qiniup.com\n\n".to_vec())
    );
}

#[test]
fn v2_writes_port_that_is_not_default() {
    assert_eq!(
        canonical_v2("PUT", &url("http://upload.qiniup.com:8080/a"), &vec![], b"x"),
        Some(b"PUT /a\nHost: upload.qiniup.com:8080\n\n".to_vec())
    );
    assert_eq!(
        canonical_v2("PUT", &url("https://upload.qiniup.com:443/a"), &vec![], b"x"),
        Some(b"PUT /a\nHost: upload.qiniup.com\n\n".to_vec())
    );
    assert_eq!(
        canonical_v2("PUT", &url("https://upload.qiniup.com:65535/a"), &vec![], b"x"),
        Some(b"PUT /a\nHost: upload.qiniup.com:65535\n\n".to_vec())
    );
    assert_eq!(
        canonical_v2("PUT", &url("https://upload.qiniup.com:7/a"), &vec![], b"x"),
        Some(b"PUT /a\nHost: upload.qiniup.com:7\n\n".to_vec())
    );
}

#[test]
fn v2_signs_body_unless_content_type_is_binary() {
    let u = url("http://upload.qiniup.com/");
    let json = vec![header("content-type", JSON_MIME)];
    assert_eq!(
        canonical_v2("POST", &u, &json, b"{}"),
        Some(b"POST /\nHost: upload.qiniup.com\nContent-Type: application/json\n\n{}".to_vec())
    );
    assert_eq!(
        canonical_v2("POST", &u, &json, b""),
        Some(b"POST /\nHost: upload.qiniup.com\nContent-Type: application/json\n\n".to_vec())
    );
    let binary = vec![header("content-type", BINARY_MIME)];
    assert_eq!(
        canonical_v2("POST", &u, &binary, b"{}"),
        Some(
            b"POST /\nHost: upload.qiniup.com\nContent-Type: application/octet-stream\n\n".to_vec()
        )
    );
    let shouting = vec![header("content-type", "APPLICATION/Octet-Stream")];
    assert_eq!(
        canonical_v2("POST", &u, &shouting, b"{}"),
        Some(
            b"POST /\nHost: upload.qiniup.com\nContent-Type: APPLICATION/Octet-Stream\n\n".to_vec()
        )
    );
    let value_not_text = vec![Header { name: b"content-type".to_vec(), value: vec![0xff, 0xfe] }];
    assert_eq!(
        canonical_v2("POST", &u, &value_not_text, b"{}"),
        Some(b"POST /\nHost: upload.qiniup.com\nContent-Type: \xff\xfe\n\n{}".to_vec())
    );
}

#[test]
fn first_content_type_in_any_case_decides() {
    let headers = vec![
        header("x-other", "1"),
        header("Content-TYPE", BINARY_MIME),
        header("content-type", JSON_MIME),
    ];
    assert_eq!(find_content_type(&headers), Some(1));
    assert_eq!(find_content_type(&vec![header("content-typ", "x"), header("content-types", "x")]), None);
    assert_eq!(find_content_type(&vec![]), None);
    let u = url("http://upload.qiniup.com/");
    assert_eq!(
        canonical_v2("POST", &u, &headers, b"{}"),
        Some(
            b"POST /\nHost: upload.qiniup.com\nContent-Type: application/octet-stream\n\n".to_vec()
        )
    );
}

#[test]
fn header_map_is_read_as_its_entries() {
    let c = Credential::new("abcdefghklmnopq", "1234567890");
    let mut map = http::HeaderMap::new();
    map.insert("Content-Type", http::HeaderValue::from_static(JSON_MIME));
    map.insert("X-Qiniu-Meta", http::HeaderValue::from_static("one"));
    map.append("X-Qiniu-Meta", http::HeaderValue::from_static("another"));
    let listed = vec![
        header("content-type", JSON_MIME),
        header("x-qiniu-meta", "one"),
        header("x-qiniu-meta", "another"),
    ];
    let canonical = canonical_v2("GET", &url("http://upload.qiniup.com/"), &listed, b"{}").unwrap();
    assert_eq!(
        canonical,
        b"GET /\nHost: upload.qiniup.com\nContent-Type: application/json\nX-Qiniu-Meta: another\nX-Qiniu-Meta: one\n\n{}"
            .to_vec()
    );
    assert_eq!(
        c.sign_request_v2("GET", "http://upload.qiniup.com/", &map, b"{}"),
        Ok(c.sign(&canonical))
    );
    assert_eq!(
        c.authorization_v2_for_request("GET", "http://upload.qiniup.com/", &map, b"{}"),
        Ok(format!("Qiniu {}", c.sign(&canonical)))
    );
}

#[test]
fn authorization_names_its_protocol() {
    let c = Credential::new("abcdefghklmnopq", "1234567890");
    assert_eq!(
        c.authorization_v1_for_request(
            "http://upload.qiniup.com/",
            "application/x-www-form-urlencoded",
            b"name=test&language=go"
        ),
        Ok(format!("QBox {}", c.sign(b"/\nname=test&language=go")))
    );
    assert_eq!(
        c.authorization_v1_for_request("http://upload.qiniup.com/", "", b"name=test&language=go"),
        Ok(format!("QBox {}", c.sign(b"/\n")))
    );
    let mut headers = http::HeaderMap::new();
    headers.insert("Content-Type", http::HeaderValue::from_static(JSON_MIME));
    headers.insert("X-Qiniu-Cxxxx", http::HeaderValue::from_static("valuec"));
    headers.insert("X-Qiniu-Bxxxx", http::HeaderValue::from_static("valueb"));
    headers.insert("X-Qiniu-axxxx", http::HeaderValue::from_static("valuea"));
    headers.insert("X-Qiniu-e", http::HeaderValue::from_static("value"));
    assert_eq!(
        c.authorization_v2_for_request(
            http::Method::GET.as_str(),
            "http://upload.qiniup.com/",
            &headers,
            b"{\"name\":\"test\"}"
        ),
        Ok(format!(
            "Qiniu {}",
            c.sign(
                b"GET /\nHost: upload.qiniup.com\nContent-Type: application/json\nX-Qiniu-Axxxx: valuea\nX-Qiniu-Bxxxx: valueb\nX-Qiniu-Cxxxx: valuec\nX-Qiniu-E: value\n\n{\"name\":\"test\"}"
            )
        ))
    );
}

#[test]
fn body_rules_of_both_protocols() {
    assert!(Credential::will_push_body_v1(FORM_MIME));
    assert!(Credential::will_push_body_v1("APPLICATION/X-WWW-FORM-URLENCODED"));
    assert!(!Credential::will_push_body_v1(JSON_MIME));
    assert!(!Credential::will_push_body_v1(""));
    assert!(!Credential::will_push_body_v2(BINARY_MIME.as_bytes()));
    assert!(!Credential::will_push_body_v2(b"Application/Octet-Stream"));
    assert!(Credential::will_push_body_v2(JSON_MIME.as_bytes()));
    assert!(Credential::will_push_body_v2(b""));
}
