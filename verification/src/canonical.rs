//! The canonical byte strings of a request, one for each protocol version.

use crate::headers::{append_x_qiniu_block, header_views, x_qiniu_block, Header};
use crate::mime::{BINARY_MIME, FORM_MIME};
use crate::parsed_url::{ParsedUrl, UrlView};
use crate::text::{
    append_bytes, append_decimal, append_text, bytes_eq_ignore_ascii_case, decimal_text,
    eq_ignore_ascii_case,
};
use crate::credential::Credential;
use vstd::prelude::*;
use vstd::utf8::encode_utf8;

verus! {

/// The path of `url`, followed by `?` and the query where the query is not empty.
pub open spec fn path_and_query(url: UrlView) -> Seq<u8> {
    encode_utf8(url.path) + match url.query {
        Some(q) => if q.len() > 0 {
            encode_utf8("?"@) + encode_utf8(q)
        } else {
            Seq::empty()
        },
        None => Seq::empty(),
    }
}

/// Whether the first protocol signs the body: neither the content type nor
/// the body is empty, and the content type is that of form data, in any case
/// of letters.
pub open spec fn includes_body_v1(content_type: Seq<char>, body: Seq<u8>) -> bool {
    &&& content_type.len() > 0
    &&& body.len() > 0
    &&& eq_ignore_ascii_case(encode_utf8(FORM_MIME@), encode_utf8(content_type))
}

/// The canonical form of a request under the first protocol: path and query,
/// a newline, and the body where it is signed.
pub open spec fn canonical_v1_spec(url: UrlView, content_type: Seq<char>, body: Seq<u8>) -> Seq<
    u8,
> {
    path_and_query(url) + encode_utf8("\n"@) + if includes_body_v1(content_type, body) {
        body
    } else {
        Seq::empty()
    }
}

/// The host of `url`, followed by `:` and the port where `url` has one.
pub open spec fn host_and_port(url: UrlView) -> Seq<u8>
    recommends
        url.host is Some,
{
    encode_utf8(url.host->0) + match url.port {
        Some(p) => encode_utf8(":"@) + encode_utf8(decimal_text(p as nat)),
        None => Seq::empty(),
    }
}

/// Whether `name` is the name of the content-type header, in any case of letters.
pub open spec fn is_content_type_name(name: Seq<u8>) -> bool {
    eq_ignore_ascii_case(encode_utf8("Content-Type"@), name)
}

/// The value of the first content-type header among `entries`.
pub open spec fn content_type_of(entries: Seq<(Seq<u8>, Seq<u8>)>) -> Option<Seq<u8>>
    decreases entries.len(),
{
    if entries.len() == 0 {
        None
    } else if is_content_type_name(entries[0].0) {
        Some(entries[0].1)
    } else {
        content_type_of(entries.skip(1))
    }
}

/// Whether the second protocol signs the body under this content type: the
/// body is not empty and the content type is not that of raw bytes, in any
/// case of letters.
pub open spec fn includes_body_v2(content_type: Seq<u8>, body: Seq<u8>) -> bool {
    body.len() > 0 && !eq_ignore_ascii_case(encode_utf8(BINARY_MIME@), content_type)
}

/// The first two lines of a request under the second protocol: method, path
/// and query; then the host, with the port where the URL has one.
pub open spec fn request_head_v2(method: Seq<char>, url: UrlView) -> Seq<u8>
    recommends
        url.host is Some,
{
    encode_utf8(method) + encode_utf8(" "@) + path_and_query(url) + encode_utf8("\nHost: "@)
        + host_and_port(url) + encode_utf8("\n"@)
}

/// What follows the host line under the second protocol. With a content
/// type: its line, the signed headers, an empty line, and the body where it
/// is signed. Without one: the signed headers and an empty line.
pub open spec fn request_tail_v2(entries: Seq<(Seq<u8>, Seq<u8>)>, body: Seq<u8>) -> Seq<u8> {
    match content_type_of(entries) {
        Some(content_type) => encode_utf8("Content-Type: "@) + content_type + encode_utf8("\n"@)
            + x_qiniu_block(entries) + encode_utf8("\n"@) + if includes_body_v2(
            content_type,
            body,
        ) {
            body
        } else {
            Seq::empty()
        },
        None => x_qiniu_block(entries) + encode_utf8("\n"@),
    }
}

/// The canonical form of a request under the second protocol.
pub open spec fn canonical_v2_spec(
    method: Seq<char>,
    url: UrlView,
    entries: Seq<(Seq<u8>, Seq<u8>)>,
    body: Seq<u8>,
) -> Seq<u8>
    recommends
        url.host is Some,
{
    request_head_v2(method, url) + request_tail_v2(entries, body)
}

/// Appends path and query of `url` to `buf`.
fn append_path_and_query(buf: &mut Vec<u8>, url: &ParsedUrl)
    ensures
        final(buf)@ == old(buf)@ + path_and_query(url@),
{
    append_text(buf, url.path.as_str());
    if let Some(query) = &url.query {
        if !query.as_str().is_empty() {
            append_text(buf, "?");
            append_text(buf, query.as_str());
        }
    }
}

/// Builds the canonical form of a request under the first protocol.
pub fn canonical_v1(url: &ParsedUrl, content_type: &str, body: &[u8]) -> (buf: Vec<u8>)
    ensures
        buf@ == canonical_v1_spec(url@, content_type@, body@),
{
    let mut buf: Vec<u8> = Vec::new();
    append_path_and_query(&mut buf, url);
    append_text(&mut buf, "\n");
    if !content_type.is_empty() && !body.is_empty() {
        if Credential::will_push_body_v1(content_type) {
            append_bytes(&mut buf, body);
        }
    }
    buf
}

/// Finds the first content-type header among `headers`.
pub fn find_content_type(headers: &Vec<Header>) -> (r: Option<usize>)
    ensures
        match r {
            Some(i) => i < headers@.len() && content_type_of(header_views(headers@)) == Some(
                headers@[i as int].value@,
            ),
            None => content_type_of(header_views(headers@)) is None,
        },
{
    let ghost entries = header_views(headers@);
    let mut i: usize = 0;
    assert(entries.skip(0) =~= entries);
    while i < headers.len()
        invariant
            i <= headers@.len(),
            entries == header_views(headers@),
            content_type_of(entries) == content_type_of(entries.skip(i as int)),
        decreases headers@.len() - i,
    {
        if bytes_eq_ignore_ascii_case("Content-Type".as_bytes(), headers[i].name.as_slice()) {
            return Some(i);
        }
        assert(entries.skip(i as int).skip(1) =~= entries.skip(i + 1));
        i += 1;
    }
    None
}

/// Appends the first two lines of a request under the second protocol.
fn append_head_v2(buf: &mut Vec<u8>, method: &str, url: &ParsedUrl, host: &str)
    requires
        url@.host == Some(host@),
    ensures
        final(buf)@ == old(buf)@ + request_head_v2(method@, url@),
{
    append_text(buf, method);
    append_text(buf, " ");
    append_path_and_query(buf, url);
    append_text(buf, "\nHost: ");
    append_text(buf, host);
    if let Some(port) = url.port {
        let mut digits = String::new();
        append_decimal(&mut digits, port as u64);
        append_text(buf, ":");
        append_text(buf, digits.as_str());
    }
    append_text(buf, "\n");
}

/// Appends what follows the host line under the second protocol.
fn append_tail_v2(buf: &mut Vec<u8>, headers: &Vec<Header>, body: &[u8])
    ensures
        final(buf)@ == old(buf)@ + request_tail_v2(header_views(headers@), body@),
{
    match find_content_type(headers) {
        Some(i) => {
            let content_type = headers[i].value.as_slice();
            append_text(buf, "Content-Type: ");
            append_bytes(buf, content_type);
            append_text(buf, "\n");
            append_x_qiniu_block(buf, headers);
            append_text(buf, "\n");
            if !body.is_empty() && Credential::will_push_body_v2(content_type) {
                append_bytes(buf, body);
            }
        },
        None => {
            append_x_qiniu_block(buf, headers);
            append_text(buf, "\n");
        },
    }
}

/// Builds the canonical form of a request under the second protocol; `None`
/// where `url` has no host.
pub fn canonical_v2(method: &str, url: &ParsedUrl, headers: &Vec<Header>, body: &[u8]) -> (r:
    Option<Vec<u8>>)
    ensures
        match r {
            Some(buf) => url@.host is Some && buf@ == canonical_v2_spec(
                method@,
                url@,
                header_views(headers@),
                body@,
            ),
            None => url@.host is None,
        },
{
    match &url.host {
        Some(host) => {
            let mut buf: Vec<u8> = Vec::new();
            append_head_v2(&mut buf, method, url, host.as_str());
            append_tail_v2(&mut buf, headers, body);
            Some(buf)
        },
        None => None,
    }
}

} // verus!
