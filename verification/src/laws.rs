//! Facts about tokens and canonical forms that hold for every input.

use crate::base64::{
    base64url, base64url_decode, lemma_base64url_no_colon, lemma_base64url_round_trip,
};
use crate::canonical::{
    canonical_v1_spec, canonical_v2_spec, content_type_of, is_content_type_name, path_and_query,
    request_head_v2,
};
use crate::credential::{sign_spec, sign_with_data_spec, signature_text, CredentialView};
use crate::headers::{
    canonical_entry, canonical_name, is_signed_name, selected_headers, signed_headers,
    x_qiniu_block,
};
use crate::mac::hmac_sha1;
use crate::parsed_url::UrlView;
use vstd::prelude::*;
use vstd::utf8::{encode_utf8, is_ascii_chars_encode_utf8};

verus! {

/// Signing is deterministic: two tokens that the same keys make of the same
/// bytes are one token.
pub proof fn lemma_sign_deterministic(
    c: CredentialView,
    data: Seq<u8>,
    first: Seq<char>,
    second: Seq<char>,
)
    requires
        first == sign_spec(c, data),
        second == sign_spec(c, data),
    ensures
        first == second,
{
}

/// Where the first colon stands in `text`; the length of `text` where it has none.
pub open spec fn first_colon(text: Seq<char>) -> int
    decreases text.len(),
{
    if text.len() == 0 || text[0] == ':' {
        0
    } else {
        1 + first_colon(text.skip(1))
    }
}

/// The parts of `text` between its colons, in order.
pub open spec fn colon_segments(text: Seq<char>) -> Seq<Seq<char>>
    decreases text.len(),
{
    let i = first_colon(text);
    if 0 <= i < text.len() {
        seq![text.take(i)] + colon_segments(text.skip(i + 1))
    } else {
        seq![text]
    }
}

proof fn lemma_first_colon(head: Seq<char>, rest: Seq<char>)
    requires
        !head.contains(':'),
    ensures
        first_colon(head) == head.len(),
        first_colon(head + seq![':'] + rest) == head.len(),
    decreases head.len(),
{
    if head.len() > 0 {
        assert(!head.skip(1).contains(':'));
        lemma_first_colon(head.skip(1), rest);
        assert((head + seq![':'] + rest).skip(1) =~= head.skip(1) + seq![':'] + rest);
    }
}

/// A text without a colon before a colon is the first segment of the whole;
/// alone it is its only segment.
pub proof fn lemma_colon_segments(head: Seq<char>, rest: Seq<char>)
    requires
        !head.contains(':'),
    ensures
        colon_segments(head) == seq![head],
        colon_segments(head + seq![':'] + rest) == seq![head] + colon_segments(rest),
{
    lemma_first_colon(head, rest);
    let whole = head + seq![':'] + rest;
    assert(whole.take(head.len() as int) =~= head);
    assert(whole.skip(head.len() as int + 1) =~= rest);
}

/// A token that carries its data gives it back: where the access key holds
/// no colon, the token has three segments between its colons; the third
/// decodes to `data`, and the first two, joined by a colon, are the token
/// for the base64url text of `data`.
pub proof fn lemma_sign_with_data_round_trip(c: CredentialView, data: Seq<u8>)
    requires
        !c.access_key.contains(':'),
    ensures
        ({
            let segments = colon_segments(sign_with_data_spec(c, data));
            &&& segments.len() == 3
            &&& base64url_decode(segments[2]) == data
            &&& segments[0] + ":"@ + segments[1] == sign_spec(
                c,
                encode_utf8(base64url(data, true)),
            )
        }),
{
    reveal_strlit(":");
    let encoded = base64url(data, true);
    let signature = signature_text(c.secret_key, encode_utf8(encoded));
    lemma_base64url_no_colon(data, true);
    lemma_base64url_no_colon(hmac_sha1(encode_utf8(c.secret_key), encode_utf8(encoded)), true);
    lemma_base64url_round_trip(data);
    lemma_colon_segments(encoded, Seq::empty());
    lemma_colon_segments(signature, encoded);
    lemma_colon_segments(c.access_key, signature + seq![':'] + encoded);
    assert(sign_with_data_spec(c, data) =~= c.access_key + seq![':'] + (signature + seq![':']
        + encoded));
}

/// A header whose canonical name is the bare prefix `X-Qiniu-`, or `X-Qiniu`
/// without the hyphen, is not signed: put among the headers at any place, it
/// leaves the signed headers and their block as they were.
pub proof fn lemma_bare_prefix_not_signed(
    entries: Seq<(Seq<u8>, Seq<u8>)>,
    at: int,
    name: Seq<u8>,
    value: Seq<u8>,
)
    requires
        0 <= at <= entries.len(),
        canonical_name(name) == encode_utf8("X-Qiniu-"@) || canonical_name(name) == encode_utf8(
            "X-Qiniu"@,
        ),
    ensures
        !is_signed_name(canonical_name(name)),
        signed_headers(entries.insert(at, (name, value))) == signed_headers(entries),
        x_qiniu_block(entries.insert(at, (name, value))) == x_qiniu_block(entries),
{
    reveal_strlit("X-Qiniu-");
    reveal_strlit("X-Qiniu");
    is_ascii_chars_encode_utf8("X-Qiniu-"@);
    is_ascii_chars_encode_utf8("X-Qiniu"@);
    let rename = |e: (Seq<u8>, Seq<u8>)| canonical_entry(e);
    let wanted = |e: (Seq<u8>, Seq<u8>)| is_signed_name(e.0);
    let before = entries.take(at).map_values(rename);
    let one = seq![(name, value)].map_values(rename);
    let after = entries.skip(at).map_values(rename);
    assert(entries.insert(at, (name, value)).map_values(rename) =~= before + one + after);
    assert(entries.map_values(rename) =~= before + after);
    Seq::filter_distributes_over_add(before + one, after, wanted);
    Seq::filter_distributes_over_add(before, one, wanted);
    Seq::filter_distributes_over_add(before, after, wanted);
    assert(one.filter(wanted) =~= Seq::empty()) by {
        reveal_with_fuel(Seq::filter, 2);
        assert(one.drop_last() =~= Seq::empty());
        assert(!wanted(one.last()));
    }
    assert(selected_headers(entries.insert(at, (name, value))) =~= selected_headers(entries));
}

/// Under the first protocol a request without a content type is signed
/// without its body, whatever the body holds: the canonical form is path and
/// query and a newline.
pub proof fn lemma_v1_no_content_type_no_body(url: UrlView, body: Seq<u8>)
    ensures
        canonical_v1_spec(url, Seq::empty(), body) == path_and_query(url) + encode_utf8("\n"@),
{
}

/// Without a content-type header the body is not signed, whatever it holds:
/// the canonical form ends with the signed headers and an empty line, and
/// two requests that differ in the body alone have the same canonical form.
pub proof fn lemma_no_content_type_no_body(
    method: Seq<char>,
    url: UrlView,
    entries: Seq<(Seq<u8>, Seq<u8>)>,
    body: Seq<u8>,
    other_body: Seq<u8>,
)
    requires
        forall|i: int| 0 <= i < entries.len() ==> !is_content_type_name(#[trigger] entries[i].0),
    ensures
        content_type_of(entries) is None,
        canonical_v2_spec(method, url, entries, body) == request_head_v2(method, url)
            + x_qiniu_block(entries) + encode_utf8("\n"@),
        canonical_v2_spec(method, url, entries, body) == canonical_v2_spec(
            method,
            url,
            entries,
            other_body,
        ),
{
    lemma_content_type_absent(entries);
}

proof fn lemma_content_type_absent(entries: Seq<(Seq<u8>, Seq<u8>)>)
    requires
        forall|i: int| 0 <= i < entries.len() ==> !is_content_type_name(#[trigger] entries[i].0),
    ensures
        content_type_of(entries) is None,
    decreases entries.len(),
{
    if entries.len() > 0 {
        assert forall|i: int| 0 <= i < entries.skip(1).len() implies !is_content_type_name(
            #[trigger] entries.skip(1)[i].0,
        ) by {
        }
        lemma_content_type_absent(entries.skip(1));
    }
}

} // verus!
