//! The key pair and the tokens it signs.

use crate::base64::{base64url, urlsafe};
use crate::canonical::{canonical_v1, canonical_v1_spec, canonical_v2, canonical_v2_spec};
use crate::error::SignError;
use crate::headers::{entries_of, header_entries};
use crate::mac::{hmac_sha1, hmac_sha1_tag};
use crate::mime::{BINARY_MIME, FORM_MIME};
use crate::parsed_url::{url_parts, ParsedUrl};
use crate::text::{bytes_eq_ignore_ascii_case, eq_ignore_ascii_case};
use http::header::{HeaderMap, HeaderValue};
use vstd::prelude::*;
use vstd::string::StringExecFns;
use vstd::utf8::encode_utf8;

verus! {

/// An access key and the secret key that belongs to it.
pub struct Credential {
    access_key: String,
    secret_key: String,
}

/// A [`Credential`] as mathematical text.
pub ghost struct CredentialView {
    pub access_key: Seq<char>,
    pub secret_key: Seq<char>,
}

impl View for Credential {
    type V = CredentialView;

    closed spec fn view(&self) -> CredentialView {
        CredentialView { access_key: self.access_key@, secret_key: self.secret_key@ }
    }
}

/// The signature of `data`: the HMAC-SHA1 tag under the bytes of the secret
/// key, as padded base64url text.
pub open spec fn signature_text(secret_key: Seq<char>, data: Seq<u8>) -> Seq<char> {
    base64url(hmac_sha1(encode_utf8(secret_key), data), true)
}

/// A token: the access key, a colon, the signature.
pub open spec fn token_text(access_key: Seq<char>, signature: Seq<char>) -> Seq<char> {
    access_key + ":"@ + signature
}

/// The token for `data`: the access key, a colon, the signature of `data`.
pub open spec fn sign_spec(c: CredentialView, data: Seq<u8>) -> Seq<char> {
    token_text(c.access_key, signature_text(c.secret_key, data))
}

/// The token that carries `data` along: the token for the base64url text of
/// `data`, a colon, and that text.
pub open spec fn sign_with_data_spec(c: CredentialView, data: Seq<u8>) -> Seq<char> {
    let encoded = base64url(data, true);
    sign_spec(c, encode_utf8(encoded)) + ":"@ + encoded
}

impl Credential {
    /// Keeps a copy of the two keys.
    pub fn new(ak: &str, sk: &str) -> (c: Credential)
        ensures
            c@ == (CredentialView { access_key: ak@, secret_key: sk@ }),
    {
        Credential { access_key: ak.to_owned(), secret_key: sk.to_owned() }
    }

    /// Writes the token that carries `tag` as its signature.
    pub fn token_for_tag(&self, tag: &[u8]) -> (token: String)
        ensures
            token@ == token_text(self@.access_key, base64url(tag@, true)),
    {
        let signature = urlsafe(tag);
        let mut token = self.access_key.clone();
        token.append(":");
        token.append(signature.as_str());
        token
    }

    /// Signs `data`. The token is a function of the keys and of `data`:
    /// whenever the same keys sign the same bytes, the same token comes out.
    pub fn sign(&self, data: &[u8]) -> (token: String)
        ensures
            token@ == sign_spec(self@, data@),
    {
        let tag = hmac_sha1_tag(self.secret_key.as_str().as_bytes(), data);
        self.token_for_tag(tag.as_slice())
    }

    /// Signs `data` and hands it along with the signature.
    pub fn sign_with_data(&self, data: &[u8]) -> (token: String)
        ensures
            token@ == sign_with_data_spec(self@, data@),
    {
        let encoded = urlsafe(data);
        let mut token = self.sign(encoded.as_str().as_bytes());
        token.append(":");
        token.append(encoded.as_str());
        token
    }

    /// The value of the authorization header of a request under the first
    /// protocol: `QBox`, a space, and the token of [`Credential::sign_request_v1`].
    pub fn authorization_v1_for_request(
        &self,
        url_string: &str,
        content_type: &str,
        body: &[u8],
    ) -> (r: Result<String, SignError>)
        ensures
            match r {
                Ok(value) => url_parts(url_string@) matches Some(url) && value@ == "QBox "@
                    + sign_spec(self@, canonical_v1_spec(url, content_type@, body@)),
                Err(e) => e == SignError::UrlParse && url_parts(url_string@) is None,
            },
    {
        match self.sign_request_v1(url_string, content_type, body) {
            Ok(token) => Ok(String::from_str("QBox ").concat(token.as_str())),
            Err(e) => Err(e),
        }
    }

    /// The value of the authorization header of a request under the second
    /// protocol: `Qiniu`, a space, and the token of [`Credential::sign_request_v2`].
    pub fn authorization_v2_for_request(
        &self,
        method: &str,
        url_string: &str,
        headers: &HeaderMap<HeaderValue>,
        body: &[u8],
    ) -> (r: Result<String, SignError>)
        ensures
            match r {
                Ok(value) => url_parts(url_string@) matches Some(url) && url.host is Some
                    && value@ == "Qiniu "@ + sign_spec(
                    self@,
                    canonical_v2_spec(method@, url, header_entries(*headers), body@),
                ),
                Err(e) => e == SignError::UrlParse && (url_parts(url_string@) matches Some(url)
                    ==> url.host is None),
            },
    {
        match self.sign_request_v2(method, url_string, headers, body) {
            Ok(token) => Ok(String::from_str("Qiniu ").concat(token.as_str())),
            Err(e) => Err(e),
        }
    }

    /// Signs a request under the first protocol. The URL has to be an
    /// absolute URL that can be parsed.
    pub fn sign_request_v1(&self, url_string: &str, content_type: &str, body: &[u8]) -> (r: Result<
        String,
        SignError,
    >)
        ensures
            match r {
                Ok(token) => url_parts(url_string@) matches Some(url) && token@ == sign_spec(
                    self@,
                    canonical_v1_spec(url, content_type@, body@),
                ),
                Err(e) => e == SignError::UrlParse && url_parts(url_string@) is None,
            },
    {
        match ParsedUrl::parse(url_string) {
            Ok(url) => {
                let data_to_sign = canonical_v1(&url, content_type, body);
                Ok(self.sign(data_to_sign.as_slice()))
            },
            Err(e) => Err(e),
        }
    }

    /// Signs a request under the second protocol. The URL has to be an
    /// absolute URL that can be parsed and that names a host; `method` is the
    /// method as it stands in the request line, such as `GET`.
    ///
    /// Where the headers hold a name more than once, the first content type
    /// decides, and every value of an `X-Qiniu-` header is signed on a line
    /// of its own.
    pub fn sign_request_v2(
        &self,
        method: &str,
        url_string: &str,
        headers: &HeaderMap<HeaderValue>,
        body: &[u8],
    ) -> (r: Result<String, SignError>)
        ensures
            match r {
                Ok(token) => url_parts(url_string@) matches Some(url) && url.host is Some
                    && token@ == sign_spec(
                    self@,
                    canonical_v2_spec(method@, url, header_entries(*headers), body@),
                ),
                Err(e) => e == SignError::UrlParse && (url_parts(url_string@) matches Some(url)
                    ==> url.host is None),
            },
    {
        match ParsedUrl::parse(url_string) {
            Ok(url) => {
                let entries = entries_of(headers);
                match canonical_v2(method, &url, &entries, body) {
                    Some(data_to_sign) => Ok(self.sign(data_to_sign.as_slice())),
                    None => Err(SignError::UrlParse),
                }
            },
            Err(e) => Err(e),
        }
    }

    /// Tells whether the first protocol signs a body of this content type.
    pub fn will_push_body_v1(content_type: &str) -> (r: bool)
        ensures
            r == eq_ignore_ascii_case(encode_utf8(FORM_MIME@), encode_utf8(content_type@)),
    {
        bytes_eq_ignore_ascii_case(FORM_MIME.as_bytes(), content_type.as_bytes())
    }

    /// Tells whether the second protocol signs a body of this content type.
    pub fn will_push_body_v2(content_type: &[u8]) -> (r: bool)
        ensures
            r == !eq_ignore_ascii_case(encode_utf8(BINARY_MIME@), content_type@),
    {
        !bytes_eq_ignore_ascii_case(BINARY_MIME.as_bytes(), content_type)
    }
}

} // verus!
