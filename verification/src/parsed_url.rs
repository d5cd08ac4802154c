//! The parts of an absolute URL that signing reads.

use crate::error::SignError;
use vstd::prelude::*;

verus! {

/// An absolute URL, taken apart.
#[derive(Debug, PartialEq, Eq)]
pub struct ParsedUrl {
    /// The whole URL in its normal form.
    pub text: String,
    /// The path; for a URL with a host it begins with `/`.
    pub path: String,
    /// What follows `?`, up to the fragment, where the URL has a `?`.
    pub query: Option<String>,
    /// The host, where the URL has one.
    pub host: Option<String>,
    /// The port, where the URL gives one that is not its scheme's default.
    pub port: Option<u16>,
}

/// A [`ParsedUrl`] as mathematical text.
pub ghost struct UrlView {
    pub text: Seq<char>,
    pub path: Seq<char>,
    pub query: Option<Seq<char>>,
    pub host: Option<Seq<char>>,
    pub port: Option<u16>,
}

impl View for ParsedUrl {
    type V = UrlView;

    open spec fn view(&self) -> UrlView {
        UrlView {
            text: self.text@,
            path: self.path@,
            query: match self.query {
                Some(q) => Some(q@),
                None => None,
            },
            host: match self.host {
                Some(h) => Some(h@),
                None => None,
            },
            port: self.port,
        }
    }
}

/// What the `url` crate makes of `input`: the parts of the URL, or `None`
/// where `input` is not an absolute URL that it accepts.
pub uninterp spec fn url_parts(input: Seq<char>) -> Option<UrlView>;

/// `ParseError` of the `url` crate; the verifier sees nothing inside it.
#[verifier::external_type_specification]
#[verifier::external_body]
pub struct ExParseError(url::ParseError);

/// Calls `Url::parse` of the `url` crate and copies out `as_str`, `path`,
/// `query`, `host_str` and `port` of the result.
///
/// Trusted: parsing depends on `input` alone, so that the outcome is what
/// [`url_parts`] names: the parts on success, nothing on failure.
#[verifier::external_body]
fn parse_absolute(input: &str) -> (r: Result<ParsedUrl, url::ParseError>)
    ensures
        match r {
            Ok(u) => url_parts(input@) == Some(u@),
            Err(_) => url_parts(input@) is None,
        },
{
    let u = url::Url::parse(input)?;
    Ok(
        ParsedUrl {
            text: u.as_str().to_string(),
            path: u.path().to_string(),
            query: u.query().map(|q| q.to_string()),
            host: u.host_str().map(|h| h.to_string()),
            port: u.port(),
        },
    )
}

impl ParsedUrl {
    /// Parses an absolute URL.
    pub fn parse(input: &str) -> (r: Result<ParsedUrl, SignError>)
        ensures
            match r {
                Ok(u) => url_parts(input@) == Some(u@),
                Err(e) => e == SignError::UrlParse && url_parts(input@) is None,
            },
    {
        match parse_absolute(input) {
            Ok(u) => Ok(u),
            Err(_) => Err(SignError::UrlParse),
        }
    }
}

} // verus!
