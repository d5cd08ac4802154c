//! Download URLs that carry their own expiry and a token over it.

use crate::credential::{sign_spec, Credential, CredentialView};
use crate::error::SignError;
use crate::parsed_url::{ParsedUrl, UrlView};
use crate::text::{append_decimal, contains_char, decimal_text};
use vstd::prelude::*;
use vstd::string::StringExecFns;
use vstd::utf8::encode_utf8;

verus! {

/// A point in time: `secs` whole seconds and `nanos` nanoseconds after the
/// Unix epoch. A time before the epoch has negative `secs`.
#[derive(Debug, Clone, Copy, PartialEq, Eq, Structural)]
pub struct Timestamp {
    pub secs: i64,
    pub nanos: u32,
}

/// A span of time: `secs` whole seconds and `nanos` nanoseconds.
#[derive(Debug, Clone, Copy, PartialEq, Eq, Structural)]
pub struct Lifetime {
    pub secs: u64,
    pub nanos: u32,
}

/// The number of nanoseconds in a second.
pub const NANOS_PER_SEC: u32 = 1_000_000_000;

impl Timestamp {
    /// The time in nanoseconds after the epoch.
    pub open spec fn as_nanos(self) -> int {
        self.secs * NANOS_PER_SEC + self.nanos
    }

    /// The time that lies `secs` seconds and `nanos` nanoseconds after the
    /// epoch; the last second that 64 bits hold where it is later than that.
    pub fn after_epoch(secs: u64, nanos: u32) -> (t: Timestamp)
        ensures
            t.nanos < NANOS_PER_SEC,
            secs + nanos / NANOS_PER_SEC <= i64::MAX ==> t.as_nanos() == secs * NANOS_PER_SEC
                + nanos,
            secs + nanos / NANOS_PER_SEC > i64::MAX ==> t == (Timestamp {
                secs: i64::MAX,
                nanos: (NANOS_PER_SEC - 1) as u32,
            }),
    {
        let whole: u128 = secs as u128 + (nanos / NANOS_PER_SEC) as u128;
        if whole > i64::MAX as u128 {
            Timestamp { secs: i64::MAX, nanos: NANOS_PER_SEC - 1 }
        } else {
            Timestamp { secs: whole as i64, nanos: nanos % NANOS_PER_SEC }
        }
    }

    /// The time that lies `secs` seconds and `nanos` nanoseconds before the
    /// epoch; the first second that 64 bits hold where it is earlier than that.
    pub fn before_epoch(secs: u64, nanos: u32) -> (t: Timestamp)
        ensures
            t.nanos < NANOS_PER_SEC,
            secs + nanos / NANOS_PER_SEC < i64::MAX ==> t.as_nanos() == -(secs * NANOS_PER_SEC
                + nanos),
            secs + nanos / NANOS_PER_SEC >= i64::MAX ==> t == (Timestamp {
                secs: i64::MIN,
                nanos: 0,
            }),
    {
        let whole: u128 = secs as u128 + (nanos / NANOS_PER_SEC) as u128;
        let part: u32 = nanos % NANOS_PER_SEC;
        if whole >= i64::MAX as u128 {
            Timestamp { secs: i64::MIN, nanos: 0 }
        } else if part == 0 {
            Timestamp { secs: -(whole as i64), nanos: 0 }
        } else {
            Timestamp { secs: -(whole as i64) - 1, nanos: NANOS_PER_SEC - part }
        }
    }
}

/// The text that stands for the URL in what is signed: path and query where
/// only the path is signed, else the whole URL.
pub open spec fn download_base(url: UrlView, only_path: bool) -> Seq<char> {
    if only_path {
        url.path + match url.query {
            Some(q) => "?"@ + q,
            None => Seq::empty(),
        }
    } else {
        url.text
    }
}

/// What introduces the expiry: `&e=` after a text that holds a `?` already,
/// `?e=` after any other.
pub open spec fn expiry_key(base: Seq<char>) -> Seq<char> {
    if base.contains('?') {
        "&e="@
    } else {
        "?e="@
    }
}

/// The text that the token of a download URL signs.
pub open spec fn download_to_sign(url: UrlView, expiry: nat, only_path: bool) -> Seq<char> {
    let base = download_base(url, only_path);
    base + expiry_key(base) + decimal_text(expiry)
}

/// The download URL that expires at `expiry` seconds after the epoch: the
/// URL, the expiry, and the token over [`download_to_sign`].
pub open spec fn signed_download_url(
    c: CredentialView,
    url: UrlView,
    expiry: nat,
    only_path: bool,
) -> Seq<char> {
    url.text + expiry_key(download_base(url, only_path)) + decimal_text(expiry) + "&token="@
        + sign_spec(c, encode_utf8(download_to_sign(url, expiry, only_path)))
}

/// The expiry written for a deadline of `secs` seconds after the epoch: the
/// same number, or the largest that 32 bits hold where it is larger.
pub open spec fn expiry_seconds(secs: int) -> nat
    recommends
        secs >= 0,
{
    if secs > u32::MAX {
        u32::MAX as nat
    } else {
        secs as nat
    }
}

/// The whole seconds after the epoch at which a `lifetime` that begins at
/// `now` ends.
pub open spec fn deadline_seconds(now: Timestamp, lifetime: Lifetime) -> int {
    now.secs + lifetime.secs + (now.nanos + lifetime.nanos) / (NANOS_PER_SEC as int)
}

/// Signs a download URL that expires at `expiry` seconds after the epoch.
pub fn sign_download_url_with_expiry(
    c: &Credential,
    url: &ParsedUrl,
    expiry: u32,
    only_path: bool,
) -> (signed_url: String)
    ensures
        signed_url@ == signed_download_url(c@, url@, expiry as nat, only_path),
{
    let mut to_sign = String::new();
    if only_path {
        to_sign.append(url.path.as_str());
        if let Some(query) = &url.query {
            to_sign.append("?");
            to_sign.append(query.as_str());
        }
    } else {
        to_sign.append(url.text.as_str());
    }
    assert(to_sign@ =~= download_base(url@, only_path));
    let key = if contains_char(to_sign.as_str(), '?') {
        "&e="
    } else {
        "?e="
    };
    let mut digits = String::new();
    append_decimal(&mut digits, expiry as u64);
    to_sign.append(key);
    to_sign.append(digits.as_str());
    let token = c.sign(to_sign.as_str().as_bytes());
    let mut signed_url = url.text.clone();
    signed_url.append(key);
    signed_url.append(digits.as_str());
    signed_url.append("&token=");
    signed_url.append(token.as_str());
    signed_url
}

/// Signs a download URL that expires at `deadline`. A deadline before the
/// epoch is refused; one too late for 32 bits is written as the latest
/// that 32 bits hold.
pub fn sign_download_url_with_deadline(
    c: &Credential,
    url: &ParsedUrl,
    deadline: Timestamp,
    only_path: bool,
) -> (r: Result<String, SignError>)
    ensures
        match r {
            Ok(signed_url) => deadline.secs >= 0 && signed_url@ == signed_download_url(
                c@,
                url@,
                expiry_seconds(deadline.secs as int),
                only_path,
            ),
            Err(e) => e == SignError::TimeRange && deadline.secs < 0,
        },
{
    if deadline.secs < 0 {
        return Err(SignError::TimeRange);
    }
    let expiry: u32 = if deadline.secs > 0xffff_ffff {
        0xffff_ffff
    } else {
        deadline.secs as u32
    };
    Ok(sign_download_url_with_expiry(c, url, expiry, only_path))
}

/// Signs a download URL that expires when `lifetime` has passed since `now`.
pub fn sign_download_url_with_lifetime(
    c: &Credential,
    url: &ParsedUrl,
    now: Timestamp,
    lifetime: Lifetime,
    only_path: bool,
) -> (r: Result<String, SignError>)
    ensures
        match r {
            Ok(signed_url) => deadline_seconds(now, lifetime) >= 0 && signed_url@
                == signed_download_url(
                c@,
                url@,
                expiry_seconds(deadline_seconds(now, lifetime)),
                only_path,
            ),
            Err(e) => e == SignError::TimeRange && deadline_seconds(now, lifetime) < 0,
        },
{
    let carry: u64 = (now.nanos as u64 + lifetime.nanos as u64) / (NANOS_PER_SEC as u64);
    let secs: i128 = now.secs as i128 + lifetime.secs as i128 + carry as i128;
    if secs < 0 {
        return Err(SignError::TimeRange);
    }
    let expiry: u32 = if secs > 0xffff_ffff {
        0xffff_ffff
    } else {
        secs as u32
    };
    Ok(sign_download_url_with_expiry(c, url, expiry, only_path))
}

} // verus!
