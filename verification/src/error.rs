//! What can go wrong while a request or a URL is signed.

use vstd::prelude::*;

verus! {

/// Why no token was made.
#[derive(Debug, Clone, Copy, PartialEq, Eq, Structural)]
pub enum SignError {
    /// The URL is not an absolute URL that can be parsed, or it names no host
    /// where one is needed.
    UrlParse,
    /// The deadline lies before the Unix epoch.
    TimeRange,
}

} // verus!
