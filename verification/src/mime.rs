//! The content types that decide whether a body is signed.

use vstd::prelude::*;

verus! {

/// Form data; the one content type whose body the first protocol signs.
pub const FORM_MIME: &'static str = "application/x-www-form-urlencoded";

/// Raw bytes; the one content type whose body the second protocol leaves out.
pub const BINARY_MIME: &'static str = "application/octet-stream";

/// JSON text.
pub const JSON_MIME: &'static str = "application/json";

} // verus!
