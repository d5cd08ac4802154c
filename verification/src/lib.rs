//! Request signing for the Qiniu object-storage API: the canonical byte
//! strings that the service expects, and the tokens made by signing them.
//!
//! - [`credential`]: the key pair; raw tokens and the tokens of requests.
//! - [`canonical`]: the canonical form of a request under either protocol.
//! - [`headers`]: request headers, and which of them are signed in what order.
//! - [`download`]: download URLs with an expiry and a token.
//! - [`parsed_url`]: the parts of a URL that signing reads.
//! - [`base64`], [`mac`], [`utils`]: encodings, the keyed hash, checksums.
//! - [`text`]: helpers on bytes and text.
//! - [`laws`]: what holds of tokens and canonical forms for every input.

pub mod base64;
pub mod canonical;
pub mod credential;
pub mod download;
pub mod error;
pub mod headers;
pub mod laws;
pub mod mac;
pub mod mime;
pub mod parsed_url;
pub mod text;
pub mod utils;
