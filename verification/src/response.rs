//! The record kept of the latest response per operation.

use vstd::prelude::*;

verus! {

/// A completed response as plain values: status code, protocol version,
/// headers, the advertised content length and the body text.
#[derive(Debug, Clone)]
pub struct Response {
    pub status: u16,
    pub version: String,
    pub headers: Vec<(String, String)>,
    pub content_length: Option<u64>,
    pub body: String,
}

} // verus!
