//! What routing a request gives.

use crate::http_version::HttpVersion;
use vstd::prelude::*;

verus! {

/// The outcome of routing one request.
///
/// `T` is the type of a matched route. All borrowed parts borrow from the
/// request.
#[derive(PartialEq, Debug)]
pub struct RouterResult<'a, T> {
    /// The matched route, or `None` where no route matched.
    pub route: Option<T>,
    /// The query: what follows the first `?` of the request target, raw.
    pub query: &'a str,
    /// The protocol version of the request.
    pub version: HttpVersion,
    /// Everything behind the blank line that ends the request line: the
    /// headers and the body, not parsed.
    pub head_and_body: &'a [u8],
}

} // verus!
