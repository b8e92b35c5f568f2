//! The parts of a request that routing reads.

use vstd::prelude::*;

verus! {

/// A request, as plain values.
///
/// Header names are held in lower case, and a header or query parameter that
/// occurs several times is held once for each occurrence.
#[derive(Clone, Debug, Default, PartialEq, Eq, Hash)]
pub struct Request {
    /// The method's name, in upper case.
    pub method: String,
    /// The host that the request addresses, without a port; `None` where the
    /// request names no authority.
    pub host: Option<String>,
    pub path: String,
    /// The decoded query parameters, each a name and a value.
    pub query_params: Vec<(String, String)>,
    /// The headers, each a name and a value.
    pub headers: Vec<(String, String)>,
}

} // verus!
