//! Specificity values: how precisely a matcher pinned a request down.
//!
//! A successful match yields one of these values; a failed match yields none.
//! Values are ranked by `spec_lt`, a strict total order on each type, which
//! `lt` computes. Variants are declared from the lowest to the highest and
//! fields from the most to the least significant, so that the derived `Ord`
//! is the same order.

use vstd::prelude::*;

verus! {

/// How a host matcher matched.
#[derive(Clone, Copy, Debug, PartialEq, Eq, PartialOrd, Ord, Hash, Structural)]
pub enum HostMatch {
    /// A wildcard matched; holds the length of the suffix after `*.`.
    Suffix(usize),
    /// The whole host name was given; holds its length.
    Exact(usize),
}

impl HostMatch {
    /// An exact host ranks above every wildcard.
    pub open spec fn rank(self) -> int {
        match self {
            HostMatch::Exact(_) => 1,
            HostMatch::Suffix(_) => 0,
        }
    }

    pub open spec fn length(self) -> int {
        match self {
            HostMatch::Exact(n) => n as int,
            HostMatch::Suffix(n) => n as int,
        }
    }

    /// `self` is strictly less specific than `other`.
    pub open spec fn spec_lt(self, other: HostMatch) -> bool {
        self.rank() < other.rank() || (self.rank() == other.rank() && self.length()
            < other.length())
    }

    pub fn lt(&self, other: &HostMatch) -> (b: bool)
        ensures
            b == self.spec_lt(*other),
    {
        match (*self, *other) {
            (HostMatch::Exact(l), HostMatch::Exact(r)) => l < r,
            (HostMatch::Suffix(l), HostMatch::Suffix(r)) => l < r,
            (HostMatch::Exact(_), HostMatch::Suffix(_)) => false,
            (HostMatch::Suffix(_), HostMatch::Exact(_)) => true,
        }
    }
}

/// The order on optional host matches: no host constraint ranks lowest.
pub open spec fn host_lt(a: Option<HostMatch>, b: Option<HostMatch>) -> bool {
    match (a, b) {
        (None, None) => false,
        (None, Some(_)) => true,
        (Some(_), None) => false,
        (Some(x), Some(y)) => x.spec_lt(y),
    }
}

/// How a path matcher matched.
#[derive(Clone, Copy, Debug, PartialEq, Eq, PartialOrd, Ord, Hash, Structural)]
pub enum PathMatch {
    /// No path was asked for.
    Any,
    /// A pattern matched the whole path; holds the path's length.
    Regex(usize),
    /// A prefix matched; holds the prefix's length.
    Prefix(usize),
    /// The whole path was given; holds its length.
    Exact(usize),
}

impl PathMatch {
    /// Exact above prefix above pattern above no path at all.
    pub open spec fn rank(self) -> int {
        match self {
            PathMatch::Any => 0,
            PathMatch::Regex(_) => 1,
            PathMatch::Prefix(_) => 2,
            PathMatch::Exact(_) => 3,
        }
    }

    pub open spec fn length(self) -> int {
        match self {
            PathMatch::Any => 0,
            PathMatch::Regex(n) => n as int,
            PathMatch::Prefix(n) => n as int,
            PathMatch::Exact(n) => n as int,
        }
    }

    /// `self` is strictly less specific than `other`: a lower kind, or the
    /// same kind and a shorter length.
    pub open spec fn spec_lt(self, other: PathMatch) -> bool {
        self.rank() < other.rank() || (self.rank() == other.rank() && self.length()
            < other.length())
    }

    fn rank_of(&self) -> (r: u8)
        ensures
            r == self.rank(),
    {
        match self {
            PathMatch::Any => 0,
            PathMatch::Regex(_) => 1,
            PathMatch::Prefix(_) => 2,
            PathMatch::Exact(_) => 3,
        }
    }

    fn length_of(&self) -> (r: usize)
        ensures
            r == self.length(),
    {
        match self {
            PathMatch::Any => 0,
            PathMatch::Regex(n) => *n,
            PathMatch::Prefix(n) => *n,
            PathMatch::Exact(n) => *n,
        }
    }

    pub fn lt(&self, other: &PathMatch) -> (b: bool)
        ensures
            b == self.spec_lt(*other),
    {
        let (r0, r1) = (self.rank_of(), other.rank_of());
        r0 < r1 || (r0 == r1 && self.length_of() < other.length_of())
    }
}

/// What one request matcher found in a request.
#[derive(Clone, Copy, Debug, PartialEq, Eq, PartialOrd, Ord, Hash, Structural)]
pub struct RequestMatch {
    pub path_match: PathMatch,
    /// The number of header predicates that the matcher holds.
    pub headers: usize,
    /// The number of query parameter predicates that the matcher holds.
    pub query_params: usize,
    /// Whether the matcher asked for a method.
    pub method: bool,
}

impl RequestMatch {
    /// The path decides first, then the number of headers, then the number
    /// of query parameters, then whether a method was asked for.
    pub open spec fn spec_lt(self, other: RequestMatch) -> bool {
        if self.path_match != other.path_match {
            self.path_match.spec_lt(other.path_match)
        } else if self.headers != other.headers {
            self.headers < other.headers
        } else if self.query_params != other.query_params {
            self.query_params < other.query_params
        } else {
            !self.method && other.method
        }
    }

    /// The lowest value: what a rule without matchers yields.
    pub open spec fn spec_default() -> RequestMatch {
        RequestMatch { path_match: PathMatch::Any, headers: 0, query_params: 0, method: false }
    }

    pub fn lt(&self, other: &RequestMatch) -> (b: bool)
        ensures
            b == self.spec_lt(*other),
    {
        if self.path_match != other.path_match {
            self.path_match.lt(&other.path_match)
        } else if self.headers != other.headers {
            self.headers < other.headers
        } else if self.query_params != other.query_params {
            self.query_params < other.query_params
        } else {
            !self.method && other.method
        }
    }
}

impl Default for RequestMatch {
    fn default() -> (r: RequestMatch)
        ensures
            r == RequestMatch::spec_default(),
    {
        RequestMatch { path_match: PathMatch::Any, headers: 0, query_params: 0, method: false }
    }
}

/// Nothing ranks below the default value.
pub proof fn lemma_default_is_lowest(m: RequestMatch)
    ensures
        !m.spec_lt(RequestMatch::spec_default()),
{
}

} // verus!
