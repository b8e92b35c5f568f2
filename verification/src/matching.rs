//! Matchers: predicates over a request's host, path, headers, query
//! parameters and method.

use crate::request::Request;
use crate::specificity::{HostMatch, PathMatch, RequestMatch};
use crate::text::{chars_of, find_char, is_under, lies_under, starts_with};
use vstd::prelude::*;
use vstd::string::*;
use vstd::utf8::*;

verus! {

/// The span, in bytes, of the first match of the pattern `pattern` in
/// `text`; `None` where nothing matches or `pattern` is no valid pattern.
pub uninterp spec fn pattern_span(pattern: Seq<char>, text: Seq<char>) -> Option<(usize, usize)>;

/// Compiles `pattern` with `regex::Regex::new` and searches `text` with
/// `regex::Regex::find`. The contract only gives the outcome its name: the
/// same pattern and text always yield the same span.
#[verifier::external_body]
fn find_pattern(pattern: &str, text: &str) -> (r: Option<(usize, usize)>)
    ensures
        r == pattern_span(pattern@, text@),
{
    match regex::Regex::new(pattern) {
        Ok(re) => re.find(text).map(|m| (m.start(), m.end())),
        Err(_) => None,
    }
}

/// `pattern` matches somewhere in `text`.
pub open spec fn pattern_occurs(pattern: Seq<char>, text: Seq<char>) -> bool {
    pattern_span(pattern, text) is Some
}

/// `pattern`'s first match in `text` is the whole of `text`.
pub open spec fn pattern_covers(pattern: Seq<char>, text: Seq<char>) -> bool {
    pattern_span(pattern, text) == Some((0usize, encode_utf8(text).len() as usize))
}

/// `prefix` begins `path` and ends where a segment of `path` ends.
pub open spec fn is_path_prefix(prefix: Seq<char>, path: Seq<char>) -> bool {
    &&& prefix.is_prefix_of(path)
    &&& (prefix.len() == path.len() || (prefix.len() > 0 && prefix.last() == '/')
        || path[prefix.len() as int] == '/')
}

/// A predicate over a request's path.
#[derive(Clone, Debug, PartialEq, Eq, Hash)]
pub enum MatchPath {
    /// The path is exactly this text.
    Exact(String),
    /// The path begins with this text, up to the end of a segment.
    Prefix(String),
    /// The whole path matches this pattern.
    Regex(String),
}

impl MatchPath {
    pub open spec fn spec_match(self, path: Seq<char>) -> Option<PathMatch> {
        match self {
            MatchPath::Exact(s) => if s@ == path {
                Some(PathMatch::Exact(path.len() as usize))
            } else {
                None
            },
            MatchPath::Prefix(p) => if is_path_prefix(p@, path) {
                Some(PathMatch::Prefix(p@.len() as usize))
            } else {
                None
            },
            MatchPath::Regex(re) => if pattern_covers(re@, path) {
                Some(PathMatch::Regex(path.len() as usize))
            } else {
                None
            },
        }
    }

    /// What a pattern's match on `path` is worth, given the span `found`
    /// that the search returned: the match counts only where it is the whole
    /// path.
    pub fn cover(found: Option<(usize, usize)>, path: &str) -> (r: Option<PathMatch>)
        ensures
            r == if found == Some((0usize, encode_utf8(path@).len() as usize)) {
                Some(PathMatch::Regex(path@.len() as usize))
            } else {
                None::<PathMatch>
            },
    {
        match found {
            Some((start, end)) => {
                if start == 0 && end == path.len() {
                    Some(PathMatch::Regex(path.unicode_len()))
                } else {
                    None
                }
            },
            None => None,
        }
    }

    /// Matches `path`, and says how specific the match is.
    pub fn match_length(&self, path: &String) -> (r: Option<PathMatch>)
        ensures
            r == self.spec_match(path@),
    {
        match self {
            MatchPath::Exact(s) => {
                if *s == *path {
                    Some(PathMatch::Exact(path.as_str().unicode_len()))
                } else {
                    None
                }
            },
            MatchPath::Prefix(p) => {
                let pv = chars_of(p.as_str());
                let sv = chars_of(path.as_str());
                if starts_with(&sv, &pv) && (pv.len() == sv.len() || (pv.len() > 0 && pv[pv.len()
                    - 1] == '/') || sv[pv.len()] == '/') {
                    Some(PathMatch::Prefix(pv.len()))
                } else {
                    None
                }
            },
            MatchPath::Regex(re) => MatchPath::cover(
                find_pattern(re.as_str(), path.as_str()),
                path.as_str(),
            ),
        }
    }
}

/// Why a text is no host matcher.
#[derive(Clone, Copy, Debug, PartialEq, Eq, Hash, Structural)]
pub enum InvalidHost {
    /// The text is empty.
    Empty,
    /// A `*` stands where none may: anywhere but alone, or in a leading
    /// `*.` that something follows.
    Wildcard,
}

/// The suffix of a wildcard pattern: empty for `*` alone; for `*.` and a
/// text without a `*` behind it, that text. `None` for any other text.
pub open spec fn wildcard_suffix(s: Seq<char>) -> Option<Seq<char>> {
    if s =~= seq!['*'] {
        Some(Seq::empty())
    } else if s.len() >= 3 && s[0] == '*' && s[1] == '.' && !s.subrange(2, s.len() as int).contains(
        '*',
    ) {
        Some(s.subrange(2, s.len() as int))
    } else {
        None
    }
}

/// A wildcard over `suffix` admits `host`: any host that is not empty
/// where the suffix is empty, else a host that lies under the suffix.
pub open spec fn wildcard_admits(suffix: Seq<char>, host: Seq<char>) -> bool {
    if suffix.len() == 0 {
        host.len() > 0
    } else {
        lies_under(host, suffix)
    }
}

/// `r` is what the text `s` reads as: an exact name where `s` is not empty
/// and holds no `*`; a wildcard over the suffix of `s` where `s` is a
/// wildcard pattern; else the error that says what is wrong with `s`.
pub open spec fn reads_as_host(s: Seq<char>, r: Result<MatchHost, InvalidHost>) -> bool {
    match r {
        Ok(MatchHost::Exact(h)) => h@ == s && s.len() > 0 && !s.contains('*'),
        Ok(MatchHost::Suffix { suffix }) => wildcard_suffix(s) == Some(suffix@),
        Err(InvalidHost::Empty) => s.len() == 0,
        Err(InvalidHost::Wildcard) => s.contains('*') && wildcard_suffix(s) is None,
    }
}

/// A predicate over the host that a request addresses.
#[derive(Clone, Debug, PartialEq, Eq, Hash)]
pub enum MatchHost {
    /// The host is exactly this name.
    Exact(String),
    /// The host lies under this suffix: for `*.example.com` the suffix is
    /// `example.com`. The empty suffix is the wildcard alone, which admits
    /// every host.
    Suffix { suffix: String },
}

impl MatchHost {
    pub open spec fn spec_summarize(self, host: Seq<char>) -> Option<HostMatch> {
        match self {
            MatchHost::Exact(h) => if h@ == host {
                Some(HostMatch::Exact(host.len() as usize))
            } else {
                None
            },
            MatchHost::Suffix { suffix } => if wildcard_admits(suffix@, host) {
                Some(HostMatch::Suffix(suffix@.len() as usize))
            } else {
                None
            },
        }
    }

    /// Matches `host`, and says how specific the match is.
    pub fn summarize_match(&self, host: &String) -> (r: Option<HostMatch>)
        ensures
            r == self.spec_summarize(host@),
    {
        match self {
            MatchHost::Exact(h) => {
                if *h == *host {
                    Some(HostMatch::Exact(host.as_str().unicode_len()))
                } else {
                    None
                }
            },
            MatchHost::Suffix { suffix } => {
                let hv = chars_of(host.as_str());
                let sv = chars_of(suffix.as_str());
                let admits = if sv.len() == 0 {
                    hv.len() > 0
                } else {
                    is_under(&hv, &sv)
                };
                if admits {
                    Some(HostMatch::Suffix(sv.len()))
                } else {
                    None
                }
            },
        }
    }

    /// Reads a host matcher: `*.example.com` is a wildcard over the suffix
    /// `example.com`, `*` the wildcard alone, and any other text without a
    /// `*` an exact name.
    pub fn parse(s: &str) -> (r: Result<MatchHost, InvalidHost>)
        ensures
            reads_as_host(s@, r),
    {
        let v = chars_of(s);
        if v.len() == 0 {
            return Err(InvalidHost::Empty);
        }
        match find_char(&v, '*') {
            None => Ok(MatchHost::Exact(s.to_owned())),
            Some(_) => {
                if v.len() == 1 {
                    assert(s@ =~= seq!['*']);
                    return Ok(MatchHost::Suffix { suffix: String::new() });
                }
                if v.len() >= 3 && v[0] == '*' && v[1] == '.' {
                    let rest = s.substring_char(2, v.len());
                    let rv = chars_of(rest);
                    if find_char(&rv, '*').is_none() {
                        return Ok(MatchHost::Suffix { suffix: rest.to_owned() });
                    }
                }
                Err(InvalidHost::Wildcard)
            },
        }
    }
}

impl core::str::FromStr for MatchHost {
    type Err = InvalidHost;

    /// Reads a host matcher, as `MatchHost::parse` does.
    fn from_str(s: &str) -> (r: Result<MatchHost, InvalidHost>)
        ensures
            reads_as_host(s@, r),
    {
        MatchHost::parse(s)
    }
}

/// `entries` holds the name `name` with a value that `value` accepts: as
/// the value itself, or as a pattern where `by_pattern` is set.
pub open spec fn holds_entry(
    entries: Seq<(String, String)>,
    name: Seq<char>,
    value: Seq<char>,
    by_pattern: bool,
) -> bool {
    exists|i: int|
        0 <= i < entries.len() && (#[trigger] entries[i]).0@ == name && if by_pattern {
            pattern_occurs(value, entries[i].1@)
        } else {
            entries[i].1@ == value
        }
}

fn has_entry(entries: &Vec<(String, String)>, name: &String, value: &String, by_pattern: bool) -> (b:
    bool)
    ensures
        b == holds_entry(entries@, name@, value@, by_pattern),
{
    let mut i: usize = 0;
    while i < entries.len()
        invariant
            i <= entries.len(),
            forall|k: int|
                0 <= k < i ==> !((#[trigger] entries@[k]).0@ == name@ && if by_pattern {
                    pattern_occurs(value@, entries@[k].1@)
                } else {
                    entries@[k].1@ == value@
                }),
        decreases entries.len() - i,
    {
        let e = &entries[i];
        if e.0 == *name {
            let hit = if by_pattern {
                find_pattern(value.as_str(), e.1.as_str()).is_some()
            } else {
                e.1 == *value
            };
            if hit {
                return true;
            }
        }
        i += 1;
    }
    false
}

/// A predicate over a request's headers.
#[derive(Clone, Debug, PartialEq, Eq, Hash)]
pub enum MatchHeader {
    /// A header of this name has exactly this value.
    Exact(String, String),
    /// A header of this name has a value in which this pattern matches.
    Regex(String, String),
}

impl MatchHeader {
    pub open spec fn spec_is_match(self, headers: Seq<(String, String)>) -> bool {
        match self {
            MatchHeader::Exact(n, v) => holds_entry(headers, n@, v@, false),
            MatchHeader::Regex(n, re) => holds_entry(headers, n@, re@, true),
        }
    }

    pub fn is_match(&self, headers: &Vec<(String, String)>) -> (b: bool)
        ensures
            b == self.spec_is_match(headers@),
    {
        match self {
            MatchHeader::Exact(n, v) => has_entry(headers, n, v, false),
            MatchHeader::Regex(n, re) => has_entry(headers, n, re, true),
        }
    }
}

/// A predicate over a request's query parameters.
#[derive(Clone, Debug, PartialEq, Eq, Hash)]
pub enum MatchQueryParam {
    /// A parameter of this name has exactly this value.
    Exact(String, String),
    /// A parameter of this name has a value in which this pattern matches.
    Regex(String, String),
}

impl MatchQueryParam {
    pub open spec fn spec_is_match(self, params: Seq<(String, String)>) -> bool {
        match self {
            MatchQueryParam::Exact(n, v) => holds_entry(params, n@, v@, false),
            MatchQueryParam::Regex(n, re) => holds_entry(params, n@, re@, true),
        }
    }

    pub fn is_match(&self, params: &Vec<(String, String)>) -> (b: bool)
        ensures
            b == self.spec_is_match(params@),
    {
        match self {
            MatchQueryParam::Exact(n, v) => has_entry(params, n, v, false),
            MatchQueryParam::Regex(n, re) => has_entry(params, n, re, true),
        }
    }
}

/// A predicate over a request: every part that is given must hold.
#[derive(Clone, Debug, Default, PartialEq, Eq, Hash)]
pub struct MatchRequest {
    pub path: Option<MatchPath>,
    pub headers: Vec<MatchHeader>,
    pub query_params: Vec<MatchQueryParam>,
    /// The method's name, in upper case.
    pub method: Option<String>,
}

impl MatchRequest {
    /// The method that is asked for, if any, is the request's.
    pub open spec fn method_holds(self, req: Request) -> bool {
        self.method matches Some(m) ==> m@ == req.method@
    }

    /// What the path matcher finds; `PathMatch::Any` where there is none.
    pub open spec fn path_found(self, req: Request) -> Option<PathMatch> {
        match self.path {
            Some(p) => p.spec_match(req.path@),
            None => Some(PathMatch::Any),
        }
    }

    pub open spec fn headers_hold(self, req: Request) -> bool {
        forall|i: int|
            0 <= i < self.headers@.len() ==> (#[trigger] self.headers@[i]).spec_is_match(
                req.headers@,
            )
    }

    pub open spec fn query_params_hold(self, req: Request) -> bool {
        forall|i: int|
            0 <= i < self.query_params@.len() ==> (#[trigger] self.query_params@[i]).spec_is_match(
                req.query_params@,
            )
    }

    /// The request meets every part of the matcher.
    pub open spec fn spec_matches(self, req: Request) -> bool {
        &&& self.method_holds(req)
        &&& self.path_found(req) is Some
        &&& self.headers_hold(req)
        &&& self.query_params_hold(req)
    }

    /// The specificity of the match, where the request meets the matcher.
    pub open spec fn spec_summarize(self, req: Request) -> Option<RequestMatch> {
        if self.spec_matches(req) {
            Some(
                RequestMatch {
                    path_match: self.path_found(req)->0,
                    headers: self.headers@.len() as usize,
                    query_params: self.query_params@.len() as usize,
                    method: self.method is Some,
                },
            )
        } else {
            None
        }
    }

    /// Matches `req`, and says how specific the match is.
    pub fn summarize_match(&self, req: &Request) -> (r: Option<RequestMatch>)
        ensures
            r == self.spec_summarize(*req),
    {
        let method = match &self.method {
            Some(m) => {
                if *m != req.method {
                    return None;
                }
                true
            },
            None => false,
        };
        let path_match = match &self.path {
            Some(p) => match p.match_length(&req.path) {
                Some(pm) => pm,
                None => {
                    return None;
                },
            },
            None => PathMatch::Any,
        };
        let mut i: usize = 0;
        while i < self.headers.len()
            invariant
                i <= self.headers.len(),
                forall|k: int|
                    0 <= k < i ==> (#[trigger] self.headers@[k]).spec_is_match(req.headers@),
            decreases self.headers.len() - i,
        {
            if !self.headers[i].is_match(&req.headers) {
                return None;
            }
            i += 1;
        }
        let mut j: usize = 0;
        while j < self.query_params.len()
            invariant
                j <= self.query_params.len(),
                forall|k: int|
                    0 <= k < j ==> (#[trigger] self.query_params@[k]).spec_is_match(
                        req.query_params@,
                    ),
            decreases self.query_params.len() - j,
        {
            if !self.query_params[j].is_match(&req.query_params) {
                return None;
            }
            j += 1;
        }
        Some(
            RequestMatch {
                path_match,
                headers: self.headers.len(),
                query_params: self.query_params.len(),
                method,
            },
        )
    }
}

} // verus!
