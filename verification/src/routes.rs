//! The route table and the choice of the route that fits a request best.
//!
//! A table is an ordered sequence of routes, a route an optional set of host
//! matchers and an ordered sequence of rules, a rule a set of request
//! matchers and a policy. Of all rules that match a request, the one with
//! the greatest specificity is chosen; among equals, the one declared first.

use crate::matching::{MatchHost, MatchRequest};
use crate::ranking::{
    first_greatest,
    greatest,
    is_first_greatest,
    lemma_first_greatest,
    lemma_first_greatest_in_range,
    lemma_first_greatest_push,
    strict_total_order,
};
use crate::request::Request;
use crate::specificity::{host_lt, HostMatch, PathMatch, RequestMatch};
use vstd::prelude::*;

verus! {

/// All routes that may be considered for a request.
#[derive(Clone, Debug, PartialEq, Eq, Hash)]
pub struct HttpRoutes<T>(pub Vec<HttpRoute<T>>);

/// Host matchers and rules. A route without host matchers applies to every
/// host.
#[derive(Clone, Debug, Default, PartialEq, Eq, Hash)]
pub struct HttpRoute<T> {
    pub hosts: Vec<MatchHost>,
    pub rules: Vec<HttpRule<T>>,
}

/// Request matchers and the policy that they lead to. A rule without
/// matchers applies to every request.
#[derive(Clone, Debug, Default, PartialEq, Eq, Hash)]
pub struct HttpRule<T> {
    pub matches: Vec<MatchRequest>,
    pub policy: T,
}

/// How a route and one of its rules matched a request.
#[derive(Clone, Copy, Debug, PartialEq, Eq, PartialOrd, Ord, Hash, Structural)]
pub struct HttpRouteMatch {
    /// `None` where the route has no host matchers.
    pub host: Option<HostMatch>,
    pub request: RequestMatch,
}

impl HttpRouteMatch {
    /// The host decides first, then the request.
    pub open spec fn spec_lt(self, other: HttpRouteMatch) -> bool {
        if self.host != other.host {
            host_lt(self.host, other.host)
        } else {
            self.request.spec_lt(other.request)
        }
    }

    pub fn lt(&self, other: &HttpRouteMatch) -> (b: bool)
        ensures
            b == self.spec_lt(*other),
    {
        match (self.host, other.host) {
            (None, None) => self.request.lt(&other.request),
            (None, Some(_)) => true,
            (Some(_), None) => false,
            (Some(x), Some(y)) => if x != y {
                x.lt(&y)
            } else {
                self.request.lt(&other.request)
            },
        }
    }
}

/// The order on host matches, as a value.
pub open spec fn host_order() -> spec_fn(HostMatch, HostMatch) -> bool {
    |a: HostMatch, b: HostMatch| a.spec_lt(b)
}

/// The order on request matches, as a value.
pub open spec fn request_order() -> spec_fn(RequestMatch, RequestMatch) -> bool {
    |a: RequestMatch, b: RequestMatch| a.spec_lt(b)
}

/// The order on route matches, as a value.
pub open spec fn route_order() -> spec_fn(HttpRouteMatch, HttpRouteMatch) -> bool {
    |a: HttpRouteMatch, b: HttpRouteMatch| a.spec_lt(b)
}

/// The three orders are strict total orders.
pub proof fn lemma_orders()
    ensures
        strict_total_order(host_order()),
        strict_total_order(request_order()),
        strict_total_order(route_order()),
{
}

impl<T> HttpRule<T> {
    /// What each matcher of the rule finds in `req`.
    pub open spec fn candidates(self, req: Request) -> Seq<Option<RequestMatch>> {
        Seq::new(self.matches@.len(), |k: int| self.matches@[k].spec_summarize(req))
    }

    /// The rule's match: the lowest value where the rule has no matchers,
    /// else the greatest value that one of its matchers finds.
    pub open spec fn spec_match(self, req: Request) -> Option<RequestMatch> {
        if self.matches@.len() == 0 {
            Some(RequestMatch::spec_default())
        } else {
            greatest(self.candidates(req), request_order())
        }
    }

    /// Matches `req` against the rule.
    pub fn best_match(&self, req: &Request) -> (r: Option<RequestMatch>)
        ensures
            r == self.spec_match(*req),
    {
        if self.matches.len() == 0 {
            return Some(RequestMatch::default());
        }
        let ghost cands = self.candidates(*req);
        let ghost mut at: Option<int> = None;
        let mut best: Option<RequestMatch> = None;
        let mut k: usize = 0;
        proof {
            assert(cands.take(0) =~= Seq::empty());
        }
        while k < self.matches.len()
            invariant
                k <= self.matches.len(),
                cands == self.candidates(*req),
                at == first_greatest(cands.take(k as int), request_order()),
                best == greatest(cands.take(k as int), request_order()),
            decreases self.matches.len() - k,
        {
            let cur = self.matches[k].summarize_match(req);
            proof {
                lemma_first_greatest_push(cands, request_order(), k as int);
                if at is Some {
                    assert(cands.take(k as int)[at->0] == cands[at->0]);
                    assert(cands.take(k as int + 1)[at->0] == cands[at->0]);
                }
            }
            match (best, cur) {
                (_, None) => {},
                (None, Some(c)) => {
                    best = Some(c);
                },
                (Some(b), Some(c)) => {
                    if b.lt(&c) {
                        best = Some(c);
                    }
                },
            }
            proof {
                at = first_greatest(cands.take(k as int + 1), request_order());
            }
            k += 1;
        }
        proof {
            assert(cands.take(k as int) =~= cands);
        }
        best
    }
}

impl<T> HttpRoute<T> {
    /// What each host matcher of the route finds in `req`: nothing where
    /// the request names no host.
    pub open spec fn host_candidates(self, req: Request) -> Seq<Option<HostMatch>> {
        Seq::new(
            self.hosts@.len(),
            |k: int|
                match req.host {
                    Some(h) => self.hosts@[k].spec_summarize(h@),
                    None => None,
                },
        )
    }

    /// The route's host match. `None`: the route has host matchers and none
    /// fits, so the route is out. `Some(None)`: the route has no host
    /// matchers. `Some(Some(m))`: `m` is the greatest value that one of its
    /// host matchers finds.
    pub open spec fn spec_host(self, req: Request) -> Option<Option<HostMatch>> {
        if self.hosts@.len() == 0 {
            Some(None)
        } else {
            match greatest(self.host_candidates(req), host_order()) {
                Some(m) => Some(Some(m)),
                None => None,
            }
        }
    }

    /// What each rule of the route finds in `req`.
    pub open spec fn rule_candidates(self, req: Request) -> Seq<Option<RequestMatch>> {
        Seq::new(self.rules@.len(), |j: int| self.rules@[j].spec_match(req))
    }

    /// The route's best rule for `req`, as the match and the rule's
    /// position: the first of the rules whose match is greatest.
    pub open spec fn spec_find(self, req: Request) -> Option<(HttpRouteMatch, int)> {
        match (self.spec_host(req), first_greatest(self.rule_candidates(req), request_order())) {
            (Some(host), Some(j)) => Some(
                (HttpRouteMatch { host, request: self.rule_candidates(req)[j]->0 }, j),
            ),
            _ => None,
        }
    }

    /// Matches the request's host against the route.
    pub fn match_host(&self, req: &Request) -> (r: Option<Option<HostMatch>>)
        ensures
            r == self.spec_host(*req),
    {
        if self.hosts.len() == 0 {
            return Some(None);
        }
        let ghost cands = self.host_candidates(*req);
        let host = match &req.host {
            Some(h) => h,
            None => {
                proof {
                    lemma_first_greatest_in_range(cands, host_order());
                }
                return None;
            },
        };
        let ghost mut at: Option<int> = None;
        let mut best: Option<HostMatch> = None;
        let mut k: usize = 0;
        proof {
            assert(cands.take(0) =~= Seq::empty());
        }
        while k < self.hosts.len()
            invariant
                k <= self.hosts.len(),
                req.host == Some(*host),
                cands == self.host_candidates(*req),
                at == first_greatest(cands.take(k as int), host_order()),
                best == greatest(cands.take(k as int), host_order()),
            decreases self.hosts.len() - k,
        {
            let cur = self.hosts[k].summarize_match(host);
            proof {
                lemma_first_greatest_push(cands, host_order(), k as int);
                if at is Some {
                    assert(cands.take(k as int)[at->0] == cands[at->0]);
                    assert(cands.take(k as int + 1)[at->0] == cands[at->0]);
                }
            }
            match (best, cur) {
                (_, None) => {},
                (None, Some(c)) => {
                    best = Some(c);
                },
                (Some(b), Some(c)) => {
                    if b.lt(&c) {
                        best = Some(c);
                    }
                },
            }
            proof {
                at = first_greatest(cands.take(k as int + 1), host_order());
            }
            k += 1;
        }
        proof {
            assert(cands.take(k as int) =~= cands);
        }
        match best {
            Some(m) => Some(Some(m)),
            None => None,
        }
    }

    /// Finds the rule of this route that fits `req` best, if the route's
    /// hosts admit the request and one of its rules matches.
    pub fn find(&self, req: &Request) -> (r: Option<(HttpRouteMatch, &T)>)
        ensures
            match (r, self.spec_find(*req)) {
                (Some((m, policy)), Some((sm, j))) => m == sm && 0 <= j < self.rules@.len()
                    && *policy == self.rules@[j].policy,
                (None, None) => true,
                _ => false,
            },
    {
        let host = match self.match_host(req) {
            Some(h) => h,
            None => {
                return None;
            },
        };
        let ghost cands = self.rule_candidates(*req);
        let mut best: Option<(RequestMatch, usize)> = None;
        let mut k: usize = 0;
        proof {
            assert(cands.take(0) =~= Seq::empty());
        }
        while k < self.rules.len()
            invariant
                k <= self.rules.len(),
                cands == self.rule_candidates(*req),
                match (best, first_greatest(cands.take(k as int), request_order())) {
                    (Some((m, j)), Some(sj)) => j == sj && 0 <= j < k && cands[sj] == Some(m),
                    (None, None) => true,
                    _ => false,
                },
            decreases self.rules.len() - k,
        {
            let cur = self.rules[k].best_match(req);
            proof {
                lemma_first_greatest_push(cands, request_order(), k as int);
            }
            match (best, cur) {
                (_, None) => {},
                (None, Some(c)) => {
                    best = Some((c, k));
                },
                (Some((b, _)), Some(c)) => {
                    if b.lt(&c) {
                        best = Some((c, k));
                    }
                },
            }
            k += 1;
        }
        proof {
            assert(cands.take(k as int) =~= cands);
        }
        match best {
            Some((request, j)) => Some((HttpRouteMatch { host, request }, &self.rules[j].policy)),
            None => None,
        }
    }
}

impl<T> HttpRoutes<T> {
    /// What each route of the table finds in `req`.
    pub open spec fn candidates(self, req: Request) -> Seq<Option<HttpRouteMatch>> {
        Seq::new(
            self.0@.len(),
            |i: int|
                match self.0@[i].spec_find(req) {
                    Some((m, _)) => Some(m),
                    None => None,
                },
        )
    }

    /// The table's choice for `req`, as the match, the route's position and
    /// the rule's position in the route: the first of the routes whose best
    /// match is greatest, and that route's best rule.
    pub open spec fn spec_find(self, req: Request) -> Option<(HttpRouteMatch, int, int)> {
        match first_greatest(self.candidates(req), route_order()) {
            Some(i) => match self.0@[i].spec_find(req) {
                Some((m, j)) => Some((m, i, j)),
                None => None,
            },
            None => None,
        }
    }

    /// Finds the rule that fits `req` best, and hands out its policy.
    pub fn find(&self, req: &Request) -> (r: Option<(HttpRouteMatch, &T)>)
        ensures
            self.is_find_result(*req, r),
    {
        let ghost cands = self.candidates(*req);
        let mut best: Option<(HttpRouteMatch, &T)> = None;
        let ghost mut at: int = 0;
        let mut k: usize = 0;
        proof {
            assert(cands.take(0) =~= Seq::empty());
        }
        while k < self.0.len()
            invariant
                k <= self.0.len(),
                cands == self.candidates(*req),
                match (best, first_greatest(cands.take(k as int), route_order())) {
                    (Some((m, policy)), Some(i)) => {
                        &&& at == i
                        &&& 0 <= i < k
                        &&& cands[i] == Some(m)
                        &&& self.0@[i].spec_find(*req) matches Some((_, j)) && 0 <= j
                            < self.0@[i].rules@.len() && *policy == self.0@[i].rules@[j].policy
                    },
                    (None, None) => true,
                    _ => false,
                },
            decreases self.0.len() - k,
        {
            let cur = self.0[k].find(req);
            proof {
                lemma_first_greatest_push(cands, route_order(), k as int);
            }
            match (best, cur) {
                (_, None) => {},
                (None, Some(c)) => {
                    best = Some(c);
                    proof {
                        at = k as int;
                    }
                },
                (Some((b, _)), Some(c)) => {
                    if b.lt(&c.0) {
                        best = Some(c);
                        proof {
                            at = k as int;
                        }
                    }
                },
            }
            k += 1;
        }
        proof {
            assert(cands.take(k as int) =~= cands);
        }
        best
    }
}

impl<T> Default for HttpRoutes<T> {
    fn default() -> (r: HttpRoutes<T>)
        ensures
            r.0@.len() == 0,
    {
        HttpRoutes(Vec::new())
    }
}

/// Rule `(k, l)` stands before rule `(i, j)` in declaration order.
pub open spec fn declared_before(k: int, l: int, i: int, j: int) -> bool {
    k < i || (k == i && l < j)
}

impl<T> HttpRoutes<T> {
    /// What rule `j` of route `i` finds in `req`, where the route's hosts
    /// admit the request and the rule matches.
    pub open spec fn candidate(self, req: Request, i: int, j: int) -> Option<HttpRouteMatch> {
        if 0 <= i < self.0@.len() && 0 <= j < self.0@[i].rules@.len() {
            match (self.0@[i].spec_host(req), self.0@[i].rules@[j].spec_match(req)) {
                (Some(host), Some(request)) => Some(HttpRouteMatch { host, request }),
                _ => None,
            }
        } else {
            None
        }
    }

    /// Rule `j` of route `i` matches with `m`, no rule of the table matches
    /// with more, and every matching rule declared before it matches with
    /// less.
    pub open spec fn is_choice(self, req: Request, m: HttpRouteMatch, i: int, j: int) -> bool {
        &&& self.candidate(req, i, j) == Some(m)
        &&& forall|k: int, l: int|
            (#[trigger] self.candidate(req, k, l)) matches Some(n) ==> !m.spec_lt(n) && (
            declared_before(k, l, i, j) ==> n.spec_lt(m))
    }

    /// `r` is what `find` returns for `req`.
    pub open spec fn is_find_result(self, req: Request, r: Option<(HttpRouteMatch, &T)>) -> bool {
        match (r, self.spec_find(req)) {
            (Some((m, policy)), Some((sm, i, j))) => m == sm && 0 <= i < self.0@.len() && 0 <= j
                < self.0@[i].rules@.len() && *policy == self.0@[i].rules@[j].policy,
            (None, None) => true,
            _ => false,
        }
    }

    /// The table's choice is the first of the rules that match best; the
    /// table chooses nothing exactly when no rule matches.
    pub proof fn lemma_find_is_choice(self, req: Request)
        ensures
            match self.spec_find(req) {
                Some((m, i, j)) => self.is_choice(req, m, i, j),
                None => forall|k: int, l: int| (#[trigger] self.candidate(req, k, l)) is None,
            },
    {
        let cands = self.candidates(req);
        lemma_orders();
        lemma_first_greatest(cands, route_order());
        assert forall|k: int, l: int| (#[trigger] self.candidate(req, k, l)) is Some implies {
            &&& cands[k] is Some
            &&& !(cands[k]->0).spec_lt(self.candidate(req, k, l)->0)
            &&& self.0@[k].spec_find(req) matches Some((mk, jk)) && (l < jk ==> self.candidate(
                req,
                k,
                l,
            )->0.spec_lt(mk))
        } by {
            let rc = self.0@[k].rule_candidates(req);
            lemma_first_greatest(rc, request_order());
            assert(rc[l] is Some);
            let jk = first_greatest(rc, request_order())->0;
            assert(is_first_greatest(rc, request_order(), jk));
            assert(!request_order()(rc[jk]->0, rc[l]->0));
            if l < jk {
                assert(request_order()(rc[l]->0, rc[jk]->0));
            }
        }
        match self.spec_find(req) {
            Some((m, i, j)) => {
                assert(is_first_greatest(cands, route_order(), i));
                let rc = self.0@[i].rule_candidates(req);
                lemma_first_greatest(rc, request_order());
                assert(is_first_greatest(rc, request_order(), j));
                assert(self.candidate(req, i, j) == Some(m));
                assert forall|k: int, l: int|
                    (#[trigger] self.candidate(req, k, l)) is Some implies !m.spec_lt(
                    self.candidate(req, k, l)->0,
                ) && (declared_before(k, l, i, j) ==> self.candidate(req, k, l)->0.spec_lt(m)) by {
                    let n = self.candidate(req, k, l)->0;
                    let mk = cands[k]->0;
                    assert(cands[k] is Some);
                    assert(!route_order()(cands[i]->0, cands[k]->0));
                    assert(!m.spec_lt(mk));
                    assert(!mk.spec_lt(n));
                    if k < i {
                        assert(route_order()(cands[k]->0, cands[i]->0));
                    }
                }
            },
            None => {
                assert forall|k: int, l: int| (#[trigger] self.candidate(req, k, l)) is None by {
                    if self.candidate(req, k, l) is Some {
                        assert(cands[k] is Some);
                    }
                }
            },
        }
    }

    /// A rule that meets `is_choice` is the one that the table chooses.
    pub proof fn lemma_choice_is_found(self, req: Request, m: HttpRouteMatch, i: int, j: int)
        requires
            self.is_choice(req, m, i, j),
        ensures
            self.spec_find(req) == Some((m, i, j)),
    {
        self.lemma_find_is_choice(req);
        match self.spec_find(req) {
            Some((m2, i2, j2)) => {
                assert(self.candidate(req, i2, j2) == Some(m2));
                assert(self.candidate(req, i, j) == Some(m));
                if declared_before(i, j, i2, j2) {
                    assert(m.spec_lt(m2));
                } else if declared_before(i2, j2, i, j) {
                    assert(m2.spec_lt(m));
                }
            },
            None => {
                assert(self.candidate(req, i, j) is None);
            },
        }
    }

    /// Choosing is a function of the table and the request: two results of
    /// `find` on the same table and request are the same match and the same
    /// policy.
    pub proof fn lemma_find_deterministic(
        self,
        req: Request,
        r1: Option<(HttpRouteMatch, &T)>,
        r2: Option<(HttpRouteMatch, &T)>,
    )
        requires
            self.is_find_result(req, r1),
            self.is_find_result(req, r2),
        ensures
            r1 is Some <==> r2 is Some,
            r1 matches Some((m1, p1)) ==> r2 matches Some((m2, p2)) && m1 == m2 && *p1 == *p2,
    {
    }

    /// A rule that another matching rule outranks is never chosen.
    pub proof fn lemma_outranked_not_chosen(self, req: Request, a: int, la: int, b: int, lb: int)
        requires
            self.candidate(req, a, la) matches Some(ma) && self.candidate(req, b, lb) matches Some(
                mb,
            ) && ma.spec_lt(mb),
        ensures
            self.spec_find(req) matches Some((_, i, j)) && !(i == a && j == la),
    {
        self.lemma_find_is_choice(req);
    }

    /// Host precedence: where one route admits the request by an exact host
    /// and another only by a wildcard, the wildcard route is not chosen,
    /// whichever was declared first and whatever their rules found.
    pub proof fn lemma_exact_host_precedes(self, req: Request, a: int, la: int, b: int, lb: int)
        requires
            self.candidate(req, a, la) matches Some(ma) && ma.host matches Some(
                HostMatch::Suffix(_),
            ),
            self.candidate(req, b, lb) matches Some(mb) && mb.host matches Some(
                HostMatch::Exact(_),
            ),
        ensures
            self.spec_find(req) matches Some((m, i, _)) && i != a && m.host matches Some(
                HostMatch::Exact(_),
            ),
    {
        self.lemma_find_is_choice(req);
        let (m, i, j) = self.spec_find(req)->0;
        assert(self.candidate(req, i, j) == Some(m));
        assert(!m.spec_lt(self.candidate(req, b, lb)->0));
    }

    /// Path specificity: among rules under equal host matches, one that
    /// matched the path exactly, or by a longer prefix, keeps one that
    /// matched by a shorter prefix from being chosen.
    pub proof fn lemma_longer_path_precedes(self, req: Request, a: int, la: int, b: int, lb: int)
        requires
            self.candidate(req, a, la) is Some,
            self.candidate(req, b, lb) is Some,
            self.candidate(req, a, la)->0.host == self.candidate(req, b, lb)->0.host,
            self.candidate(req, a, la)->0.request.path_match is Prefix,
            ({
                let shorter = self.candidate(req, a, la)->0.request.path_match;
                let other = self.candidate(req, b, lb)->0.request.path_match;
                other is Exact || (other is Prefix && shorter.length() < other.length())
            }),
        ensures
            self.spec_find(req) matches Some((_, i, j)) && !(i == a && j == la),
    {
        self.lemma_outranked_not_chosen(req, a, la, b, lb);
    }

    /// Header count: among rules under equal host and path matches, one
    /// that asked for more headers keeps one that asked for fewer from being
    /// chosen.
    pub proof fn lemma_more_headers_precede(self, req: Request, a: int, la: int, b: int, lb: int)
        requires
            self.candidate(req, a, la) matches Some(ma) && self.candidate(req, b, lb) matches Some(
                mb,
            ) && ma.host == mb.host && ma.request.path_match == mb.request.path_match
                && ma.request.headers < mb.request.headers,
        ensures
            self.spec_find(req) matches Some((_, i, j)) && !(i == a && j == la),
    {
        self.lemma_outranked_not_chosen(req, a, la, b, lb);
    }

    /// First declared wins: of two rules that match equally, the one
    /// declared later is never chosen.
    pub proof fn lemma_first_declared_wins(self, req: Request, a: int, la: int, b: int, lb: int)
        requires
            self.candidate(req, a, la) is Some,
            self.candidate(req, a, la) == self.candidate(req, b, lb),
            declared_before(a, la, b, lb),
        ensures
            self.spec_find(req) matches Some((_, i, j)) && !(i == b && j == lb),
    {
        self.lemma_find_is_choice(req);
    }
}

} // verus!
