//! Enforcing policy on each request of a connection.
//!
//! What is known of the connection is fixed when it is accepted. The policy
//! is read afresh for every request, so that a change of policy holds from
//! the next request on. A request is permitted where a route is found for
//! it and one of that route's authorizations lets the client in; a permit
//! says which route and which authorization that was.

use crate::authz::{
    any_permits,
    find_authorized,
    is_first_permit,
    lemma_first_permit_exists,
    ConnectionTls,
};
use crate::meta::{share, Meta};
use crate::net::SocketAddr;
use crate::request::Request;
use crate::routes::HttpRoutes;
use crate::server::{RoutePolicy, ServerPolicy};
use std::sync::Arc;
use vstd::pervasive::cloned;
use vstd::prelude::*;

verus! {

/// What is known of a connection once it is accepted.
#[derive(Clone, Debug, PartialEq, Eq, Hash)]
pub struct ConnectionMeta {
    /// The address that the client meant to reach.
    pub dst: SocketAddr,
    /// The client's address.
    pub client: SocketAddr,
    pub tls: ConnectionTls,
}

/// The server and the route of a request.
#[derive(Clone, Debug, PartialEq, Eq, Hash)]
pub struct RouteLabels {
    pub server: Arc<Meta>,
    pub route: Arc<Meta>,
}

/// The server, the route and the authorization of a permitted request.
#[derive(Clone, Debug, PartialEq, Eq, Hash)]
pub struct RouteAuthzLabels {
    pub route: RouteLabels,
    pub authz: Arc<Meta>,
}

/// A request may pass. Only `HttpPolicyService` makes a permit, and only
/// for a request that it has authorized.
#[derive(Clone, Debug, PartialEq, Eq, Hash)]
pub struct HttpRoutePermit {
    dst: SocketAddr,
    labels: RouteAuthzLabels,
}

impl HttpRoutePermit {
    pub closed spec fn spec_dst(self) -> SocketAddr {
        self.dst
    }

    pub closed spec fn spec_labels(self) -> RouteAuthzLabels {
        self.labels
    }

    /// The address that the client meant to reach.
    pub fn dst(&self) -> (r: SocketAddr)
        ensures
            r == self.spec_dst(),
    {
        self.dst
    }

    /// Who permitted the request.
    pub fn labels(&self) -> (r: &RouteAuthzLabels)
        ensures
            *r == self.spec_labels(),
    {
        &self.labels
    }
}

/// No route was found for a request.
#[derive(Clone, Debug, PartialEq, Eq, Hash)]
pub struct HttpRouteNotFound {
    pub server: Arc<Meta>,
}

/// A route was found for a request, and none of its authorizations lets
/// the client in.
#[derive(Clone, Debug, PartialEq, Eq, Hash)]
pub struct HttpRouteUnauthorized {
    pub labels: RouteLabels,
}

/// Why a request may not pass.
#[derive(Clone, Debug, PartialEq, Eq, Hash)]
pub enum HttpPolicyError {
    NotFound(HttpRouteNotFound),
    Unauthorized(HttpRouteUnauthorized),
}

/// How a request fares, by positions in the route table.
pub enum Verdict {
    /// No rule matches the request.
    RouteNotFound,
    /// Rule `rule` of route `route` is chosen, and none of its
    /// authorizations lets the client in.
    Unauthorized { route: int, rule: int },
    /// Rule `rule` of route `route` is chosen, and `authz` is the first of
    /// its authorizations that lets the client in.
    Permitted { route: int, rule: int, authz: int },
}

/// How `req` fares on a connection under a route table.
pub open spec fn verdict<F>(
    routes: HttpRoutes<RoutePolicy<F>>,
    connection: ConnectionMeta,
    req: Request,
) -> Verdict {
    match routes.spec_find(req) {
        None => Verdict::RouteNotFound,
        Some((_, route, rule)) => {
            let authzs = routes.0@[route].rules@[rule].policy.authorizations@;
            if any_permits(authzs, connection.client, connection.tls) {
                Verdict::Permitted {
                    route,
                    rule,
                    authz: choose|k: int|
                        is_first_permit(authzs, connection.client, connection.tls, k),
                }
            } else {
                Verdict::Unauthorized { route, rule }
            }
        },
    }
}

/// How `req` fares on a connection under a server's policy: as under the
/// route table of the server's protocol, and without a route where the
/// protocol has no table.
pub open spec fn server_verdict(policy: ServerPolicy, connection: ConnectionMeta, req: Request) -> Verdict {
    match policy.protocol.spec_routes() {
        Some(routes) => verdict(routes, connection, req),
        None => Verdict::RouteNotFound,
    }
}

/// `outcome` is what `v` asks for: a permit or an error that names the
/// server, and the route and authorization at the positions that `v` gives.
pub open spec fn carries_out<F>(
    outcome: Result<HttpRoutePermit, HttpPolicyError>,
    v: Verdict,
    server: Arc<Meta>,
    routes: HttpRoutes<RoutePolicy<F>>,
    connection: ConnectionMeta,
) -> bool {
    match (outcome, v) {
        (Ok(permit), Verdict::Permitted { route, rule, authz }) => {
            let policy = routes.0@[route].rules@[rule].policy;
            &&& permit.spec_dst() == connection.dst
            &&& permit.spec_labels().route.server == server
            &&& permit.spec_labels().route.route == policy.meta
            &&& permit.spec_labels().authz == policy.authorizations@[authz].meta
        },
        (Err(HttpPolicyError::Unauthorized(e)), Verdict::Unauthorized { route, rule }) => {
            &&& e.labels.server == server
            &&& e.labels.route == routes.0@[route].rules@[rule].policy.meta
        },
        (Err(HttpPolicyError::NotFound(e)), Verdict::RouteNotFound) => e.server == server,
        _ => false,
    }
}

/// `outcome` is what a request gets on a connection under a server's
/// policy.
pub open spec fn is_outcome(
    policy: ServerPolicy,
    connection: ConnectionMeta,
    req: Request,
    outcome: Result<HttpRoutePermit, HttpPolicyError>,
) -> bool {
    match policy.protocol.spec_routes() {
        Some(routes) => carries_out(
            outcome,
            verdict(routes, connection, req),
            policy.meta,
            routes,
            connection,
        ),
        None => outcome matches Err(HttpPolicyError::NotFound(e)) && e.server == policy.meta,
    }
}

/// Fail closed: under a policy whose protocol has no route table, or an
/// empty one, every request is without a route and none gets a permit.
pub proof fn lemma_no_routes_no_permit(
    policy: ServerPolicy,
    connection: ConnectionMeta,
    req: Request,
    outcome: Result<HttpRoutePermit, HttpPolicyError>,
)
    requires
        policy.protocol.spec_routes() matches Some(routes) ==> routes.0@.len() == 0,
        is_outcome(policy, connection, req, outcome),
    ensures
        server_verdict(policy, connection, req) is RouteNotFound,
        outcome matches Err(HttpPolicyError::NotFound(_)),
{
}

/// A permit is a proof of authorization, and a denial a proof that there
/// is none: a request is permitted exactly when a rule is chosen for it and
/// at least one authorization of that rule's policy lets the client in, by
/// its network and by its identity. The permit names the first that does.
pub proof fn lemma_permit_iff_authorized(
    policy: ServerPolicy,
    connection: ConnectionMeta,
    req: Request,
    outcome: Result<HttpRoutePermit, HttpPolicyError>,
)
    requires
        is_outcome(policy, connection, req, outcome),
    ensures
        outcome is Ok <==> (policy.protocol.spec_routes() matches Some(routes) && routes.spec_find(
            req,
        ) matches Some((_, i, j)) && any_permits(
            routes.0@[i].rules@[j].policy.authorizations@,
            connection.client,
            connection.tls,
        )),
        outcome matches Err(HttpPolicyError::Unauthorized(_)) <==> (
        policy.protocol.spec_routes() matches Some(routes) && routes.spec_find(req) matches Some(
            (_, i, j),
        ) && !any_permits(
            routes.0@[i].rules@[j].policy.authorizations@,
            connection.client,
            connection.tls,
        )),
        outcome is Ok ==> (policy.protocol.spec_routes() matches Some(routes) && verdict(
            routes,
            connection,
            req,
        ) matches Verdict::Permitted { route, rule, authz } && is_first_permit(
            routes.0@[route].rules@[rule].policy.authorizations@,
            connection.client,
            connection.tls,
            authz,
        )),
{
    match policy.protocol.spec_routes() {
        Some(routes) => match routes.spec_find(req) {
            Some((_, i, j)) => {
                let authzs = routes.0@[i].rules@[j].policy.authorizations@;
                if any_permits(authzs, connection.client, connection.tls) {
                    lemma_first_permit_exists(authzs, connection.client, connection.tls);
                }
            },
            None => {},
        },
        None => {},
    }
}

/// The outcome is a function of the policy, the connection and the
/// request: two outcomes for the same three agree on whether the request
/// may pass, on the kind of the refusal, and on every label and address
/// that they carry.
pub proof fn lemma_outcome_deterministic(
    policy: ServerPolicy,
    connection: ConnectionMeta,
    req: Request,
    a: Result<HttpRoutePermit, HttpPolicyError>,
    b: Result<HttpRoutePermit, HttpPolicyError>,
)
    requires
        is_outcome(policy, connection, req, a),
        is_outcome(policy, connection, req, b),
    ensures
        match (a, b) {
            (Ok(x), Ok(y)) => x.spec_dst() == y.spec_dst() && x.spec_labels() == y.spec_labels(),
            (Err(HttpPolicyError::NotFound(x)), Err(HttpPolicyError::NotFound(y))) => x == y,
            (Err(HttpPolicyError::Unauthorized(x)), Err(HttpPolicyError::Unauthorized(y))) => x
                == y,
            _ => false,
        },
{
}

/// Makes the policy service of each connection.
#[derive(Clone, Debug)]
pub struct NewHttpPolicy<N> {
    pub inner: N,
}

/// Enforces policy on the requests of one connection. `target` and `inner`
/// are kept for the stage that follows a permit.
#[derive(Clone, Debug)]
pub struct HttpPolicyService<T, N> {
    pub target: T,
    pub connection: ConnectionMeta,
    pub inner: N,
}

impl<N: Clone> NewHttpPolicy<N> {
    pub fn new(inner: N) -> (r: NewHttpPolicy<N>)
        ensures
            r.inner == inner,
    {
        NewHttpPolicy { inner }
    }

    /// The service for a connection that was accepted for `target`.
    pub fn new_service<T>(&self, target: T, connection: ConnectionMeta) -> (r: HttpPolicyService<T, N>)
        ensures
            r.target == target,
            r.connection == connection,
            cloned(self.inner, r.inner),
    {
        HttpPolicyService { target, connection, inner: self.inner.clone() }
    }
}

impl<T, N> HttpPolicyService<T, N> {
    /// Decides on one request under the policy as it stands now.
    pub fn call(&self, policy: &ServerPolicy, req: &Request) -> (r: Result<
        HttpRoutePermit,
        HttpPolicyError,
    >)
        ensures
            is_outcome(*policy, self.connection, *req, r),
    {
        match policy.protocol.routes() {
            None => Err(self.mk_route_not_found(&policy.meta)),
            Some(routes) => self.authorize(&policy.meta, routes, req),
        }
    }

    /// Finds the route for `req` and checks that one of its authorizations
    /// lets the client of this connection in. The permit names the first
    /// that does.
    pub fn authorize<F>(&self, server: &Arc<Meta>, routes: &HttpRoutes<RoutePolicy<F>>, req: &Request) -> (r:
        Result<HttpRoutePermit, HttpPolicyError>)
        ensures
            carries_out(r, verdict(*routes, self.connection, *req), *server, *routes, self.connection),
    {
        let route = match routes.find(req) {
            Some((_, route)) => route,
            None => {
                return Err(self.mk_route_not_found(server));
            },
        };
        let labels = RouteLabels { route: share(&route.meta), server: share(server) };
        match find_authorized(&route.authorizations, &self.connection.client, &self.connection.tls) {
            Some(k) => Ok(
                HttpRoutePermit {
                    dst: self.connection.dst,
                    labels: RouteAuthzLabels {
                        route: labels,
                        authz: share(&route.authorizations[k].meta),
                    },
                },
            ),
            None => Err(HttpPolicyError::Unauthorized(HttpRouteUnauthorized { labels })),
        }
    }

    /// The error for a request without a route.
    pub fn mk_route_not_found(&self, server: &Arc<Meta>) -> (r: HttpPolicyError)
        ensures
            r matches HttpPolicyError::NotFound(e) && e.server == *server,
    {
        HttpPolicyError::NotFound(HttpRouteNotFound { server: share(server) })
    }
}

} // verus!
