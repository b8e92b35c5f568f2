//! A server's policy: the protocol it speaks, the routes of that protocol
//! and the authorizations of the server itself; and the reading of such a
//! policy from the values that came over the wire.

use crate::authz::Authorization;
use crate::labels::Labels;
use crate::meta::{group_of, kind_of, name_of, InvalidMeta, Meta};
use crate::routes::{HttpRoute, HttpRoutes};
use std::sync::Arc;
use vstd::prelude::*;

verus! {

/// A filter that a route carries for a later stage to apply. The library
/// hands it on and never looks into it.
#[derive(Clone, Debug, PartialEq, Eq, Hash)]
pub struct Filter {
    pub kind: String,
}

/// What a rule leads to: who the route is, who may use it, and its filters.
#[derive(Clone, Debug, PartialEq, Eq, Hash)]
pub struct RoutePolicy<T> {
    pub meta: Arc<Meta>,
    pub authorizations: Vec<Authorization>,
    pub filters: Vec<T>,
}

/// A route of a server.
pub type Route = HttpRoute<RoutePolicy<Filter>>;

/// A span of time: whole seconds and the nanoseconds beyond them.
#[derive(Clone, Copy, Debug, PartialEq, Eq, Hash, Structural)]
pub struct Timeout {
    pub secs: u64,
    pub nanos: u32,
}

impl Timeout {
    /// The nanoseconds stay below one second.
    pub open spec fn wf(self) -> bool {
        self.nanos < 1_000_000_000
    }

    /// The span in nanoseconds.
    pub open spec fn total(self) -> int {
        self.secs * 1_000_000_000 + self.nanos
    }

    /// The span of `total` nanoseconds.
    pub open spec fn of_total(total: int) -> Timeout {
        Timeout { secs: (total / 1_000_000_000) as u64, nanos: (total % 1_000_000_000) as u32 }
    }

    /// A well-formed span is the span of its nanoseconds.
    pub proof fn lemma_of_total(self)
        requires
            self.wf(),
        ensures
            self == Timeout::of_total(self.total()),
    {
        let t = self.total();
        assert(t / 1_000_000_000 == self.secs && t % 1_000_000_000 == self.nanos)
            by (nonlinear_arith)
            requires
                t == self.secs * 1_000_000_000 + self.nanos,
                0 <= self.nanos < 1_000_000_000,
        ;
    }
}

/// The protocol of a server, with the routes of the protocols that have
/// any.
#[derive(Clone, Debug, PartialEq, Eq, Hash)]
pub enum Protocol {
    /// The protocol is detected on each connection, within `timeout`.
    Detect { http: HttpRoutes<RoutePolicy<Filter>>, timeout: Timeout },
    Http1(HttpRoutes<RoutePolicy<Filter>>),
    Http2(HttpRoutes<RoutePolicy<Filter>>),
    Grpc(HttpRoutes<RoutePolicy<Filter>>),
    Opaque,
    Tls,
}

impl Protocol {
    /// The route table of the protocol; none for opaque and TLS servers.
    pub open spec fn spec_routes(self) -> Option<HttpRoutes<RoutePolicy<Filter>>> {
        match self {
            Protocol::Detect { http, .. } => Some(http),
            Protocol::Http1(routes) => Some(routes),
            Protocol::Http2(routes) => Some(routes),
            Protocol::Grpc(routes) => Some(routes),
            Protocol::Opaque => None,
            Protocol::Tls => None,
        }
    }

    pub fn routes(&self) -> (r: Option<&HttpRoutes<RoutePolicy<Filter>>>)
        ensures
            match (r, self.spec_routes()) {
                (Some(a), Some(b)) => *a == b,
                (None, None) => true,
                _ => false,
            },
    {
        match self {
            Protocol::Detect { http, .. } => Some(http),
            Protocol::Http1(routes) => Some(routes),
            Protocol::Http2(routes) => Some(routes),
            Protocol::Grpc(routes) => Some(routes),
            Protocol::Opaque => None,
            Protocol::Tls => None,
        }
    }
}

/// The policy of one server, as it stands at one moment.
#[derive(Clone, Debug, PartialEq, Eq)]
pub struct ServerPolicy {
    pub protocol: Protocol,
    /// The authorizations of the server itself.
    pub authorizations: Vec<Authorization>,
    pub meta: Arc<Meta>,
}

/// A span of time as it comes over the wire: seconds and nanoseconds, each
/// with a sign of its own.
#[derive(Clone, Copy, Debug, PartialEq, Eq, Hash, Structural)]
pub struct WireDuration {
    pub seconds: i64,
    pub nanos: i32,
}

impl WireDuration {
    /// The span in nanoseconds; negative where the span is.
    pub open spec fn total(self) -> int {
        self.seconds * 1_000_000_000 + self.nanos
    }
}

/// Converts with `prost_types`' `TryFrom<prost_types::Duration>` for
/// `std::time::Duration`. That conversion brings seconds and nanoseconds to
/// one sign and then returns the span where it is not negative, and else
/// the error `NegativeDuration` with the span's magnitude. The bounds keep
/// the seconds away from where it saturates; it returns no other error, so
/// `Err(None)` does not occur.
#[verifier::external_body]
fn convert_duration(seconds: i64, nanos: i32) -> (r: Result<Timeout, Option<Timeout>>)
    requires
        i64::MIN + 4 <= seconds <= i64::MAX - 4,
    ensures
        match r {
            Ok(t) => t.wf() && t.total() == seconds * 1_000_000_000 + nanos,
            Err(Some(t)) => t.wf() && t.total() == -(seconds * 1_000_000_000 + nanos) && t.total()
                > 0,
            Err(None) => false,
        },
{
    match std::time::Duration::try_from(prost_types::Duration { seconds, nanos }) {
        Ok(d) => Ok(Timeout { secs: d.as_secs(), nanos: d.subsec_nanos() }),
        Err(prost_types::DurationError::NegativeDuration(d)) => Err(
            Some(Timeout { secs: d.as_secs(), nanos: d.subsec_nanos() }),
        ),
        Err(_) => Err(None),
    }
}

impl Timeout {
    /// The span of a wire duration that is not negative; for a negative
    /// one, its magnitude as the error.
    pub fn from_wire(d: WireDuration) -> (r: Result<Timeout, Timeout>)
        ensures
            r == if d.total() >= 0 {
                Ok::<Timeout, Timeout>(Timeout::of_total(d.total()))
            } else {
                Err::<Timeout, Timeout>(Timeout::of_total(-d.total()))
            },
    {
        if i64::MIN + 4 <= d.seconds && d.seconds <= i64::MAX - 4 {
            match convert_duration(d.seconds, d.nanos) {
                Ok(t) => {
                    proof {
                        t.lemma_of_total();
                    }
                    Ok(t)
                },
                Err(Some(t)) => {
                    proof {
                        t.lemma_of_total();
                    }
                    Err(t)
                },
                // The conversion has no other error.
                Err(None) => Err(Timeout { secs: 0, nanos: 0 }),
            }
        } else {
            // At the far ends of the range the seconds would overflow on
            // the way, so the span is computed in a wider type.
            let total: i128 = d.seconds as i128 * 1_000_000_000 + d.nanos as i128;
            if total >= 0 {
                Ok(
                    Timeout {
                        secs: (total / 1_000_000_000) as u64,
                        nanos: (total % 1_000_000_000) as u32,
                    },
                )
            } else {
                let m: i128 = -total;
                Err(
                    Timeout { secs: (m / 1_000_000_000) as u64, nanos: (m % 1_000_000_000) as u32 },
                )
            }
        }
    }
}

/// Why a wire value is no route.
#[derive(Clone, Debug, PartialEq, Eq, Hash)]
pub struct InvalidRoute {
    pub reason: String,
}

/// Why a wire value is no authorization.
#[derive(Clone, Debug, PartialEq, Eq, Hash)]
pub struct InvalidAuthz {
    pub reason: String,
}

/// Why a wire value is no server policy.
#[derive(Clone, Debug, PartialEq, Eq, Hash)]
pub enum InvalidServer {
    /// The protocol is detected, and no timeout for that is given.
    MissingDetectTimeout,
    /// The timeout for detecting the protocol is negative; holds its
    /// magnitude.
    NegativeDetectTimeout(Timeout),
    /// No protocol is given.
    MissingProxyProtocol,
    /// The labels give no identity.
    Meta(InvalidMeta),
    Authz(InvalidAuthz),
    GrpcRoute(InvalidRoute),
    HttpRoute(InvalidRoute),
}

/// The first error among `items`, if there is one.
pub open spec fn first_error<T, E>(items: Seq<Result<T, E>>) -> Option<E>
    decreases items.len(),
{
    if items.len() == 0 {
        None
    } else {
        match items[0] {
            Err(e) => Some(e),
            Ok(_) => first_error(items.drop_first()),
        }
    }
}

/// Every one of `items` is `Ok`, and `values` are what they hold, in order.
pub open spec fn all_ok<T, E>(items: Seq<Result<T, E>>, values: Seq<T>) -> bool {
    &&& values.len() == items.len()
    &&& forall|i: int| 0 <= i < items.len() ==> (#[trigger] items[i]) == Ok::<T, E>(values[i])
}

proof fn lemma_first_error_split<T, E>(items: Seq<Result<T, E>>, n: int)
    requires
        0 <= n <= items.len(),
        forall|i: int| 0 <= i < n ==> (#[trigger] items[i]) is Ok,
    ensures
        first_error(items) == first_error(items.subrange(n, items.len() as int)),
    decreases n,
{
    if n > 0 {
        let rest = items.drop_first();
        assert(items[0] is Ok);
        assert forall|i: int| 0 <= i < n - 1 implies (#[trigger] rest[i]) is Ok by {
            assert(rest[i] == items[i + 1]);
        }
        lemma_first_error_split(rest, n - 1);
        assert(rest.subrange(n - 1, rest.len() as int) =~= items.subrange(n, items.len() as int));
    } else {
        assert(items.subrange(0, items.len() as int) =~= items);
    }
}

/// The values of `items` where all are `Ok`, else the first error.
pub fn collect<T, E>(items: Vec<Result<T, E>>) -> (r: Result<Vec<T>, E>)
    ensures
        match r {
            Ok(values) => first_error(items@) is None && all_ok(items@, values@),
            Err(e) => first_error(items@) == Some(e),
        },
{
    let ghost all = items@;
    let mut values: Vec<T> = Vec::new();
    for item in it: items
        invariant
            it.seq() == all,
            values@.len() == it.index(),
            forall|i: int| 0 <= i < it.index() ==> (#[trigger] all[i]) == Ok::<T, E>(values@[i]),
    {
        proof {
            lemma_first_error_split(all, it.index() as int);
            assert(all.subrange(it.index() as int, all.len() as int)[0] == all[it.index() as int]);
        }
        match item {
            Ok(v) => {
                values.push(v);
            },
            Err(e) => {
                return Err(e);
            },
        }
    }
    proof {
        lemma_first_error_split(all, all.len() as int);
    }
    Ok(values)
}

/// The protocol of a server as it came over the wire. Each route has been
/// read already, and is a route or the reason why it is none.
#[derive(Clone, Debug, PartialEq, Eq, Hash)]
pub enum WireProtocol {
    Detect { timeout: Option<WireDuration>, http_routes: Vec<Result<Route, InvalidRoute>> },
    Http1 { routes: Vec<Result<Route, InvalidRoute>> },
    Http2 { routes: Vec<Result<Route, InvalidRoute>> },
    Grpc { routes: Vec<Result<Route, InvalidRoute>> },
    Opaque,
    Tls,
}

/// A server as it came over the wire. Each authorization has been read
/// already, and is an authorization or the reason why it is none.
#[derive(Clone, Debug, PartialEq, Eq)]
pub struct WireServer {
    pub protocol: Option<WireProtocol>,
    pub authorizations: Vec<Result<Authorization, InvalidAuthz>>,
    pub labels: Labels,
}

/// The group that a server has where its labels name none.
pub open spec fn default_group() -> Seq<char> {
    "policy.linkerd.io"@
}

/// The kind that a server has where neither its labels nor its name give
/// one.
pub open spec fn default_kind() -> Seq<char> {
    "server"@
}

impl WireProtocol {
    /// Why the protocol cannot be read, if it cannot: the first route that
    /// is none, else, for a detected protocol, the timeout that is missing
    /// or negative.
    pub open spec fn error(self) -> Option<InvalidServer> {
        match self {
            WireProtocol::Detect { timeout, http_routes } => match first_error(http_routes@) {
                Some(e) => Some(InvalidServer::HttpRoute(e)),
                None => match timeout {
                    None => Some(InvalidServer::MissingDetectTimeout),
                    Some(d) => if d.total() < 0 {
                        Some(InvalidServer::NegativeDetectTimeout(Timeout::of_total(-d.total())))
                    } else {
                        None
                    },
                },
            },
            WireProtocol::Http1 { routes } => match first_error(routes@) {
                Some(e) => Some(InvalidServer::HttpRoute(e)),
                None => None,
            },
            WireProtocol::Http2 { routes } => match first_error(routes@) {
                Some(e) => Some(InvalidServer::HttpRoute(e)),
                None => None,
            },
            WireProtocol::Grpc { routes } => match first_error(routes@) {
                Some(e) => Some(InvalidServer::GrpcRoute(e)),
                None => None,
            },
            WireProtocol::Opaque => None,
            WireProtocol::Tls => None,
        }
    }

    /// `p` is this protocol, read: the same kind, the same routes in the
    /// same order, the same timeout.
    pub open spec fn reads_as(self, p: Protocol) -> bool {
        match (self, p) {
            (WireProtocol::Detect { timeout, http_routes }, Protocol::Detect { http, timeout: t }) => {
                &&& all_ok(http_routes@, http.0@)
                &&& timeout matches Some(d) && t == Timeout::of_total(d.total())
            },
            (WireProtocol::Http1 { routes }, Protocol::Http1(table)) => all_ok(routes@, table.0@),
            (WireProtocol::Http2 { routes }, Protocol::Http2(table)) => all_ok(routes@, table.0@),
            (WireProtocol::Grpc { routes }, Protocol::Grpc(table)) => all_ok(routes@, table.0@),
            (WireProtocol::Opaque, Protocol::Opaque) => true,
            (WireProtocol::Tls, Protocol::Tls) => true,
            _ => false,
        }
    }

    /// Reads the protocol.
    pub fn read(self) -> (r: Result<Protocol, InvalidServer>)
        ensures
            match r {
                Ok(p) => self.error() is None && self.reads_as(p),
                Err(e) => self.error() == Some(e),
            },
    {
        match self {
            WireProtocol::Detect { timeout, http_routes } => {
                let http = match collect(http_routes) {
                    Ok(routes) => routes,
                    Err(e) => {
                        return Err(InvalidServer::HttpRoute(e));
                    },
                };
                let d = match timeout {
                    Some(d) => d,
                    None => {
                        return Err(InvalidServer::MissingDetectTimeout);
                    },
                };
                match Timeout::from_wire(d) {
                    Ok(timeout) => Ok(Protocol::Detect { http: HttpRoutes(http), timeout }),
                    Err(magnitude) => Err(InvalidServer::NegativeDetectTimeout(magnitude)),
                }
            },
            WireProtocol::Http1 { routes } => match collect(routes) {
                Ok(routes) => Ok(Protocol::Http1(HttpRoutes(routes))),
                Err(e) => Err(InvalidServer::HttpRoute(e)),
            },
            WireProtocol::Http2 { routes } => match collect(routes) {
                Ok(routes) => Ok(Protocol::Http2(HttpRoutes(routes))),
                Err(e) => Err(InvalidServer::HttpRoute(e)),
            },
            WireProtocol::Grpc { routes } => match collect(routes) {
                Ok(routes) => Ok(Protocol::Grpc(HttpRoutes(routes))),
                Err(e) => Err(InvalidServer::GrpcRoute(e)),
            },
            WireProtocol::Opaque => Ok(Protocol::Opaque),
            WireProtocol::Tls => Ok(Protocol::Tls),
        }
    }
}

impl WireServer {
    /// Why the server cannot be read, if it cannot. The protocol is looked
    /// at first, then the authorizations, then the labels.
    pub open spec fn error(self) -> Option<InvalidServer> {
        match self.protocol {
            None => Some(InvalidServer::MissingProxyProtocol),
            Some(p) => match p.error() {
                Some(e) => Some(e),
                None => match first_error(self.authorizations@) {
                    Some(e) => Some(InvalidServer::Authz(e)),
                    None => if self.labels@.contains_key("name"@) {
                        None
                    } else {
                        Some(InvalidServer::Meta(InvalidMeta::Name))
                    },
                },
            },
        }
    }

    /// `policy` is this server, read.
    pub open spec fn reads_as(self, policy: ServerPolicy) -> bool {
        &&& self.protocol matches Some(p) && p.reads_as(policy.protocol)
        &&& all_ok(self.authorizations@, policy.authorizations@)
        &&& *policy.meta is Resource
        &&& policy.meta.spec_group() == group_of(self.labels@, default_group())
        &&& policy.meta.spec_kind() == kind_of(self.labels@, default_kind())
        &&& policy.meta.spec_name() == name_of(self.labels@)
    }
}

impl ServerPolicy {
    /// Reads a server's policy from what came over the wire. Nothing that
    /// is missing or malformed is made up for: the first fault is the
    /// error.
    pub fn try_from(server: WireServer) -> (r: Result<ServerPolicy, InvalidServer>)
        ensures
            match r {
                Ok(policy) => server.error() is None && server.reads_as(policy),
                Err(e) => server.error() == Some(e),
            },
    {
        let WireServer { protocol, authorizations, labels } = server;
        let protocol = match protocol {
            Some(p) => match p.read() {
                Ok(p) => p,
                Err(e) => {
                    return Err(e);
                },
            },
            None => {
                return Err(InvalidServer::MissingProxyProtocol);
            },
        };
        let authorizations = match collect(authorizations) {
            Ok(a) => a,
            Err(e) => {
                return Err(InvalidServer::Authz(e));
            },
        };
        let meta = match Meta::try_new_with_default(&labels, "policy.linkerd.io", "server") {
            Ok(m) => m,
            Err(e) => {
                return Err(InvalidServer::Meta(e));
            },
        };
        Ok(ServerPolicy { protocol, authorizations, meta })
    }
}

} // verus!
