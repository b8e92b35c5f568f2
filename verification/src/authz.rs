//! Authorizations: which clients, by network and by identity, may use a
//! server or a route.

use crate::meta::Meta;
use crate::net::{IpAddr, Network, SocketAddr};
use crate::text::{chars_of, is_under, lies_under};
use std::sync::Arc;
use vstd::prelude::*;
use vstd::string::*;

verus! {

/// What the transport knows of the client of a connection.
#[derive(Clone, Debug, PartialEq, Eq, Hash)]
pub enum ConnectionTls {
    /// The connection is not secured by mutually authenticated TLS.
    Plain,
    /// The connection is secured by TLS; `client_id` is the identity that
    /// the client proved, if it proved one.
    Established { client_id: Option<String> },
}

/// A set of identities: the suffix itself and every name that lies under
/// it, as `web.ns.svc` lies under `ns.svc`. The empty suffix holds every
/// identity.
#[derive(Clone, Debug, PartialEq, Eq, Hash)]
pub struct Suffix {
    pub suffix: String,
}

impl Suffix {
    pub open spec fn spec_contains(self, name: Seq<char>) -> bool {
        self.suffix@.len() == 0 || name == self.suffix@ || lies_under(name, self.suffix@)
    }

    pub fn contains(&self, name: &String) -> (b: bool)
        ensures
            b == self.spec_contains(name@),
    {
        if self.suffix.as_str().unicode_len() == 0 || self.suffix == *name {
            return true;
        }
        let nv = chars_of(name.as_str());
        let sv = chars_of(self.suffix.as_str());
        is_under(&nv, &sv)
    }
}

/// What an authorization asks of the client's identity.
#[derive(Clone, Debug, PartialEq, Eq, Hash)]
pub enum Authentication {
    /// Nothing: any client will do.
    Unauthenticated,
    /// A connection secured by TLS, whoever the client is.
    TlsUnauthenticated,
    /// A connection secured by TLS on which the client proved an identity
    /// that is one of `identities` or lies in one of `suffixes`.
    TlsAuthenticated { identities: Vec<String>, suffixes: Vec<Suffix> },
}

/// `id` is one of `identities` or lies in one of `suffixes`.
pub open spec fn identity_admitted(identities: Seq<String>, suffixes: Seq<Suffix>, id: Seq<char>) -> bool {
    ||| exists|i: int| 0 <= i < identities.len() && (#[trigger] identities[i])@ == id
    ||| exists|i: int| 0 <= i < suffixes.len() && (#[trigger] suffixes[i]).spec_contains(id)
}

fn admits_identity(identities: &Vec<String>, suffixes: &Vec<Suffix>, id: &String) -> (b: bool)
    ensures
        b == identity_admitted(identities@, suffixes@, id@),
{
    let mut i: usize = 0;
    while i < identities.len()
        invariant
            i <= identities.len(),
            forall|k: int| 0 <= k < i ==> (#[trigger] identities@[k])@ != id@,
        decreases identities.len() - i,
    {
        if identities[i] == *id {
            return true;
        }
        i += 1;
    }
    let mut j: usize = 0;
    while j < suffixes.len()
        invariant
            j <= suffixes.len(),
            forall|k: int| 0 <= k < identities@.len() ==> (#[trigger] identities@[k])@ != id@,
            forall|k: int| 0 <= k < j ==> !(#[trigger] suffixes@[k]).spec_contains(id@),
        decreases suffixes.len() - j,
    {
        if suffixes[j].contains(id) {
            return true;
        }
        j += 1;
    }
    false
}

impl Authentication {
    /// The connection's TLS state meets what is asked.
    pub open spec fn spec_admits(self, tls: ConnectionTls) -> bool {
        match self {
            Authentication::Unauthenticated => true,
            Authentication::TlsUnauthenticated => tls is Established,
            Authentication::TlsAuthenticated { identities, suffixes } => match tls {
                ConnectionTls::Established { client_id: Some(id) } => identity_admitted(
                    identities@,
                    suffixes@,
                    id@,
                ),
                _ => false,
            },
        }
    }

    pub fn admits(&self, tls: &ConnectionTls) -> (b: bool)
        ensures
            b == self.spec_admits(*tls),
    {
        match self {
            Authentication::Unauthenticated => true,
            Authentication::TlsUnauthenticated => match tls {
                ConnectionTls::Established { .. } => true,
                ConnectionTls::Plain => false,
            },
            Authentication::TlsAuthenticated { identities, suffixes } => match tls {
                ConnectionTls::Established { client_id: Some(id) } => admits_identity(
                    identities,
                    suffixes,
                    id,
                ),
                _ => false,
            },
        }
    }
}

/// Clients from some networks, with some proof of identity.
#[derive(Clone, Debug, PartialEq, Eq, Hash)]
pub struct Authorization {
    pub networks: Vec<Network>,
    pub authentication: Authentication,
    pub meta: Arc<Meta>,
}

impl Authorization {
    /// The address lies in one of the networks.
    pub open spec fn network_admits(self, ip: IpAddr) -> bool {
        exists|i: int| 0 <= i < self.networks@.len() && (#[trigger] self.networks@[i]).spec_contains(ip)
    }

    /// The client's address lies in one of the networks, and its TLS state
    /// meets what the authorization asks of the client's identity.
    pub open spec fn spec_permits(self, client: SocketAddr, tls: ConnectionTls) -> bool {
        self.network_admits(client.ip) && self.authentication.spec_admits(tls)
    }
}

/// Whether `authz` lets the client of a connection in.
pub fn is_authorized(authz: &Authorization, client: &SocketAddr, tls: &ConnectionTls) -> (b: bool)
    ensures
        b == authz.spec_permits(*client, *tls),
{
    let mut i: usize = 0;
    while i < authz.networks.len()
        invariant
            i <= authz.networks.len(),
            forall|k: int| 0 <= k < i ==> !(#[trigger] authz.networks@[k]).spec_contains(client.ip),
        decreases authz.networks.len() - i,
    {
        if authz.networks[i].contains(&client.ip) {
            return authz.authentication.admits(tls);
        }
        i += 1;
    }
    false
}

/// One of `authzs` lets the client in.
pub open spec fn any_permits(authzs: Seq<Authorization>, client: SocketAddr, tls: ConnectionTls) -> bool {
    exists|i: int| 0 <= i < authzs.len() && (#[trigger] authzs[i]).spec_permits(client, tls)
}

/// `i` is the first of `authzs` that lets the client in.
pub open spec fn is_first_permit(
    authzs: Seq<Authorization>,
    client: SocketAddr,
    tls: ConnectionTls,
    i: int,
) -> bool {
    &&& 0 <= i < authzs.len()
    &&& authzs[i].spec_permits(client, tls)
    &&& forall|k: int| 0 <= k < i ==> !(#[trigger] authzs[k]).spec_permits(client, tls)
}

/// The first of `authzs` that lets the client in. The client is let in
/// exactly when one of them does; which one is reported is a matter of
/// their order.
pub fn find_authorized(authzs: &Vec<Authorization>, client: &SocketAddr, tls: &ConnectionTls) -> (r:
    Option<usize>)
    ensures
        r is Some <==> any_permits(authzs@, *client, *tls),
        r matches Some(i) ==> is_first_permit(authzs@, *client, *tls, i as int),
{
    let mut i: usize = 0;
    while i < authzs.len()
        invariant
            i <= authzs.len(),
            forall|k: int| 0 <= k < i ==> !(#[trigger] authzs@[k]).spec_permits(*client, *tls),
        decreases authzs.len() - i,
    {
        if is_authorized(&authzs[i], client, tls) {
            return Some(i);
        }
        i += 1;
    }
    None
}

/// Whether one entry lets a client in does not depend on the entries
/// around it: a list lets a client in exactly when one of its entries
/// does, in whatever order they stand.
pub proof fn lemma_permit_is_any(
    a: Seq<Authorization>,
    b: Seq<Authorization>,
    client: SocketAddr,
    tls: ConnectionTls,
)
    ensures
        any_permits(a + b, client, tls) == (any_permits(a, client, tls) || any_permits(b, client, tls)),
        any_permits(a + b, client, tls) == any_permits(b + a, client, tls),
{
    let ab = a + b;
    let ba = b + a;
    if any_permits(a, client, tls) {
        let i = choose|i: int| 0 <= i < a.len() && (#[trigger] a[i]).spec_permits(client, tls);
        assert(ab[i] == a[i]);
        assert(ba[b.len() + i] == a[i]);
    }
    if any_permits(b, client, tls) {
        let i = choose|i: int| 0 <= i < b.len() && (#[trigger] b[i]).spec_permits(client, tls);
        assert(ab[a.len() + i] == b[i]);
        assert(ba[i] == b[i]);
    }
    if any_permits(ab, client, tls) {
        let i = choose|i: int| 0 <= i < ab.len() && (#[trigger] ab[i]).spec_permits(client, tls);
        if i < a.len() {
            assert(ab[i] == a[i]);
        } else {
            assert(ab[i] == b[i - a.len()]);
        }
    }
    if any_permits(ba, client, tls) {
        let i = choose|i: int| 0 <= i < ba.len() && (#[trigger] ba[i]).spec_permits(client, tls);
        if i < b.len() {
            assert(ba[i] == b[i]);
        } else {
            assert(ba[i] == a[i - b.len()]);
        }
    }
}

/// Where one of `authzs` lets the client in, one of them is the first to.
pub proof fn lemma_first_permit_exists(
    authzs: Seq<Authorization>,
    client: SocketAddr,
    tls: ConnectionTls,
)
    requires
        any_permits(authzs, client, tls),
    ensures
        exists|k: int| is_first_permit(authzs, client, tls, k),
{
    let n = choose|i: int| 0 <= i < authzs.len() && (#[trigger] authzs[i]).spec_permits(client, tls);
    lemma_first_permit_before(authzs, client, tls, n);
}

proof fn lemma_first_permit_before(
    authzs: Seq<Authorization>,
    client: SocketAddr,
    tls: ConnectionTls,
    n: int,
)
    requires
        0 <= n < authzs.len(),
        authzs[n].spec_permits(client, tls),
    ensures
        exists|k: int| is_first_permit(authzs, client, tls, k),
    decreases n,
{
    if exists|j: int| 0 <= j < n && (#[trigger] authzs[j]).spec_permits(client, tls) {
        let j = choose|j: int| 0 <= j < n && (#[trigger] authzs[j]).spec_permits(client, tls);
        lemma_first_permit_before(authzs, client, tls, j);
    } else {
        assert(is_first_permit(authzs, client, tls, n));
    }
}

} // verus!
