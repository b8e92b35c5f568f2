//! The identity of a policy object: a server, a route or an authorization.

use crate::labels::Labels;
use crate::text::{chars_of, find_char, is_first_index_of};
use std::sync::Arc;
use vstd::prelude::*;
use vstd::string::*;

verus! {

/// Who a policy object is. A value is never changed once it is made; many
/// routes and authorizations may share one.
#[derive(Debug, PartialEq, Eq, Hash)]
pub enum Meta {
    /// A policy that no resource stands behind, such as a built-in default.
    Default { name: String },
    /// A policy that was read from a resource.
    Resource { group: String, kind: String, name: String },
}

/// Why labels or a wire value give no `Meta`.
#[derive(Clone, Copy, Debug, PartialEq, Eq, Hash, Structural)]
pub enum InvalidMeta {
    /// No metadata was given at all.
    Missing,
    /// The `name` label is missing.
    Name,
    /// The `kind` label is missing.
    Kind,
    /// The `group` label is missing.
    Group,
}

/// Calls `std::sync::Arc::clone`, which hands out another handle on the
/// same value: the result is the value that `a` holds.
#[verifier::external_body]
pub(crate) fn share<T>(a: &Arc<T>) -> (r: Arc<T>)
    ensures
        r == *a,
{
    Arc::clone(a)
}

impl Meta {
    pub open spec fn spec_name(self) -> Seq<char> {
        match self {
            Meta::Default { name } => name@,
            Meta::Resource { name, .. } => name@,
        }
    }

    pub open spec fn spec_kind(self) -> Seq<char> {
        match self {
            Meta::Default { .. } => "default"@,
            Meta::Resource { kind, .. } => kind@,
        }
    }

    pub open spec fn spec_group(self) -> Seq<char> {
        match self {
            Meta::Default { .. } => ""@,
            Meta::Resource { group, .. } => group@,
        }
    }

    /// The identity of a default policy of this name.
    pub fn new_default(name: &str) -> (r: Arc<Meta>)
        ensures
            *r is Default,
            r.spec_name() == name@,
    {
        Arc::new(Meta::Default { name: name.to_owned() })
    }

    pub fn name(&self) -> (r: &str)
        ensures
            r@ == self.spec_name(),
    {
        match self {
            Meta::Default { name } => name.as_str(),
            Meta::Resource { name, .. } => name.as_str(),
        }
    }

    /// The kind: `default` for a default policy.
    pub fn kind(&self) -> (r: &str)
        ensures
            r@ == self.spec_kind(),
    {
        match self {
            Meta::Default { .. } => "default",
            Meta::Resource { kind, .. } => kind.as_str(),
        }
    }

    /// The group: empty for a default policy.
    pub fn group(&self) -> (r: &str)
        ensures
            r@ == self.spec_group(),
    {
        match self {
            Meta::Default { .. } => "",
            Meta::Resource { group, .. } => group.as_str(),
        }
    }

    /// The metadata of a wire value, where it carries any.
    pub fn try_from_kind(kind: Option<Meta>) -> (r: Result<Meta, InvalidMeta>)
        ensures
            match kind {
                Some(m) => r == Ok::<Meta, InvalidMeta>(m),
                None => r == Err::<Meta, InvalidMeta>(InvalidMeta::Missing),
            },
    {
        match kind {
            Some(m) => Ok(m),
            None => Err(InvalidMeta::Missing),
        }
    }
}

/// The kind that a name of the older form `<kind>:<name>` carries, and the
/// name that is left: the text before the first colon and the text behind
/// it. `None` where the name holds no colon.
pub open spec fn split_kind(name: Seq<char>) -> Option<(Seq<char>, Seq<char>)> {
    if name.contains(':') {
        let i = choose|i: int| is_first_index_of(name, ':', i);
        Some((name.subrange(0, i), name.subrange(i + 1, name.len() as int)))
    } else {
        None
    }
}

/// The group that labels give: their `group`, else `default_group`.
pub open spec fn group_of(labels: Map<Seq<char>, Seq<char>>, default_group: Seq<char>) -> Seq<
    char,
> {
    if labels.contains_key("group"@) {
        labels["group"@]
    } else {
        default_group
    }
}

/// The kind that labels give: their `kind`; else the kind that the name
/// carries before a colon; else `default_kind`.
pub open spec fn kind_of(labels: Map<Seq<char>, Seq<char>>, default_kind: Seq<char>) -> Seq<char>
    recommends
        labels.contains_key("name"@),
{
    if labels.contains_key("kind"@) {
        labels["kind"@]
    } else {
        match split_kind(labels["name"@]) {
            Some((kind, _)) => kind,
            None => default_kind,
        }
    }
}

/// The name that labels give: their `name`, without the kind and the colon
/// where the kind was read from it.
pub open spec fn name_of(labels: Map<Seq<char>, Seq<char>>) -> Seq<char>
    recommends
        labels.contains_key("name"@),
{
    if labels.contains_key("kind"@) {
        labels["name"@]
    } else {
        match split_kind(labels["name"@]) {
            Some((_, name)) => name,
            None => labels["name"@],
        }
    }
}

impl Meta {
    /// Reads the identity of a resource from its labels. The `name` label
    /// is required; group and kind fall back on the defaults given.
    pub fn try_new_with_default(labels: &Labels, default_group: &str, default_kind: &str) -> (r:
        Result<Arc<Meta>, InvalidMeta>)
        ensures
            match r {
                Ok(m) => {
                    &&& labels@.contains_key("name"@)
                    &&& *m is Resource
                    &&& m.spec_group() == group_of(labels@, default_group@)
                    &&& m.spec_kind() == kind_of(labels@, default_kind@)
                    &&& m.spec_name() == name_of(labels@)
                },
                Err(e) => e == InvalidMeta::Name && !labels@.contains_key("name"@),
            },
    {
        let name = match labels.get("name") {
            Some(n) => n,
            None => {
                return Err(InvalidMeta::Name);
            },
        };
        let group = match labels.get("group") {
            Some(g) => g.clone(),
            None => default_group.to_owned(),
        };
        if let Some(kind) = labels.get("kind") {
            return Ok(Arc::new(Meta::Resource { group, kind: kind.clone(), name: name.clone() }));
        }
        let v = chars_of(name.as_str());
        let meta = match find_char(&v, ':') {
            Some(i) => {
                proof {
                    let c = choose|c: int| is_first_index_of(name@, ':', c);
                    assert(is_first_index_of(name@, ':', i as int));
                    assert(c == i);
                }
                assert(i < v.len());
                let kind = name.as_str().substring_char(0, i).to_owned();
                let rest = name.as_str().substring_char(i + 1, v.len()).to_owned();
                Meta::Resource { group, kind, name: rest }
            },
            None => Meta::Resource { group, kind: default_kind.to_owned(), name: name.clone() },
        };
        Ok(Arc::new(meta))
    }
}

} // verus!
