//! Facet-based capability security for tuple spaces: a facet restricts the
//! operations allowed on a space and may confine them to one namespace.

use crate::error::{Error, Result};
use crate::tuplespace::store::{first_in_scope, in_scope, insert_sorted, Blocking, TupleSpace};
use crate::tuplespace::{
    opt_str, pattern_matches, tuple_matches, tuple_pattern_equiv, Pattern, Tuple, TupleModel,
    TuplePattern,
};
use crate::value::{Datum, Value};
use vstd::prelude::*;

verus! {

broadcast use vstd::string::group_string_axioms;

/// Permission flags for tuple space operations.
#[derive(Debug, Clone, Copy, PartialEq, Eq, Structural)]
pub struct TuplePermissions {
    /// Permission to write tuples (out).
    pub can_out: bool,
    /// Permission to remove tuples (in, inp).
    pub can_in: bool,
    /// Permission to read tuples (rd, rdp).
    pub can_rd: bool,
}

impl TuplePermissions {
    pub open spec fn all_spec() -> Self {
        TuplePermissions { can_out: true, can_in: true, can_rd: true }
    }

    pub open spec fn readonly_spec() -> Self {
        TuplePermissions { can_out: false, can_in: false, can_rd: true }
    }

    pub open spec fn writeonly_spec() -> Self {
        TuplePermissions { can_out: true, can_in: false, can_rd: false }
    }

    /// All operations allowed.
    pub fn all() -> (r: Self)
        ensures
            r == Self::all_spec(),
    {
        TuplePermissions { can_out: true, can_in: true, can_rd: true }
    }

    /// Read-only permissions (rd only).
    pub fn readonly() -> (r: Self)
        ensures
            r == Self::readonly_spec(),
    {
        TuplePermissions { can_out: false, can_in: false, can_rd: true }
    }

    /// Write-only permissions (out only).
    pub fn writeonly() -> (r: Self)
        ensures
            r == Self::writeonly_spec(),
    {
        TuplePermissions { can_out: true, can_in: false, can_rd: false }
    }
}

impl Default for TuplePermissions {
    fn default() -> (r: Self)
        ensures
            r == (TuplePermissions { can_out: false, can_in: false, can_rd: false }),
    {
        TuplePermissions { can_out: false, can_in: false, can_rd: false }
    }
}

/// A facet-restricted view of a tuple space: the operations it permits and
/// the namespace (if any) it confines them to. The space itself is passed
/// to each operation.
#[derive(Debug)]
pub struct TupleSpaceFacet {
    /// Namespace restriction (`None` = no restriction).
    pub namespace: Option<String>,
    /// Operation permissions.
    pub permissions: TuplePermissions,
}

/// Whether a facet confined to `ns` lets pattern `p` match a tuple with
/// model `t`: with a namespace the tuple must be in it, and the pattern's
/// own namespace (if any) gives way to the facet's; `Any` matches every
/// tuple of the namespace.
pub open spec fn restricted_matches(ns: Option<Seq<char>>, p: TuplePattern, t: TupleModel) -> bool {
    match ns {
        None => tuple_matches(p, t),
        Some(n) => t.namespace == Some(n) && match p {
            TuplePattern::TypeAndData { tuple_type, data } => t.tuple_type == tuple_type@
                && pattern_matches(data, t.data),
            TuplePattern::Full { namespace, tuple_type, data } => t.tuple_type == tuple_type@
                && pattern_matches(data, t.data),
            TuplePattern::Any => true,
        },
    }
}

/// Index of the first entry whose tuple a facet confined to `ns` lets `p`
/// match (`s.len()` when none).
pub open spec fn first_restricted(s: Seq<(u64, TupleModel)>, ns: Option<Seq<char>>, p: TuplePattern) -> nat
    decreases s.len(),
{
    if s.len() == 0 {
        0
    } else if restricted_matches(ns, p, s[0].1) {
        0
    } else {
        1 + first_restricted(s.drop_first(), ns, p)
    }
}

proof fn lemma_first_restricted(
    s: Seq<(u64, TupleModel)>,
    ns: Option<Seq<char>>,
    p: TuplePattern,
    q: TuplePattern,
)
    requires
        forall|t: TupleModel| #[trigger] in_scope(ns, q, t) == restricted_matches(ns, p, t),
    ensures
        first_in_scope(s, ns, q) == first_restricted(s, ns, p),
    decreases s.len(),
{
    if s.len() > 0 {
        assert(in_scope(ns, q, s[0].1) == restricted_matches(ns, p, s[0].1));
        lemma_first_restricted(s.drop_first(), ns, p, q);
    }
}

proof fn lemma_restricted_equiv(ns: Option<Seq<char>>, a: TuplePattern, b: TuplePattern)
    requires
        tuple_pattern_equiv(a, b),
    ensures
        forall|t: TupleModel| #[trigger] restricted_matches(ns, a, t) == restricted_matches(ns, b, t),
{
    assert forall|t: TupleModel| #[trigger] restricted_matches(ns, a, t) == restricted_matches(ns, b, t) by {
        match (a, b) {
            (TuplePattern::TypeAndData { tuple_type: t1, data: d1 }, TuplePattern::TypeAndData { tuple_type: t2, data: d2 }) => {
                assert(pattern_matches(d1, t.data) == pattern_matches(d2, t.data));
            },
            (TuplePattern::Full { namespace: n1, tuple_type: t1, data: d1 }, TuplePattern::Full { namespace: n2, tuple_type: t2, data: d2 }) => {
                assert(pattern_matches(d1, t.data) == pattern_matches(d2, t.data));
            },
            _ => {},
        }
    }
}

/// The model of a tuple a facet writes.
pub open spec fn facet_tuple(ns: Option<Seq<char>>, tuple_type: Seq<char>, data: Datum) -> TupleModel {
    TupleModel { tuple_type, namespace: ns, timestamp: 0, seq: 0, data }
}

impl TupleSpaceFacet {
    /// A facet with full permissions and no namespace restriction.
    pub fn new() -> (r: Self)
        ensures
            r.namespace is None,
            r.permissions == TuplePermissions::all_spec(),
    {
        TupleSpaceFacet { namespace: None, permissions: TuplePermissions::all() }
    }

    /// This facet, confined to `namespace`.
    pub fn with_namespace(self, namespace: String) -> (r: Self)
        ensures
            r.namespace == Some(namespace),
            r.permissions == self.permissions,
    {
        TupleSpaceFacet { namespace: Some(namespace), ..self }
    }

    /// This facet with the given permissions.
    pub fn with_permissions(self, permissions: TuplePermissions) -> (r: Self)
        ensures
            r.namespace == self.namespace,
            r.permissions == permissions,
    {
        TupleSpaceFacet { permissions, ..self }
    }

    /// This facet, read-only.
    pub fn readonly(self) -> (r: Self)
        ensures
            r.namespace == self.namespace,
            r.permissions == TuplePermissions::readonly_spec(),
    {
        self.with_permissions(TuplePermissions::readonly())
    }

    /// This facet, write-only.
    pub fn writeonly(self) -> (r: Self)
        ensures
            r.namespace == self.namespace,
            r.permissions == TuplePermissions::writeonly_spec(),
    {
        self.with_permissions(TuplePermissions::writeonly())
    }

    /// The pattern searched for in place of `pattern` within this facet's
    /// namespace: the pattern's own namespace gives way to the facet's.
    fn apply_namespace_restriction(&self, pattern: TuplePattern) -> (r: TuplePattern)
        ensures
            forall|t: TupleModel| #[trigger] in_scope(opt_str(self.namespace), r, t) == restricted_matches(
                opt_str(self.namespace),
                pattern,
                t,
            ),
    {
        match &self.namespace {
            None => pattern,
            Some(_) => match pattern {
                TuplePattern::Full { namespace: _, tuple_type, data } => TuplePattern::TypeAndData {
                    tuple_type,
                    data,
                },
                other => other,
            },
        }
    }

    /// Write a tuple of the given type and data to the space, in this
    /// facet's namespace if it has one.
    pub fn out(&self, space: &mut TupleSpace, tuple_type: String, data: Value) -> (r: Result<()>)
        ensures
            !self.permissions.can_out ==> (r matches Err(Error::Runtime(m)) && m@ == "permission denied: out operation not allowed"@) && *final(space) == *old(space),
            self.permissions.can_out ==> {
                &&& r is Ok
                &&& final(space)@ == insert_sorted(
                    old(space)@,
                    (old(space).next_seq(), facet_tuple(opt_str(self.namespace), tuple_type@, data.datum())),
                )
                &&& final(space).next_seq() == (if old(space).next_seq() == u64::MAX {
                    0
                } else {
                    old(space).next_seq() + 1
                })
            },
    {
        if !self.permissions.can_out {
            return Err(Error::Runtime("permission denied: out operation not allowed".to_string()));
        }
        let mut tuple = Tuple::new(tuple_type, data);
        match &self.namespace {
            Some(ns) => {
                tuple.namespace = Some(ns.clone());
            },
            None => {},
        }
        space.out(tuple)
    }

    /// Blocking remove under this facet: the first tuple (in key order) the
    /// pattern matches within the facet's namespace, or the decision to wait
    /// for a write; an error when the facet may not remove.
    pub fn in_(&self, space: &mut TupleSpace, pattern: &TuplePattern) -> (r: Result<Blocking>)
        ensures
            final(space).next_seq() == old(space).next_seq(),
            !self.permissions.can_in ==> (r matches Err(Error::Runtime(m)) && m@ == "permission denied: in operation not allowed"@) && *final(space) == *old(space),
            self.permissions.can_in ==> ({
                let i = first_restricted(old(space)@, opt_str(self.namespace), *pattern);
                if i < old(space)@.len() {
                    &&& r matches Ok(Blocking::Ready(t))
                    &&& t@ == old(space)@[i as int].1
                    &&& final(space)@ == old(space)@.remove(i as int)
                } else {
                    &&& r matches Ok(Blocking::Wait)
                    &&& final(space)@ == old(space)@
                }
            }),
    {
        if !self.permissions.can_in {
            return Err(Error::Runtime("permission denied: in operation not allowed".to_string()));
        }
        let copy = pattern.clone_pattern();
        proof {
            lemma_restricted_equiv(opt_str(self.namespace), copy, *pattern);
        }
        let restricted = self.apply_namespace_restriction(copy);
        proof {
            lemma_first_restricted(old(space)@, opt_str(self.namespace), *pattern, restricted);
        }
        space.in_in_scope(&self.namespace, &restricted)
    }

    /// Blocking read under this facet: a copy of the first tuple the pattern
    /// matches within the facet's namespace, or the decision to wait for a
    /// write; an error when the facet may not read.
    pub fn rd(&self, space: &mut TupleSpace, pattern: &TuplePattern) -> (r: Result<Blocking>)
        ensures
            *final(space) == *old(space),
            !self.permissions.can_rd ==> (r matches Err(Error::Runtime(m)) && m@ == "permission denied: rd operation not allowed"@),
            self.permissions.can_rd ==> ({
                let i = first_restricted(old(space)@, opt_str(self.namespace), *pattern);
                if i < old(space)@.len() {
                    &&& r matches Ok(Blocking::Ready(t))
                    &&& t@ == old(space)@[i as int].1
                } else {
                    r matches Ok(Blocking::Wait)
                }
            }),
    {
        if !self.permissions.can_rd {
            return Err(Error::Runtime("permission denied: rd operation not allowed".to_string()));
        }
        let copy = pattern.clone_pattern();
        proof {
            lemma_restricted_equiv(opt_str(self.namespace), copy, *pattern);
        }
        let restricted = self.apply_namespace_restriction(copy);
        proof {
            lemma_first_restricted(old(space)@, opt_str(self.namespace), *pattern, restricted);
        }
        space.rd_in_scope(&self.namespace, &restricted)
    }

    /// Non-blocking remove under this facet: `None` when nothing matches.
    pub fn inp(&self, space: &mut TupleSpace, pattern: &TuplePattern) -> (r: Result<Option<Tuple>>)
        ensures
            final(space).next_seq() == old(space).next_seq(),
            !self.permissions.can_in ==> (r matches Err(Error::Runtime(m)) && m@ == "permission denied: inp operation not allowed"@) && *final(space) == *old(space),
            self.permissions.can_in ==> ({
                let i = first_restricted(old(space)@, opt_str(self.namespace), *pattern);
                if i < old(space)@.len() {
                    &&& r matches Ok(Some(t))
                    &&& t@ == old(space)@[i as int].1
                    &&& final(space)@ == old(space)@.remove(i as int)
                } else {
                    &&& r matches Ok(None)
                    &&& final(space)@ == old(space)@
                }
            }),
    {
        if !self.permissions.can_in {
            return Err(Error::Runtime("permission denied: inp operation not allowed".to_string()));
        }
        let copy = pattern.clone_pattern();
        proof {
            lemma_restricted_equiv(opt_str(self.namespace), copy, *pattern);
        }
        let restricted = self.apply_namespace_restriction(copy);
        proof {
            lemma_first_restricted(old(space)@, opt_str(self.namespace), *pattern, restricted);
        }
        space.inp_in_scope(&self.namespace, &restricted)
    }

    /// Non-blocking read under this facet: `None` when nothing matches.
    pub fn rdp(&self, space: &mut TupleSpace, pattern: &TuplePattern) -> (r: Result<Option<Tuple>>)
        ensures
            *final(space) == *old(space),
            !self.permissions.can_rd ==> (r matches Err(Error::Runtime(m)) && m@ == "permission denied: rdp operation not allowed"@),
            self.permissions.can_rd ==> ({
                let i = first_restricted(old(space)@, opt_str(self.namespace), *pattern);
                if i < old(space)@.len() {
                    &&& r matches Ok(Some(t))
                    &&& t@ == old(space)@[i as int].1
                } else {
                    r matches Ok(None)
                }
            }),
    {
        if !self.permissions.can_rd {
            return Err(Error::Runtime("permission denied: rdp operation not allowed".to_string()));
        }
        let copy = pattern.clone_pattern();
        proof {
            lemma_restricted_equiv(opt_str(self.namespace), copy, *pattern);
        }
        let restricted = self.apply_namespace_restriction(copy);
        proof {
            lemma_first_restricted(old(space)@, opt_str(self.namespace), *pattern, restricted);
        }
        space.rdp_in_scope(&self.namespace, &restricted)
    }

}

} // verus!
