//! Linda-style tuple space for pattern-based coordination.
//!
//! Tuples carry a type name, an optional namespace and data; patterns select
//! tuples by type, namespace and a pattern over the data.

pub mod facet;
pub mod store;

use crate::value::{dict_find, entries_map, Datum, Value};
use vstd::prelude::*;

verus! {

/// A tuple with metadata for pattern matching.
#[derive(Debug, PartialEq)]
pub struct Tuple {
    /// Tuple type for routing/pattern matching.
    pub tuple_type: String,
    /// Optional namespace for isolation.
    pub namespace: Option<String>,
    /// Timestamp for ordering.
    pub timestamp: u64,
    /// Sequence number for deterministic ordering.
    pub seq: u64,
    /// The tuple data.
    pub data: Value,
}

/// Mathematical model of a [`Tuple`].
pub struct TupleModel {
    pub tuple_type: Seq<char>,
    pub namespace: Option<Seq<char>>,
    pub timestamp: u64,
    pub seq: u64,
    pub data: Datum,
}

/// The model of an optional string.
pub open spec fn opt_str(o: Option<String>) -> Option<Seq<char>> {
    match o {
        Some(s) => Some(s@),
        None => None,
    }
}

impl View for Tuple {
    type V = TupleModel;

    open spec fn view(&self) -> TupleModel {
        TupleModel {
            tuple_type: self.tuple_type@,
            namespace: opt_str(self.namespace),
            timestamp: self.timestamp,
            seq: self.seq,
            data: self.data.datum(),
        }
    }
}

impl Tuple {
    /// A tuple of the given type and data, with no namespace and zero
    /// timestamp and sequence number.
    pub fn new(tuple_type: String, data: Value) -> (t: Self)
        ensures
            t.tuple_type == tuple_type,
            t.namespace is None,
            t.timestamp == 0,
            t.seq == 0,
            t.data == data,
    {
        Tuple { tuple_type, namespace: None, timestamp: 0, seq: 0, data }
    }

    /// Set the namespace.
    pub fn with_namespace(self, namespace: String) -> (t: Self)
        ensures
            t == (Tuple { namespace: Some(namespace), ..self }),
    {
        Tuple { namespace: Some(namespace), ..self }
    }

    /// Set the timestamp.
    pub fn with_timestamp(self, timestamp: u64) -> (t: Self)
        ensures
            t == (Tuple { timestamp, ..self }),
    {
        Tuple { timestamp, ..self }
    }

    /// Set the sequence number.
    pub fn with_seq(self, seq: u64) -> (t: Self)
        ensures
            t == (Tuple { seq, ..self }),
    {
        Tuple { seq, ..self }
    }

    /// A copy of this tuple with the same model.
    pub fn deep_clone(&self) -> (t: Self)
        ensures
            t@ == self@,
    {
        let namespace = match &self.namespace {
            Some(ns) => Some(ns.clone()),
            None => None,
        };
        Tuple {
            tuple_type: self.tuple_type.clone(),
            namespace,
            timestamp: self.timestamp,
            seq: self.seq,
            data: self.data.deep_clone(),
        }
    }
}

/// Pattern for matching tuple data.
#[derive(Debug, PartialEq)]
pub enum Pattern {
    /// Matches any value.
    Wildcard,
    /// Matches values equal to the given one.
    Exact(Value),
    /// Matches maps holding every required key with an equal value.
    Dict { required: Vec<(String, Value)> },
}

/// Whether the data pattern `p` matches a value with model `d`.
pub open spec fn pattern_matches(p: Pattern, d: Datum) -> bool {
    match p {
        Pattern::Wildcard => true,
        Pattern::Exact(e) => d == e.datum(),
        Pattern::Dict { required } => {
            let req = entries_map(required@);
            &&& d is Dict
            &&& forall|k: Seq<char>|
                #[trigger] req.contains_key(k) ==> d->Dict_0.contains_key(k) && d->Dict_0[k]
                    == req[k]
        },
    }
}

/// An exact pattern matches a value exactly when the value's model is the
/// pattern value's model: same kind and same contents (so a string never
/// matches a symbol, nor an integer a string).
pub proof fn lemma_exact_matches_equal(e: Value, d: Datum)
    ensures
        pattern_matches(Pattern::Exact(e), d) <==> d == e.datum(),
{
}

/// A wildcard matches every value.
pub proof fn lemma_wildcard_matches_all(d: Datum)
    ensures
        pattern_matches(Pattern::Wildcard, d),
{
}

impl Pattern {
    /// Check if a value matches this pattern.
    pub fn matches(&self, value: &Value) -> (r: bool)
        ensures
            r == pattern_matches(*self, value.datum()),
            *self matches Pattern::Exact(e) ==> (r <==> value.datum() == e.datum()),
            *self is Wildcard ==> r,
    {
        match self {
            Pattern::Wildcard => true,
            Pattern::Exact(expected) => value.equals(expected),
            Pattern::Dict { required } => {
                match value {
                    Value::Dict(entries) => {
                        let ghost req = entries_map(required@);
                        let ghost m = entries_map(entries@);
                        assert(value.datum() == Datum::Dict(m));
                        let ghost goal = pattern_matches(*self, value.datum());
                        assert(goal == (forall|k: Seq<char>|
                            #[trigger] req.contains_key(k) ==> m.contains_key(k) && m[k] == req[k]));
                        let mut i: usize = 0;
                        while i < required.len()
                            invariant
                                goal == pattern_matches(*self, value.datum()),
                                goal == (forall|k: Seq<char>|
                                    #[trigger] req.contains_key(k) ==> m.contains_key(k) && m[k] == req[k]),
                                i <= required@.len(),
                                req == entries_map(required@),
                                m == entries_map(entries@),
                                forall|t: int|
                                    0 <= t < i ==> req.contains_key((#[trigger] required@[t]).0@)
                                        && m.contains_key(required@[t].0@) && m[required@[t].0@]
                                        == req[required@[t].0@],
                            decreases required@.len() - i,
                        {
                            let ir = match dict_find(required, &required[i].0) {
                                Some(ir) => ir,
                                None => {
                                    proof {
                                        crate::value::lemma_entries_map_dom(
                                            required@,
                                            required@[i as int].0@,
                                        );
                                    }
                                    return false;
                                },
                            };
                            let iv = match dict_find(entries, &required[i].0) {
                                Some(iv) => iv,
                                None => {
                                    assert(req.contains_key(required@[i as int].0@));
                                    return false;
                                },
                            };
                            if !entries[iv].1.equals(&required[ir].1) {
                                assert(req.contains_key(required@[i as int].0@));
                                return false;
                            }
                            i += 1;
                        }
                        assert forall|k: Seq<char>| #[trigger] req.contains_key(k) implies m.contains_key(k)
                            && m[k] == req[k] by {
                            crate::value::lemma_entries_map_dom(required@, k);
                            let t = choose|t: int| 0 <= t < required@.len() && (#[trigger] required@[t]).0@ == k;
                        }
                        true
                    },
                    _ => false,
                }
            },
        }
    }
}

impl Pattern {
    /// A copy of this pattern that matches exactly the same values.
    pub fn clone_pattern(&self) -> (r: Self)
        ensures
            forall|d: Datum| #[trigger] pattern_matches(r, d) == pattern_matches(*self, d),
    {
        match self {
            Pattern::Wildcard => Pattern::Wildcard,
            Pattern::Exact(v) => {
                let r = Pattern::Exact(v.deep_clone());
                assert forall|d: Datum| #[trigger] pattern_matches(r, d) == pattern_matches(*self, d) by {}
                r
            },
            Pattern::Dict { required } => {
                let mut out: Vec<(String, Value)> = Vec::new();
                let mut i: usize = 0;
                while i < required.len()
                    invariant
                        i <= required@.len(),
                        out@.len() == i,
                        forall|j: int|
                            0 <= j < i ==> (#[trigger] out@[j]).1.datum() == required@[j].1.datum()
                                && out@[j].0@ == required@[j].0@,
                    decreases required@.len() - i,
                {
                    out.push((required[i].0.clone(), required[i].1.deep_clone()));
                    i += 1;
                }
                proof {
                    crate::value::lemma_entries_map_congruent(out@, required@);
                }
                let ghost m = entries_map(out@);
                let r = Pattern::Dict { required: out };
                assert(r->required@ == out@);
                assert(m == entries_map(required@));
                assert forall|d: Datum| #[trigger] pattern_matches(r, d) == pattern_matches(*self, d) by {
                    assert(entries_map(r->required@) == entries_map(required@));
                }
                r
            },
        }
    }
}

/// Pattern for matching tuples.
#[derive(Debug, PartialEq)]
pub enum TuplePattern {
    /// Exact match on type, pattern match on data.
    TypeAndData { tuple_type: String, data: Pattern },
    /// Match on namespace, type and data.
    Full { namespace: String, tuple_type: String, data: Pattern },
    /// Matches any tuple.
    Any,
}

/// Two tuple patterns of the same variant with the same names and data
/// patterns that match the same values.
pub open spec fn tuple_pattern_equiv(a: TuplePattern, b: TuplePattern) -> bool {
    match (a, b) {
        (TuplePattern::Any, TuplePattern::Any) => true,
        (
            TuplePattern::TypeAndData { tuple_type: t1, data: d1 },
            TuplePattern::TypeAndData { tuple_type: t2, data: d2 },
        ) => t1@ == t2@ && forall|d: Datum| #[trigger] pattern_matches(d1, d) == pattern_matches(d2, d),
        (
            TuplePattern::Full { namespace: n1, tuple_type: t1, data: d1 },
            TuplePattern::Full { namespace: n2, tuple_type: t2, data: d2 },
        ) => n1@ == n2@ && t1@ == t2@ && forall|d: Datum|
            #[trigger] pattern_matches(d1, d) == pattern_matches(d2, d),
        _ => false,
    }
}

/// Whether the tuple pattern `p` matches a tuple with model `t`.
pub open spec fn tuple_matches(p: TuplePattern, t: TupleModel) -> bool {
    match p {
        TuplePattern::Any => true,
        TuplePattern::TypeAndData { tuple_type, data } => t.tuple_type == tuple_type@
            && pattern_matches(data, t.data),
        TuplePattern::Full { namespace, tuple_type, data } => t.namespace == Some(namespace@)
            && t.tuple_type == tuple_type@ && pattern_matches(data, t.data),
    }
}

impl TuplePattern {
    /// A copy of this pattern: same variant, same names, and a data pattern
    /// that matches exactly the same values.
    pub fn clone_pattern(&self) -> (r: Self)
        ensures
            tuple_pattern_equiv(r, *self),
            forall|t: TupleModel| #[trigger] tuple_matches(r, t) == tuple_matches(*self, t),
    {
        match self {
            TuplePattern::Any => TuplePattern::Any,
            TuplePattern::TypeAndData { tuple_type, data } => {
                let d = data.clone_pattern();
                let r = TuplePattern::TypeAndData { tuple_type: tuple_type.clone(), data: d };
                assert forall|t: TupleModel| #[trigger] tuple_matches(r, t) == tuple_matches(*self, t) by {
                    assert(pattern_matches(d, t.data) == pattern_matches(*data, t.data));
                }
                r
            },
            TuplePattern::Full { namespace, tuple_type, data } => {
                let d = data.clone_pattern();
                let r = TuplePattern::Full { namespace: namespace.clone(), tuple_type: tuple_type.clone(), data: d };
                assert forall|t: TupleModel| #[trigger] tuple_matches(r, t) == tuple_matches(*self, t) by {
                    assert(pattern_matches(d, t.data) == pattern_matches(*data, t.data));
                }
                r
            },
        }
    }

    /// Check if a tuple matches this pattern.
    pub fn matches(&self, tuple: &Tuple) -> (r: bool)
        ensures
            r == tuple_matches(*self, tuple@),
    {
        match self {
            TuplePattern::Any => true,
            TuplePattern::TypeAndData { tuple_type, data } => tuple.tuple_type == *tuple_type
                && data.matches(&tuple.data),
            TuplePattern::Full { namespace, tuple_type, data } => {
                let ns_ok = match &tuple.namespace {
                    Some(ns) => *ns == *namespace,
                    None => false,
                };
                ns_ok && tuple.tuple_type == *tuple_type && data.matches(&tuple.data)
            },
        }
    }
}

} // verus!
