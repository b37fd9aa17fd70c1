//! The curl built-in: request options.
//!
//! Which headers a request carries is decided here; performing the request
//! and streaming its answer is the embedding application's part.

use vstd::prelude::*;
use vstd::string::StringExecFns;
use crate::debug_text::{debug_spec, debug_text};
use crate::error::{Error, Result};
use crate::value::{dict_find, entries_map, lemma_entries_map_dom, lemma_entries_map_last, Datum, Value};

verus! {

broadcast use vstd::string::group_string_axioms;

/// The curl built-in object.
pub struct CurlBuiltin;

/// The header map named by request options: the map under `headers` of an
/// options map, if there is one.
pub open spec fn header_map(options: Option<Datum>) -> Option<Map<Seq<char>, Datum>> {
    match options {
        Some(Datum::Dict(m)) => if m.contains_key("headers"@) && m["headers"@] is Dict {
            Some(m["headers"@]->Dict_0)
        } else {
            None
        },
        _ => None,
    }
}

/// The map denoted by name/value pairs, later pairs overriding earlier ones.
pub open spec fn pairs_map(pairs: Seq<(String, String)>) -> Map<Seq<char>, Seq<char>>
    decreases pairs.len(),
{
    if pairs.len() == 0 {
        Map::empty()
    } else {
        pairs_map(pairs.drop_last()).insert(pairs.last().0@, pairs.last().1@)
    }
}

/// The start of the message for a header whose value is not text.
pub open spec fn header_error_prefix(name: Seq<char>) -> Seq<char> {
    "Header value for '"@ + name + "' must be string, got "@
}

/// What reading the headers of a header map gives: every key with its
/// text, or an error at a key whose value is not text, naming the key and
/// giving the value's debug text (see [`debug_spec`]).
pub open spec fn headers_read(r: Result<Vec<(String, String)>>, hm: Map<Seq<char>, Datum>) -> bool {
    match r {
        Ok(v) => (forall|k: Seq<char>| #[trigger] pairs_map(v@).contains_key(k) == hm.contains_key(k)) && (forall|
            k: Seq<char>,
        | #[trigger] hm.contains_key(k) ==> hm[k] == Datum::Str(pairs_map(v@)[k])),
        Err(Error::Runtime(m)) => exists|k: Seq<char>, v: Value|
            #![trigger hm.contains_key(k), debug_spec(v)]
            hm.contains_key(k) && hm[k] == v.datum() && !(hm[k] is Str) && m@ == header_error_prefix(k)
                + debug_spec(v),
    }
}

/// Whether entry `j` gives its key its value (no later entry has the key).
pub open spec fn last_of_key(e: Seq<(String, Value)>, j: int) -> bool {
    forall|l: int| j < l < e.len() ==> (#[trigger] e[l]).0@ != e[j].0@
}

/// Whether entry `i` is the last one with its key.
fn is_last_of_key(e: &Vec<(String, Value)>, i: usize) -> (r: bool)
    requires
        i < e@.len(),
    ensures
        r == last_of_key(e@, i as int),
{
    let n = e.len();
    let mut l = i + 1;
    while l < n
        invariant
            i < l <= n,
            n == e@.len(),
            forall|m: int| i < m < l ==> (#[trigger] e@[m]).0@ != e@[i as int].0@,
        decreases n - l,
    {
        if e[l].0 == e[i].0 {
            return false;
        }
        l += 1;
    }
    true
}

/// The headers of a header map's entries: every key with its text, or an
/// error at a key whose value is not text.
fn headers_from_entries(e: &Vec<(String, Value)>) -> (r: Result<Vec<(String, String)>>)
    ensures
        headers_read(r, entries_map(e@)),
{
    let mut out: Vec<(String, String)> = Vec::new();
    let mut i: usize = 0;
    while i < e.len()
        invariant
            i <= e@.len(),
            forall|k: Seq<char>| #[trigger] pairs_map(out@).contains_key(k) <==> exists|j: int|
                0 <= j < i && last_of_key(e@, j) && (#[trigger] e@[j]).0@ == k,
            forall|j: int| 0 <= j < i && last_of_key(e@, j) ==> (#[trigger] e@[j]).1 is String
                && pairs_map(out@)[e@[j].0@] == e@[j].1->String_0@,
        decreases e@.len() - i,
    {
        if is_last_of_key(e, i) {
            proof {
                lemma_entries_map_last(e@, e@[i as int].0@, i as int);
            }
            match &e[i].1 {
                Value::String(s) => {
                    let ghost prev = out@;
                    out.push((e[i].0.clone(), s.clone()));
                    assert(out@.drop_last() =~= prev);
                    assert forall|j: int| 0 <= j < i && last_of_key(e@, j) implies e@[j].0@ != e@[i as int].0@ by {}
                    assert forall|k: Seq<char>| #[trigger] pairs_map(out@).contains_key(k) <==> exists|j: int|
                        0 <= j < i + 1 && last_of_key(e@, j) && (#[trigger] e@[j]).0@ == k by {
                        assert(pairs_map(out@) == pairs_map(prev).insert(e@[i as int].0@, s@));
                        if k == e@[i as int].0@ {
                            assert(last_of_key(e@, i as int) && e@[i as int].0@ == k);
                        } else {
                            if pairs_map(prev).contains_key(k) {
                                let j = choose|j: int| 0 <= j < i && last_of_key(e@, j) && (#[trigger] e@[j]).0@ == k;
                                assert(0 <= j < i + 1 && last_of_key(e@, j) && e@[j].0@ == k);
                            }
                            if exists|j: int| 0 <= j < i + 1 && last_of_key(e@, j) && (#[trigger] e@[j]).0@ == k {
                                let j = choose|j: int| 0 <= j < i + 1 && last_of_key(e@, j) && (#[trigger] e@[j]).0@ == k;
                                assert(0 <= j < i && last_of_key(e@, j) && e@[j].0@ == k);
                            }
                        }
                    }
                },
                other => {
                    let mut msg = "Header value for '".to_string();
                    msg.append(e[i].0.as_str());
                    msg.append("' must be string, got ");
                    let shown = debug_text(other);
                    msg.append(shown.as_str());
                    assert(msg@ =~= header_error_prefix(e@[i as int].0@) + debug_spec(*other));
                    assert(entries_map(e@).contains_key(e@[i as int].0@));
                    assert(debug_spec(e@[i as int].1) == debug_spec(*other));
                    return Err(Error::Runtime(msg));
                },
            }
        }
        assert forall|k: Seq<char>| #[trigger] pairs_map(out@).contains_key(k) <==> exists|j: int|
            0 <= j < i + 1 && last_of_key(e@, j) && (#[trigger] e@[j]).0@ == k by {
            if exists|j: int| 0 <= j < i + 1 && last_of_key(e@, j) && (#[trigger] e@[j]).0@ == k {
                let j = choose|j: int| 0 <= j < i + 1 && last_of_key(e@, j) && (#[trigger] e@[j]).0@ == k;
                if j < i {
                    assert(0 <= j < i && last_of_key(e@, j) && e@[j].0@ == k);
                }
            }
        }
        i += 1;
    }
    proof {
        assert forall|k: Seq<char>| #[trigger] pairs_map(out@).contains_key(k) == entries_map(e@).contains_key(k) by {
            lemma_entries_map_dom(e@, k);
            if entries_map(e@).contains_key(k) {
                let j0 = choose|j: int| 0 <= j < e@.len() && (#[trigger] e@[j]).0@ == k;
                let jl = last_index_of_key(e@, k, j0);
                assert(e@[jl].0@ == k);
            }
        }
        assert forall|k: Seq<char>| #[trigger] entries_map(e@).contains_key(k) implies entries_map(e@)[k]
            == Datum::Str(pairs_map(out@)[k]) by {
            lemma_entries_map_dom(e@, k);
            let j0 = choose|j: int| 0 <= j < e@.len() && (#[trigger] e@[j]).0@ == k;
            let jl = last_index_of_key(e@, k, j0);
            lemma_entries_map_last(e@, k, jl);
        }
    }
    Ok(out)
}

/// The last index holding `key`, at or after `j0`.
proof fn last_index_of_key(e: Seq<(String, Value)>, key: Seq<char>, j0: int) -> (j: int)
    requires
        0 <= j0 < e.len(),
        e[j0].0@ == key,
    ensures
        j0 <= j < e.len(),
        e[j].0@ == key,
        last_of_key(e, j),
    decreases e.len() - j0,
{
    if exists|l: int| j0 < l < e.len() && (#[trigger] e[l]).0@ == key {
        let l = choose|l: int| j0 < l < e.len() && (#[trigger] e[l]).0@ == key;
        last_index_of_key(e, key, l)
    } else {
        j0
    }
}

impl CurlBuiltin {
    /// The headers requested by optional request options (`%{headers:
    /// %{...}}`): none without options, with options that are not a map, or
    /// without a `headers` map; an error when a header's value is not text.
    pub fn extract_headers(options: Option<&Value>) -> (r: Result<Vec<(String, String)>>)
        ensures
            match header_map(
                match options {
                    Some(v) => Some(v.datum()),
                    None => None,
                },
            ) {
                None => r matches Ok(v) && v@.len() == 0,
                Some(hm) => headers_read(r, hm),
            },
    {
        match options {
            Some(Value::Dict(entries)) => {
                let key = "headers".to_string();
                match dict_find(entries, &key) {
                    Some(i) => match &entries[i].1 {
                        Value::Dict(headers) => headers_from_entries(headers),
                        _ => Ok(Vec::new()),
                    },
                    None => Ok(Vec::new()),
                }
            },
            _ => Ok(Vec::new()),
        }
    }
}

} // verus!
