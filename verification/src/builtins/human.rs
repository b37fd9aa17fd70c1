//! The human built-in: requests for human approval of an action.
//!
//! What an approval request says is decided here; queueing it for the UI
//! and handing back the answer stream is the embedding application's part.

use vstd::prelude::*;
use crate::error::{Error, Result};
use crate::value::{dict_find, entries_map, Datum, Value};

verus! {

broadcast use vstd::string::group_string_axioms;

/// Approval timeout used when a request gives none, in milliseconds.
pub const DEFAULT_APPROVAL_TIMEOUT_MS: u64 = 30000;

/// What a request for approval asks.
#[derive(Debug)]
pub struct ApprovalTerms {
    /// Description of the action to approve.
    pub action: String,
    /// Additional context, if given.
    pub details: Option<String>,
    /// How long to wait for an answer, in milliseconds.
    pub timeout_ms: u64,
}

/// The human built-in object.
pub struct HumanBuiltin;

/// The text under `key` of a map, if it holds text.
pub open spec fn text_entry(m: Map<Seq<char>, Datum>, key: Seq<char>) -> Option<Seq<char>> {
    if m.contains_key(key) && m[key] is Str {
        Some(m[key]->Str_0)
    } else {
        None
    }
}

/// The terms a request stands for: a map must hold the action's text under
/// `action`, and may hold text under `details` and an integer timeout under
/// `timeout_ms` (read as an unsigned 64-bit number); a string is the action
/// alone. `None` for a map without an action text and for any other value.
pub open spec fn approval_terms(request: Datum) -> Option<(Seq<char>, Option<Seq<char>>, u64)> {
    match request {
        Datum::Dict(m) => match text_entry(m, "action"@) {
            Some(action) => Some(
                (
                    action,
                    text_entry(m, "details"@),
                    if m.contains_key("timeout_ms"@) && m["timeout_ms"@] is Int {
                        (m["timeout_ms"@]->Int_0) as u64
                    } else {
                        DEFAULT_APPROVAL_TIMEOUT_MS
                    },
                ),
            ),
            None => None,
        },
        Datum::Str(s) => Some((s, None, DEFAULT_APPROVAL_TIMEOUT_MS)),
        _ => None,
    }
}

/// The map describing a request to the UI: the action under `action`, and
/// the details under `details` when there are any.
pub open spec fn request_entries(action: Seq<char>, details: Option<Seq<char>>) -> Map<Seq<char>, Datum> {
    let base = map!["action"@ => Datum::Str(action)];
    match details {
        Some(d) => base.insert("details"@, Datum::Str(d)),
        None => base,
    }
}

/// The text stored under `key` in `entries`, if the entry that gives the
/// key its value holds text.
fn find_text(entries: &Vec<(String, Value)>, key: &String) -> (r: Option<String>)
    ensures
        match r {
            Some(s) => text_entry(entries_map(entries@), key@) == Some(s@),
            None => text_entry(entries_map(entries@), key@) is None,
        },
{
    match dict_find(entries, key) {
        Some(i) => match &entries[i].1 {
            Value::String(s) => Some(s.clone()),
            _ => None,
        },
        None => None,
    }
}

impl HumanBuiltin {
    /// Read what a request for approval asks (see [`approval_terms`]); an
    /// error names what is missing.
    pub fn parse_request(request: &Value) -> (r: Result<ApprovalTerms>)
        ensures
            match approval_terms(request.datum()) {
                Some((action, details, timeout)) => r matches Ok(t) && t.action@ == action && match t.details {
                    Some(d) => details == Some(d@),
                    None => details is None,
                } && t.timeout_ms == timeout,
                None => r matches Err(Error::Runtime(m)) && m@ == (if request is Dict {
                    "human.approve requires 'action' string in request"@
                } else {
                    "human.approve requires string or map request"@
                }),
            },
    {
        match request {
            Value::Dict(entries) => {
                let action = match find_text(entries, &"action".to_string()) {
                    Some(a) => a,
                    None => {
                        return Err(
                            Error::Runtime("human.approve requires 'action' string in request".to_string()),
                        );
                    },
                };
                let details = find_text(entries, &"details".to_string());
                let key = "timeout_ms".to_string();
                let timeout_ms = match dict_find(entries, &key) {
                    Some(i) => match &entries[i].1 {
                        Value::Int(n) => *n as u64,
                        _ => DEFAULT_APPROVAL_TIMEOUT_MS,
                    },
                    None => DEFAULT_APPROVAL_TIMEOUT_MS,
                };
                Ok(ApprovalTerms { action, details, timeout_ms })
            },
            Value::String(s) => Ok(
                ApprovalTerms { action: s.clone(), details: None, timeout_ms: DEFAULT_APPROVAL_TIMEOUT_MS },
            ),
            _ => Err(Error::Runtime("human.approve requires string or map request".to_string())),
        }
    }

    /// The map that describes a request to the UI (see [`request_entries`]).
    pub fn request_value(terms: &ApprovalTerms) -> (r: Value)
        ensures
            r.datum() == Datum::Dict(
                request_entries(
                    terms.action@,
                    match terms.details {
                        Some(d) => Some(d@),
                        None => None,
                    },
                ),
            ),
    {
        let mut entries: Vec<(String, Value)> = Vec::new();
        entries.push(("action".to_string(), Value::String(terms.action.clone())));
        let ghost first = entries@;
        proof {
            reveal_with_fuel(entries_map, 3);
        }
        assert(first.drop_last() =~= Seq::<(String, Value)>::empty());
        assert(entries_map(first) =~= map!["action"@ => Datum::Str(terms.action@)]);
        match &terms.details {
            Some(d) => {
                entries.push(("details".to_string(), Value::String(d.clone())));
                assert(entries@.drop_last() =~= first);
            },
            None => {},
        }
        let r = Value::Dict(entries);
        assert(entries_map(entries@) =~= request_entries(
            terms.action@,
            match terms.details {
                Some(d) => Some(d@),
                None => None,
            },
        ));
        r
    }
}

} // verus!
