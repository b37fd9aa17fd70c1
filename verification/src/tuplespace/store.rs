//! The in-memory tuple space.
//!
//! Tuples are kept in the order of their keys: namespace (no namespace
//! first), then type name, then the sequence number the space assigned
//! when the tuple was written. Strings are ordered by their UTF-8 bytes,
//! as Rust orders strings. Matching operations pick the first matching
//! tuple in that order, so tuples of one namespace and type come out in
//! the order they were written.

use crate::error::Result;
use crate::tuplespace::{opt_str, tuple_matches, Tuple, TupleModel, TuplePattern};
use crate::value::{Datum, Value};
use vstd::prelude::*;
use vstd::string::StringSliceAdditionalSpecFns;
use vstd::utf8::encode_utf8;

verus! {

/// Lexicographic order on byte sequences (a proper prefix comes first).
pub open spec fn bytes_lt(a: Seq<u8>, b: Seq<u8>) -> bool
    decreases a.len(),
{
    if a.len() == 0 {
        b.len() > 0
    } else if b.len() == 0 {
        false
    } else if a[0] != b[0] {
        a[0] < b[0]
    } else {
        bytes_lt(a.drop_first(), b.drop_first())
    }
}

/// The order of strings: lexicographic on their UTF-8 bytes.
pub open spec fn str_lt(a: Seq<char>, b: Seq<char>) -> bool {
    bytes_lt(encode_utf8(a), encode_utf8(b))
}

/// The order of optional strings: `None` first.
pub open spec fn opt_str_lt(a: Option<Seq<char>>, b: Option<Seq<char>>) -> bool {
    match (a, b) {
        (None, Some(_)) => true,
        (Some(x), Some(y)) => str_lt(x, y),
        _ => false,
    }
}

/// The key of a stored tuple: namespace, type name, sequence number.
pub open spec fn entry_key(e: (u64, TupleModel)) -> (Option<Seq<char>>, Seq<char>, u64) {
    (e.1.namespace, e.1.tuple_type, e.0)
}

/// The order of keys: by namespace, then type name, then sequence number.
pub open spec fn key_lt(
    a: (Option<Seq<char>>, Seq<char>, u64),
    b: (Option<Seq<char>>, Seq<char>, u64),
) -> bool {
    ||| opt_str_lt(a.0, b.0)
    ||| (a.0 == b.0 && str_lt(a.1, b.1))
    ||| (a.0 == b.0 && a.1 == b.1 && a.2 < b.2)
}

/// Entries strictly increasing by key.
pub open spec fn sorted(s: Seq<(u64, TupleModel)>) -> bool {
    forall|i: int, j: int| 0 <= i < j < s.len() ==> key_lt(entry_key(s[i]), entry_key(s[j]))
}

/// Inserting entry `e` into the key-sorted sequence `s`: an entry with the
/// same key is replaced, otherwise `e` goes before the first larger key.
pub open spec fn insert_sorted(s: Seq<(u64, TupleModel)>, e: (u64, TupleModel)) -> Seq<
    (u64, TupleModel),
>
    decreases s.len(),
{
    if s.len() == 0 {
        seq![e]
    } else if key_lt(entry_key(e), entry_key(s[0])) {
        seq![e] + s
    } else if entry_key(e) == entry_key(s[0]) {
        seq![e] + s.drop_first()
    } else {
        seq![s[0]] + insert_sorted(s.drop_first(), e)
    }
}

/// Index of the first entry of `s` whose tuple matches `p` (`s.len()` when
/// none does).
pub open spec fn first_match(s: Seq<(u64, TupleModel)>, p: TuplePattern) -> nat
    decreases s.len(),
{
    if s.len() == 0 {
        0
    } else if tuple_matches(p, s[0].1) {
        0
    } else {
        1 + first_match(s.drop_first(), p)
    }
}

/// Whether a search confined to namespace `ns` (`None`: every namespace)
/// with pattern `p` selects a tuple with model `t`.
pub open spec fn in_scope(ns: Option<Seq<char>>, p: TuplePattern, t: TupleModel) -> bool {
    (ns is None || t.namespace == ns) && tuple_matches(p, t)
}

/// Index of the first entry of `s` that a search confined to `ns` with
/// pattern `p` selects (`s.len()` when none).
pub open spec fn first_in_scope(s: Seq<(u64, TupleModel)>, ns: Option<Seq<char>>, p: TuplePattern) -> nat
    decreases s.len(),
{
    if s.len() == 0 {
        0
    } else if in_scope(ns, p, s[0].1) {
        0
    } else {
        1 + first_in_scope(s.drop_first(), ns, p)
    }
}

/// An unconfined search finds the first match.
proof fn lemma_first_in_scope_unconfined(s: Seq<(u64, TupleModel)>, p: TuplePattern)
    ensures
        first_in_scope(s, None, p) == first_match(s, p),
    decreases s.len(),
{
    if s.len() > 0 {
        lemma_first_in_scope_unconfined(s.drop_first(), p);
    }
}

/// `first_in_scope` is the index of the first selected entry.
pub proof fn lemma_first_in_scope(s: Seq<(u64, TupleModel)>, ns: Option<Seq<char>>, p: TuplePattern)
    ensures
        first_in_scope(s, ns, p) <= s.len(),
        forall|j: int| 0 <= j < first_in_scope(s, ns, p) ==> !in_scope(ns, p, #[trigger] s[j].1),
        first_in_scope(s, ns, p) < s.len() ==> in_scope(ns, p, s[first_in_scope(s, ns, p) as int].1),
    decreases s.len(),
{
    if s.len() > 0 && !in_scope(ns, p, s[0].1) {
        let t = s.drop_first();
        lemma_first_in_scope(t, ns, p);
        assert forall|j: int| 0 <= j < first_in_scope(s, ns, p) implies !in_scope(ns, p, #[trigger] s[j].1) by {
            if j > 0 {
                assert(s[j] == t[j - 1]);
            }
        }
    }
}

/// Whether an optional namespace is the given one.
fn namespace_is(ns: &Option<String>, target: &String) -> (r: bool)
    ensures
        r == (opt_str(*ns) == Some(target@)),
{
    match ns {
        Some(n) => *n == *target,
        None => false,
    }
}

/// The outcome of a blocking operation: a tuple, or the decision to wait
/// for the next write and try again.
#[derive(Debug)]
pub enum Blocking {
    /// A matching tuple.
    Ready(Tuple),
    /// No tuple matches yet: wait until a tuple is written, then retry.
    Wait,
}

proof fn lemma_bytes_lt_irreflexive(a: Seq<u8>)
    ensures
        !bytes_lt(a, a),
    decreases a.len(),
{
    if a.len() > 0 {
        lemma_bytes_lt_irreflexive(a.drop_first());
    }
}

proof fn lemma_bytes_lt_transitive(a: Seq<u8>, b: Seq<u8>, c: Seq<u8>)
    requires
        bytes_lt(a, b),
        bytes_lt(b, c),
    ensures
        bytes_lt(a, c),
    decreases a.len(),
{
    if a.len() > 0 && b.len() > 0 && c.len() > 0 && a[0] == b[0] && b[0] == c[0] {
        lemma_bytes_lt_transitive(a.drop_first(), b.drop_first(), c.drop_first());
    }
}

proof fn lemma_bytes_lt_total(a: Seq<u8>, b: Seq<u8>)
    ensures
        a == b || bytes_lt(a, b) || bytes_lt(b, a),
        !(bytes_lt(a, b) && bytes_lt(b, a)),
    decreases a.len(),
{
    if a.len() > 0 && b.len() > 0 && a[0] == b[0] {
        lemma_bytes_lt_total(a.drop_first(), b.drop_first());
        if a.drop_first() == b.drop_first() {
            assert(a =~= seq![a[0]] + a.drop_first());
            assert(b =~= seq![b[0]] + b.drop_first());
        }
    } else if a.len() == 0 && b.len() == 0 {
        assert(a =~= b);
    }
}

/// Distinct strings have distinct UTF-8 encodings.
proof fn lemma_encode_injective(a: Seq<char>, b: Seq<char>)
    ensures
        encode_utf8(a) == encode_utf8(b) ==> a == b,
{
    vstd::utf8::encode_utf8_decode_utf8(a);
    vstd::utf8::encode_utf8_decode_utf8(b);
}

/// The key order is a strict total order.
pub proof fn lemma_key_order(
    a: (Option<Seq<char>>, Seq<char>, u64),
    b: (Option<Seq<char>>, Seq<char>, u64),
    c: (Option<Seq<char>>, Seq<char>, u64),
)
    ensures
        !key_lt(a, a),
        key_lt(a, b) && key_lt(b, c) ==> key_lt(a, c),
        a == b || key_lt(a, b) || key_lt(b, a),
        !(key_lt(a, b) && key_lt(b, a)),
{
    lemma_bytes_lt_irreflexive(encode_utf8(a.1));
    lemma_bytes_lt_total(encode_utf8(a.1), encode_utf8(b.1));
    lemma_encode_injective(a.1, b.1);
    match (a.0, b.0) {
        (Some(x), Some(y)) => {
            lemma_bytes_lt_total(encode_utf8(x), encode_utf8(y));
            lemma_encode_injective(x, y);
            lemma_bytes_lt_irreflexive(encode_utf8(x));
        },
        (Some(x), None) => {
            lemma_bytes_lt_irreflexive(encode_utf8(x));
        },
        _ => {},
    }
    if key_lt(a, b) && key_lt(b, c) {
        if str_lt(a.1, b.1) && str_lt(b.1, c.1) {
            lemma_bytes_lt_transitive(encode_utf8(a.1), encode_utf8(b.1), encode_utf8(c.1));
        }
        match (a.0, b.0, c.0) {
            (Some(x), Some(y), Some(z)) => {
                if str_lt(x, y) && str_lt(y, z) {
                    lemma_bytes_lt_transitive(encode_utf8(x), encode_utf8(y), encode_utf8(z));
                }
            },
            _ => {},
        }
    }
}

/// Result of comparing two keys.
pub enum KeyCmp {
    Less,
    Equal,
    Greater,
}

/// Compares two strings by their UTF-8 bytes.
fn compare_str(a: &String, b: &String) -> (r: KeyCmp)
    ensures
        r is Less <==> str_lt(a@, b@),
        r is Equal <==> a@ == b@,
        r is Greater <==> str_lt(b@, a@),
{
    let x = a.as_str().as_bytes();
    let y = b.as_str().as_bytes();
    let ghost xs = encode_utf8(a@);
    let ghost ys = encode_utf8(b@);
    assert(x@ == xs && y@ == ys);
    proof {
        lemma_bytes_lt_total(xs, ys);
        lemma_encode_injective(a@, b@);
        lemma_bytes_lt_irreflexive(xs);
    }
    let mut i: usize = 0;
    assert(xs.skip(0) =~= xs);
    assert(ys.skip(0) =~= ys);
    while i < x.len() && i < y.len()
        invariant
            xs == encode_utf8(a@),
            ys == encode_utf8(b@),
            xs == ys ==> a@ == b@,
            a@ == b@ ==> xs == ys,
            !(bytes_lt(xs, ys) && bytes_lt(ys, xs)),
            !bytes_lt(xs, xs),
            i <= x@.len(),
            i <= y@.len(),
            x@ == xs,
            y@ == ys,
            x@.take(i as int) == y@.take(i as int),
            bytes_lt(xs, ys) == bytes_lt(xs.skip(i as int), ys.skip(i as int)),
            bytes_lt(ys, xs) == bytes_lt(ys.skip(i as int), xs.skip(i as int)),
        decreases x@.len() - i,
    {
        assert(xs.skip(i as int)[0] == x@[i as int]);
        assert(ys.skip(i as int)[0] == y@[i as int]);
        if x[i] < y[i] {
            return KeyCmp::Less;
        }
        if x[i] > y[i] {
            return KeyCmp::Greater;
        }
        assert(xs.skip(i as int).drop_first() =~= xs.skip(i + 1));
        assert(ys.skip(i as int).drop_first() =~= ys.skip(i + 1));
        assert(x@.take(i + 1) =~= x@.take(i as int).push(x@[i as int]));
        assert(y@.take(i + 1) =~= y@.take(i as int).push(y@[i as int]));
        i += 1;
    }
    if x.len() < y.len() {
        KeyCmp::Less
    } else if x.len() > y.len() {
        KeyCmp::Greater
    } else {
        assert(x@ =~= x@.take(i as int));
        assert(y@ =~= y@.take(i as int));
        KeyCmp::Equal
    }
}

/// Compares the key `(ns, ty, seq)` with the key of a stored entry.
fn compare_key(ns: &Option<String>, ty: &String, seq: u64, e: &(u64, Tuple)) -> (r: KeyCmp)
    ensures
        r is Less <==> key_lt((opt_str(*ns), ty@, seq), entry_key((e.0, e.1@))),
        r is Equal <==> (opt_str(*ns), ty@, seq) == entry_key((e.0, e.1@)),
        r is Greater <==> key_lt(entry_key((e.0, e.1@)), (opt_str(*ns), ty@, seq)),
{
    let ghost a = (opt_str(*ns), ty@, seq);
    let ghost b = entry_key((e.0, e.1@));
    proof {
        lemma_key_order(a, b, a);
    }
    let c = match (ns, &e.1.namespace) {
        (None, None) => KeyCmp::Equal,
        (None, Some(_)) => KeyCmp::Less,
        (Some(_), None) => KeyCmp::Greater,
        (Some(x), Some(y)) => compare_str(x, y),
    };
    match c {
        KeyCmp::Less => KeyCmp::Less,
        KeyCmp::Greater => KeyCmp::Greater,
        KeyCmp::Equal => match compare_str(ty, &e.1.tuple_type) {
            KeyCmp::Less => KeyCmp::Less,
            KeyCmp::Greater => KeyCmp::Greater,
            KeyCmp::Equal => {
                if seq < e.0 {
                    KeyCmp::Less
                } else if seq > e.0 {
                    KeyCmp::Greater
                } else {
                    KeyCmp::Equal
                }
            },
        },
    }
}

/// Inserting into a sorted sequence at the first position whose key is not
/// smaller replaces an equal key or inserts there, and keeps the sequence
/// sorted.
pub proof fn lemma_insert_sorted(s: Seq<(u64, TupleModel)>, e: (u64, TupleModel), p: int)
    requires
        sorted(s),
        0 <= p <= s.len(),
        forall|i: int| 0 <= i < p ==> key_lt(entry_key(#[trigger] s[i]), entry_key(e)),
        p < s.len() ==> !key_lt(entry_key(s[p]), entry_key(e)),
    ensures
        p < s.len() && entry_key(s[p]) == entry_key(e) ==> insert_sorted(s, e) == s.update(p, e),
        !(p < s.len() && entry_key(s[p]) == entry_key(e)) ==> insert_sorted(s, e) == s.insert(p, e),
        sorted(insert_sorted(s, e)),
    decreases p,
{
    if s.len() > 0 {
        lemma_key_order(entry_key(e), entry_key(s[0]), entry_key(e));
    }
    if p == 0 {
        if s.len() == 0 {
            assert(insert_sorted(s, e) =~= s.insert(p, e));
        } else if key_lt(entry_key(e), entry_key(s[0])) {
            assert(insert_sorted(s, e) =~= s.insert(p, e));
        } else {
            assert(insert_sorted(s, e) =~= s.update(p, e));
        }
    } else {
        let t = s.drop_first();
        assert forall|i: int, j: int| 0 <= i < j < t.len() implies key_lt(entry_key(t[i]), entry_key(t[j])) by {
            assert(t[i] == s[i + 1] && t[j] == s[j + 1]);
        }
        assert forall|i: int| 0 <= i < p - 1 implies key_lt(entry_key(#[trigger] t[i]), entry_key(e)) by {
            assert(t[i] == s[i + 1]);
        }
        if p - 1 < t.len() {
            assert(t[p - 1] == s[p]);
        }
        lemma_insert_sorted(t, e, p - 1);
        assert(key_lt(entry_key(s[0]), entry_key(e)));
        if p < s.len() && entry_key(s[p]) == entry_key(e) {
            assert(insert_sorted(s, e) =~= s.update(p, e));
        } else {
            assert(insert_sorted(s, e) =~= s.insert(p, e));
        }
    }
    let r = insert_sorted(s, e);
    if p < s.len() && entry_key(s[p]) == entry_key(e) {
        assert forall|i: int, j: int| 0 <= i < j < r.len() implies key_lt(entry_key(r[i]), entry_key(r[j])) by {
            if i == p {
                lemma_key_order(entry_key(s[p]), entry_key(s[j]), entry_key(s[j]));
            } else if j == p {
                lemma_key_order(entry_key(s[i]), entry_key(s[p]), entry_key(s[p]));
            }
        }
    } else {
        assert forall|i: int, j: int| 0 <= i < j < r.len() implies key_lt(entry_key(r[i]), entry_key(r[j])) by {
            if i == p {
                assert(r[j] == s[j - 1]);
                lemma_key_order(entry_key(s[p]), entry_key(e), entry_key(s[p]));
                if j - 1 > p {
                    lemma_key_order(entry_key(e), entry_key(s[p]), entry_key(s[j - 1]));
                }
            } else if j == p {
                assert(r[i] == s[i]);
            } else if i < p && j > p {
                assert(r[i] == s[i] && r[j] == s[j - 1]);
            } else if i > p {
                assert(r[i] == s[i - 1] && r[j] == s[j - 1]);
            } else {
                assert(r[i] == s[i] && r[j] == s[j]);
            }
        }
    }
}

/// Index of the first entry of `s` whose key is not below `k`.
pub open spec fn lower_bound(s: Seq<(u64, TupleModel)>, k: (Option<Seq<char>>, Seq<char>, u64)) -> nat
    decreases s.len(),
{
    if s.len() == 0 {
        0
    } else if key_lt(entry_key(s[0]), k) {
        1 + lower_bound(s.drop_first(), k)
    } else {
        0
    }
}

proof fn lemma_lower_bound(s: Seq<(u64, TupleModel)>, k: (Option<Seq<char>>, Seq<char>, u64))
    ensures
        lower_bound(s, k) <= s.len(),
        forall|i: int| 0 <= i < lower_bound(s, k) ==> key_lt(entry_key(#[trigger] s[i]), k),
        lower_bound(s, k) < s.len() ==> !key_lt(entry_key(s[lower_bound(s, k) as int]), k),
    decreases s.len(),
{
    if s.len() > 0 && key_lt(entry_key(s[0]), k) {
        let t = s.drop_first();
        lemma_lower_bound(t, k);
        assert forall|i: int| 0 <= i < lower_bound(s, k) implies key_lt(entry_key(#[trigger] s[i]), k) by {
            if i > 0 {
                assert(s[i] == t[i - 1]);
            }
        }
    }
}

/// `first_match` is the index of the first entry whose tuple matches.
pub proof fn lemma_first_match(s: Seq<(u64, TupleModel)>, p: TuplePattern)
    ensures
        first_match(s, p) <= s.len(),
        forall|j: int| 0 <= j < first_match(s, p) ==> !tuple_matches(p, #[trigger] s[j].1),
        first_match(s, p) < s.len() ==> tuple_matches(p, s[first_match(s, p) as int].1),
    decreases s.len(),
{
    if s.len() > 0 && !tuple_matches(p, s[0].1) {
        let t = s.drop_first();
        lemma_first_match(t, p);
        assert forall|j: int| 0 <= j < first_match(s, p) implies !tuple_matches(p, #[trigger] s[j].1) by {
            if j > 0 {
                assert(s[j] == t[j - 1]);
            }
        }
    }
}

/// The models of stored entries.
pub open spec fn entries_view(entries: Seq<(u64, Tuple)>) -> Seq<(u64, TupleModel)> {
    Seq::new(entries.len(), |i: int| (entries[i].0, entries[i].1@))
}

/// In-memory tuple space.
pub struct TupleSpace {
    next_seq: u64,
    entries: Vec<(u64, Tuple)>,
}

impl View for TupleSpace {
    type V = Seq<(u64, TupleModel)>;

    /// The stored entries (sequence number and tuple) in key order.
    closed spec fn view(&self) -> Seq<(u64, TupleModel)> {
        entries_view(self.entries@)
    }
}

impl TupleSpace {
    /// The sequence number the next written tuple receives.
    pub closed spec fn next_seq(&self) -> u64 {
        self.next_seq
    }

    #[verifier::type_invariant]
    closed spec fn inv(self) -> bool {
        sorted(entries_view(self.entries@))
    }

    /// Create a new, empty tuple space.
    pub fn new() -> (r: Self)
        ensures
            r@ == Seq::<(u64, TupleModel)>::empty(),
            r.next_seq() == 1,
    {
        let r = TupleSpace { next_seq: 1, entries: Vec::new() };
        assert(r@ =~= Seq::<(u64, TupleModel)>::empty());
        r
    }

    /// Write a tuple to the space under the next sequence number.
    pub fn out(&mut self, tuple: Tuple) -> (r: Result<()>)
        ensures
            r is Ok,
            sorted(final(self)@),
            final(self)@ == insert_sorted(old(self)@, (old(self).next_seq(), tuple@)),
            final(self).next_seq() == (if old(self).next_seq() == u64::MAX {
                0
            } else {
                old(self).next_seq() + 1
            }),
    {
        proof {
            use_type_invariant(&*self);
        }
        let seq = self.next_seq;
        self.next_seq = if seq == u64::MAX {
            0
        } else {
            seq + 1
        };
        let mut entries: Vec<(u64, Tuple)> = Vec::new();
        std::mem::swap(&mut entries, &mut self.entries);
        let ghost s = entries_view(entries@);
        let ghost e = (seq, tuple@);
        let mut p: usize = 0;
        let mut equal = false;
        while p < entries.len()
            invariant_except_break
                !equal,
            invariant
                p <= entries@.len(),
                s == entries_view(entries@),
                e == (seq, tuple@),
                forall|i: int| 0 <= i < p ==> key_lt(entry_key(#[trigger] s[i]), entry_key(e)),
            ensures
                p <= entries@.len(),
                forall|i: int| 0 <= i < p ==> key_lt(entry_key(#[trigger] s[i]), entry_key(e)),
                p < entries@.len() ==> !key_lt(entry_key(s[p as int]), entry_key(e)),
                equal == (p < entries@.len() && entry_key(s[p as int]) == entry_key(e)),
            decreases entries@.len() - p,
        {
            match compare_key(&tuple.namespace, &tuple.tuple_type, seq, &entries[p]) {
                KeyCmp::Greater => {
                    p += 1;
                },
                KeyCmp::Equal => {
                    proof {
                        lemma_key_order(entry_key(s[p as int]), entry_key(e), entry_key(e));
                    }
                    equal = true;
                    break ;
                },
                KeyCmp::Less => {
                    proof {
                        lemma_key_order(entry_key(s[p as int]), entry_key(e), entry_key(e));
                    }
                    break ;
                },
            }
        }
        proof {
            lemma_insert_sorted(s, e, p as int);
        }
        if equal {
            entries.set(p, (seq, tuple));
            assert(entries_view(entries@) =~= s.update(p as int, e));
        } else {
            entries.insert(p, (seq, tuple));
            assert(entries_view(entries@) =~= s.insert(p as int, e));
        }
        self.entries = entries;
        Ok(())
    }

    /// Index of the first stored tuple that a search confined to `ns` with
    /// `pattern` selects, if any.
    fn find(&self, ns: &Option<String>, pattern: &TuplePattern) -> (r: Option<usize>)
        ensures
            match r {
                Some(i) => i == first_in_scope(self@, opt_str(*ns), *pattern) && i < self@.len(),
                None => first_in_scope(self@, opt_str(*ns), *pattern) == self@.len(),
            },
    {
        let ghost nsv = opt_str(*ns);
        proof {
            lemma_first_in_scope(self@, nsv, *pattern);
        }
        let mut i: usize = 0;
        while i < self.entries.len()
            invariant
                i <= self.entries@.len(),
                nsv == opt_str(*ns),
                self@ == entries_view(self.entries@),
                forall|j: int| 0 <= j < i ==> !in_scope(nsv, *pattern, #[trigger] self@[j].1),
                first_in_scope(self@, nsv, *pattern) <= self@.len(),
                forall|j: int| 0 <= j < first_in_scope(self@, nsv, *pattern) ==> !in_scope(nsv, *pattern, #[trigger] self@[j].1),
                first_in_scope(self@, nsv, *pattern) < self@.len() ==> in_scope(nsv, *pattern, self@[first_in_scope(self@, nsv, *pattern) as int].1),
            decreases self.entries@.len() - i,
        {
            assert(self@[i as int].1 == self.entries@[i as int].1@);
            let in_ns = match ns {
                None => true,
                Some(n) => namespace_is(&self.entries[i].1.namespace, n),
            };
            if in_ns && pattern.matches(&self.entries[i].1) {
                return Some(i);
            }
            i += 1;
        }
        None
    }

    /// Non-blocking remove within a namespace (`None`: every namespace):
    /// takes out the first selected tuple in key order, or returns `None`.
    pub fn inp_in_scope(&mut self, ns: &Option<String>, pattern: &TuplePattern) -> (r: Result<Option<Tuple>>)
        ensures
            final(self).next_seq() == old(self).next_seq(),
            sorted(final(self)@),
            ({
                let i = first_in_scope(old(self)@, opt_str(*ns), *pattern);
                if i < old(self)@.len() {
                    &&& r matches Ok(Some(t))
                    &&& t@ == old(self)@[i as int].1
                    &&& final(self)@ == old(self)@.remove(i as int)
                } else {
                    &&& r matches Ok(None)
                    &&& final(self)@ == old(self)@
                }
            }),
    {
        proof {
            use_type_invariant(&*self);
        }
        match self.find(ns, pattern) {
            None => Ok(None),
            Some(i) => {
                let mut entries: Vec<(u64, Tuple)> = Vec::new();
                std::mem::swap(&mut entries, &mut self.entries);
                let ghost s = entries_view(entries@);
                let removed = entries.remove(i);
                assert(entries_view(entries@) =~= s.remove(i as int));
                assert forall|a: int, b: int| 0 <= a < b < s.remove(i as int).len() implies key_lt(
                    entry_key(s.remove(i as int)[a]),
                    entry_key(s.remove(i as int)[b]),
                ) by {
                    if a >= i {
                        assert(s.remove(i as int)[a] == s[a + 1]);
                    }
                    if b >= i {
                        assert(s.remove(i as int)[b] == s[b + 1]);
                    }
                }
                self.entries = entries;
                Ok(Some(removed.1))
            },
        }
    }

    /// Non-blocking read within a namespace (`None`: every namespace): a
    /// copy of the first selected tuple in key order, or `None`.
    pub fn rdp_in_scope(&mut self, ns: &Option<String>, pattern: &TuplePattern) -> (r: Result<Option<Tuple>>)
        ensures
            *final(self) == *old(self),
            ({
                let i = first_in_scope(old(self)@, opt_str(*ns), *pattern);
                if i < old(self)@.len() {
                    &&& r matches Ok(Some(t))
                    &&& t@ == old(self)@[i as int].1
                } else {
                    r matches Ok(None)
                }
            }),
    {
        match self.find(ns, pattern) {
            None => Ok(None),
            Some(i) => {
                assert(self@[i as int].1 == self.entries@[i as int].1@);
                Ok(Some(self.entries[i].1.deep_clone()))
            },
        }
    }

    /// Blocking remove within a namespace (`None`: every namespace): the
    /// first selected tuple, or the decision to wait for a write.
    pub fn in_in_scope(&mut self, ns: &Option<String>, pattern: &TuplePattern) -> (r: Result<Blocking>)
        ensures
            final(self).next_seq() == old(self).next_seq(),
            sorted(final(self)@),
            ({
                let i = first_in_scope(old(self)@, opt_str(*ns), *pattern);
                if i < old(self)@.len() {
                    &&& r matches Ok(Blocking::Ready(t))
                    &&& t@ == old(self)@[i as int].1
                    &&& final(self)@ == old(self)@.remove(i as int)
                } else {
                    &&& r matches Ok(Blocking::Wait)
                    &&& final(self)@ == old(self)@
                }
            }),
    {
        match self.inp_in_scope(ns, pattern) {
            Ok(Some(t)) => Ok(Blocking::Ready(t)),
            Ok(None) => Ok(Blocking::Wait),
            Err(e) => Err(e),
        }
    }

    /// Blocking read within a namespace (`None`: every namespace): a copy of
    /// the first selected tuple, or the decision to wait for a write.
    pub fn rd_in_scope(&mut self, ns: &Option<String>, pattern: &TuplePattern) -> (r: Result<Blocking>)
        ensures
            *final(self) == *old(self),
            ({
                let i = first_in_scope(old(self)@, opt_str(*ns), *pattern);
                if i < old(self)@.len() {
                    &&& r matches Ok(Blocking::Ready(t))
                    &&& t@ == old(self)@[i as int].1
                } else {
                    r matches Ok(Blocking::Wait)
                }
            }),
    {
        match self.rdp_in_scope(ns, pattern) {
            Ok(Some(t)) => Ok(Blocking::Ready(t)),
            Ok(None) => Ok(Blocking::Wait),
            Err(e) => Err(e),
        }
    }

    /// Non-blocking remove: takes out the first matching tuple in key order,
    /// or returns `None` when no tuple matches.
    pub fn inp(&mut self, pattern: &TuplePattern) -> (r: Result<Option<Tuple>>)
        ensures
            final(self).next_seq() == old(self).next_seq(),
            sorted(final(self)@),
            ({
                let i = first_match(old(self)@, *pattern);
                if i < old(self)@.len() {
                    &&& r matches Ok(Some(t))
                    &&& t@ == old(self)@[i as int].1
                    &&& final(self)@ == old(self)@.remove(i as int)
                } else {
                    &&& r matches Ok(None)
                    &&& final(self)@ == old(self)@
                }
            }),
    {
        proof {
            lemma_first_in_scope_unconfined(self@, *pattern);
        }
        self.inp_in_scope(&None, pattern)
    }

    /// Non-blocking read: a copy of the first matching tuple in key order,
    /// or `None` when no tuple matches.
    pub fn rdp(&mut self, pattern: &TuplePattern) -> (r: Result<Option<Tuple>>)
        ensures
            *final(self) == *old(self),
            ({
                let i = first_match(old(self)@, *pattern);
                if i < old(self)@.len() {
                    &&& r matches Ok(Some(t))
                    &&& t@ == old(self)@[i as int].1
                } else {
                    r matches Ok(None)
                }
            }),
    {
        proof {
            lemma_first_in_scope_unconfined(self@, *pattern);
        }
        self.rdp_in_scope(&None, pattern)
    }

    /// Blocking remove: takes out the first matching tuple in key order; when
    /// none matches, the space is unchanged and the caller is to wait until a
    /// tuple is written and try again ([`Blocking::Wait`]).
    pub fn in_(&mut self, pattern: &TuplePattern) -> (r: Result<Blocking>)
        ensures
            final(self).next_seq() == old(self).next_seq(),
            sorted(final(self)@),
            ({
                let i = first_match(old(self)@, *pattern);
                if i < old(self)@.len() {
                    &&& r matches Ok(Blocking::Ready(t))
                    &&& t@ == old(self)@[i as int].1
                    &&& final(self)@ == old(self)@.remove(i as int)
                } else {
                    &&& r matches Ok(Blocking::Wait)
                    &&& final(self)@ == old(self)@
                }
            }),
    {
        match self.inp(pattern) {
            Ok(Some(t)) => Ok(Blocking::Ready(t)),
            Ok(None) => Ok(Blocking::Wait),
            Err(e) => Err(e),
        }
    }

    /// Blocking read: a copy of the first matching tuple in key order; when
    /// none matches, the caller is to wait until a tuple is written and try
    /// again ([`Blocking::Wait`]).
    pub fn rd(&mut self, pattern: &TuplePattern) -> (r: Result<Blocking>)
        ensures
            *final(self) == *old(self),
            ({
                let i = first_match(old(self)@, *pattern);
                if i < old(self)@.len() {
                    &&& r matches Ok(Blocking::Ready(t))
                    &&& t@ == old(self)@[i as int].1
                } else {
                    r matches Ok(Blocking::Wait)
                }
            }),
    {
        match self.rdp(pattern) {
            Ok(Some(t)) => Ok(Blocking::Ready(t)),
            Ok(None) => Ok(Blocking::Wait),
            Err(e) => Err(e),
        }
    }
}

/// The value delivered to subscribers when a tuple is written: a map with
/// the tuple's type under `"type"`, its namespace (if any) under
/// `"namespace"`, and its data under `"data"`.
pub open spec fn event_entries(t: TupleModel) -> Map<Seq<char>, Datum> {
    let base = map![seq!['t', 'y', 'p', 'e'] => Datum::Str(t.tuple_type)];
    let with_ns = match t.namespace {
        Some(ns) => base.insert(seq!['n', 'a', 'm', 'e', 's', 'p', 'a', 'c', 'e'], Datum::Str(ns)),
        None => base,
    };
    with_ns.insert(seq!['d', 'a', 't', 'a'], t.data)
}

/// The subscriber event for a written tuple (see [`event_entries`]).
pub fn tuple_event_value(t: &Tuple) -> (r: Value)
    ensures
        r.datum() == Datum::Dict(event_entries(t@)),
{
    proof {
        reveal_strlit("type");
        reveal_strlit("namespace");
        reveal_strlit("data");
    }
    let mut entries: Vec<(String, Value)> = Vec::new();
    entries.push(("type".to_owned(), Value::String(t.tuple_type.clone())));
    match &t.namespace {
        Some(ns) => entries.push(("namespace".to_owned(), Value::String(ns.clone()))),
        None => {},
    }
    entries.push(("data".to_owned(), t.data.deep_clone()));
    let ghost e = entries@;
    proof {
        let n = e.len();
        let ty = seq!['t', 'y', 'p', 'e'];
        let na = seq!['n', 'a', 'm', 'e', 's', 'p', 'a', 'c', 'e'];
        let da = seq!['d', 'a', 't', 'a'];
        assert(e[0].0@ =~= ty);
        assert(e[n - 1].0@ =~= da);
        assert(e[n - 1].1.datum() == t.data.datum());
        assert(e[0].1.datum() == Datum::Str(t.tuple_type@));
        let m0 = crate::value::entries_map(e.take(1));
        assert(e.take(1).drop_last() =~= Seq::<(String, Value)>::empty());
        assert(e.take(1).last() == e[0]);
        assert(crate::value::entries_map(Seq::<(String, Value)>::empty()) == Map::<Seq<char>, Datum>::empty());
        assert(m0 == Map::<Seq<char>, Datum>::empty().insert(ty, Datum::Str(t.tuple_type@)));
        if n == 3 {
            assert(e[1].0@ =~= na);
            assert(e[1].1.datum() == Datum::Str(t.namespace->0@));
            assert(e.take(2).drop_last() =~= e.take(1));
            assert(e.take(2).last() == e[1]);
            let m1 = crate::value::entries_map(e.take(2));
            assert(m1 == m0.insert(na, Datum::Str(t.namespace->0@)));
            assert(e.drop_last() =~= e.take(2));
            assert(crate::value::entries_map(e) == m1.insert(da, t.data.datum()));
        } else {
            assert(e.drop_last() =~= e.take(1));
            assert(crate::value::entries_map(e) == m0.insert(da, t.data.datum()));
        }
        assert(crate::value::entries_map(e) =~= event_entries(t@));
    }
    Value::Dict(entries)
}

/// Among stored tuples of one namespace and type, the one written earlier
/// (smaller sequence number) comes first; so `in_` and `inp` hand them out
/// in the order they were written.
pub proof fn lemma_same_type_in_write_order(s: Seq<(u64, TupleModel)>, i: int, j: int)
    requires
        sorted(s),
        0 <= i < j < s.len(),
        s[i].1.namespace == s[j].1.namespace,
        s[i].1.tuple_type == s[j].1.tuple_type,
    ensures
        s[i].0 < s[j].0,
{
    lemma_key_order(entry_key(s[i]), entry_key(s[j]), entry_key(s[j]));
    lemma_bytes_lt_irreflexive(encode_utf8(s[i].1.tuple_type));
    match s[i].1.namespace {
        Some(x) => lemma_bytes_lt_irreflexive(encode_utf8(x)),
        None => {},
    }
}

/// A tuple just written is found by any pattern it matches: after `out`,
/// `rdp`/`inp` with such a pattern return some tuple.
pub proof fn lemma_written_tuple_is_found(
    s: Seq<(u64, TupleModel)>,
    e: (u64, TupleModel),
    p: TuplePattern,
)
    requires
        sorted(s),
        tuple_matches(p, e.1),
    ensures
        first_match(insert_sorted(s, e), p) < insert_sorted(s, e).len(),
{
    lemma_lower_bound(s, entry_key(e));
    let q = lower_bound(s, entry_key(e)) as int;
    lemma_insert_sorted(s, e, q);
    let r = insert_sorted(s, e);
    assert(r[q] == e);
    lemma_first_match(r, p);
}

/// What happens to one subscriber when a tuple is written.
#[derive(Debug, Clone, Copy, PartialEq, Eq, Structural)]
pub enum Delivery {
    /// Its stream is closed: it is removed.
    Drop,
    /// Its pattern matches: it is sent the tuple's event.
    Send,
    /// Its pattern does not match: nothing happens.
    Skip,
}

/// The delivery owed to a subscriber with pattern `p`, closed or not, for a
/// written tuple `t`.
pub open spec fn delivery_for(p: TuplePattern, closed: bool, t: TupleModel) -> Delivery {
    if closed {
        Delivery::Drop
    } else if tuple_matches(p, t) {
        Delivery::Send
    } else {
        Delivery::Skip
    }
}

/// A closed subscriber is removed on every write, whatever its pattern; an
/// open one is sent the event exactly when its pattern matches, and is
/// kept otherwise.
pub proof fn lemma_delivery_rules(p: TuplePattern, closed: bool, t: TupleModel)
    ensures
        closed ==> delivery_for(p, closed, t) == Delivery::Drop,
        !closed ==> (delivery_for(p, closed, t) == Delivery::Send <==> tuple_matches(p, t)),
        !closed ==> (delivery_for(p, closed, t) == Delivery::Skip <==> !tuple_matches(p, t)),
        delivery_for(p, closed, t) == Delivery::Drop ==> closed,
{
}

/// For each subscriber (its pattern, and whether its stream is closed), what
/// writing `tuple` does to it: closed subscribers are removed, the others
/// are sent the tuple's event (see [`tuple_event_value`]) when their pattern
/// matches.
pub fn plan_notifications(subscribers: &Vec<(TuplePattern, bool)>, tuple: &Tuple) -> (r: Vec<Delivery>)
    ensures
        r@.len() == subscribers@.len(),
        forall|i: int| 0 <= i < r@.len() ==> #[trigger] r@[i] == delivery_for(
            subscribers@[i].0,
            subscribers@[i].1,
            tuple@,
        ),
        forall|i: int| 0 <= i < r@.len() && subscribers@[i].1 ==> #[trigger] r@[i] == Delivery::Drop,
        forall|i: int|
            0 <= i < r@.len() && !subscribers@[i].1 ==> (#[trigger] r@[i] == Delivery::Send <==> tuple_matches(
                subscribers@[i].0,
                tuple@,
            )),
        forall|i: int| 0 <= i < r@.len() ==> (#[trigger] r@[i] == Delivery::Skip <==> (!subscribers@[i].1 && !tuple_matches(
            subscribers@[i].0,
            tuple@,
        ))),
{
    let mut out: Vec<Delivery> = Vec::new();
    let mut i: usize = 0;
    while i < subscribers.len()
        invariant
            i <= subscribers@.len(),
            out@.len() == i,
            forall|j: int| 0 <= j < i ==> #[trigger] out@[j] == delivery_for(
                subscribers@[j].0,
                subscribers@[j].1,
                tuple@,
            ),
        decreases subscribers@.len() - i,
    {
        let d = if subscribers[i].1 {
            Delivery::Drop
        } else if subscribers[i].0.matches(tuple) {
            Delivery::Send
        } else {
            Delivery::Skip
        };
        out.push(d);
        i += 1;
    }
    out
}

} // verus!
