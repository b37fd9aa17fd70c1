//! The FMPL value type and its mathematical model.

use vstd::prelude::*;

verus! {

broadcast use {
    vstd::std_specs::vec::axiom_vec_decreases_to_view,
    vstd::seq::axiom_seq_index_decreases,
    vstd::seq::axiom_seq_subrange_decreases,
};

/// A runtime value of the FMPL language.
///
/// Maps are association lists; when a key occurs more than once the last
/// entry wins, as it does when a hash map is filled from such a list.
#[derive(Debug, PartialEq)]
pub enum Value {
    Null,
    Bool(bool),
    Int(i64),
    String(String),
    Symbol(String),
    List(Vec<Value>),
    Dict(Vec<(String, Value)>),
}

/// Mathematical model of a [`Value`].
#[verifier::ext_equal]
pub enum Datum {
    Null,
    Bool(bool),
    Int(int),
    Str(Seq<char>),
    Sym(Seq<char>),
    List(Seq<Datum>),
    Dict(Map<Seq<char>, Datum>),
}

/// The map denoted by a sequence of key/value entries, later entries overriding earlier ones.
pub open spec fn entries_map(entries: Seq<(String, Value)>) -> Map<Seq<char>, Datum>
    decreases entries,
{
    if entries.len() == 0 {
        Map::empty()
    } else {
        entries_map(entries.drop_last()).insert(entries.last().0@, entries.last().1.datum())
    }
}

impl Value {
    /// The model of this value.
    pub open spec fn datum(self) -> Datum
        decreases self,
    {
        match self {
            Value::Null => Datum::Null,
            Value::Bool(b) => Datum::Bool(b),
            Value::Int(n) => Datum::Int(n as int),
            Value::String(s) => Datum::Str(s@),
            Value::Symbol(s) => Datum::Sym(s@),
            Value::List(items) => Datum::List(
                Seq::new(
                    items@.len(),
                    |i: int|
                        if 0 <= i < items@.len() {
                            items@[i].datum()
                        } else {
                            Datum::Null
                        },
                ),
            ),
            Value::Dict(entries) => Datum::Dict(entries_map(entries@)),
        }
    }

    /// A copy of this value with the same model.
    pub fn deep_clone(&self) -> (r: Value)
        ensures
            r.datum() == self.datum(),
        decreases self,
    {
        match self {
            Value::Null => Value::Null,
            Value::Bool(b) => Value::Bool(*b),
            Value::Int(n) => Value::Int(*n),
            Value::String(s) => Value::String(s.clone()),
            Value::Symbol(s) => Value::Symbol(s.clone()),
            Value::List(items) => {
                let mut out: Vec<Value> = Vec::new();
                let mut i: usize = 0;
                assert forall|j: int| 0 <= j < items@.len() implies decreases_to!(*self => #[trigger] items@[j]) by {
                    assert(decreases_to!(*self => *items));
                    assert(decreases_to!(*items => items@));
                    assert(decreases_to!(items@ => items@[j]));
                }
                while i < items.len()
                    invariant
                        forall|j: int| 0 <= j < items@.len() ==> decreases_to!(*self => #[trigger] items@[j]),
                        i <= items@.len(),
                        out@.len() == i,
                        forall|j: int| 0 <= j < i ==> (#[trigger] out@[j]).datum() == items@[j].datum(),
                    decreases items@.len() - i,
                {
                    out.push(items[i].deep_clone());
                    i += 1;
                }
                let r = Value::List(out);
                assert(r.datum()->List_0 =~= self.datum()->List_0);
                r
            },
            Value::Dict(entries) => {
                let mut out: Vec<(String, Value)> = Vec::new();
                let mut i: usize = 0;
                assert forall|j: int| 0 <= j < entries@.len() implies decreases_to!(*self => #[trigger] entries@[j].1) by {
                    assert(decreases_to!(*self => *entries));
                    assert(decreases_to!(*entries => entries@));
                    assert(decreases_to!(entries@ => entries@[j]));
                    assert(decreases_to!(entries@[j] => entries@[j].1));
                }
                while i < entries.len()
                    invariant
                        forall|j: int| 0 <= j < entries@.len() ==> decreases_to!(*self => #[trigger] entries@[j].1),
                        i <= entries@.len(),
                        out@.len() == i,
                        forall|j: int|
                            0 <= j < i ==> (#[trigger] out@[j]).1.datum() == entries@[j].1.datum() && out@[j].0@
                                == entries@[j].0@,
                    decreases entries@.len() - i,
                {
                    let k = entries[i].0.clone();
                    let v = entries[i].1.deep_clone();
                    out.push((k, v));
                    i += 1;
                }
                let r = Value::Dict(out);
                proof {
                    lemma_entries_map_congruent(out@, entries@);
                }
                r
            },
        }
    }
}

/// Entry sequences with the same keys and models denote the same map.
pub proof fn lemma_entries_map_congruent(a: Seq<(String, Value)>, b: Seq<(String, Value)>)
    requires
        a.len() == b.len(),
        forall|j: int| 0 <= j < a.len() ==> (#[trigger] a[j]).1.datum() == b[j].1.datum() && a[j].0@ == b[j].0@,
    ensures
        entries_map(a) == entries_map(b),
    decreases a.len(),
{
    if a.len() > 0 {
        lemma_entries_map_congruent(a.drop_last(), b.drop_last());
    }
}

/// A key is in the map of an entry sequence exactly when some entry has it.
pub proof fn lemma_entries_map_dom(entries: Seq<(String, Value)>, key: Seq<char>)
    ensures
        entries_map(entries).contains_key(key) <==> exists|i: int|
            0 <= i < entries.len() && (#[trigger] entries[i]).0@ == key,
    decreases entries.len(),
{
    if entries.len() > 0 {
        let init = entries.drop_last();
        let n = entries.len() - 1;
        lemma_entries_map_dom(init, key);
        if entries_map(entries).contains_key(key) {
            if entries[n].0@ != key {
                assert(entries_map(init).contains_key(key));
                let i = choose|i: int| 0 <= i < init.len() && (#[trigger] init[i]).0@ == key;
                assert(entries[i] == init[i]);
            }
        }
        if exists|i: int| 0 <= i < entries.len() && (#[trigger] entries[i]).0@ == key {
            let i = choose|i: int| 0 <= i < entries.len() && (#[trigger] entries[i]).0@ == key;
            if i < n {
                assert(init[i] == entries[i]);
                assert(entries_map(init).contains_key(key));
            }
        }
    }
}

/// The map of an entry sequence holds, for a key, the value of the last
/// entry with that key.
pub proof fn lemma_entries_map_last(entries: Seq<(String, Value)>, key: Seq<char>, i: int)
    requires
        0 <= i < entries.len(),
        entries[i].0@ == key,
        forall|j: int| i < j < entries.len() ==> (#[trigger] entries[j]).0@ != key,
    ensures
        entries_map(entries).contains_key(key),
        entries_map(entries)[key] == entries[i].1.datum(),
    decreases entries.len(),
{
    let init = entries.drop_last();
    let n = entries.len() - 1;
    if i < n {
        assert(entries[n].0@ != key);
        assert(init[i] == entries[i]);
        assert forall|j: int| i < j < init.len() implies (#[trigger] init[j]).0@ != key by {
            assert(init[j] == entries[j]);
        }
        lemma_entries_map_last(init, key, i);
    }
}

/// The index of the entry that gives `key` its value in the map of
/// `entries` (the last entry with that key), if any.
pub fn dict_find(entries: &Vec<(String, Value)>, key: &String) -> (r: Option<usize>)
    ensures
        match r {
            Some(i) => {
                &&& i < entries@.len()
                &&& entries@[i as int].0@ == key@
                &&& entries_map(entries@).contains_key(key@)
                &&& entries_map(entries@)[key@] == entries@[i as int].1.datum()
            },
            None => !entries_map(entries@).contains_key(key@),
        },
{
    proof {
        lemma_entries_map_dom(entries@, key@);
    }
    let mut i = entries.len();
    while i > 0
        invariant
            i <= entries@.len(),
            forall|j: int| i <= j < entries@.len() ==> (#[trigger] entries@[j]).0@ != key@,
        decreases i,
    {
        if entries[i - 1].0 == *key {
            proof {
                lemma_entries_map_last(entries@, key@, i - 1);
            }
            return Some(i - 1);
        }
        i -= 1;
    }
    None
}

impl Value {
    /// Whether two values are equal: same kind and same contents, maps
    /// compared as maps (regardless of entry order).
    pub fn equals(&self, other: &Value) -> (r: bool)
        ensures
            r == (self.datum() == other.datum()),
        decreases self,
    {
        match (self, other) {
            (Value::Null, Value::Null) => true,
            (Value::Bool(x), Value::Bool(y)) => *x == *y,
            (Value::Int(x), Value::Int(y)) => *x == *y,
            (Value::String(x), Value::String(y)) => *x == *y,
            (Value::Symbol(x), Value::Symbol(y)) => *x == *y,
            (Value::List(xa), Value::List(xb)) => {
                let ghost da = self.datum()->List_0;
                let ghost db = other.datum()->List_0;
                if xa.len() != xb.len() {
                    assert(da.len() != db.len());
                    return false;
                }
                assert forall|j: int| 0 <= j < xa@.len() implies decreases_to!(*self => #[trigger] xa@[j]) by {
                    assert(decreases_to!(*self => *xa));
                    assert(decreases_to!(*xa => xa@));
                    assert(decreases_to!(xa@ => xa@[j]));
                }
                let mut i: usize = 0;
                while i < xa.len()
                    invariant
                        forall|j: int| 0 <= j < xa@.len() ==> decreases_to!(*self => #[trigger] xa@[j]),
                        self.datum() == Datum::List(da),
                        other.datum() == Datum::List(db),
                        i <= xa@.len(),
                        xa@.len() == xb@.len(),
                        da.len() == xa@.len(),
                        db.len() == xb@.len(),
                        forall|j: int| 0 <= j < xa@.len() ==> #[trigger] da[j] == xa@[j].datum(),
                        forall|j: int| 0 <= j < xb@.len() ==> #[trigger] db[j] == xb@[j].datum(),
                        forall|j: int| 0 <= j < i ==> #[trigger] da[j] == db[j],
                    decreases xa@.len() - i,
                {
                    if !xa[i].equals(&xb[i]) {
                        assert(da[i as int] != db[i as int]);
                        return false;
                    }
                    i += 1;
                }
                assert(da =~= db);
                true
            },
            (Value::Dict(ea), Value::Dict(eb)) => {
                let ghost ma = entries_map(ea@);
                let ghost mb = entries_map(eb@);
                assert forall|j: int| 0 <= j < ea@.len() implies decreases_to!(*self => #[trigger] ea@[j].1) by {
                    assert(decreases_to!(*self => *ea));
                    assert(decreases_to!(*ea => ea@));
                    assert(decreases_to!(ea@ => ea@[j]));
                    assert(decreases_to!(ea@[j] => ea@[j].1));
                }
                let mut i: usize = 0;
                while i < ea.len()
                    invariant
                        forall|j: int| 0 <= j < ea@.len() ==> decreases_to!(*self => #[trigger] ea@[j].1),
                        i <= ea@.len(),
                        ma == entries_map(ea@),
                        mb == entries_map(eb@),
                        self.datum() == Datum::Dict(ma),
                        other.datum() == Datum::Dict(mb),
                        forall|t: int|
                            0 <= t < i ==> mb.contains_key((#[trigger] ea@[t]).0@) && ma.contains_key(
                                ea@[t].0@,
                            ) && ma[ea@[t].0@] == mb[ea@[t].0@],
                    decreases ea@.len() - i,
                {
                    let ia = match dict_find(ea, &ea[i].0) {
                        Some(ia) => ia,
                        None => {
                            proof {
                                lemma_entries_map_dom(ea@, ea@[i as int].0@);
                            }
                            return false;
                        },
                    };
                    let ib = match dict_find(eb, &ea[i].0) {
                        Some(ib) => ib,
                        None => {
                            proof {
                                lemma_entries_map_dom(ea@, ea@[i as int].0@);
                            }
                            assert(ma.contains_key(ea@[i as int].0@));
                            assert(!mb.contains_key(ea@[i as int].0@));
                            return false;
                        },
                    };
                    if !ea[ia].1.equals(&eb[ib].1) {
                        assert(ma[ea@[i as int].0@] != mb[ea@[i as int].0@]);
                        return false;
                    }
                    i += 1;
                }
                let mut j: usize = 0;
                while j < eb.len()
                    invariant
                        j <= eb@.len(),
                        ma == entries_map(ea@),
                        mb == entries_map(eb@),
                        self.datum() == Datum::Dict(ma),
                        other.datum() == Datum::Dict(mb),
                        forall|t: int|
                            0 <= t < ea@.len() ==> mb.contains_key((#[trigger] ea@[t]).0@) && ma.contains_key(
                                ea@[t].0@,
                            ) && ma[ea@[t].0@] == mb[ea@[t].0@],
                        forall|t: int| 0 <= t < j ==> ma.contains_key((#[trigger] eb@[t]).0@),
                    decreases eb@.len() - j,
                {
                    if dict_find(ea, &eb[j].0).is_none() {
                        proof {
                            lemma_entries_map_dom(eb@, eb@[j as int].0@);
                        }
                        assert(mb.contains_key(eb@[j as int].0@));
                        assert(!ma.contains_key(eb@[j as int].0@));
                        return false;
                    }
                    j += 1;
                }
                assert forall|k: Seq<char>| ma.contains_key(k) implies mb.contains_key(k) && ma[k] == mb[k] by {
                    lemma_entries_map_dom(ea@, k);
                    let t = choose|t: int| 0 <= t < ea@.len() && (#[trigger] ea@[t]).0@ == k;
                }
                assert forall|k: Seq<char>| mb.contains_key(k) implies ma.contains_key(k) by {
                    lemma_entries_map_dom(eb@, k);
                    let t = choose|t: int| 0 <= t < eb@.len() && (#[trigger] eb@[t]).0@ == k;
                }
                assert forall|k: Seq<char>| #[trigger] ma.dom().contains(k) == mb.dom().contains(k) by {
                    if ma.dom().contains(k) {
                        lemma_entries_map_dom(ea@, k);
                        let t = choose|t: int| 0 <= t < ea@.len() && (#[trigger] ea@[t]).0@ == k;
                        assert(mb.contains_key(ea@[t].0@));
                    }
                    if mb.dom().contains(k) {
                        lemma_entries_map_dom(eb@, k);
                        let t = choose|t: int| 0 <= t < eb@.len() && (#[trigger] eb@[t]).0@ == k;
                        assert(ma.contains_key(eb@[t].0@));
                    }
                }
                assert(ma.dom() =~= mb.dom());
                assert(ma =~= mb);
                true
            },
            _ => false,
        }
    }
}

} // verus!
