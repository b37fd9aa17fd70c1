//! Tables by name for the Rust bridge: registered functions and global
//! bindings are looked up by name, a later entry of a name replacing an
//! earlier one.

use vstd::prelude::*;

verus! {

/// The map of a list of named entries, later entries overriding earlier
/// ones.
pub open spec fn named_map<T>(entries: Seq<(String, T)>) -> Map<Seq<char>, T>
    decreases entries.len(),
{
    if entries.len() == 0 {
        Map::empty()
    } else {
        named_map(entries.drop_last()).insert(entries.last().0@, entries.last().1)
    }
}

/// A table of values by name.
#[derive(Debug)]
pub struct NameTable<T> {
    entries: Vec<(String, T)>,
}

impl<T> View for NameTable<T> {
    type V = Map<Seq<char>, T>;

    /// The values by name.
    closed spec fn view(&self) -> Map<Seq<char>, T> {
        named_map(self.entries@)
    }
}

impl<T> NameTable<T> {
    /// The inserts made so far, in order.
    pub closed spec fn history(&self) -> Seq<(String, T)> {
        self.entries@
    }

    /// The table is the map of its insert history.
    pub proof fn lemma_view_is_history(&self)
        ensures
            self@ == named_map(self.history()),
    {
    }

    /// An empty table.
    pub fn new() -> (r: Self)
        ensures
            r@ == Map::<Seq<char>, T>::empty(),
            r.history() == Seq::<(String, T)>::empty(),
    {
        let r = NameTable { entries: Vec::new() };
        assert(r@ =~= Map::<Seq<char>, T>::empty());
        r
    }

    /// Set the value of a name, replacing any earlier one.
    pub fn insert(&mut self, name: String, value: T)
        ensures
            final(self)@ == old(self)@.insert(name@, value),
            final(self).history() == old(self).history().push((name, value)),
    {
        let ghost before = self.entries@;
        let ghost k = name@;
        let ghost v = value;
        self.entries.push((name, value));
        assert(self.entries@.drop_last() =~= before);
        assert(named_map(self.entries@) == named_map(before).insert(k, v));
    }

    /// The value of a name, if set.
    pub fn get(&self, name: &str) -> (r: Option<&T>)
        ensures
            match r {
                Some(v) => self@.contains_key(name@) && self@[name@] == *v,
                None => !self@.contains_key(name@),
            },
    {
        let key = name.to_owned();
        let mut i = self.entries.len();
        assert(self.entries@.take(i as int) =~= self.entries@);
        while i > 0
            invariant
                i <= self.entries@.len(),
                key@ == name@,
                named_map(self.entries@).contains_key(name@) == named_map(self.entries@.take(i as int)).contains_key(name@),
                named_map(self.entries@).contains_key(name@) ==> named_map(self.entries@)[name@] == named_map(
                    self.entries@.take(i as int),
                )[name@],
            decreases i,
        {
            let ghost t = self.entries@.take(i as int);
            assert(t.drop_last() =~= self.entries@.take(i - 1));
            if self.entries[i - 1].0 == key {
                return Some(&self.entries[i - 1].1);
            }
            i -= 1;
        }
        None
    }
}

/// A name has a value in a table exactly when some entry set it.
pub proof fn lemma_named_map_set<T>(entries: Seq<(String, T)>, key: Seq<char>)
    ensures
        named_map(entries).contains_key(key) <==> exists|i: int|
            0 <= i < entries.len() && (#[trigger] entries[i]).0@ == key,
    decreases entries.len(),
{
    if entries.len() > 0 {
        let init = entries.drop_last();
        let n = entries.len() - 1;
        lemma_named_map_set(init, key);
        if named_map(entries).contains_key(key) && entries[n].0@ != key {
            let i = choose|i: int| 0 <= i < init.len() && (#[trigger] init[i]).0@ == key;
            assert(entries[i] == init[i]);
        }
        if exists|i: int| 0 <= i < entries.len() && (#[trigger] entries[i]).0@ == key {
            let i = choose|i: int| 0 <= i < entries.len() && (#[trigger] entries[i]).0@ == key;
            if i < n {
                assert(init[i] == entries[i]);
            }
        }
    }
}

/// The value a table gives a name is the one set last for it: after any
/// sequence of `insert`s, `get` returns the value of the last insert of
/// that name.
pub proof fn lemma_named_map_last<T>(entries: Seq<(String, T)>, key: Seq<char>, i: int)
    requires
        0 <= i < entries.len(),
        entries[i].0@ == key,
        forall|j: int| i < j < entries.len() ==> (#[trigger] entries[j]).0@ != key,
    ensures
        named_map(entries).contains_key(key),
        named_map(entries)[key] == entries[i].1,
    decreases entries.len(),
{
    let init = entries.drop_last();
    let n = entries.len() - 1;
    if i < n {
        assert(entries[n].0@ != key);
        assert(init[i] == entries[i]);
        assert forall|j: int| i < j < init.len() implies (#[trigger] init[j]).0@ != key by {
            assert(init[j] == entries[j]);
        }
        lemma_named_map_last(init, key, i);
    }
}

} // verus!
