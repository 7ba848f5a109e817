//! Tables of headers as text.
use vstd::prelude::*;

use crate::text::same_text;

verus! {

/// A table of headers as text: each name, as it was given, with its value.
#[derive(Debug)]
pub struct HeaderTable {
    entries: Vec<(String, String)>,
}

/// Names with their values.
pub type Pairs = Seq<(Seq<char>, Seq<char>)>;

/// The pair at `i` has the name `name`.
pub open spec fn named_at(pairs: Pairs, i: int, name: Seq<char>) -> bool {
    0 <= i < pairs.len() && pairs[i].0 == name
}

/// Some pair has the name `name`.
pub open spec fn named(pairs: Pairs, name: Seq<char>) -> bool {
    exists|i: int| named_at(pairs, i, name)
}

/// No name occurs twice.
pub open spec fn distinct(pairs: Pairs) -> bool {
    forall|i: int, j: int|
        0 <= i < j < pairs.len() ==> (#[trigger] pairs[i]).0 != (#[trigger] pairs[j]).0
}

/// The value of a name.
pub open spec fn lookup(pairs: Pairs, name: Seq<char>) -> Option<Seq<char>> {
    if named(pairs, name) {
        Some(pairs[choose|i: int| named_at(pairs, i, name)].1)
    } else {
        None
    }
}

/// The pairs with `name` set to `value`: in its place if it is there, else at
/// the end.
pub open spec fn with_pair(pairs: Pairs, name: Seq<char>, value: Seq<char>) -> Pairs {
    if named(pairs, name) {
        pairs.update(choose|i: int| named_at(pairs, i, name), (name, value))
    } else {
        pairs.push((name, value))
    }
}

/// The pairs with those of `more` set, one after the other.
pub open spec fn merged(pairs: Pairs, more: Pairs) -> Pairs
    decreases more.len(),
{
    if more.len() == 0 {
        pairs
    } else {
        with_pair(merged(pairs, more.drop_last()), more.last().0, more.last().1)
    }
}

/// With distinct names, a pair's value is what its name is looked up to.
pub proof fn lemma_lookup_at(pairs: Pairs, i: int)
    requires
        distinct(pairs),
        0 <= i < pairs.len(),
    ensures
        lookup(pairs, pairs[i].0) == Some(pairs[i].1),
{
    assert(named_at(pairs, i, pairs[i].0));
    let j = choose|j: int| named_at(pairs, j, pairs[i].0);
    assert(i == j);
}

/// Setting a pair keeps names distinct; the name then has the value, and the
/// other names have theirs.
pub proof fn lemma_with_pair(pairs: Pairs, name: Seq<char>, value: Seq<char>)
    requires
        distinct(pairs),
    ensures
        distinct(with_pair(pairs, name, value)),
        lookup(with_pair(pairs, name, value), name) == Some(value),
        forall|other: Seq<char>|
            other != name ==> #[trigger] lookup(with_pair(pairs, name, value), other) == lookup(
                pairs,
                other,
            ),
{
    let after = with_pair(pairs, name, value);
    let k = if named(pairs, name) {
        choose|i: int| named_at(pairs, i, name)
    } else {
        pairs.len() as int
    };
    assert(after[k] == (name, value));
    assert forall|i: int, j: int| 0 <= i < j < after.len() implies (#[trigger] after[i]).0 != (
    #[trigger] after[j]).0 by {
        if named(pairs, name) {
            assert(after[i].0 == pairs[i].0 && after[j].0 == pairs[j].0);
        } else {
            assert(!named_at(pairs, i, name));
        }
    }
    lemma_lookup_at(after, k);
    assert forall|other: Seq<char>| other != name implies #[trigger] lookup(after, other)
        == lookup(pairs, other) by {
        if named(pairs, other) {
            let i = choose|i: int| named_at(pairs, i, other);
            assert(after[i] == pairs[i]);
            lemma_lookup_at(after, i);
            lemma_lookup_at(pairs, i);
        } else if named(after, other) {
            let i = choose|i: int| named_at(after, i, other);
            assert(named_at(pairs, i, other));
        }
    }
}

/// Merging keeps names distinct.
pub proof fn lemma_merged_distinct(pairs: Pairs, more: Pairs)
    requires
        distinct(pairs),
    ensures
        distinct(merged(pairs, more)),
    decreases more.len(),
{
    if more.len() > 0 {
        lemma_merged_distinct(pairs, more.drop_last());
        lemma_with_pair(merged(pairs, more.drop_last()), more.last().0, more.last().1);
    }
}

impl View for HeaderTable {
    type V = Pairs;

    closed spec fn view(&self) -> Pairs {
        self.entries@.map_values(|entry: (String, String)| (entry.0@, entry.1@))
    }
}

impl HeaderTable {
    #[verifier::type_invariant]
    spec fn names_are_distinct(self) -> bool {
        distinct(self@)
    }

    /// The empty table.
    pub fn new() -> (r: Self)
        ensures
            r@ == Pairs::empty(),
    {
        HeaderTable { entries: Vec::new() }
    }

    /// How many names the table holds.
    pub fn len(&self) -> (r: usize)
        ensures
            r == self@.len(),
            distinct(self@),
    {
        proof {
            use_type_invariant(self);
        }
        self.entries.len()
    }

    /// The name and the value at a position.
    pub fn entry(&self, i: usize) -> (r: (&str, &str))
        requires
            i < self@.len(),
        ensures
            r.0@ == self@[i as int].0,
            r.1@ == self@[i as int].1,
    {
        let entry = &self.entries[i];
        (entry.0.as_str(), entry.1.as_str())
    }

    /// Where a name stands.
    fn position(&self, name: &str) -> (r: Option<usize>)
        ensures
            match r {
                Some(i) => named_at(self@, i as int, name@),
                None => !named(self@, name@),
            },
    {
        for i in 0..self.entries.len()
            invariant
                forall|j: int| 0 <= j < i ==> !named_at(self@, j, name@),
        {
            if same_text(self.entries[i].0.as_str(), name) {
                return Some(i);
            }
        }
        None
    }

    /// The value of a name, which has to be spelled as it was given.
    pub fn get(&self, name: &str) -> (r: Option<&str>)
        ensures
            match lookup(self@, name@) {
                Some(value) => r matches Some(v) && v@ == value,
                None => r is None,
            },
    {
        proof {
            use_type_invariant(self);
        }
        match self.position(name) {
            Some(i) => {
                proof {
                    lemma_lookup_at(self@, i as int);
                }
                Some(self.entries[i].1.as_str())
            },
            None => None,
        }
    }

    /// Sets a name to a value.
    pub fn insert(&mut self, name: String, value: String)
        ensures
            final(self)@ == with_pair(old(self)@, name@, value@),
    {
        proof {
            use_type_invariant(&*self);
            lemma_with_pair(self@, name@, value@);
        }
        let ghost before = self@;
        let found = self.position(name.as_str());
        let mut entries: Vec<(String, String)> = Vec::new();
        std::mem::swap(&mut entries, &mut self.entries);
        let ghost (n, v) = (name@, value@);
        let ghost after = with_pair(before, n, v);
        match found {
            Some(i) => {
                proof {
                    assert(i as int == choose|k: int| named_at(before, k, n));
                }
                entries.set(i, (name, value));
            },
            None => {
                entries.push((name, value));
            },
        }
        assert(entries@.map_values(|entry: (String, String)| (entry.0@, entry.1@)) == after);
        self.entries = entries;
    }

    /// Sets every name of `more` to its value there.
    pub fn extend(&mut self, more: HeaderTable)
        ensures
            final(self)@ == merged(old(self)@, more@),
    {
        let ghost before = self@;
        for i in 0..more.entries.len()
            invariant
                self@ == merged(before, more@.take(i as int)),
        {
            let entry = &more.entries[i];
            self.insert(entry.0.clone(), entry.1.clone());
            assert(more@.take(i + 1).drop_last() == more@.take(i as int));
        }
        assert(more@.take(more@.len() as int) == more@);
    }
}

impl Clone for HeaderTable {
    fn clone(&self) -> (r: Self)
        ensures
            r@ == self@,
    {
        proof {
            use_type_invariant(self);
        }
        let mut entries: Vec<(String, String)> = Vec::new();
        for i in 0..self.entries.len()
            invariant
                entries@ == self.entries@.take(i as int),
        {
            let entry = &self.entries[i];
            entries.push((entry.0.clone(), entry.1.clone()));
        }
        assert(entries@ == self.entries@);
        HeaderTable { entries }
    }
}

} // verus!
