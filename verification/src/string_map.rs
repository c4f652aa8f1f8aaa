//! A map from names to values, both strings.

use crate::text::same_text;
use vstd::prelude::*;

verus! {

/// A map from strings to strings. No name occurs twice among its entries.
pub struct StringMap {
    entries: Vec<(String, String)>,
}

impl StringMap {
    #[verifier::type_invariant]
    spec fn names_are_distinct(self) -> bool {
        forall|i: int, j: int|
            0 <= i < j < self.entries@.len() ==> (#[trigger] self.entries@[i]).0@ != (
            #[trigger] self.entries@[j]).0@
    }

    spec fn holds(self, name: Seq<char>, i: int) -> bool {
        0 <= i < self.entries@.len() && self.entries@[i].0@ == name
    }
}

impl View for StringMap {
    type V = Map<Seq<char>, Seq<char>>;

    closed spec fn view(&self) -> Map<Seq<char>, Seq<char>> {
        Map::new(
            |name: Seq<char>| exists|i: int| self.holds(name, i),
            |name: Seq<char>| self.entries@[choose|i: int| self.holds(name, i)].1@,
        )
    }
}

impl StringMap {
    proof fn lemma_entry(self, i: int)
        requires
            self.names_are_distinct(),
            0 <= i < self.entries@.len(),
        ensures
            self@.contains_key(self.entries@[i].0@),
            self@[self.entries@[i].0@] == self.entries@[i].1@,
    {
        let name = self.entries@[i].0@;
        assert(self.holds(name, i));
        let j = choose|j: int| self.holds(name, j);
        assert(self.holds(name, j));
        assert(i == j) by {
            if i < j {
                assert(self.entries@[i].0@ != self.entries@[j].0@);
            } else if j < i {
                assert(self.entries@[j].0@ != self.entries@[i].0@);
            }
        }
    }

    /// The map without entries.
    pub fn new() -> (map: StringMap)
        ensures
            map@ == Map::<Seq<char>, Seq<char>>::empty(),
    {
        StringMap { entries: Vec::new() }
    }

    /// Where `name` stands among the entries.
    fn position(&self, name: &str) -> (found: Option<usize>)
        ensures
            match found {
                Some(i) => self.holds(name@, i as int),
                None => forall|i: int| !self.holds(name@, i),
            },
    {
        for i in 0..self.entries.len()
            invariant
                forall|j: int| 0 <= j < i ==> !self.holds(name@, j),
        {
            if same_text(self.entries[i].0.as_str(), name) {
                return Some(i);
            }
        }
        None
    }

    /// The value of `name`.
    pub fn get(&self, name: &str) -> (value: Option<&String>)
        ensures
            match value {
                Some(v) => self@.contains_key(name@) && v@ == self@[name@],
                None => !self@.contains_key(name@),
            },
    {
        proof {
            use_type_invariant(self);
        }
        match self.position(name) {
            Some(i) => {
                proof {
                    self.lemma_entry(i as int);
                }
                Some(&self.entries[i].1)
            },
            None => None,
        }
    }

    /// Gives `name` the value `value`, in place of the one it had.
    pub fn insert(&mut self, name: String, value: String)
        ensures
            final(self)@ == old(self)@.insert(name@, value@),
    {
        proof {
            use_type_invariant(&*self);
        }
        let ghost before = *self;
        let found = self.position(name.as_str());
        let mut entries: Vec<(String, String)> = Vec::new();
        std::mem::swap(&mut entries, &mut self.entries);
        match found {
            Some(i) => {
                entries.set(i, (name, value));
            },
            None => {
                assert forall|i: int| 0 <= i < entries@.len() implies (#[trigger] entries@[i]).0@
                    != name@ by {
                    assert(!before.holds(name@, i));
                }
                entries.push((name, value));
            },
        }
        self.entries = entries;
        proof {
            let after = *self;
            assert(after.names_are_distinct());
            let at = match found {
                Some(i) => i as int,
                None => before.entries@.len() as int,
            };
            assert(after.entries@[at].0@ == name@ && after.entries@[at].1@ == value@);
            after.lemma_entry(at);
            let expected = before@.insert(name@, value@);
            assert forall|other: Seq<char>| #[trigger]
                after@.dom().contains(other) == expected.dom().contains(other) by {
                if other != name@ && before@.contains_key(other) {
                    let i = choose|i: int| before.holds(other, i);
                    assert(before.holds(other, i));
                    assert(after.holds(other, i));
                }
                if other != name@ && after@.contains_key(other) {
                    let i = choose|i: int| after.holds(other, i);
                    assert(after.holds(other, i));
                    assert(before.holds(other, i));
                }
            }
            assert forall|other: Seq<char>| #[trigger] expected.dom().contains(other) implies after@[other] == expected[other] by {
                if other != name@ {
                    let i = choose|i: int| before.holds(other, i);
                    assert(before.holds(other, i));
                    before.lemma_entry(i);
                    assert(after.entries@[i] == before.entries@[i]);
                    after.lemma_entry(i);
                }
            }
            assert(after@ =~= expected);
        }
    }
}

} // verus!
