//! The set of features that a build enables.

use crate::sorted::{
    ascending_listing, holds, insert_ascending, lemma_ascending_counts, lemma_ascending_unique,
    lemma_listing_of, strictly_ascending,
};
use crate::text::{copy_strings, same_text, texts};
use vstd::prelude::*;

verus! {

/// A set of feature names. It keeps its names in ascending lexicographic
/// order, so that two sets with the same names list them alike whatever
/// the order in which the names were put in.
#[derive(Debug, PartialEq, Eq)]
pub struct FeatureSet {
    names: Vec<String>,
}

impl Clone for FeatureSet {
    fn clone(&self) -> (copy: FeatureSet)
        ensures
            copy.wf(),
            copy@ == self@,
            copy.ordered() == self.ordered(),
    {
        proof {
            use_type_invariant(self);
        }
        FeatureSet { names: copy_strings(&self.names) }
    }
}

impl View for FeatureSet {
    type V = Set<Seq<char>>;

    /// The names in the set.
    open spec fn view(&self) -> Set<Seq<char>> {
        self.ordered().to_set()
    }
}

impl FeatureSet {
    /// The names are held in strictly ascending order.
    #[verifier::type_invariant]
    pub closed spec fn wf(&self) -> bool {
        strictly_ascending(texts(self.names@))
    }

    /// The names of the set, in ascending order.
    pub closed spec fn ordered(&self) -> Seq<Seq<char>> {
        texts(self.names@)
    }

    /// The listing of a set is ascending, so it is determined by the names
    /// in the set.
    pub proof fn lemma_ordered_ascending(self)
        requires
            self.wf(),
        ensures
            strictly_ascending(self.ordered()),
    {
    }

    /// Two sets with the same names list them in the same order.
    pub proof fn lemma_same_names_same_order(self, other: FeatureSet)
        requires
            self.wf(),
            other.wf(),
        ensures
            self@ == other@ <==> self.ordered() == other.ordered(),
    {
        if self@ == other@ {
            lemma_ascending_unique(self.ordered(), other.ordered());
        }
    }

    /// The empty set.
    pub fn new() -> (set: FeatureSet)
        ensures
            set.wf(),
            set@ == Set::<Seq<char>>::empty(),
            set.ordered() == Seq::<Seq<char>>::empty(),
    {
        let set = FeatureSet { names: Vec::new() };
        proof {
            assert(texts(set.names@) =~= Seq::<Seq<char>>::empty());
            assert(set@ =~= Set::<Seq<char>>::empty());
        }
        set
    }

    /// The set of the given names: their order does not matter, and a name
    /// given twice is in the set once.
    pub fn from_vec(names: Vec<String>) -> (set: FeatureSet)
        ensures
            set.wf(),
            set@ == texts(names@).to_set(),
    {
        let mut sorted: Vec<String> = Vec::new();
        let mut i: usize = 0;
        proof {
            assert(texts(sorted@) =~= Seq::<Seq<char>>::empty());
            assert(texts(names@).take(0) =~= Seq::<Seq<char>>::empty());
        }
        while i < names.len()
            invariant
                i <= names.len(),
                strictly_ascending(texts(sorted@)),
                texts(sorted@).to_set() == texts(names@).take(i as int).to_set(),
            decreases names.len() - i,
        {
            let name = names[i].clone();
            proof {
                let head = texts(names@).take(i as int);
                let next = texts(names@).take(i as int + 1);
                assert(next =~= head.push(name@));
                assert forall|x: Seq<char>| next.to_set().contains(x) == head.to_set().insert(
                    name@,
                ).contains(x) by {
                    if next.contains(x) {
                        let k = choose|k: int| 0 <= k < next.len() && next[k] == x;
                        if k < i {
                            assert(head[k] == x);
                        }
                    }
                    if head.contains(x) {
                        let k = choose|k: int| 0 <= k < head.len() && head[k] == x;
                        assert(next[k] == x);
                    }
                    if x == name@ {
                        assert(next[i as int] == x);
                    }
                }
                assert(next.to_set() =~= head.to_set().insert(name@));
            }
            insert_ascending(&mut sorted, name);
            i += 1;
        }
        proof {
            assert(texts(names@).take(names.len() as int) =~= texts(names@));
        }
        FeatureSet { names: sorted }
    }

    /// Adds a name to the set. Returns whether the set did not hold it before.
    pub fn insert(&mut self, name: String) -> (added: bool)
        ensures
            final(self).wf(),
            final(self)@ == old(self)@.insert(name@),
            added == !old(self)@.contains(name@),
    {
        proof {
            use_type_invariant(&*self);
        }
        let mut names: Vec<String> = Vec::new();
        proof {
            assert(texts(names@) =~= Seq::<Seq<char>>::empty());
        }
        core::mem::swap(&mut self.names, &mut names);
        let added = insert_ascending(&mut names, name);
        self.names = names;
        added
    }

    /// Whether the set holds `name`.
    pub fn contains(&self, name: &str) -> (r: bool)
        ensures
            r == self@.contains(name@),
    {
        holds(&self.names, name)
    }

    /// The number of names in the set.
    pub fn len(&self) -> (n: usize)
        ensures
            self@.finite(),
            n == self@.len(),
    {
        proof {
            use_type_invariant(self);
            lemma_ascending_counts(self.ordered());
        }
        self.names.len()
    }

    /// Whether the set holds no name.
    pub fn is_empty(&self) -> (r: bool)
        ensures
            r == (self@ == Set::<Seq<char>>::empty()),
    {
        let r = self.names.len() == 0;
        proof {
            if r {
                assert(self@ =~= Set::<Seq<char>>::empty());
            } else {
                assert(self.ordered().contains(self.ordered()[0]));
                assert(self@.contains(self.ordered()[0]));
            }
        }
        r
    }

    /// The names of the set as a list, in ascending order.
    pub fn to_vec(&self) -> (names: Vec<String>)
        ensures
            texts(names@) == ascending_listing(self@),
    {
        proof {
            use_type_invariant(self);
            lemma_listing_of(self.ordered());
        }
        copy_strings(&self.names)
    }

    /// Whether two sets hold the same names.
    pub fn same(&self, other: &FeatureSet) -> (r: bool)
        ensures
            r == (self@ == other@),
    {
        proof {
            use_type_invariant(self);
            use_type_invariant(other);
            self.lemma_same_names_same_order(*other);
        }
        if self.names.len() != other.names.len() {
            proof {
                assert(self.ordered().len() != other.ordered().len());
            }
            return false;
        }
        let mut i: usize = 0;
        while i < self.names.len()
            invariant
                i <= self.names.len(),
                self.names.len() == other.names.len(),
                forall|j: int| 0 <= j < i ==> self.ordered()[j] == other.ordered()[j],
            decreases self.names.len() - i,
        {
            if !same_text(self.names[i].as_str(), other.names[i].as_str()) {
                proof {
                    use_type_invariant(self);
                    use_type_invariant(other);
                    self.lemma_same_names_same_order(*other);
                    assert(self.ordered()[i as int] != other.ordered()[i as int]);
                }
                return false;
            }
            i += 1;
        }
        proof {
            assert(self.ordered() =~= other.ordered());
        }
        true
    }
}

} // verus!
