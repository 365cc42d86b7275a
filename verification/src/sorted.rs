//! Lists of strings kept in strictly ascending lexicographic order. Such a
//! list holds no string twice, and it is the only ascending list of the
//! strings it holds.

use crate::text::{lemma_lex_less_asymmetric, lemma_lex_less_transitive, lex_less, place, texts, Place};
use vstd::prelude::*;

verus! {

/// Every element comes before all that follow it.
pub open spec fn strictly_ascending(s: Seq<Seq<char>>) -> bool {
    forall|i: int, j: int| 0 <= i < j < s.len() ==> lex_less(#[trigger] s[i], #[trigger] s[j])
}

/// Two ascending lists that hold the same strings are the same list.
pub proof fn lemma_ascending_unique(s1: Seq<Seq<char>>, s2: Seq<Seq<char>>)
    requires
        strictly_ascending(s1),
        strictly_ascending(s2),
        s1.to_set() == s2.to_set(),
    ensures
        s1 == s2,
    decreases s1.len(),
{
    if s1.len() == 0 {
        if s2.len() > 0 {
            assert(s2.to_set().contains(s2[0]));
            assert(s1.contains(s2[0]));
        }
        assert(s1 =~= s2);
    } else {
        assert(s1.to_set().contains(s1[0]));
        assert(s2.contains(s1[0]));
        let m1 = s1.last();
        let m2 = s2.last();
        assert(s1.to_set().contains(m1));
        assert(s2.contains(m1));
        assert(s2.to_set().contains(m2));
        assert(s1.contains(m2));
        let j = choose|j: int| 0 <= j < s2.len() && s2[j] == m1;
        let i = choose|i: int| 0 <= i < s1.len() && s1[i] == m2;
        if m1 != m2 {
            assert(lex_less(s2[j], s2[s2.len() - 1]));
            assert(lex_less(s1[i], s1[s1.len() - 1]));
            lemma_lex_less_asymmetric(m1, m2);
        }
        let r1 = s1.drop_last();
        let r2 = s2.drop_last();
        assert forall|x: Seq<char>| r1.to_set().contains(x) == r2.to_set().contains(x) by {
            lemma_rest_holds(s1, x);
            lemma_rest_holds(s2, x);
            assert(s1.to_set().contains(x) == s2.to_set().contains(x));
        }
        assert(r1.to_set() =~= r2.to_set());
        lemma_ascending_unique(r1, r2);
        assert(s1 =~= r1.push(m1));
        assert(s2 =~= r2.push(m2));
    }
}

/// The ascending list of the strings in `set`.
pub open spec fn ascending_listing(set: Set<Seq<char>>) -> Seq<Seq<char>> {
    choose|s: Seq<Seq<char>>| strictly_ascending(s) && s.to_set() == set
}

/// An ascending list is the ascending list of the strings that it holds.
pub proof fn lemma_listing_of(s: Seq<Seq<char>>)
    requires
        strictly_ascending(s),
    ensures
        ascending_listing(s.to_set()) == s,
{
    let listed = ascending_listing(s.to_set());
    assert(strictly_ascending(listed) && listed.to_set() == s.to_set());
    lemma_ascending_unique(listed, s);
}

/// An ascending list holds no string twice, so it is as long as the set
/// of its strings is large.
pub proof fn lemma_ascending_counts(s: Seq<Seq<char>>)
    requires
        strictly_ascending(s),
    ensures
        s.no_duplicates(),
        s.to_set().finite(),
        s.to_set().len() == s.len(),
{
    assert forall|i: int, j: int| 0 <= i < s.len() && 0 <= j < s.len() && i != j implies s[i]
        != s[j] by {
        if i < j {
            lemma_lex_less_asymmetric(s[i], s[j]);
        } else {
            lemma_lex_less_asymmetric(s[j], s[i]);
        }
    }
    s.unique_seq_to_set();
}

/// What an ascending list holds before its last element is what it holds
/// apart from that element.
proof fn lemma_rest_holds(s: Seq<Seq<char>>, x: Seq<char>)
    requires
        strictly_ascending(s),
        s.len() > 0,
    ensures
        strictly_ascending(s.drop_last()),
        s.drop_last().to_set().contains(x) == (s.to_set().contains(x) && x != s.last()),
{
    let r = s.drop_last();
    assert forall|i: int, j: int| 0 <= i < j < r.len() implies lex_less(
        #[trigger] r[i],
        #[trigger] r[j],
    ) by {
        assert(r[i] == s[i] && r[j] == s[j]);
    }
    if r.contains(x) {
        let i = choose|i: int| 0 <= i < r.len() && r[i] == x;
        assert(s[i] == x);
        assert(lex_less(s[i], s[s.len() - 1]));
        lemma_lex_less_asymmetric(x, s.last());
    }
    if s.contains(x) && x != s.last() {
        let i = choose|i: int| 0 <= i < s.len() && s[i] == x;
        assert(r[i] == x);
    }
}

/// Puts `item` into the ascending list `list`, at its place in the order,
/// unless the list holds it already. Returns whether the list grew.
pub(crate) fn insert_ascending(list: &mut Vec<String>, item: String) -> (grew: bool)
    requires
        strictly_ascending(texts(old(list)@)),
    ensures
        strictly_ascending(texts(final(list)@)),
        texts(final(list)@).to_set() == texts(old(list)@).to_set().insert(item@),
        grew == !texts(old(list)@).contains(item@),
        final(list)@.len() == old(list)@.len() + (if grew {
            1int
        } else {
            0int
        }),
{
    let ghost before = texts(list@);
    let mut i: usize = 0;
    let mut found = false;
    while i < list.len()
        invariant_except_break
            !found,
        invariant
            list@ == old(list)@,
            before == texts(list@),
            strictly_ascending(before),
            i <= list.len(),
            forall|j: int| 0 <= j < i ==> lex_less(#[trigger] before[j], item@),
        ensures
            forall|j: int| 0 <= j < i ==> lex_less(#[trigger] before[j], item@),
            found ==> i < list.len() && before[i as int] == item@,
            !found ==> (i == list.len() || lex_less(item@, before[i as int])),
        decreases list.len() - i,
    {
        match place(list[i].as_str(), item.as_str()) {
            Place::Before => {
                i += 1;
            },
            Place::Same => {
                found = true;
                break ;
            },
            Place::After => {
                break ;
            },
        }
    }
    if found {
        proof {
            assert(before.contains(item@));
            assert(before.to_set().insert(item@) =~= before.to_set());
        }
        return false;
    }
    proof {
        assert forall|j: int| 0 <= j < before.len() implies before[j] != item@ by {
            if j < i {
                lemma_lex_less_asymmetric(before[j], item@);
            } else {
                if j > i {
                    lemma_lex_less_transitive(item@, before[i as int], before[j]);
                }
                lemma_lex_less_asymmetric(item@, before[j]);
            }
        }
    }
    let ghost added = item@;
    list.insert(i, item);
    proof {
        let after = texts(list@);
        assert(after =~= before.insert(i as int, added));
        assert forall|a: int, b: int| 0 <= a < b < after.len() implies lex_less(
            #[trigger] after[a],
            #[trigger] after[b],
        ) by {
            if b < i {
                assert(after[a] == before[a] && after[b] == before[b]);
            } else if b == i {
                assert(after[a] == before[a]);
            } else if a < i {
                assert(after[a] == before[a] && after[b] == before[b - 1]);
                if b - 1 == i {
                    lemma_lex_less_transitive(before[a], added, before[i as int]);
                }
            } else if a == i {
                assert(after[b] == before[b - 1]);
                if b - 1 > i {
                    lemma_lex_less_transitive(added, before[i as int], before[b - 1]);
                }
            } else {
                assert(after[a] == before[a - 1] && after[b] == before[b - 1]);
            }
        }
        assert forall|x: Seq<char>| after.to_set().contains(x) == before.to_set().insert(
            added,
        ).contains(x) by {
            if after.contains(x) {
                let k = choose|k: int| 0 <= k < after.len() && after[k] == x;
                if k < i {
                    assert(before[k] == x);
                } else if k > i {
                    assert(before[k - 1] == x);
                }
            }
            if before.contains(x) {
                let k = choose|k: int| 0 <= k < before.len() && before[k] == x;
                if k < i {
                    assert(after[k] == x);
                } else {
                    assert(after[k + 1] == x);
                }
            }
            if x == added {
                assert(after[i as int] == x);
            }
        }
        assert(after.to_set() =~= before.to_set().insert(added));
    }
    true
}

/// Whether the ascending list holds `item`.
pub(crate) fn holds(list: &Vec<String>, item: &str) -> (r: bool)
    ensures
        r == texts(list@).contains(item@),
{
    let mut i: usize = 0;
    while i < list.len()
        invariant
            i <= list.len(),
            forall|j: int| 0 <= j < i ==> texts(list@)[j] != item@,
        decreases list.len() - i,
    {
        if crate::text::same_text(list[i].as_str(), item) {
            proof {
                assert(texts(list@)[i as int] == item@);
            }
            return true;
        }
        i += 1;
    }
    false
}

} // verus!
