//! Strings as sequences of characters: their lexicographic order, and the
//! few operations on them that the rest of the crate needs.

use vstd::prelude::*;

verus! {

/// `a` and `b` agree before position `k`, where `b` still has a character
/// and `a` either ends or holds a different one.
pub open spec fn first_difference(a: Seq<char>, b: Seq<char>, k: int) -> bool {
    &&& 0 <= k <= a.len()
    &&& k < b.len()
    &&& forall|j: int| 0 <= j < k ==> a[j] == b[j]
    &&& k < a.len() ==> a[k] != b[k]
}

/// The strict lexicographic order on character sequences, characters
/// compared by code point. A proper prefix comes before every sequence
/// that it is a prefix of.
pub open spec fn lex_less(a: Seq<char>, b: Seq<char>) -> bool {
    exists|k: int| #[trigger] first_difference(a, b, k) && (k == a.len() || a[k] < b[k])
}

/// Where one string stands relative to another in the lexicographic order.
#[derive(Clone, Copy, Debug, PartialEq, Eq)]
pub enum Place {
    Before,
    Same,
    After,
}

/// No sequence comes before itself, and of two sequences at most one comes
/// before the other.
pub proof fn lemma_lex_less_asymmetric(a: Seq<char>, b: Seq<char>)
    requires
        lex_less(a, b),
    ensures
        a != b,
        !lex_less(b, a),
{
    let k1 = choose|k: int| #[trigger] first_difference(a, b, k) && (k == a.len() || a[k] < b[k]);
    if a == b {
        assert(k1 < a.len());
        assert(a[k1] != b[k1]);
    }
    if lex_less(b, a) {
        let k2 = choose|k: int| #[trigger]
            first_difference(b, a, k) && (k == b.len() || b[k] < a[k]);
        if k1 < k2 {
            assert(b[k1] == a[k1]);
        } else if k2 < k1 {
            assert(a[k2] == b[k2]);
        }
    }
}

/// The lexicographic order is transitive.
pub proof fn lemma_lex_less_transitive(a: Seq<char>, b: Seq<char>, c: Seq<char>)
    requires
        lex_less(a, b),
        lex_less(b, c),
    ensures
        lex_less(a, c),
{
    let k1 = choose|k: int| #[trigger] first_difference(a, b, k) && (k == a.len() || a[k] < b[k]);
    let k2 = choose|k: int| #[trigger] first_difference(b, c, k) && (k == b.len() || b[k] < c[k]);
    let k = if k1 <= k2 {
        k1
    } else {
        k2
    };
    assert forall|j: int| 0 <= j < k implies a[j] == c[j] by {
        assert(a[j] == b[j]);
        assert(b[j] == c[j]);
    }
    if k2 < k1 {
        assert(a[k2] == b[k2]);
    }
    assert(first_difference(a, c, k));
}

/// Any two sequences are equal, or one comes before the other.
pub proof fn lemma_lex_less_total(a: Seq<char>, b: Seq<char>)
    ensures
        a == b || lex_less(a, b) || lex_less(b, a),
    decreases
        a.len() + b.len(),
        (if a.len() <= b.len() {
            0int
        } else {
            1int
        }),
{
    if a.len() == 0 {
        if b.len() > 0 {
            assert(first_difference(a, b, 0));
        } else {
            assert(a =~= b);
        }
    } else if b.len() == 0 {
        assert(first_difference(b, a, 0));
    } else {
        let a0 = a.drop_last();
        let b0 = b.drop_last();
        if a.len() <= b.len() {
            lemma_lex_less_total(a, b0);
            if a == b0 {
                assert(first_difference(a, b, a.len() as int));
            } else if lex_less(a, b0) {
                let k = choose|k: int| #[trigger]
                    first_difference(a, b0, k) && (k == a.len() || a[k] < b0[k]);
                assert(first_difference(a, b, k));
            } else {
                let k = choose|k: int| #[trigger]
                    first_difference(b0, a, k) && (k == b0.len() || b0[k] < a[k]);
                if k < b0.len() {
                    assert(first_difference(b, a, k));
                } else if a[k] == b[k] {
                    // `b0` is a proper prefix of `a`, and `a` is no longer than `b`
                    assert(a.len() == b.len());
                    assert(a =~= b);
                } else if a[k] < b[k] {
                    assert(first_difference(a, b, k));
                } else {
                    assert(first_difference(b, a, k));
                }
            }
        } else {
            lemma_lex_less_total(b, a);
        }
    }
}

/// Compares two strings in the lexicographic order of their characters.
pub fn place(a: &str, b: &str) -> (r: Place)
    ensures
        r is Before <==> lex_less(a@, b@),
        r is Same <==> a@ == b@,
        r is After <==> lex_less(b@, a@),
{
    let n = a.unicode_len();
    let m = b.unicode_len();
    let mut i: usize = 0;
    while i < n && i < m
        invariant
            n == a@.len(),
            m == b@.len(),
            i <= n,
            i <= m,
            forall|j: int| 0 <= j < i ==> a@[j] == b@[j],
        decreases n - i,
    {
        let x = a.get_char(i);
        let y = b.get_char(i);
        if x < y {
            proof {
                assert(first_difference(a@, b@, i as int));
                lemma_lex_less_asymmetric(a@, b@);
            }
            return Place::Before;
        }
        if y < x {
            proof {
                assert(first_difference(b@, a@, i as int));
                lemma_lex_less_asymmetric(b@, a@);
            }
            return Place::After;
        }
        i += 1;
    }
    if i < m {
        proof {
            assert(first_difference(a@, b@, i as int));
            lemma_lex_less_asymmetric(a@, b@);
        }
        Place::Before
    } else if i < n {
        proof {
            assert(first_difference(b@, a@, i as int));
            lemma_lex_less_asymmetric(b@, a@);
        }
        Place::After
    } else {
        proof {
            assert(a@ =~= b@);
            if lex_less(a@, b@) {
                lemma_lex_less_asymmetric(a@, b@);
            }
            if lex_less(b@, a@) {
                lemma_lex_less_asymmetric(b@, a@);
            }
        }
        Place::Same
    }
}

/// Whether two strings hold the same characters.
pub fn same_text(a: &str, b: &str) -> (r: bool)
    ensures
        r == (a@ == b@),
{
    match place(a, b) {
        Place::Same => true,
        _ => false,
    }
}

/// `prefix` is an initial stretch of `s`.
pub open spec fn is_prefix(prefix: Seq<char>, s: Seq<char>) -> bool {
    prefix.len() <= s.len() && s.subrange(0, prefix.len() as int) == prefix
}

/// Whether `s` begins with `prefix`.
pub fn starts_with(s: &str, prefix: &str) -> (r: bool)
    ensures
        r == is_prefix(prefix@, s@),
{
    let n = s.unicode_len();
    let m = prefix.unicode_len();
    if m > n {
        return false;
    }
    let mut i: usize = 0;
    while i < m
        invariant
            n == s@.len(),
            m == prefix@.len(),
            m <= n,
            i <= m,
            forall|j: int| 0 <= j < i ==> s@[j] == prefix@[j],
        decreases m - i,
    {
        if s.get_char(i) != prefix.get_char(i) {
            proof {
                assert(s@.subrange(0, m as int)[i as int] == s@[i as int]);
            }
            return false;
        }
        i += 1;
    }
    proof {
        assert(s@.subrange(0, m as int) =~= prefix@);
    }
    true
}

/// `s` with every occurrence of the character `from` replaced by `to`.
pub open spec fn replaced(s: Seq<char>, from: char, to: char) -> Seq<char> {
    Seq::new(
        s.len(),
        |i: int|
            if s[i] == from {
                to
            } else {
                s[i]
            },
    )
}

/// The parts in order, with `separator` between each two neighbours.
pub open spec fn joined(parts: Seq<Seq<char>>, separator: Seq<char>) -> Seq<char>
    decreases parts.len(),
{
    if parts.len() == 0 {
        Seq::empty()
    } else if parts.len() == 1 {
        parts[0]
    } else {
        joined(parts.drop_last(), separator) + separator + parts.last()
    }
}

/// The character sequences that a list of strings holds.
pub open spec fn texts(strings: Seq<String>) -> Seq<Seq<char>> {
    Seq::new(strings.len(), |i: int| strings[i]@)
}

/// Joins the strings, putting `separator` between each two neighbours.
pub fn join(parts: &Vec<String>, separator: &str) -> (r: String)
    ensures
        r@ == joined(texts(parts@), separator@),
{
    let mut out = String::new();
    let mut i: usize = 0;
    while i < parts.len()
        invariant
            i <= parts.len(),
            out@ == joined(texts(parts@).take(i as int), separator@),
        decreases parts.len() - i,
    {
        let ghost before = texts(parts@).take(i as int);
        let ghost after = texts(parts@).take(i as int + 1);
        proof {
            assert(after.drop_last() =~= before);
            assert(after.last() == parts@[i as int]@);
        }
        if i > 0 {
            out.append(separator);
            out.append(parts[i].as_str());
        } else {
            out.append(parts[i].as_str());
            proof {
                assert(out@ =~= parts@[0]@);
            }
        }
        i += 1;
    }
    proof {
        assert(texts(parts@).take(parts.len() as int) =~= texts(parts@));
    }
    out
}

/// A copy of the list that holds the same strings in the same order.
pub fn copy_strings(strings: &Vec<String>) -> (r: Vec<String>)
    ensures
        texts(r@) == texts(strings@),
{
    let mut out: Vec<String> = Vec::new();
    let mut i: usize = 0;
    while i < strings.len()
        invariant
            i <= strings.len(),
            out.len() == i,
            forall|j: int| 0 <= j < i ==> out@[j]@ == strings@[j]@,
        decreases strings.len() - i,
    {
        out.push(strings[i].clone());
        i += 1;
    }
    proof {
        assert(texts(out@) =~= texts(strings@));
    }
    out
}

} // verus!
