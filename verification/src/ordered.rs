//! Lexicographic order of texts (the order of `String`) and strictly sorted
//! lists of texts, the form that `sort` followed by `dedup` leaves.
use vstd::prelude::*;
use crate::text::{seqs_of, vec_eq};

verus! {

/// `a < b` in the order of `String`: the code points compared left to right,
/// a proper prefix first.
pub open spec fn lex_lt(a: Seq<char>, b: Seq<char>) -> bool
    decreases a.len(),
{
    if a.len() == 0 {
        b.len() > 0
    } else if b.len() == 0 {
        false
    } else if a[0] != b[0] {
        a[0] < b[0]
    } else {
        lex_lt(a.drop_first(), b.drop_first())
    }
}

/// The order is irreflexive.
pub proof fn lemma_lex_irreflexive(a: Seq<char>)
    ensures
        !lex_lt(a, a),
    decreases a.len(),
{
    if a.len() > 0 {
        lemma_lex_irreflexive(a.drop_first());
    }
}

/// The order is transitive.
pub proof fn lemma_lex_transitive(a: Seq<char>, b: Seq<char>, c: Seq<char>)
    requires
        lex_lt(a, b),
        lex_lt(b, c),
    ensures
        lex_lt(a, c),
    decreases a.len(),
{
    if a.len() > 0 && b.len() > 0 && c.len() > 0 && a[0] == b[0] && b[0] == c[0] {
        lemma_lex_transitive(a.drop_first(), b.drop_first(), c.drop_first());
    }
}

/// Two different texts are ordered one way or the other.
pub proof fn lemma_lex_total(a: Seq<char>, b: Seq<char>)
    ensures
        a == b || lex_lt(a, b) || lex_lt(b, a),
    decreases a.len(),
{
    if a.len() > 0 && b.len() > 0 && a[0] == b[0] {
        lemma_lex_total(a.drop_first(), b.drop_first());
        if a.drop_first() == b.drop_first() {
            assert(a =~= seq![a[0]] + a.drop_first());
            assert(b =~= seq![b[0]] + b.drop_first());
        }
    } else if a.len() == 0 && b.len() == 0 {
        assert(a =~= b);
    }
}

/// Compares two texts in the order of `String`.
pub fn lex_less(a: &[char], b: &[char]) -> (r: bool)
    ensures
        r == lex_lt(a@, b@),
{
    let mut i: usize = 0;
    assert(a@.skip(0) =~= a@ && b@.skip(0) =~= b@);
    while i < a.len() && i < b.len()
        invariant
            i <= a.len(),
            i <= b.len(),
            lex_lt(a@, b@) == lex_lt(a@.skip(i as int), b@.skip(i as int)),
        decreases a.len() - i,
    {
        let ghost (x, y) = (a@.skip(i as int), b@.skip(i as int));
        assert(x[0] == a@[i as int] && y[0] == b@[i as int]);
        if a[i] != b[i] {
            return a[i] < b[i];
        }
        assert(x.drop_first() =~= a@.skip(i + 1));
        assert(y.drop_first() =~= b@.skip(i + 1));
        i = i + 1;
    }
    i == a.len() && i < b.len()
}

/// Every text of the list comes before every later one.
pub open spec fn strictly_sorted(s: Seq<Seq<char>>) -> bool {
    forall|i: int, j: int| 0 <= i < j < s.len() ==> lex_lt(#[trigger] s[i], #[trigger] s[j])
}

/// Two strictly sorted lists that hold the same texts are equal: a strictly
/// sorted list is fixed by its set of texts.
pub proof fn lemma_strictly_sorted_unique(a: Seq<Seq<char>>, b: Seq<Seq<char>>)
    requires
        strictly_sorted(a),
        strictly_sorted(b),
        forall|t: Seq<char>| a.contains(t) <==> b.contains(t),
    ensures
        a == b,
    decreases a.len() + b.len(),
{
    if a.len() == 0 || b.len() == 0 {
        if a.len() > 0 {
            assert(a.contains(a[0]));
        }
        if b.len() > 0 {
            assert(b.contains(b[0]));
        }
        assert(a =~= b);
    } else {
        // The least text of each list is the least text of the common set.
        assert(a.contains(a[0]));
        assert(b.contains(b[0]));
        let ja = choose|j: int| 0 <= j < b.len() && b[j] == a[0];
        let jb = choose|j: int| 0 <= j < a.len() && a[j] == b[0];
        if ja > 0 {
            assert(lex_lt(b[0], b[ja]));
            if jb > 0 {
                assert(lex_lt(a[0], a[jb]));
                lemma_lex_transitive(a[0], b[0], a[0]);
                lemma_lex_irreflexive(a[0]);
            } else {
                lemma_lex_irreflexive(a[0]);
            }
        }
        assert(a[0] == b[0]);
        let (ta, tb) = (a.drop_first(), b.drop_first());
        assert(strictly_sorted(ta)) by {
            assert forall|i: int, j: int| 0 <= i < j < ta.len() implies lex_lt(#[trigger] ta[i], #[trigger] ta[j]) by {
                assert(ta[i] == a[i + 1] && ta[j] == a[j + 1]);
            }
        }
        assert(strictly_sorted(tb)) by {
            assert forall|i: int, j: int| 0 <= i < j < tb.len() implies lex_lt(#[trigger] tb[i], #[trigger] tb[j]) by {
                assert(tb[i] == b[i + 1] && tb[j] == b[j + 1]);
            }
        }
        assert forall|t: Seq<char>| ta.contains(t) <==> tb.contains(t) by {
            if ta.contains(t) {
                let i = choose|i: int| 0 <= i < ta.len() && ta[i] == t;
                assert(a[i + 1] == t);
                assert(lex_lt(a[0], t));
                assert(b.contains(t));
                let k = choose|k: int| 0 <= k < b.len() && b[k] == t;
                if k == 0 {
                    lemma_lex_irreflexive(t);
                }
                assert(tb[k - 1] == t);
            }
            if tb.contains(t) {
                let i = choose|i: int| 0 <= i < tb.len() && tb[i] == t;
                assert(b[i + 1] == t);
                assert(lex_lt(b[0], t));
                assert(a.contains(t));
                let k = choose|k: int| 0 <= k < a.len() && a[k] == t;
                if k == 0 {
                    lemma_lex_irreflexive(t);
                }
                assert(ta[k - 1] == t);
            }
        }
        lemma_strictly_sorted_unique(ta, tb);
        assert(a =~= seq![a[0]] + ta);
        assert(b =~= seq![b[0]] + tb);
    }
}

/// Adds `x` to a strictly sorted list at its place, unless the list holds it.
pub fn insert_sorted_unique(list: &mut Vec<Vec<char>>, x: Vec<char>)
    requires
        strictly_sorted(seqs_of(old(list)@)),
    ensures
        strictly_sorted(seqs_of(final(list)@)),
        forall|t: Seq<char>| seqs_of(final(list)@).contains(t) <==> (seqs_of(old(list)@).contains(t) || t == x@),
{
    let ghost s = seqs_of(list@);
    let mut j: usize = 0;
    while j < list.len() && lex_less(&list[j], &x)
        invariant
            j <= list.len(),
            s == seqs_of(list@),
            forall|k: int| 0 <= k < j ==> lex_lt(#[trigger] s[k], x@),
        decreases list.len() - j,
    {
        j = j + 1;
    }
    if j < list.len() && vec_eq(&list[j], &x) {
        assert(s.contains(x@)) by {
            assert(s[j as int] == x@);
        }
        return;
    }
    if j < list.len() {
        proof {
            lemma_lex_total(s[j as int], x@);
        }
        assert(lex_lt(x@, s[j as int]));
    }
    list.insert(j, x);
    proof {
        let n = seqs_of(list@);
        assert(n =~= s.insert(j as int, x@));
        assert forall|a: int, b: int| 0 <= a < b < n.len() implies lex_lt(#[trigger] n[a], #[trigger] n[b]) by {
            if b < j {
                assert(n[a] == s[a] && n[b] == s[b]);
            } else if b == j {
                assert(n[a] == s[a] && n[b] == x@);
            } else if a == j {
                assert(n[b] == s[b - 1]);
                if b - 1 > j {
                    lemma_lex_transitive(x@, s[j as int], s[b - 1]);
                }
            } else if a < j {
                assert(n[a] == s[a] && n[b] == s[b - 1]);
            } else {
                assert(n[a] == s[a - 1] && n[b] == s[b - 1]);
            }
        }
        assert forall|t: Seq<char>| n.contains(t) <==> (s.contains(t) || t == x@) by {
            if n.contains(t) {
                let i = choose|i: int| 0 <= i < n.len() && n[i] == t;
                if i < j {
                    assert(s[i] == t);
                } else if i > j {
                    assert(s[i - 1] == t);
                }
            }
            if s.contains(t) {
                let i = choose|i: int| 0 <= i < s.len() && s[i] == t;
                if i < j {
                    assert(n[i] == t);
                } else {
                    assert(n[i + 1] == t);
                }
            }
            if t == x@ {
                assert(n[j as int] == t);
            }
        }
    }
}

/// `sort` then `dedup` of a list of texts: the strictly sorted list of the
/// same texts.
pub fn sorted_unique(list: &Vec<Vec<char>>) -> (r: Vec<Vec<char>>)
    ensures
        strictly_sorted(seqs_of(r@)),
        forall|t: Seq<char>| #[trigger] seqs_of(r@).contains(t) <==> seqs_of(list@).contains(t),
{
    let mut out: Vec<Vec<char>> = Vec::new();
    let mut i: usize = 0;
    while i < list.len()
        invariant
            i <= list.len(),
            strictly_sorted(seqs_of(out@)),
            forall|t: Seq<char>| #[trigger] seqs_of(out@).contains(t) <==> seqs_of(list@).take(i as int).contains(t),
        decreases list.len() - i,
    {
        let ghost seen = seqs_of(list@).take(i as int);
        assert(seqs_of(list@).take(i + 1) =~= seen.push(list@[i as int]@));
        insert_sorted_unique(&mut out, crate::text::copy_vec(&list[i]));
        proof {
            assert forall|t: Seq<char>| #[trigger] seqs_of(out@).contains(t) <==> seqs_of(list@).take(i + 1).contains(t) by {
                let x = list@[i as int]@;
                if seen.push(x).contains(t) && t != x {
                    let k = choose|k: int| 0 <= k < seen.len() + 1 && seen.push(x)[k] == t;
                    assert(seen[k] == t);
                }
                if seen.contains(t) {
                    let k = choose|k: int| 0 <= k < seen.len() && seen[k] == t;
                    assert(seen.push(x)[k] == t);
                }
                if t == x {
                    assert(seen.push(x)[seen.len() as int] == t);
                }
            }
        }
        i = i + 1;
    }
    assert(seqs_of(list@).take(list.len() as int) =~= seqs_of(list@));
    out
}

} // verus!
