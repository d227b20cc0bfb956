//! Lexicographic order on strings and sorting with duplicates removed.

use vstd::prelude::*;
use crate::text::{chars_of, views};

verus! {

/// `a` comes strictly before `b` in lexicographic order of characters (the
/// order of `String`'s `Ord`, since UTF-8 keeps the order of code points).
pub open spec fn lex_lt(a: Seq<char>, b: Seq<char>) -> bool
    decreases a.len(),
{
    if b.len() == 0 {
        false
    } else if a.len() == 0 {
        true
    } else if a[0] != b[0] {
        a[0] < b[0]
    } else {
        lex_lt(a.skip(1), b.skip(1))
    }
}

/// No string sorts before itself.
pub proof fn lemma_lex_irreflexive(a: Seq<char>)
    ensures
        !lex_lt(a, a),
    decreases a.len(),
{
    if a.len() > 0 {
        lemma_lex_irreflexive(a.skip(1));
    }
}

/// The order is transitive.
pub proof fn lemma_lex_transitive(a: Seq<char>, b: Seq<char>, c: Seq<char>)
    requires
        lex_lt(a, b),
        lex_lt(b, c),
    ensures
        lex_lt(a, c),
    decreases a.len(),
{
    if a.len() > 0 && a[0] == b[0] && b[0] == c[0] {
        lemma_lex_transitive(a.skip(1), b.skip(1), c.skip(1));
    }
}

/// Of two different strings one sorts before the other.
pub proof fn lemma_lex_total(a: Seq<char>, b: Seq<char>)
    requires
        a != b,
    ensures
        lex_lt(a, b) || lex_lt(b, a),
    decreases a.len(),
{
    if a.len() > 0 && b.len() > 0 && a[0] == b[0] {
        if a.skip(1) == b.skip(1) {
            assert(a =~= seq![a[0]] + a.skip(1));
            assert(b =~= seq![b[0]] + b.skip(1));
        }
        lemma_lex_total(a.skip(1), b.skip(1));
    } else if a.len() == 0 && b.len() == 0 {
        assert(a =~= b);
    }
}

/// Two strings never sort before each other.
pub proof fn lemma_lex_asymmetric(a: Seq<char>, b: Seq<char>)
    requires
        lex_lt(a, b),
    ensures
        !lex_lt(b, a),
{
    if lex_lt(b, a) {
        lemma_lex_transitive(a, b, a);
        lemma_lex_irreflexive(a);
    }
}

fn slice_lex_lt(a: &[char], i: usize, b: &[char], j: usize) -> (r: bool)
    requires
        i <= a@.len(),
        j <= b@.len(),
    ensures
        r == lex_lt(a@.skip(i as int), b@.skip(j as int)),
    decreases a.len() - i,
{
    if j >= b.len() {
        return false;
    }
    if i >= a.len() {
        return true;
    }
    if a[i] != b[j] {
        return a[i] < b[j];
    }
    assert(a@.skip(i as int).skip(1) =~= a@.skip(i + 1));
    assert(b@.skip(j as int).skip(1) =~= b@.skip(j + 1));
    slice_lex_lt(a, i + 1, b, j + 1)
}

/// Whether `a` sorts strictly before `b`.
pub fn lex_less(a: &str, b: &str) -> (r: bool)
    ensures
        r == lex_lt(a@, b@),
{
    let x = chars_of(a);
    let y = chars_of(b);
    assert(x@.skip(0) =~= a@);
    assert(y@.skip(0) =~= b@);
    slice_lex_lt(x.as_slice(), 0, y.as_slice(), 0)
}

/// Each element sorts strictly before the next ones.
pub open spec fn strictly_sorted(s: Seq<Seq<char>>) -> bool {
    forall|i: int, j: int| 0 <= i < j < s.len() ==> lex_lt(#[trigger] s[i], #[trigger] s[j])
}

/// `a` and `b` hold the same elements.
pub open spec fn same_elements(a: Seq<Seq<char>>, b: Seq<Seq<char>>) -> bool {
    forall|x: Seq<char>| a.contains(x) <==> b.contains(x)
}

/// The strings in ascending order with duplicates removed, as `sort` then
/// `dedup` leave them.
pub fn sorted_unique(v: &Vec<String>) -> (r: Vec<String>)
    ensures
        strictly_sorted(views(r@)),
        same_elements(views(r@), views(v@)),
{
    let mut out: Vec<String> = Vec::new();
    let mut i: usize = 0;
    while i < v.len()
        invariant
            i <= v@.len(),
            strictly_sorted(views(out@)),
            same_elements(views(out@), views(v@).take(i as int)),
        decreases v.len() - i,
    {
        let x = &v[i];
        let ghost o = views(out@);
        let mut p: usize = 0;
        while p < out.len() && lex_less(out[p].as_str(), x.as_str())
            invariant
                o == views(out@),
                p <= out@.len(),
                forall|k: int| 0 <= k < p ==> lex_lt(#[trigger] o[k], x@),
            decreases out.len() - p,
        {
            p += 1;
        }
        let ghost before = views(v@).take(i as int);
        let ghost after = views(v@).take(i + 1);
        assert(after =~= before.push(x@));
        if p < out.len() && crate::text::same(out[p].as_str(), x.as_str()) {
            assert(o[p as int] == x@);
            assert forall|y: Seq<char>| o.contains(y) <==> after.contains(y) by {
                if y == x@ {
                    assert(o.contains(y));
                }
                if before.contains(y) {
                    assert(after.contains(y)) by {
                        let k = choose|k: int| 0 <= k < i && before[k] == y;
                        assert(after[k] == y);
                    }
                }
                if after.contains(y) && y != x@ {
                    let k = choose|k: int| 0 <= k < i + 1 && after[k] == y;
                    assert(before[k] == y);
                }
            }
        } else {
            proof {
                if p < o.len() {
                    lemma_lex_total(o[p as int], x@);
                }
            }
            out.insert(p, x.clone());
            let ghost n = views(out@);
            assert(n =~= o.insert(p as int, x@));
            assert forall|a: int, b: int| 0 <= a < b < n.len() implies lex_lt(#[trigger] n[a], #[trigger] n[b]) by {
                if b < p {
                    assert(lex_lt(o[a], o[b]));
                } else if b == p {
                    assert(lex_lt(o[a], x@));
                } else if a < p {
                    assert(lex_lt(o[a], x@));
                    assert(lex_lt(x@, o[p as int]));
                    if b - 1 > p {
                        assert(lex_lt(o[p as int], o[b - 1]));
                        lemma_lex_transitive(x@, o[p as int], o[b - 1]);
                    }
                    lemma_lex_transitive(o[a], x@, o[b - 1]);
                } else if a == p {
                    if b - 1 > p {
                        assert(lex_lt(o[p as int], o[b - 1]));
                        lemma_lex_transitive(x@, o[p as int], o[b - 1]);
                    }
                } else {
                    assert(lex_lt(o[a - 1], o[b - 1]));
                }
            }
            assert forall|y: Seq<char>| n.contains(y) <==> after.contains(y) by {
                if n.contains(y) {
                    let k = choose|k: int| 0 <= k < n.len() && n[k] == y;
                    if k < p {
                        assert(o[k] == y);
                    } else if k > p {
                        assert(o[k - 1] == y);
                    }
                    if y != x@ {
                        assert(o.contains(y));
                        assert(before.contains(y));
                        let m = choose|m: int| 0 <= m < i && before[m] == y;
                        assert(after[m] == y);
                    } else {
                        assert(after[i as int] == y);
                    }
                }
                if after.contains(y) {
                    if y == x@ {
                        assert(n[p as int] == y);
                    } else {
                        let m = choose|m: int| 0 <= m < i + 1 && after[m] == y;
                        assert(before[m] == y);
                        assert(o.contains(y));
                        let k = choose|k: int| 0 <= k < o.len() && o[k] == y;
                        if k < p {
                            assert(n[k] == y);
                        } else {
                            assert(n[k + 1] == y);
                        }
                    }
                }
            }
        }
        i += 1;
    }
    assert(views(v@).take(v@.len() as int) =~= views(v@));
    out
}

} // verus!
