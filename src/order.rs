//! The order in which package names are merged, and what merging and
//! collapsing runs of equal names preserve.
use vstd::prelude::*;

verus! {

/// Lexicographic order on names, comparing code points. This is the order of
/// `String`'s `Ord`: strings compare by their UTF-8 bytes, and UTF-8 keeps the
/// order of code points.
pub open spec fn name_le(a: Seq<char>, b: Seq<char>) -> bool
    decreases a.len(),
{
    if a.len() == 0 {
        true
    } else if b.len() == 0 {
        false
    } else if a[0] != b[0] {
        (a[0] as u32) < (b[0] as u32)
    } else {
        name_le(a.drop_first(), b.drop_first())
    }
}

/// Every name is at most every name after it.
pub open spec fn sorted_names(s: Seq<Seq<char>>) -> bool {
    forall|i: int, j: int| 0 <= i < j < s.len() ==> name_le(#[trigger] s[i], #[trigger] s[j])
}

/// Sorted, and no name occurs twice.
pub open spec fn strictly_sorted(s: Seq<Seq<char>>) -> bool {
    sorted_names(s) && s.no_duplicates()
}

/// `s` with every element that equals the one before it left out.
pub open spec fn dedup_runs(s: Seq<Seq<char>>) -> Seq<Seq<char>>
    decreases s.len(),
{
    if s.len() <= 1 {
        s
    } else if s[0] == s[1] {
        dedup_runs(s.drop_first())
    } else {
        seq![s[0]] + dedup_runs(s.drop_first())
    }
}

pub proof fn lemma_name_le_antisymmetric(a: Seq<char>, b: Seq<char>)
    requires
        name_le(a, b),
        name_le(b, a),
    ensures
        a == b,
    decreases a.len(),
{
    if a.len() > 0 && b.len() > 0 && a[0] == b[0] {
        lemma_name_le_antisymmetric(a.drop_first(), b.drop_first());
        assert(a =~= seq![a[0]] + a.drop_first());
        assert(b =~= seq![b[0]] + b.drop_first());
    }
}

/// Collapsing runs keeps the first element and exactly the names that occur.
pub proof fn lemma_dedup_runs_members(s: Seq<Seq<char>>)
    ensures
        s.len() > 0 ==> dedup_runs(s).len() > 0 && dedup_runs(s)[0] == s[0],
        forall|x: Seq<char>| dedup_runs(s).contains(x) <==> s.contains(x),
    decreases s.len(),
{
    if s.len() > 1 {
        let t = s.drop_first();
        lemma_dedup_runs_members(t);
        assert forall|x: Seq<char>| dedup_runs(s).contains(x) <==> s.contains(x) by {
            if s.contains(x) {
                let k = choose|k: int| 0 <= k < s.len() && s[k] == x;
                if k == 0 && s[0] != s[1] {
                    assert(dedup_runs(s)[0] == x);
                } else {
                    if k > 0 {
                        assert(t[k - 1] == x);
                    } else {
                        assert(t[0] == x);
                    }
                    assert(t.contains(x));
                    assert(dedup_runs(t).contains(x));
                    if s[0] != s[1] {
                        let j = choose|j: int| 0 <= j < dedup_runs(t).len() && dedup_runs(t)[j] == x;
                        assert(dedup_runs(s)[j + 1] == x);
                    }
                }
            }
            if dedup_runs(s).contains(x) && x == s[0] {
                assert(s[0] == x);
            }
            if dedup_runs(s).contains(x) && x != s[0] {
                if s[0] != s[1] {
                    let k = choose|k: int| 0 <= k < dedup_runs(s).len() && dedup_runs(s)[k] == x;
                    assert(dedup_runs(t)[k - 1] == x);
                }
                assert(dedup_runs(t).contains(x));
                assert(t.contains(x));
                let m = choose|m: int| 0 <= m < t.len() && t[m] == x;
                assert(s[m + 1] == x);
            }
        }
    }
}

/// Collapsing runs of a sorted sequence leaves a strictly sorted one.
pub proof fn lemma_dedup_runs_sorted(s: Seq<Seq<char>>)
    requires
        sorted_names(s),
    ensures
        strictly_sorted(dedup_runs(s)),
    decreases s.len(),
{
    if s.len() > 1 {
        let t = s.drop_first();
        assert(sorted_names(t)) by {
            assert forall|i: int, j: int| 0 <= i < j < t.len() implies name_le(#[trigger] t[i], #[trigger] t[j]) by {
                assert(s[i + 1] == t[i] && s[j + 1] == t[j]);
            }
        }
        lemma_dedup_runs_sorted(t);
        lemma_dedup_runs_members(t);
        if s[0] != s[1] {
            let d = dedup_runs(t);
            let r = seq![s[0]] + d;
            assert(r == dedup_runs(s));
            assert forall|k: int| 0 <= k < d.len() implies name_le(s[0], #[trigger] d[k]) && d[k] != s[0] by {
                assert(d.contains(d[k]));
                assert(t.contains(d[k]));
                let m = choose|m: int| 0 <= m < t.len() && t[m] == d[k];
                assert(s[m + 1] == d[k]);
                assert(name_le(s[0], d[k]));
                if d[k] == s[0] {
                    assert(name_le(s[1], s[m + 1]) || m == 0);
                    lemma_name_le_antisymmetric(s[0], s[1]);
                }
            }
            assert forall|i: int, j: int| 0 <= i < j < r.len() implies name_le(#[trigger] r[i], #[trigger] r[j]) by {
                if i == 0 {
                    assert(r[j] == d[j - 1]);
                } else {
                    assert(r[i] == d[i - 1] && r[j] == d[j - 1]);
                }
            }
            assert forall|i: int, j: int| 0 <= i < r.len() && 0 <= j < r.len() && i != j implies r[i] != r[j] by {
                if i == 0 {
                    assert(r[j] == d[j - 1]);
                } else if j == 0 {
                    assert(r[i] == d[i - 1]);
                } else {
                    assert(r[i] == d[i - 1] && r[j] == d[j - 1]);
                }
            }
        }
    }
}

} // verus!
