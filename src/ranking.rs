use vstd::prelude::*;

verus! {

/// A match of the candidate at index `.0` with score `.1`.
pub type Match = (usize, i64);

/// `a` is listed before `b`: a higher score first, the lower index on equal scores.
pub open spec fn ranks_before(a: Match, b: Match) -> bool {
    a.1 > b.1 || (a.1 == b.1 && a.0 < b.0)
}

/// Every entry is listed before every later one.
pub open spec fn is_ranked(s: Seq<Match>) -> bool {
    forall|a: int, b: int| 0 <= a < b < s.len() ==> ranks_before(s[a], s[b])
}

/// No candidate index is listed twice.
pub open spec fn distinct_indices(s: Seq<Match>) -> bool {
    forall|a: int, b: int| 0 <= a < s.len() && 0 <= b < s.len() && a != b ==> s[a].0 != s[b].0
}

/// The candidate indices that `s` lists.
pub open spec fn listed_indices(s: Seq<Match>) -> Set<int> {
    Set::new(|j: int| exists|k: int| 0 <= k < s.len() && s[k].0 == j)
}

/// Inserts `entry`, whose index is above every listed one, at the place that
/// keeps the list ranked; returns that place.
pub fn insert_ranked(v: &mut Vec<Match>, entry: Match) -> (pos: usize)
    requires
        is_ranked(old(v)@),
        forall|k: int| 0 <= k < old(v)@.len() ==> old(v)@[k].0 < entry.0,
    ensures
        pos <= old(v)@.len(),
        final(v)@ == old(v)@.insert(pos as int, entry),
        is_ranked(final(v)@),
{
    let mut lo: usize = 0;
    let mut hi: usize = v.len();
    while lo < hi
        invariant
            lo <= hi <= v@.len(),
            is_ranked(v@),
            forall|k: int| 0 <= k < lo ==> v@[k].1 >= entry.1,
            forall|k: int| hi <= k < v@.len() ==> v@[k].1 < entry.1,
        decreases hi - lo,
    {
        let mid = lo + (hi - lo) / 2;
        if v[mid].1 >= entry.1 {
            assert forall|k: int| 0 <= k <= mid implies v@[k].1 >= entry.1 by {
                if k < mid {
                    assert(ranks_before(v@[k], v@[mid as int]));
                }
            }
            lo = mid + 1;
        } else {
            assert forall|k: int| mid <= k < v@.len() implies v@[k].1 < entry.1 by {
                if k > mid {
                    assert(ranks_before(v@[mid as int], v@[k]));
                }
            }
            hi = mid;
        }
    }
    let ghost before = v@;
    v.insert(lo, entry);
    assert forall|a: int, b: int| 0 <= a < b < v@.len() implies ranks_before(v@[a], v@[b]) by {
        if b < lo {
            assert(v@[a] == before[a] && v@[b] == before[b]);
        } else if b == lo {
            assert(v@[a] == before[a]);
        } else if a < lo {
            assert(v@[a] == before[a] && v@[b] == before[b - 1]);
        } else if a == lo {
            assert(v@[b] == before[b - 1]);
        } else {
            assert(v@[a] == before[a - 1] && v@[b] == before[b - 1]);
        }
    }
    lo
}

/// `m` ranks `scores`: it lists exactly the indices that have a score, each
/// once with that score, best score first and equal scores by index.
pub open spec fn ranks_exactly(scores: Seq<Option<i64>>, m: Seq<Match>) -> bool {
    &&& forall|k: int| 0 <= k < m.len() ==> m[k].0 < scores.len() && scores[m[k].0 as int] == Some(m[k].1)
    &&& forall|j: int| 0 <= j < scores.len() && scores[j] is Some ==> #[trigger] listed_indices(m).contains(j)
    &&& distinct_indices(m)
    &&& is_ranked(m)
}

/// Ranks the indices of `scores` that hold a score.
pub fn rank(scores: &Vec<Option<i64>>) -> (r: Vec<Match>)
    ensures
        ranks_exactly(scores@, r@),
{
    let ghost sc = scores@;
    let mut m: Vec<Match> = Vec::new();
    let mut i: usize = 0;
    while i < scores.len()
        invariant
            sc == scores@,
            i <= sc.len(),
            forall|k: int| 0 <= k < m@.len() ==> m@[k].0 < i && sc[m@[k].0 as int] == Some(m@[k].1),
            forall|j: int| 0 <= j < i && sc[j] is Some ==> #[trigger] listed_indices(m@).contains(j),
            distinct_indices(m@),
            is_ranked(m@),
        decreases sc.len() - i,
    {
        if let Some(s) = scores[i] {
            let ghost before = m@;
            let pos = insert_ranked(&mut m, (i, s));
            assert forall|k: int| 0 <= k < m@.len() implies m@[k].0 < i + 1 && sc[m@[k].0 as int] == Some(
                m@[k].1,
            ) by {
                if k > pos {
                    assert(m@[k] == before[k - 1]);
                }
            }
            assert forall|j: int| 0 <= j < i + 1 && sc[j] is Some implies #[trigger] listed_indices(
                m@,
            ).contains(j) by {
                if j == i {
                    assert(m@[pos as int].0 == j);
                } else {
                    assert(listed_indices(before).contains(j));
                    let k = choose|k: int| 0 <= k < before.len() && before[k].0 == j;
                    if k < pos {
                        assert(m@[k].0 == j);
                    } else {
                        assert(m@[k + 1].0 == j);
                    }
                }
            }
            assert forall|a: int, b: int| 0 <= a < m@.len() && 0 <= b < m@.len() && a != b implies m@[a].0
                != m@[b].0 by {
                if a != pos && b != pos {
                    let a0 = if a < pos { a } else { a - 1 };
                    let b0 = if b < pos { b } else { b - 1 };
                    assert(m@[a] == before[a0] && m@[b] == before[b0]);
                }
            }
        }
        i += 1;
    }
    m
}

/// Two ranked lists with the same entries are the same list.
proof fn lemma_ranked_lists_equal(a: Seq<Match>, b: Seq<Match>)
    requires
        is_ranked(a),
        is_ranked(b),
        forall|x: Match| a.contains(x) <==> b.contains(x),
    ensures
        a == b,
    decreases a.len(),
{
    if a.len() == 0 {
        if b.len() > 0 {
            assert(b.contains(b[0]));
        }
        assert(a =~= b);
    } else if b.len() == 0 {
        assert(a.contains(a[0]));
    } else {
        assert(a.contains(a[0]));
        assert(b.contains(b[0]));
        let j = choose|j: int| 0 <= j < b.len() && b[j] == a[0];
        let i = choose|i: int| 0 <= i < a.len() && a[i] == b[0];
        if j > 0 && i > 0 {
            assert(ranks_before(b[0], b[j]));
            assert(ranks_before(a[0], a[i]));
        }
        assert(a[0] == b[0]);
        let a1 = a.drop_first();
        let b1 = b.drop_first();
        assert forall|x: Match| a1.contains(x) implies b1.contains(x) by {
            let k = choose|k: int| 0 <= k < a1.len() && a1[k] == x;
            assert(ranks_before(a[0], a[k + 1]));
            assert(b.contains(x));
            let k2 = choose|k2: int| 0 <= k2 < b.len() && b[k2] == x;
            assert(k2 != 0);
            assert(b1[k2 - 1] == x);
        }
        assert forall|x: Match| b1.contains(x) implies a1.contains(x) by {
            let k = choose|k: int| 0 <= k < b1.len() && b1[k] == x;
            assert(ranks_before(b[0], b[k + 1]));
            assert(a.contains(x));
            let k2 = choose|k2: int| 0 <= k2 < a.len() && a[k2] == x;
            assert(k2 != 0);
            assert(a1[k2 - 1] == x);
        }
        lemma_ranked_lists_equal(a1, b1);
        assert(a =~= seq![a[0]] + a1);
        assert(b =~= seq![b[0]] + b1);
    }
}

/// Ranking is deterministic: the scores alone decide the ranked list, so
/// ranking the same scores again gives the same list.
pub proof fn lemma_rank_unique(scores: Seq<Option<i64>>, m1: Seq<Match>, m2: Seq<Match>)
    requires
        ranks_exactly(scores, m1),
        ranks_exactly(scores, m2),
    ensures
        m1 == m2,
{
    assert forall|x: Match| m1.contains(x) implies m2.contains(x) by {
        let k = choose|k: int| 0 <= k < m1.len() && m1[k] == x;
        assert(listed_indices(m2).contains(x.0 as int));
        let k2 = choose|k2: int| 0 <= k2 < m2.len() && m2[k2].0 == x.0;
        assert(m2[k2] == x);
    }
    assert forall|x: Match| m2.contains(x) implies m1.contains(x) by {
        let k = choose|k: int| 0 <= k < m2.len() && m2[k] == x;
        assert(listed_indices(m1).contains(x.0 as int));
        let k2 = choose|k2: int| 0 <= k2 < m1.len() && m1[k2].0 == x.0;
        assert(m1[k2] == x);
    }
    lemma_ranked_lists_equal(m1, m2);
}

} // verus!
