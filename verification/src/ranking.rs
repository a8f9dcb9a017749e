use vstd::prelude::*;

verus! {

/// Whether position `a` ranks ahead of position `b`: a higher key first, and for equal
/// keys the earlier position first.
pub open spec fn ranks_before(keys: Seq<u32>, a: usize, b: usize) -> bool {
    keys[a as int] > keys[b as int] || (keys[a as int] == keys[b as int] && a < b)
}

/// Whether `order` lists every position of `keys` exactly once, by descending key, with
/// equal keys kept in their original order.
pub open spec fn is_ranking(keys: Seq<u32>, order: Seq<usize>) -> bool {
    &&& order.len() == keys.len()
    &&& forall|i: int| 0 <= i < order.len() ==> #[trigger] order[i] < keys.len()
    &&& forall|i: int, j: int|
        0 <= i < j < order.len() ==> ranks_before(keys, #[trigger] order[i], #[trigger] order[j])
}

/// A ranking lists every position of the keys.
proof fn lemma_ranking_covers(keys: Seq<u32>, order: Seq<usize>, x: usize)
    requires
        is_ranking(keys, order),
        x < keys.len(),
    ensures
        exists|i: int| 0 <= i < order.len() && order[i] == x,
{
    let n = keys.len() as int;
    let s = order.map_values(|v: usize| v as int);
    assert forall|i: int, j: int| 0 <= i < s.len() && 0 <= j < s.len() && i != j implies s[i]
        != s[j] by {
        if i < j {
            assert(ranks_before(keys, order[i], order[j]));
        } else {
            assert(ranks_before(keys, order[j], order[i]));
        }
    }
    assert(s.no_duplicates());
    s.unique_seq_to_set();
    vstd::set_lib::lemma_int_range(0, n);
    let range = vstd::set_lib::set_int_range(0, n);
    assert forall|v: int| s.to_set().contains(v) implies range.contains(v) by {
        let i = choose|i: int| 0 <= i < s.len() && s[i] == v;
        assert(order[i] < keys.len());
    }
    vstd::seq_lib::seq_to_set_is_finite(s);
    vstd::set_lib::lemma_subset_equality(s.to_set(), range);
    assert(range.contains(x as int));
    assert(s.to_set().contains(x as int));
    let i = choose|i: int| 0 <= i < s.len() && s[i] == x as int;
    assert(order[i] == x);
}

/// Two rankings of the same keys agree on every position up to `d`.
proof fn lemma_rankings_agree_upto(keys: Seq<u32>, first: Seq<usize>, second: Seq<usize>, d: int)
    requires
        is_ranking(keys, first),
        is_ranking(keys, second),
        0 <= d < first.len(),
    ensures
        forall|k: int| 0 <= k <= d ==> first[k] == second[k],
    decreases d,
{
    if d > 0 {
        lemma_rankings_agree_upto(keys, first, second, d - 1);
    }
    let a = first[d];
    let b = second[d];
    if a != b {
        if ranks_before(keys, a, b) {
            lemma_ranking_covers(keys, second, a);
            let e = choose|e: int| 0 <= e < second.len() && second[e] == a;
            if e < d {
                assert(first[e] == a);
                assert(ranks_before(keys, first[e], first[d]));
            } else {
                assert(ranks_before(keys, second[d], second[e]));
            }
        } else {
            lemma_ranking_covers(keys, first, b);
            let e = choose|e: int| 0 <= e < first.len() && first[e] == b;
            if e < d {
                assert(second[e] == b);
                assert(ranks_before(keys, second[e], second[d]));
            } else {
                assert(ranks_before(keys, first[d], first[e]));
            }
        }
    }
}

/// Selection is deterministic: the keys determine their ranking completely, so any
/// two rankings of the same keys are the same list.
pub proof fn lemma_ranking_unique(keys: Seq<u32>, first: Seq<usize>, second: Seq<usize>)
    requires
        is_ranking(keys, first),
        is_ranking(keys, second),
    ensures
        first == second,
{
    if first.len() > 0 {
        lemma_rankings_agree_upto(keys, first, second, first.len() - 1);
    }
    assert(first =~= second);
}

/// Ranks positions by descending key, keeping equal keys in their original order (a
/// stable sort of the positions).
///
/// Candidates are ranked by the order keys of their scores: the first position is
/// the selected candidate and the rest are the alternatives, in order.
pub fn rank_descending(keys: &Vec<u32>) -> (order: Vec<usize>)
    ensures
        is_ranking(keys@, order@),
{
    let n = keys.len();
    let mut order: Vec<usize> = Vec::new();
    for i in 0..n
        invariant
            n == keys@.len(),
            order@.len() == i,
            forall|k: int| 0 <= k < order@.len() ==> #[trigger] order@[k] < i,
            forall|a: int, b: int|
                0 <= a < b < order@.len() ==> ranks_before(
                    keys@,
                    #[trigger] order@[a],
                    #[trigger] order@[b],
                ),
    {
        let key = keys[i];
        let mut p: usize = 0;
        while p < order.len() && keys[order[p]] >= key
            invariant
                n == keys@.len(),
                i < n,
                key == keys@[i as int],
                order@.len() == i,
                p <= order@.len(),
                forall|k: int| 0 <= k < order@.len() ==> #[trigger] order@[k] < i,
                forall|q: int| 0 <= q < p ==> keys@[#[trigger] order@[q] as int] >= key,
            decreases order@.len() - p,
        {
            p = p + 1;
        }
        let ghost before = order@;
        proof {
            assert forall|q: int| p <= q < before.len() implies keys@[#[trigger] before[q] as int] < key by {
                if q > p {
                    assert(ranks_before(keys@, before[p as int], before[q]));
                }
            }
        }
        order.insert(p, i);
        proof {
            assert forall|k: int| 0 <= k < order@.len() implies #[trigger] order@[k] < i + 1 by {
                if k < p {
                    assert(order@[k] == before[k]);
                } else if k > p {
                    assert(order@[k] == before[k - 1]);
                }
            }
            assert forall|a: int, b: int| 0 <= a < b < order@.len() implies ranks_before(
                keys@,
                #[trigger] order@[a],
                #[trigger] order@[b],
            ) by {
                if a < p {
                    assert(order@[a] == before[a]);
                    if b < p {
                        assert(order@[b] == before[b]);
                    } else if b > p {
                        assert(order@[b] == before[b - 1]);
                        assert(ranks_before(keys@, before[a], before[b - 1]));
                    }
                } else if a == p {
                    assert(order@[b] == before[b - 1]);
                } else {
                    assert(order@[a] == before[a - 1]);
                    assert(order@[b] == before[b - 1]);
                    assert(ranks_before(keys@, before[a - 1], before[b - 1]));
                }
            }
        }
    }
    order
}

} // verus!
