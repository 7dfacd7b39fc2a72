//! Search ranking: most launched first, then by lowercased name, keeping the
//! input order among equals (a stable sort).

use vstd::prelude::*;
use crate::shortcut::Shortcut;
use crate::text::{chars_of, lex_less, lex_less_chars, lemma_lex_total, lemma_lex_transitive};

verus! {

/// A rank: launch count and sort key.
/// `x` comes strictly before `y`: more launches, or as many and a smaller key.
pub open spec fn ranks_before(x: (u64, Seq<char>), y: (u64, Seq<char>)) -> bool {
    x.0 > y.0 || (x.0 == y.0 && lex_less(x.1, y.1))
}

/// The ranks of `items` for ranking search results: each item's launch
/// count with its sort key.
pub open spec fn ranks_of(items: Seq<Shortcut>, keys: Seq<Seq<char>>) -> Seq<(u64, Seq<char>)> {
    Seq::new(items.len(), |j: int| (items[j].launch_count, keys[j]))
}

/// The ranks made of a primary and a secondary key per item.
pub open spec fn pair_ranks(primary: Seq<u64>, secondary: Seq<Seq<char>>) -> Seq<(u64, Seq<char>)> {
    Seq::new(primary.len(), |j: int| (primary[j], secondary[j]))
}

/// `output` is `items` reordered by `perm` (output position to input
/// position) such that no item is followed by one whose rank comes before
/// its own, and items of equal rank keep their input order.
pub open spec fn is_stable_order(
    items: Seq<Shortcut>,
    ranks: Seq<(u64, Seq<char>)>,
    output: Seq<Shortcut>,
    perm: Seq<int>,
) -> bool {
    &&& ranks.len() == items.len()
    &&& output.len() == items.len()
    &&& perm.len() == items.len()
    &&& forall|k: int|
        0 <= k < perm.len() ==> 0 <= #[trigger] perm[k] < items.len() && output[k] == items[perm[k]]
    &&& forall|a: int, b: int| 0 <= a < b < perm.len() ==> #[trigger] perm[a] != #[trigger] perm[b]
    &&& forall|a: int, b: int|
        0 <= a < b < perm.len() ==> !ranks_before(ranks[#[trigger] perm[b]], ranks[#[trigger] perm[a]])
    &&& forall|a: int, b: int|
        0 <= a < b < perm.len() && ranks[#[trigger] perm[a]] == ranks[#[trigger] perm[b]] ==> perm[a]
            < perm[b]
}

/// `output` is the search ranking of `items`, `keys[j]` being the sort key
/// of `items[j]`: most launched first, then smaller key first, equals in
/// input order.
pub open spec fn is_stable_ranking(
    items: Seq<Shortcut>,
    keys: Seq<Seq<char>>,
    output: Seq<Shortcut>,
    perm: Seq<int>,
) -> bool {
    keys.len() == items.len() && is_stable_order(items, ranks_of(items, keys), output, perm)
}

/// The views of a list of strings.
pub open spec fn texts_view(v: Seq<String>) -> Seq<Seq<char>> {
    v.map_values(|s: String| s@)
}

/// `ranks_before` is irreflexive.
pub proof fn lemma_rank_irreflexive(x: (u64, Seq<char>))
    ensures
        !ranks_before(x, x),
{
    crate::text::lemma_lex_irreflexive(x.1);
}

/// `ranks_before` is transitive.
pub proof fn lemma_rank_transitive(x: (u64, Seq<char>), y: (u64, Seq<char>), z: (u64, Seq<char>))
    requires
        ranks_before(x, y),
        ranks_before(y, z),
    ensures
        ranks_before(x, z),
{
    if x.0 == y.0 && y.0 == z.0 {
        lemma_lex_transitive(x.1, y.1, z.1);
    }
}

/// Reorders `items` stably by rank, `(primary[j], secondary[j])` being the
/// rank of `items[j]`: larger primary key first, then smaller secondary key
/// first, and items of equal rank in their input order.
pub fn order(items: Vec<Shortcut>, primary: Vec<u64>, secondary: Vec<String>) -> (r: Vec<Shortcut>)
    requires
        items.len() == primary.len(),
        items.len() == secondary.len(),
    ensures
        exists|perm: Seq<int>| is_stable_order(items@, pair_ranks(primary@, texts_view(secondary@)), r@, perm),
{
    let ghost keys = pair_ranks(primary@, texts_view(secondary@));
    let mut out: Vec<Shortcut> = Vec::new();
    let mut out_primary: Vec<u64> = Vec::new();
    let mut out_keys: Vec<Vec<char>> = Vec::new();
    let ghost mut perm: Seq<int> = Seq::empty();
    let mut i: usize = 0;
    while i < items.len()
        invariant
            items.len() == primary.len(),
            items.len() == secondary.len(),
            keys == pair_ranks(primary@, texts_view(secondary@)),
            keys.len() == items.len(),
            i <= items.len(),
            out.len() == i,
            out_keys.len() == i,
            out_primary.len() == i,
            perm.len() == i,
            forall|k: int|
                0 <= k < i ==> 0 <= #[trigger] perm[k] < i && out@[k] == items@[perm[k]]
                    && (out_primary@[k], out_keys@[k]@) == keys[perm[k]],
            forall|a: int, b: int| 0 <= a < b < i ==> #[trigger] perm[a] != #[trigger] perm[b],
            forall|a: int, b: int|
                0 <= a < b < i ==> !ranks_before(
                    keys.index(#[trigger] perm[b]),
                    keys.index(#[trigger] perm[a]),
                ),
            forall|a: int, b: int|
                0 <= a < b < i && keys.index(#[trigger] perm[a]) == keys.index(#[trigger] perm[b],
                ) ==> perm[a] < perm[b],
        decreases items.len() - i,
    {
        let ghost xr = keys[i as int];
        let count = primary[i];
        let key = chars_of(secondary[i].as_str());
        assert((count, key@) == keys[i as int]);
        let mut p: usize = 0;
        while p < out.len() && !(count > out_primary[p] || (count == out_primary[p] && lex_less_chars(
            &key,
            &out_keys[p],
        )))
            invariant
                p <= out.len(),
                out.len() == i,
                out_keys.len() == i,
                out_primary.len() == i,
                perm.len() == i,
                i < items.len(),
                keys.len() == items.len(),
                (count, key@) == keys[i as int],
                xr == keys[i as int],
                forall|k: int|
                    0 <= k < i ==> 0 <= #[trigger] perm[k] < i && out@[k] == items@[perm[k]]
                        && (out_primary@[k], out_keys@[k]@) == keys[perm[k]],
                forall|k: int| 0 <= k < p ==> !ranks_before(xr, keys.index(#[trigger] perm[k])),
            decreases out.len() - p,
        {
            p += 1;
        }
        let ghost old_perm = perm;
        proof {
            if p < i {
                assert(0 <= perm[p as int] < i);
                assert(ranks_before(xr, keys.index(perm[p as int])));
            }
            // Nothing after the insertion point ranks before the new item,
            // nor has its rank.
            assert forall|k: int| p <= k < i implies !ranks_before(
                keys.index(#[trigger] old_perm[k]),
                xr,
            ) && keys.index(old_perm[k]) != xr by {
                let yr = keys.index(old_perm[k]);
                let pr = keys.index(old_perm[p as int]);
                if k == p {
                    if ranks_before(yr, xr) {
                        lemma_rank_transitive(pr, xr, pr);
                        lemma_rank_irreflexive(pr);
                    }
                    if yr == xr {
                        lemma_rank_irreflexive(pr);
                    }
                } else {
                    assert(!ranks_before(yr, pr));
                    if ranks_before(yr, xr) {
                        lemma_rank_transitive(yr, xr, pr);
                    }
                }
            }
        }
        out.insert(p, items[i].clone());
        out_keys.insert(p, key);
        out_primary.insert(p, count);
        proof {
            perm = old_perm.insert(p as int, i as int);
            assert forall|k: int| 0 <= k < i + 1 implies 0 <= #[trigger] perm[k] < i + 1 && out@[k]
                == items@[perm[k]] && (out_primary@[k], out_keys@[k]@) == keys[perm[k]] by {
                if k > p {
                    assert(perm[k] == old_perm[k - 1]);
                } else if k < p {
                    assert(perm[k] == old_perm[k]);
                }
            }
            assert forall|a: int, b: int| 0 <= a < b < i + 1 implies #[trigger] perm[a] != #[trigger] perm[b] by {
                if a > p {
                    assert(perm[a] == old_perm[a - 1]);
                } else if a < p {
                    assert(perm[a] == old_perm[a]);
                }
                if b > p {
                    assert(perm[b] == old_perm[b - 1]);
                } else if b < p {
                    assert(perm[b] == old_perm[b]);
                }
            }
            assert forall|a: int, b: int| 0 <= a < b < i + 1 implies !ranks_before(
                keys.index(#[trigger] perm[b]),
                keys.index(#[trigger] perm[a]),
            ) && (keys.index(perm[a]) == keys.index(perm[b]) ==> perm[a] < perm[b]) by {
                if a > p {
                    assert(perm[a] == old_perm[a - 1]);
                    assert(perm[b] == old_perm[b - 1]);
                } else if a == p {
                    assert(perm[b] == old_perm[b - 1]);
                } else if b < p {
                    assert(perm[a] == old_perm[a]);
                    assert(perm[b] == old_perm[b]);
                } else if b == p {
                    assert(perm[a] == old_perm[a]);
                } else {
                    assert(perm[a] == old_perm[a]);
                    assert(perm[b] == old_perm[b - 1]);
                }
            }
        }
        i += 1;
    }
    assert(is_stable_order(items@, keys, out@, perm));
    out
}


/// Reorders `items` for search results, `name_keys[j]` being the sort key
/// of `items[j]`: more launches first, then smaller key first, and items of
/// equal rank in their input order.
pub fn rank(items: Vec<Shortcut>, name_keys: Vec<String>) -> (r: Vec<Shortcut>)
    requires
        items.len() == name_keys.len(),
    ensures
        exists|perm: Seq<int>| is_stable_ranking(items@, texts_view(name_keys@), r@, perm),
{
    let mut counts: Vec<u64> = Vec::new();
    let mut i: usize = 0;
    while i < items.len()
        invariant
            i <= items.len(),
            counts.len() == i,
            forall|k: int| 0 <= k < i ==> counts@[k] == #[trigger] items@[k].launch_count,
        decreases items.len() - i,
    {
        counts.push(items[i].launch_count);
        i += 1;
    }
    let ghost keys = texts_view(name_keys@);
    assert(pair_ranks(counts@, keys) =~= ranks_of(items@, keys));
    let ghost input = items@;
    let r = order(items, counts, name_keys);
    proof {
        let perm = choose|perm: Seq<int>| is_stable_order(input, pair_ranks(counts@, keys), r@, perm);
        assert(is_stable_ranking(input, keys, r@, perm));
    }
    r
}

/// Some output position comes from input position `j`.
pub open spec fn reached(perm: Seq<int>, j: int) -> bool {
    exists|k: int| 0 <= k < perm.len() && #[trigger] perm[k] == j
}

/// Every input position is reached by the reordering.
pub proof fn lemma_order_onto(items: Seq<Shortcut>, ranks: Seq<(u64, Seq<char>)>, output: Seq<Shortcut>, perm: Seq<int>)
    requires
        is_stable_order(items, ranks, output, perm),
    ensures
        forall|j: int| 0 <= j < items.len() ==> #[trigger] reached(perm, j),
{
    let n = items.len() as int;
    assert(perm.no_duplicates()) by {
        assert forall|a: int, b: int| 0 <= a < perm.len() && 0 <= b < perm.len() && a != b implies perm[a]
            != perm[b] by {
            if a < b {
                assert(perm[a] != perm[b]);
            } else {
                assert(perm[b] != perm[a]);
            }
        }
    }
    perm.unique_seq_to_set();
    vstd::set_lib::lemma_int_range(0, n);
    let range = vstd::set_lib::set_int_range(0, n);
    assert(perm.to_set().subset_of(range)) by {
        assert forall|v: int| #[trigger] perm.to_set().contains(v) implies range.contains(v) by {
            let k = choose|k: int| 0 <= k < perm.len() && perm[k] == v;
            assert(0 <= perm[k] < n);
        }
    }
    vstd::set_lib::lemma_len_subset(perm.to_set(), range);
    vstd::set_lib::lemma_subset_equality(perm.to_set(), range);
    assert forall|j: int| 0 <= j < n implies #[trigger] reached(perm, j) by {
        assert(range.contains(j));
        assert(perm.to_set().contains(j));
    }
}

/// A stable order only rearranges: it has as many items as its input, every
/// input item appears in it and every item in it comes from the input.
pub proof fn law_order_rearranges(items: Seq<Shortcut>, ranks: Seq<(u64, Seq<char>)>, output: Seq<Shortcut>, perm: Seq<int>)
    requires
        is_stable_order(items, ranks, output, perm),
    ensures
        output.len() == items.len(),
        forall|j: int| 0 <= j < items.len() ==> output.contains(#[trigger] items[j]),
        forall|k: int| 0 <= k < output.len() ==> items.contains(#[trigger] output[k]),
{
    lemma_order_onto(items, ranks, output, perm);
    assert forall|j: int| 0 <= j < items.len() implies output.contains(#[trigger] items[j]) by {
        assert(reached(perm, j));
        let k = choose|k: int| 0 <= k < perm.len() && #[trigger] perm[k] == j;
        assert(output[k] == items[j]);
    }
    assert forall|k: int| 0 <= k < output.len() implies items.contains(#[trigger] output[k]) by {
        assert(0 <= perm[k] < items.len());
        assert(items[perm[k]] == output[k]);
    }
}

/// In a stable order, primary keys never rise from one item to a later
/// one.
pub proof fn law_order_primary_never_rises(
    items: Seq<Shortcut>,
    ranks: Seq<(u64, Seq<char>)>,
    output: Seq<Shortcut>,
    perm: Seq<int>,
)
    requires
        is_stable_order(items, ranks, output, perm),
    ensures
        forall|a: int, b: int| 0 <= a < b < output.len() ==> #[trigger] ranks[perm[a]].0 >= #[trigger] ranks[perm[b]].0,
{
    assert forall|a: int, b: int| 0 <= a < b < output.len() implies #[trigger] ranks[perm[a]].0
        >= #[trigger] ranks[perm[b]].0 by {
        assert(!ranks_before(ranks[perm[b]], ranks[perm[a]]));
    }
}

/// Input position `i` comes before input position `j` in any ranking:
/// better rank, or equal rank and earlier input.
pub open spec fn precedes(items: Seq<Shortcut>, ranks: Seq<(u64, Seq<char>)>, i: int, j: int) -> bool {
    ranks_before(ranks.index(i), ranks.index(j)) || (ranks.index(i)
        == ranks.index(j) && i < j)
}

/// Two ranks are ordered one way or the other, or equal.
proof fn lemma_rank_trichotomy(x: (u64, Seq<char>), y: (u64, Seq<char>))
    ensures
        ranks_before(x, y) || ranks_before(y, x) || x == y,
{
    if x.0 == y.0 && x.1 != y.1 {
        lemma_lex_total(x.1, y.1);
    }
}

/// In a ranking, each output position's input precedes every later one's.
pub proof fn lemma_order_increasing(items: Seq<Shortcut>, ranks: Seq<(u64, Seq<char>)>, output: Seq<Shortcut>, perm: Seq<int>, a: int, b: int)
    requires
        is_stable_order(items, ranks, output, perm),
        0 <= a < b < perm.len(),
    ensures
        precedes(items, ranks, perm[a], perm[b]),
{
    let ra = ranks.index(perm[a]);
    let rb = ranks.index(perm[b]);
    assert(!ranks_before(rb, ra));
    lemma_rank_trichotomy(ra, rb);
}

/// `precedes` never holds both ways.
pub proof fn lemma_precedes_asymmetric(items: Seq<Shortcut>, ranks: Seq<(u64, Seq<char>)>, i: int, j: int)
    requires
        precedes(items, ranks, i, j),
    ensures
        !precedes(items, ranks, j, i),
{
    let ri = ranks.index(i);
    let rj = ranks.index(j);
    if ranks_before(ri, rj) && ranks_before(rj, ri) {
        lemma_rank_transitive(ri, rj, ri);
        lemma_rank_irreflexive(ri);
    }
    if ri == rj {
        lemma_rank_irreflexive(ri);
    }
}

/// Two rankings of the same input agree on their first `k` positions.
proof fn lemma_orders_agree_up_to(
    items: Seq<Shortcut>,
    ranks: Seq<(u64, Seq<char>)>,
    o1: Seq<Shortcut>,
    p1: Seq<int>,
    o2: Seq<Shortcut>,
    p2: Seq<int>,
    k: int,
)
    requires
        is_stable_order(items, ranks, o1, p1),
        is_stable_order(items, ranks, o2, p2),
        0 <= k <= items.len(),
    ensures
        forall|j: int| 0 <= j < k ==> #[trigger] p1[j] == p2[j],
    decreases k,
{
    if k > 0 {
        lemma_orders_agree_up_to(items, ranks, o1, p1, o2, p2, k - 1);
        let i = k - 1;
        let x = p1[i];
        let y = p2[i];
        lemma_order_onto(items, ranks, o1, p1);
        lemma_order_onto(items, ranks, o2, p2);
        assert(0 <= x < items.len());
        assert(0 <= y < items.len());
        assert(reached(p2, x));
        assert(reached(p1, y));
        let m = choose|m: int| 0 <= m < p2.len() && #[trigger] p2[m] == x;
        let n = choose|n: int| 0 <= n < p1.len() && #[trigger] p1[n] == y;
        if m < i {
            assert(p1[m] == p2[m]);
            assert(p1[m] != p1[i]);
        }
        if n < i {
            assert(p1[n] == p2[n]);
            assert(p2[n] != p2[i]);
        }
        if x != y {
            assert(m > i);
            assert(n > i);
            lemma_order_increasing(items, ranks, o2, p2, i, m);
            lemma_order_increasing(items, ranks, o1, p1, i, n);
            lemma_precedes_asymmetric(items, ranks, x, y);
        }
    }
}

/// A stable order is fully determined by its input: any two stable orders
/// of the same items with the same ranks are equal.
pub proof fn law_order_is_unique(
    items: Seq<Shortcut>,
    ranks: Seq<(u64, Seq<char>)>,
    o1: Seq<Shortcut>,
    p1: Seq<int>,
    o2: Seq<Shortcut>,
    p2: Seq<int>,
)
    requires
        is_stable_order(items, ranks, o1, p1),
        is_stable_order(items, ranks, o2, p2),
    ensures
        o1 == o2,
{
    lemma_orders_agree_up_to(items, ranks, o1, p1, o2, p2, items.len() as int);
    assert forall|k: int| 0 <= k < o1.len() implies o1[k] == o2[k] by {
        assert(p1[k] == p2[k]);
    }
    assert(o1 =~= o2);
}

/// A search ranking only rearranges: it has as many items as its input,
/// every input item appears in it and every item in it comes from the input.
pub proof fn law_ranking_rearranges(items: Seq<Shortcut>, keys: Seq<Seq<char>>, output: Seq<Shortcut>, perm: Seq<int>)
    requires
        is_stable_ranking(items, keys, output, perm),
    ensures
        output.len() == items.len(),
        forall|j: int| 0 <= j < items.len() ==> output.contains(#[trigger] items[j]),
        forall|k: int| 0 <= k < output.len() ==> items.contains(#[trigger] output[k]),
{
    law_order_rearranges(items, ranks_of(items, keys), output, perm);
}

/// In a search ranking, launch counts never rise from one item to a later
/// one.
pub proof fn law_ranking_most_launched_first(
    items: Seq<Shortcut>,
    keys: Seq<Seq<char>>,
    output: Seq<Shortcut>,
    perm: Seq<int>,
)
    requires
        is_stable_ranking(items, keys, output, perm),
    ensures
        forall|a: int, b: int| 0 <= a < b < output.len() ==> #[trigger] output[a].launch_count >= #[trigger] output[b].launch_count,
{
    let ranks = ranks_of(items, keys);
    law_order_primary_never_rises(items, ranks, output, perm);
    assert forall|a: int, b: int| 0 <= a < b < output.len() implies #[trigger] output[a].launch_count
        >= #[trigger] output[b].launch_count by {
        assert(ranks[perm[a]].0 >= ranks[perm[b]].0);
    }
}

/// A search ranking is fully determined by its input: any two rankings of
/// the same items with the same keys are equal.
pub proof fn law_ranking_is_unique(
    items: Seq<Shortcut>,
    keys: Seq<Seq<char>>,
    o1: Seq<Shortcut>,
    p1: Seq<int>,
    o2: Seq<Shortcut>,
    p2: Seq<int>,
)
    requires
        is_stable_ranking(items, keys, o1, p1),
        is_stable_ranking(items, keys, o2, p2),
    ensures
        o1 == o2,
{
    law_order_is_unique(items, ranks_of(items, keys), o1, p1, o2, p2);
}

} // verus!
