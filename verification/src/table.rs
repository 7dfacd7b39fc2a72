//! Sorting the shortcut table by one of its columns: name, category, hotkey
//! or launch count, either way round.

use vstd::prelude::*;
use crate::ranking::{
    ranks_before, is_stable_order, law_order_is_unique, law_order_primary_never_rises, law_order_rearranges, order,
    pair_ranks, texts_view,
};
use crate::shortcut::Shortcut;
use crate::text::{lex_less, lowercase_text, to_lowercase};

verus! {

/// A column of the shortcut table that the table can be sorted by.
#[derive(Clone, Copy, Debug, PartialEq, Eq, Structural)]
pub enum SortColumn {
    Name,
    Category,
    Hotkey,
    Launches,
}

/// The rank of a shortcut under a column, for `order`: text columns by
/// their lowercased text (a missing hotkey as the empty text), the launch
/// count column fewest launches first.
pub open spec fn column_rank(s: Shortcut, column: SortColumn) -> (u64, Seq<char>) {
    match column {
        SortColumn::Name => (0u64, lowercase_text(s.name@)),
        SortColumn::Category => (0u64, lowercase_text(s.category@)),
        SortColumn::Hotkey => (
            0u64,
            match s.hotkey {
                Some(h) => lowercase_text(h@),
                None => Seq::empty(),
            },
        ),
        SortColumn::Launches => ((u64::MAX - s.launch_count) as u64, Seq::empty()),
    }
}

/// The ranks of all `items` under `column`.
pub open spec fn column_ranks(items: Seq<Shortcut>, column: SortColumn) -> Seq<(u64, Seq<char>)> {
    Seq::new(items.len(), |j: int| column_rank(items[j], column))
}

/// `output` is `items` sorted by `column`: ascending and stable when
/// `descending` is false, and that order reversed when it is true.
pub open spec fn is_column_sort(
    items: Seq<Shortcut>,
    column: SortColumn,
    descending: bool,
    output: Seq<Shortcut>,
) -> bool {
    exists|ascending: Seq<Shortcut>, perm: Seq<int>|
        is_stable_order(items, column_ranks(items, column), ascending, perm) && output == (
        if descending {
            ascending.reverse()
        } else {
            ascending
        })
}

/// The rank of `s` under `column`, computed.
fn rank_under(s: &Shortcut, column: SortColumn) -> (r: (u64, String))
    ensures
        (r.0, r.1@) == column_rank(*s, column),
{
    match column {
        SortColumn::Name => (0, to_lowercase(s.name.as_str())),
        SortColumn::Category => (0, to_lowercase(s.category.as_str())),
        SortColumn::Hotkey => match &s.hotkey {
            Some(h) => (0, to_lowercase(h.as_str())),
            None => (0, String::new()),
        },
        SortColumn::Launches => (u64::MAX - s.launch_count, String::new()),
    }
}

/// `items` in the opposite order.
fn reversed(items: Vec<Shortcut>) -> (r: Vec<Shortcut>)
    ensures
        r@ == items@.reverse(),
{
    let ghost orig = items@;
    let mut rest = items;
    let mut r: Vec<Shortcut> = Vec::new();
    while rest.len() > 0
        invariant
            rest.len() + r.len() == orig.len(),
            rest@ == orig.subrange(0, rest.len() as int),
            forall|k: int| 0 <= k < r.len() ==> #[trigger] r@[k] == orig[orig.len() - 1 - k],
        decreases rest.len(),
    {
        let x = rest.pop().unwrap();
        r.push(x);
    }
    assert(r@ =~= orig.reverse());
    r
}

/// Sorts `items` by `column`: by lowercased name, category or hotkey text
/// (shortcuts without a hotkey first), or by launch count (fewest first);
/// equals keep their order. With `descending` the sorted list is reversed.
pub fn sort_by_column(items: Vec<Shortcut>, column: SortColumn, descending: bool) -> (r: Vec<Shortcut>)
    ensures
        is_column_sort(items@, column, descending, r@),
{
    let mut primary: Vec<u64> = Vec::new();
    let mut secondary: Vec<String> = Vec::new();
    let mut i: usize = 0;
    while i < items.len()
        invariant
            i <= items.len(),
            primary.len() == i,
            secondary.len() == i,
            forall|k: int|
                0 <= k < i ==> (#[trigger] primary@[k], secondary@[k]@) == column_rank(items@[k], column),
        decreases items.len() - i,
    {
        let (p, s) = rank_under(&items[i], column);
        primary.push(p);
        secondary.push(s);
        i += 1;
    }
    let ghost input = items@;
    let ghost ranks = pair_ranks(primary@, texts_view(secondary@));
    assert(ranks =~= column_ranks(input, column));
    let ascending = order(items, primary, secondary);
    let ghost asc = ascending@;
    let ghost perm = choose|perm: Seq<int>| is_stable_order(input, ranks, asc, perm);
    if descending {
        let r = reversed(ascending);
        assert(is_stable_order(input, column_ranks(input, column), asc, perm) && r@ == asc.reverse());
        r
    } else {
        assert(is_stable_order(input, column_ranks(input, column), asc, perm));
        ascending
    }
}

/// The table's sort after a click on `column`'s header: by that column,
/// ascending, or the other way round when it was already sorted by it.
pub fn next_sort(sort: Option<(SortColumn, bool)>, column: SortColumn) -> (r: Option<(SortColumn, bool)>)
    ensures
        r == Some(
            (
                column,
                match sort {
                    Some((c, descending)) => c == column && !descending,
                    None => false,
                },
            ),
        ),
{
    match sort {
        Some((c, descending)) => {
            if c == column {
                Some((column, !descending))
            } else {
                Some((column, false))
            }
        },
        None => Some((column, false)),
    }
}

/// A column sort is fully determined by its input: two sorts of the same
/// items by the same column in the same direction are equal.
pub proof fn law_column_sort_is_unique(
    items: Seq<Shortcut>,
    column: SortColumn,
    descending: bool,
    o1: Seq<Shortcut>,
    o2: Seq<Shortcut>,
)
    requires
        is_column_sort(items, column, descending, o1),
        is_column_sort(items, column, descending, o2),
    ensures
        o1 == o2,
{
    let ranks = column_ranks(items, column);
    let (a1, p1) = choose|a: Seq<Shortcut>, p: Seq<int>|
        is_stable_order(items, ranks, a, p) && o1 == (if descending { a.reverse() } else { a });
    let (a2, p2) = choose|a: Seq<Shortcut>, p: Seq<int>|
        is_stable_order(items, ranks, a, p) && o2 == (if descending { a.reverse() } else { a });
    law_order_is_unique(items, ranks, a1, p1, a2, p2);
}

/// Sorting one way and the other gives the same list in opposite orders.
pub proof fn law_descending_reverses_ascending(
    items: Seq<Shortcut>,
    column: SortColumn,
    up: Seq<Shortcut>,
    down: Seq<Shortcut>,
)
    requires
        is_column_sort(items, column, false, up),
        is_column_sort(items, column, true, down),
    ensures
        down == up.reverse(),
{
    let ranks = column_ranks(items, column);
    let (a1, p1) = choose|a: Seq<Shortcut>, p: Seq<int>| is_stable_order(items, ranks, a, p) && up == a;
    let (a2, p2) = choose|a: Seq<Shortcut>, p: Seq<int>|
        is_stable_order(items, ranks, a, p) && down == a.reverse();
    law_order_is_unique(items, ranks, a1, p1, a2, p2);
}

/// A column sort only rearranges: it has as many items as its input, every
/// input item appears in it and every item in it comes from the input.
pub proof fn law_column_sort_rearranges(
    items: Seq<Shortcut>,
    column: SortColumn,
    descending: bool,
    output: Seq<Shortcut>,
)
    requires
        is_column_sort(items, column, descending, output),
    ensures
        output.len() == items.len(),
        forall|j: int| 0 <= j < items.len() ==> output.contains(#[trigger] items[j]),
        forall|k: int| 0 <= k < output.len() ==> items.contains(#[trigger] output[k]),
{
    let ranks = column_ranks(items, column);
    let (a, p) = choose|a: Seq<Shortcut>, p: Seq<int>|
        is_stable_order(items, ranks, a, p) && output == (if descending { a.reverse() } else { a });
    law_order_rearranges(items, ranks, a, p);
    if descending {
        let n = a.len();
        assert forall|j: int| 0 <= j < items.len() implies output.contains(#[trigger] items[j]) by {
            let k = choose|k: int| 0 <= k < a.len() && a[k] == items[j];
            assert(output[n - 1 - k] == a[k]);
        }
        assert forall|k: int| 0 <= k < output.len() implies items.contains(#[trigger] output[k]) by {
            assert(output[k] == a[n - 1 - k]);
            assert(a.contains(a[n - 1 - k]));
        }
    }
}

/// Sorted by launch count, counts never fall from one row to a later one
/// (never rise when descending).
pub proof fn law_launch_sort_is_monotone(
    items: Seq<Shortcut>,
    descending: bool,
    output: Seq<Shortcut>,
)
    requires
        is_column_sort(items, SortColumn::Launches, descending, output),
    ensures
        forall|a: int, b: int|
            0 <= a < b < output.len() ==> if descending {
                #[trigger] output[a].launch_count >= #[trigger] output[b].launch_count
            } else {
                output[a].launch_count <= output[b].launch_count
            },
{
    let ranks = column_ranks(items, SortColumn::Launches);
    let (asc, p) = choose|a: Seq<Shortcut>, p: Seq<int>|
        is_stable_order(items, ranks, a, p) && output == (if descending { a.reverse() } else { a });
    law_order_primary_never_rises(items, ranks, asc, p);
    let n = asc.len();
    assert forall|x: int, y: int| 0 <= x < y < n implies #[trigger] asc[x].launch_count
        <= #[trigger] asc[y].launch_count by {
        assert(ranks[p[x]].0 >= ranks[p[y]].0);
        assert(asc[x] == items[p[x]]);
        assert(asc[y] == items[p[y]]);
    }
    assert forall|a: int, b: int| 0 <= a < b < output.len() implies if descending {
        #[trigger] output[a].launch_count >= #[trigger] output[b].launch_count
    } else {
        output[a].launch_count <= output[b].launch_count
    } by {
        if descending {
            assert(output[a] == asc[n - 1 - a]);
            assert(output[b] == asc[n - 1 - b]);
            assert(asc[n - 1 - b].launch_count <= asc[n - 1 - a].launch_count);
        } else {
            assert(asc[a].launch_count <= asc[b].launch_count);
        }
    }
}

/// Sorted by a text column, the column's sort texts never fall from one row
/// to a later one (never rise when descending).
proof fn lemma_text_sort_is_ordered(
    items: Seq<Shortcut>,
    column: SortColumn,
    descending: bool,
    output: Seq<Shortcut>,
)
    requires
        is_column_sort(items, column, descending, output),
        column != SortColumn::Launches,
    ensures
        forall|a: int, b: int|
            0 <= a < b < output.len() ==> if descending {
                !lex_less(column_rank(#[trigger] output[a], column).1, column_rank(#[trigger] output[b], column).1)
            } else {
                !lex_less(column_rank(output[b], column).1, column_rank(output[a], column).1)
            },
{
    let ranks = column_ranks(items, column);
    let (asc, p) = choose|a: Seq<Shortcut>, p: Seq<int>|
        is_stable_order(items, ranks, a, p) && output == (if descending { a.reverse() } else { a });
    let n = asc.len();
    assert forall|x: int, y: int| 0 <= x < y < n implies !lex_less(
        column_rank(#[trigger] asc[y], column).1,
        column_rank(#[trigger] asc[x], column).1,
    ) by {
        assert(!ranks_before(ranks[p[y]], ranks[p[x]]));
        assert(asc[x] == items[p[x]]);
        assert(asc[y] == items[p[y]]);
    }
    assert forall|a: int, b: int| 0 <= a < b < output.len() implies if descending {
        !lex_less(column_rank(#[trigger] output[a], column).1, column_rank(#[trigger] output[b], column).1)
    } else {
        !lex_less(column_rank(output[b], column).1, column_rank(output[a], column).1)
    } by {
        if descending {
            assert(output[a] == asc[n - 1 - a]);
            assert(output[b] == asc[n - 1 - b]);
            assert(!lex_less(column_rank(asc[n - 1 - a], column).1, column_rank(asc[n - 1 - b], column).1));
        } else {
            assert(!lex_less(column_rank(asc[b], column).1, column_rank(asc[a], column).1));
        }
    }
}

/// Sorted by name, the lowercased names never fall from one row to a later
/// one (never rise when descending): the order depends on the names alone.
pub proof fn law_name_sort_is_ordered(items: Seq<Shortcut>, descending: bool, output: Seq<Shortcut>)
    requires
        is_column_sort(items, SortColumn::Name, descending, output),
    ensures
        forall|a: int, b: int|
            0 <= a < b < output.len() ==> if descending {
                !lex_less(lowercase_text((#[trigger] output[a]).name@), lowercase_text((#[trigger] output[b]).name@))
            } else {
                !lex_less(lowercase_text(output[b].name@), lowercase_text(output[a].name@))
            },
{
    lemma_text_sort_is_ordered(items, SortColumn::Name, descending, output);
    assert forall|a: int, b: int| 0 <= a < b < output.len() implies if descending {
        !lex_less(lowercase_text((#[trigger] output[a]).name@), lowercase_text((#[trigger] output[b]).name@))
    } else {
        !lex_less(lowercase_text(output[b].name@), lowercase_text(output[a].name@))
    } by {
        assert(column_rank(output[a], SortColumn::Name).1 == lowercase_text(output[a].name@));
        assert(column_rank(output[b], SortColumn::Name).1 == lowercase_text(output[b].name@));
    }
}

/// Sorted by category, the lowercased categories never fall from one row to
/// a later one (never rise when descending).
pub proof fn law_category_sort_is_ordered(items: Seq<Shortcut>, descending: bool, output: Seq<Shortcut>)
    requires
        is_column_sort(items, SortColumn::Category, descending, output),
    ensures
        forall|a: int, b: int|
            0 <= a < b < output.len() ==> if descending {
                !lex_less(
                    lowercase_text((#[trigger] output[a]).category@),
                    lowercase_text((#[trigger] output[b]).category@),
                )
            } else {
                !lex_less(lowercase_text(output[b].category@), lowercase_text(output[a].category@))
            },
{
    lemma_text_sort_is_ordered(items, SortColumn::Category, descending, output);
    assert forall|a: int, b: int| 0 <= a < b < output.len() implies if descending {
        !lex_less(lowercase_text((#[trigger] output[a]).category@), lowercase_text((#[trigger] output[b]).category@))
    } else {
        !lex_less(lowercase_text(output[b].category@), lowercase_text(output[a].category@))
    } by {
        assert(column_rank(output[a], SortColumn::Category).1 == lowercase_text(output[a].category@));
        assert(column_rank(output[b], SortColumn::Category).1 == lowercase_text(output[b].category@));
    }
}

/// Sorted by hotkey, the lowercased hotkey texts (a missing hotkey counting
/// as the empty text, so first) never fall from one row to a later one
/// (never rise when descending).
pub proof fn law_hotkey_sort_is_ordered(items: Seq<Shortcut>, descending: bool, output: Seq<Shortcut>)
    requires
        is_column_sort(items, SortColumn::Hotkey, descending, output),
    ensures
        forall|a: int, b: int|
            0 <= a < b < output.len() ==> {
                let ta = match (#[trigger] output[a]).hotkey {
                    Some(h) => lowercase_text(h@),
                    None => Seq::<char>::empty(),
                };
                let tb = match (#[trigger] output[b]).hotkey {
                    Some(h) => lowercase_text(h@),
                    None => Seq::<char>::empty(),
                };
                if descending {
                    !lex_less(ta, tb)
                } else {
                    !lex_less(tb, ta)
                }
            },
{
    lemma_text_sort_is_ordered(items, SortColumn::Hotkey, descending, output);
}

} // verus!
