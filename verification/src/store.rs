//! The in-memory collection of shortcuts: lookup, editing, the category list
//! and ranked search. Persisting it to disk is left to the caller.

use vstd::prelude::*;
use crate::shortcut::Shortcut;
use crate::ranking::{
    lemma_order_increasing, lemma_order_onto, lemma_precedes_asymmetric, precedes, ranks_of, reached,
    is_stable_ranking, law_ranking_is_unique, law_ranking_most_launched_first, law_ranking_rearranges,
    rank, texts_view,
};
use crate::text::{
    chars_of, contains_text, has_substring, lemma_lex_total, lemma_lex_transitive, lex_less,
    lex_less_chars, lowercase_text, same_text, to_lowercase, trim, trimmed_of, ascii_lowercase_of,
    is_ascii_text, lemma_trimmed_ascii, lemma_trimmed_lowercase,
};

verus! {

/// `i` is the first position of `s` whose shortcut has id `id`.
pub open spec fn is_first_with_id(s: Seq<Shortcut>, id: Seq<char>, i: int) -> bool {
    &&& 0 <= i < s.len()
    &&& s[i].id@ == id
    &&& forall|j: int| 0 <= j < i ==> (#[trigger] s[j]).id@ != id
}

/// No shortcut of `s` has id `id`.
pub open spec fn lacks_id(s: Seq<Shortcut>, id: Seq<char>) -> bool {
    forall|j: int| 0 <= j < s.len() ==> (#[trigger] s[j]).id@ != id
}

/// `s` with its launch count one higher.
pub open spec fn launched_once_more(s: Shortcut) -> Shortcut {
    Shortcut { launch_count: (s.launch_count + 1) as u64, ..s }
}

/// Some shortcut of `s` has the non-empty category `c`.
pub open spec fn has_category(s: Seq<Shortcut>, c: Seq<char>) -> bool {
    c.len() > 0 && exists|i: int| 0 <= i < s.len() && (#[trigger] s[i]).category@ == c
}

/// Every shortcut of `s` has an empty category.
pub open spec fn no_categories(s: Seq<Shortcut>) -> bool {
    forall|i: int| 0 <= i < s.len() ==> (#[trigger] s[i]).category@.len() == 0
}

/// The texts of `r` rise strictly in lexicographic order.
pub open spec fn strictly_ascending(r: Seq<String>) -> bool {
    forall|a: int, b: int| 0 <= a < b < r.len() ==> lex_less(#[trigger] r[a]@, #[trigger] r[b]@)
}

/// `r` lists exactly the non-empty categories of `s`, each once, in
/// ascending order.
pub open spec fn lists_categories(r: Seq<String>, s: Seq<Shortcut>) -> bool {
    &&& strictly_ascending(r)
    &&& forall|k: int| 0 <= k < r.len() ==> has_category(s, #[trigger] r[k]@)
    &&& forall|c: Seq<char>| has_category(s, c) ==> exists|k: int| 0 <= k < r.len() && #[trigger] r[k]@ == c
}

/// `keys` are the characters of `out`, position by position.
spec fn aligned(out: Seq<String>, keys: Seq<Vec<char>>) -> bool {
    &&& out.len() == keys.len()
    &&& forall|k: int| 0 <= k < out.len() ==> (#[trigger] out[k])@ == keys[k]@
}

/// `keys` rise strictly in lexicographic order.
spec fn ascending_keys(keys: Seq<Vec<char>>) -> bool {
    forall|a: int, b: int| 0 <= a < b < keys.len() ==> lex_less(#[trigger] keys[a]@, #[trigger] keys[b]@)
}

/// `y` is one of `keys`.
spec fn listed(keys: Seq<Vec<char>>, y: Seq<char>) -> bool {
    exists|k: int| 0 <= k < keys.len() && #[trigger] keys[k]@ == y
}

/// Inserting `key` into `before` lists what `before` lists and `key`.
proof fn lemma_listed_after_insert(before: Seq<Vec<char>>, after: Seq<Vec<char>>, p: int, key: Vec<char>)
    requires
        0 <= p <= before.len(),
        after == before.insert(p, key),
    ensures
        forall|y: Seq<char>| listed(after, y) <==> (listed(before, y) || y == key@),
{
    assert forall|y: Seq<char>| listed(after, y) <==> (listed(before, y) || y == key@) by {
        if listed(after, y) {
            let k = choose|k: int| 0 <= k < after.len() && #[trigger] after[k]@ == y;
            if k < p {
                assert(after[k] == before[k]);
            } else if k > p {
                assert(after[k] == before[k - 1]);
            }
        }
        if listed(before, y) {
            let k = choose|k: int| 0 <= k < before.len() && #[trigger] before[k]@ == y;
            if k < p {
                assert(after[k] == before[k]);
            } else {
                assert(after[k + 1] == before[k]);
            }
        }
        if y == key@ {
            assert(after[p]@ == y);
        }
    }
}

/// Puts `text` into the strictly ascending list `out` (with its characters
/// `key` into `keys`) unless it is already there.
fn insert_distinct(out: &mut Vec<String>, keys: &mut Vec<Vec<char>>, text: String, key: Vec<char>)
    requires
        aligned(old(out)@, old(keys)@),
        ascending_keys(old(keys)@),
        text@ == key@,
    ensures
        aligned(final(out)@, final(keys)@),
        ascending_keys(final(keys)@),
        forall|y: Seq<char>| listed(final(keys)@, y) <==> (listed(old(keys)@, y) || y == key@),
{
    let ghost old_keys = keys@;
    let mut p: usize = 0;
    while p < keys.len() && lex_less_chars(&keys[p], &key)
        invariant
            p <= keys.len(),
            keys@ == old_keys,
            forall|k: int| 0 <= k < p ==> lex_less(#[trigger] keys@[k]@, key@),
        decreases keys.len() - p,
    {
        p += 1;
    }
    if p < keys.len() && !lex_less_chars(&key, &keys[p]) {
        proof {
            if keys@[p as int]@ != key@ {
                lemma_lex_total(keys@[p as int]@, key@);
            }
        }
        assert(keys@[p as int]@ == key@);
        return;
    }
    proof {
        if p < keys.len() {
            assert forall|k: int| p <= k < old_keys.len() implies lex_less(key@, #[trigger] old_keys[k]@) by {
                if k > p {
                    lemma_lex_transitive(key@, old_keys[p as int]@, old_keys[k]@);
                }
            }
        }
    }
    let ghost key_copy = key;
    out.insert(p, text);
    keys.insert(p, key);
    proof {
        assert forall|a: int, b: int| 0 <= a < b < keys@.len() implies lex_less(
            #[trigger] keys@[a]@,
            #[trigger] keys@[b]@,
        ) by {
            if b < p {
            } else if b == p {
            } else if a < p {
                assert(keys@[b] == old_keys[b - 1]);
                lemma_lex_transitive(keys@[a]@, key@, keys@[b]@);
            } else if a == p {
                assert(keys@[b] == old_keys[b - 1]);
            } else {
                assert(keys@[a] == old_keys[a - 1]);
                assert(keys@[b] == old_keys[b - 1]);
            }
        }
        lemma_listed_after_insert(old_keys, keys@, p as int, key_copy);
        assert forall|k: int| 0 <= k < out@.len() implies (#[trigger] out@[k])@ == keys@[k]@ by {
            if k < p {
            } else if k > p {
                assert(out@[k] == old(out)@[k - 1]);
            }
        }
    }
}

/// The characters of an optional text.
pub open spec fn opt_text(o: Option<&str>) -> Option<Seq<char>> {
    match o {
        Some(s) => Some(s@),
        None => None,
    }
}

/// The category filter lets category `c` through: no filter, the filter
/// "All", or exactly `c`.
pub open spec fn category_allows(filter: Option<Seq<char>>, c: Seq<char>) -> bool {
    match filter {
        None => true,
        Some(f) => f == seq!['A', 'l', 'l'] || c == f,
    }
}

/// The (already trimmed and lowercased) query `q` lets a shortcut through
/// whose lowercased name and category are given: `q` is empty or occurs in
/// one of them.
pub open spec fn query_allows(q: Seq<char>, name_lower: Seq<char>, category_lower: Seq<char>) -> bool {
    q.len() == 0 || has_substring(name_lower, q) || has_substring(category_lower, q)
}

/// The form in which a search compares its query: trimmed, then lowercased
/// (a blank query stays empty).
pub open spec fn normalized_query(query: Seq<char>) -> Seq<char> {
    if trimmed_of(query).len() == 0 {
        Seq::empty()
    } else {
        lowercase_text(trimmed_of(query))
    }
}

/// Shortcut `s` is among the results of a search with normalized query `q`
/// and category filter `filter`.
pub open spec fn search_selects(s: Shortcut, q: Seq<char>, filter: Option<Seq<char>>) -> bool {
    category_allows(filter, s.category@) && query_allows(
        q,
        lowercase_text(s.name@),
        lowercase_text(s.category@),
    )
}

/// The sort keys of search results: their lowercased names.
pub open spec fn lowered_names(s: Seq<Shortcut>) -> Seq<Seq<char>> {
    s.map_values(|x: Shortcut| lowercase_text(x.name@))
}

/// Whether the category filter lets `shortcut_category` through.
pub fn category_matches(filter: Option<&str>, shortcut_category: &str) -> (r: bool)
    ensures
        r == category_allows(opt_text(filter), shortcut_category@),
{
    match filter {
        None => true,
        Some(f) => {
            proof {
                reveal_strlit("All");
            }
            let all = same_text(f, "All");
            assert("All"@ =~= seq!['A', 'l', 'l']);
            all || same_text(shortcut_category, f)
        },
    }
}

/// Whether the normalized query lets a shortcut through, given its
/// lowercased name and category.
pub fn query_matches(query: &str, name_lower: &str, category_lower: &str) -> (r: bool)
    ensures
        r == query_allows(query@, name_lower@, category_lower@),
{
    query.is_empty() || contains_text(name_lower, query) || contains_text(category_lower, query)
}

/// `r` is what searching shortcuts `s` with `query` and category filter
/// `filter` yields: the selected shortcuts, ranked.
pub open spec fn is_search_result(
    s: Seq<Shortcut>,
    query: Seq<char>,
    filter: Option<Seq<char>>,
    r: Seq<Shortcut>,
) -> bool {
    let chosen = s.filter(|x: Shortcut| search_selects(x, normalized_query(query), filter));
    exists|perm: Seq<int>| is_stable_ranking(chosen, lowered_names(chosen), r, perm)
}

/// The shortcuts of a store, in the order they were added.
pub struct ShortcutStore {
    shortcuts: Vec<Shortcut>,
}

impl View for ShortcutStore {
    type V = Seq<Shortcut>;

    closed spec fn view(&self) -> Seq<Shortcut> {
        self.shortcuts@
    }
}

impl ShortcutStore {
    /// A store holding `shortcuts`, in that order (what loading a saved
    /// list yields).
    pub fn new(shortcuts: Vec<Shortcut>) -> (r: ShortcutStore)
        ensures
            r@ == shortcuts@,
    {
        ShortcutStore { shortcuts }
    }

    /// Position of the first shortcut with id `id`.
    fn position_of(&self, id: &str) -> (r: Option<usize>)
        ensures
            match r {
                Some(i) => is_first_with_id(self@, id@, i as int),
                None => lacks_id(self@, id@),
            },
    {
        let mut i: usize = 0;
        while i < self.shortcuts.len()
            invariant
                i <= self.shortcuts.len(),
                forall|j: int| 0 <= j < i ==> (#[trigger] self.shortcuts@[j]).id@ != id@,
            decreases self.shortcuts.len() - i,
        {
            if same_text(self.shortcuts[i].id.as_str(), id) {
                return Some(i);
            }
            i += 1;
        }
        None
    }

    /// A copy of every shortcut, in store order.
    pub fn get_all(&self) -> (r: Vec<Shortcut>)
        ensures
            r@ == self@,
    {
        let mut r: Vec<Shortcut> = Vec::new();
        let mut i: usize = 0;
        while i < self.shortcuts.len()
            invariant
                i <= self.shortcuts.len(),
                r@ == self.shortcuts@.take(i as int),
            decreases self.shortcuts.len() - i,
        {
            r.push(self.shortcuts[i].clone());
            assert(self.shortcuts@.take(i + 1) =~= self.shortcuts@.take(i as int).push(
                self.shortcuts@[i as int],
            ));
            i += 1;
        }
        assert(self.shortcuts@.take(i as int) =~= self.shortcuts@);
        r
    }

    /// Appends `shortcut` at the end.
    pub fn add(&mut self, shortcut: Shortcut)
        ensures
            final(self)@ == old(self)@.push(shortcut),
    {
        self.shortcuts.push(shortcut);
    }

    /// Replaces the first shortcut whose id is that of `shortcut`; answers
    /// whether one was found (when none is, nothing changes).
    pub fn update(&mut self, shortcut: Shortcut) -> (changed: bool)
        ensures
            changed == !lacks_id(old(self)@, shortcut.id@),
            changed ==> exists|i: int|
                is_first_with_id(old(self)@, shortcut.id@, i) && final(self)@ == old(self)@.update(
                    i,
                    shortcut,
                ),
            !changed ==> final(self)@ == old(self)@,
    {
        match self.position_of(shortcut.id.as_str()) {
            Some(i) => {
                self.shortcuts.set(i, shortcut);
                true
            },
            None => false,
        }
    }

    /// Removes every shortcut whose id is `id`; the others keep their order.
    pub fn delete(&mut self, id: &str)
        ensures
            final(self)@ == old(self)@.filter(|s: Shortcut| s.id@ != id@),
    {
        let ghost keep = |s: Shortcut| s.id@ != id@;
        let mut kept: Vec<Shortcut> = Vec::new();
        let mut i: usize = 0;
        while i < self.shortcuts.len()
            invariant
                i <= self.shortcuts.len(),
                kept@ == self.shortcuts@.take(i as int).filter(keep),
                keep == (|s: Shortcut| s.id@ != id@),
            decreases self.shortcuts.len() - i,
        {
            reveal_with_fuel(Seq::<_>::filter, 1);
            assert(self.shortcuts@.take(i + 1).drop_last() =~= self.shortcuts@.take(i as int));
            if !same_text(self.shortcuts[i].id.as_str(), id) {
                kept.push(self.shortcuts[i].clone());
            }
            i += 1;
        }
        assert(self.shortcuts@.take(i as int) =~= self.shortcuts@);
        self.shortcuts = kept;
    }

    /// Adds one to the launch count of the first shortcut with id `id`;
    /// answers whether one was found (when none is, nothing changes).
    pub fn bump_launch_count(&mut self, id: &str) -> (changed: bool)
        requires
            forall|i: int|
                is_first_with_id(old(self)@, id@, i) ==> old(self)@[i].launch_count < u64::MAX,
        ensures
            changed == !lacks_id(old(self)@, id@),
            changed ==> exists|i: int|
                is_first_with_id(old(self)@, id@, i) && final(self)@ == old(self)@.update(
                    i,
                    launched_once_more(old(self)@[i]),
                ),
            !changed ==> final(self)@ == old(self)@,
    {
        match self.position_of(id) {
            Some(i) => {
                let mut s = self.shortcuts[i].clone();
                s.launch_count = s.launch_count + 1;
                self.shortcuts.set(i, s);
                true
            },
            None => false,
        }
    }

    /// The non-empty categories in use, each once, in ascending order; the
    /// single default category when no shortcut has one.
    pub fn categories(&self) -> (r: Vec<String>)
        ensures
            no_categories(self@) ==> r@.len() == 1 && r@[0]@ == crate::shortcut::default_category(),
            !no_categories(self@) ==> lists_categories(r@, self@),
    {
        let mut out: Vec<String> = Vec::new();
        let mut keys: Vec<Vec<char>> = Vec::new();
        let mut i: usize = 0;
        while i < self.shortcuts.len()
            invariant
                i <= self.shortcuts.len(),
                aligned(out@, keys@),
                ascending_keys(keys@),
                forall|y: Seq<char>| listed(keys@, y) <==> has_category(self@.take(i as int), y),
            decreases self.shortcuts.len() - i,
        {
            let ghost before = self@.take(i as int);
            let ghost after = self@.take(i + 1);
            let c = &self.shortcuts[i].category;
            if !c.as_str().is_empty() {
                let key = chars_of(c.as_str());
                insert_distinct(&mut out, &mut keys, c.clone(), key);
            }
            proof {
                assert forall|y: Seq<char>| has_category(after, y) <==> (has_category(before, y) || (
                y == self@[i as int].category@ && y.len() > 0)) by {
                    if has_category(after, y) {
                        let j = choose|j: int| 0 <= j < after.len() && (#[trigger] after[j]).category@ == y;
                        if j < i {
                            assert(before[j] == after[j]);
                        }
                    }
                    if has_category(before, y) {
                        let j = choose|j: int| 0 <= j < before.len() && (#[trigger] before[j]).category@ == y;
                        assert(before[j] == after[j]);
                    }
                    if y == self@[i as int].category@ && y.len() > 0 {
                        assert(after[i as int] == self@[i as int]);
                    }
                }
            }
            i += 1;
        }
        assert(self@.take(i as int) =~= self@);
        if out.len() == 0 {
            proof {
                assert forall|j: int| 0 <= j < self@.len() implies (#[trigger] self@[j]).category@.len() == 0 by {
                    if self@[j].category@.len() > 0 {
                        assert(has_category(self@, self@[j].category@));
                        assert(listed(keys@, self@[j].category@));
                    }
                }
            }
            let mut r: Vec<String> = Vec::new();
            r.push(crate::shortcut::default_category_text());
            return r;
        }
        proof {
            assert(listed(keys@, keys@[0]@));
            assert(has_category(self@, out@[0]@));
            let j = choose|j: int| 0 <= j < self@.len() && (#[trigger] self@[j]).category@ == out@[0]@;
            assert(self@[j].category@.len() > 0);
            assert forall|k: int| 0 <= k < out@.len() implies has_category(self@, #[trigger] out@[k]@) by {
                assert(listed(keys@, keys@[k]@));
            }
            assert forall|c: Seq<char>| has_category(self@, c) implies exists|k: int|
                0 <= k < out@.len() && #[trigger] out@[k]@ == c by {
                assert(listed(keys@, c));
                let k = choose|k: int| 0 <= k < keys@.len() && #[trigger] keys@[k]@ == c;
                assert(out@[k]@ == c);
            }
            assert forall|a: int, b: int| 0 <= a < b < out@.len() implies lex_less(
                #[trigger] out@[a]@,
                #[trigger] out@[b]@,
            ) by {
                assert(out@[a]@ == keys@[a]@);
                assert(out@[b]@ == keys@[b]@);
            }
        }
        out
    }

    /// The shortcuts that match `query` (trimmed and lowercased; empty
    /// matches all, else it must occur in the lowercased name or category)
    /// and the category filter (`None` or "All" pass everything, else the
    /// category must be equal), most launched first, then by lowercased
    /// name, equals in store order.
    pub fn search(&self, query: &str, category: Option<&str>) -> (r: Vec<Shortcut>)
        ensures
            is_search_result(self@, query@, opt_text(category), r@),
    {
        let trimmed = trim(query);
        let q = if trimmed.is_empty() {
            String::new()
        } else {
            to_lowercase(trimmed)
        };
        let ghost pick = |s: Shortcut| search_selects(s, normalized_query(query@), opt_text(category));
        let mut chosen: Vec<Shortcut> = Vec::new();
        let mut keys: Vec<String> = Vec::new();
        let mut i: usize = 0;
        while i < self.shortcuts.len()
            invariant
                i <= self.shortcuts.len(),
                q@ == normalized_query(query@),
                pick == (|s: Shortcut| search_selects(s, normalized_query(query@), opt_text(category))),
                chosen@ == self.shortcuts@.take(i as int).filter(pick),
                keys.len() == chosen.len(),
                texts_view(keys@) == lowered_names(chosen@),
            decreases self.shortcuts.len() - i,
        {
            reveal_with_fuel(Seq::<_>::filter, 1);
            assert(self.shortcuts@.take(i + 1).drop_last() =~= self.shortcuts@.take(i as int));
            let s = &self.shortcuts[i];
            let name_lower = to_lowercase(s.name.as_str());
            let category_lower = to_lowercase(s.category.as_str());
            if category_matches(category, s.category.as_str()) && query_matches(
                q.as_str(),
                name_lower.as_str(),
                category_lower.as_str(),
            ) {
                let ghost old_keys = keys@;
                let ghost old_chosen = chosen@;
                chosen.push(s.clone());
                keys.push(name_lower);
                assert(texts_view(keys@) =~= lowered_names(chosen@)) by {
                    assert(texts_view(old_keys) == lowered_names(old_chosen));
                    assert forall|k: int| 0 <= k < keys@.len() implies texts_view(keys@)[k]
                        == lowered_names(chosen@)[k] by {
                        if k < old_keys.len() {
                            assert(keys@[k] == old_keys[k]);
                            assert(chosen@[k] == old_chosen[k]);
                            assert(texts_view(old_keys)[k] == lowered_names(old_chosen)[k]);
                        }
                    }
                }
            }
            i += 1;
        }
        assert(self.shortcuts@.take(i as int) =~= self.shortcuts@);
        let ghost chosen_view = chosen@;
        let r = rank(chosen, keys);
        assert(chosen_view == self@.filter(
            |s: Shortcut| search_selects(s, normalized_query(query@), opt_text(category)),
        ));
        r
    }

    /// A copy of the first shortcut with id `id`, if there is one.
    pub fn get_by_id(&self, id: &str) -> (r: Option<Shortcut>)
        ensures
            match r {
                Some(s) => exists|i: int| is_first_with_id(self@, id@, i) && s == self@[i],
                None => lacks_id(self@, id@),
            },
    {
        match self.position_of(id) {
            Some(i) => Some(self.shortcuts[i].clone()),
            None => None,
        }
    }
}


/// After adding a shortcut whose id no stored shortcut has, looking that id
/// up finds the added shortcut (`add`, then `get_by_id`).
pub proof fn law_lookup_after_add(before: Seq<Shortcut>, s: Shortcut)
    requires
        lacks_id(before, s.id@),
    ensures
        is_first_with_id(before.push(s), s.id@, before.len() as int),
        before.push(s)[before.len() as int] == s,
{
    assert forall|j: int| 0 <= j < before.len() implies (#[trigger] before.push(s)[j]).id@ != s.id@ by {
        assert(before.push(s)[j] == before[j]);
    }
}

/// After updating a stored shortcut, looking its id up finds the new
/// version at the same place (`update`, then `get_by_id`).
pub proof fn law_lookup_after_update(before: Seq<Shortcut>, s: Shortcut, i: int)
    requires
        is_first_with_id(before, s.id@, i),
    ensures
        is_first_with_id(before.update(i, s), s.id@, i),
        before.update(i, s)[i] == s,
        before.update(i, s).len() == before.len(),
{
    assert forall|j: int| 0 <= j < i implies (#[trigger] before.update(i, s)[j]).id@ != s.id@ by {
        assert(before.update(i, s)[j] == before[j]);
    }
}

/// After deleting an id, no shortcut has it, and every shortcut with
/// another id is still there (`delete`, then `get_by_id`).
pub proof fn law_delete_removes_only_that_id(before: Seq<Shortcut>, id: Seq<char>)
    ensures
        lacks_id(before.filter(|s: Shortcut| s.id@ != id), id),
        forall|j: int| 0 <= j < before.len() && (#[trigger] before[j]).id@ != id ==> before.filter(
            |s: Shortcut| s.id@ != id,
        ).contains(before[j]),
{
    let keep = |s: Shortcut| s.id@ != id;
    let after = before.filter(keep);
    assert forall|j: int| 0 <= j < after.len() implies (#[trigger] after[j]).id@ != id by {
        before.lemma_filter_pred(keep, j);
    }
    assert forall|j: int| 0 <= j < before.len() && (#[trigger] before[j]).id@ != id implies after.contains(
        before[j],
    ) by {
        before.lemma_filter_contains(keep, j);
    }
}

/// Launching through `bump_launch_count` adds exactly one to that
/// shortcut's count and keeps it where it was; the others are untouched.
pub proof fn law_bump_adds_one(before: Seq<Shortcut>, id: Seq<char>, i: int)
    requires
        is_first_with_id(before, id, i),
        before[i].launch_count < u64::MAX,
    ensures
        ({
            let after = before.update(i, launched_once_more(before[i]));
            &&& is_first_with_id(after, id, i)
            &&& after[i].launch_count == before[i].launch_count + 1
            &&& after.len() == before.len()
            &&& forall|j: int| 0 <= j < before.len() && j != i ==> #[trigger] after[j] == before[j]
        }),
{
    let after = before.update(i, launched_once_more(before[i]));
    assert forall|j: int| 0 <= j < i implies (#[trigger] after[j]).id@ != id by {
        assert(after[j] == before[j]);
    }
}

/// Search results come most launched first.
pub proof fn law_search_most_used_first(s: Seq<Shortcut>, query: Seq<char>, filter: Option<Seq<char>>, r: Seq<Shortcut>)
    requires
        is_search_result(s, query, filter, r),
    ensures
        forall|a: int, b: int| 0 <= a < b < r.len() ==> #[trigger] r[a].launch_count >= #[trigger] r[b].launch_count,
{
    let chosen = s.filter(|x: Shortcut| search_selects(x, normalized_query(query), filter));
    let perm = choose|perm: Seq<int>| is_stable_ranking(chosen, lowered_names(chosen), r, perm);
    law_ranking_most_launched_first(chosen, lowered_names(chosen), r, perm);
}

/// Among search results launched equally often, the lowercased names never
/// fall from one to a later one.
pub proof fn law_search_ties_by_name(s: Seq<Shortcut>, query: Seq<char>, filter: Option<Seq<char>>, r: Seq<Shortcut>)
    requires
        is_search_result(s, query, filter, r),
    ensures
        forall|a: int, b: int|
            0 <= a < b < r.len() && (#[trigger] r[a]).launch_count == (#[trigger] r[b]).launch_count ==> !lex_less(
                lowercase_text(r[b].name@),
                lowercase_text(r[a].name@),
            ),
{
    let chosen = s.filter(|x: Shortcut| search_selects(x, normalized_query(query), filter));
    let keys = lowered_names(chosen);
    let perm = choose|perm: Seq<int>| is_stable_ranking(chosen, keys, r, perm);
    let ranks = ranks_of(chosen, keys);
    assert forall|a: int, b: int|
        0 <= a < b < r.len() && (#[trigger] r[a]).launch_count == (#[trigger] r[b]).launch_count implies !lex_less(
            lowercase_text(r[b].name@),
            lowercase_text(r[a].name@),
        ) by {
        assert(!crate::ranking::ranks_before(ranks[perm[b]], ranks[perm[a]]));
        assert(r[a] == chosen[perm[a]]);
        assert(r[b] == chosen[perm[b]]);
    }
}

/// A search has exactly one possible result: two results for the same
/// shortcuts, query and category filter are equal.
pub proof fn law_search_is_determined(
    s: Seq<Shortcut>,
    query: Seq<char>,
    filter: Option<Seq<char>>,
    r1: Seq<Shortcut>,
    r2: Seq<Shortcut>,
)
    requires
        is_search_result(s, query, filter, r1),
        is_search_result(s, query, filter, r2),
    ensures
        r1 == r2,
{
    let chosen = s.filter(|x: Shortcut| search_selects(x, normalized_query(query), filter));
    let p1 = choose|perm: Seq<int>| is_stable_ranking(chosen, lowered_names(chosen), r1, perm);
    let p2 = choose|perm: Seq<int>| is_stable_ranking(chosen, lowered_names(chosen), r2, perm);
    law_ranking_is_unique(chosen, lowered_names(chosen), r1, p1, r2, p2);
}

/// Search only returns stored shortcuts that the query and the category
/// filter select, and returns every such shortcut.
pub proof fn law_search_returns_selected(s: Seq<Shortcut>, query: Seq<char>, filter: Option<Seq<char>>, r: Seq<Shortcut>)
    requires
        is_search_result(s, query, filter, r),
    ensures
        forall|k: int| 0 <= k < r.len() ==> s.contains(#[trigger] r[k]) && search_selects(
            r[k],
            normalized_query(query),
            filter,
        ),
        forall|j: int| 0 <= j < s.len() && search_selects(#[trigger] s[j], normalized_query(query), filter)
            ==> r.contains(s[j]),
{
    let pick = |x: Shortcut| search_selects(x, normalized_query(query), filter);
    let chosen = s.filter(pick);
    let perm = choose|perm: Seq<int>| is_stable_ranking(chosen, lowered_names(chosen), r, perm);
    law_ranking_rearranges(chosen, lowered_names(chosen), r, perm);
    assert forall|k: int| 0 <= k < r.len() implies s.contains(#[trigger] r[k]) && search_selects(
        r[k],
        normalized_query(query),
        filter,
    ) by {
        assert(chosen.contains(r[k]));
        let i = choose|i: int| 0 <= i < chosen.len() && chosen[i] == r[k];
        s.lemma_filter_pred(pick, i);
        s.lemma_filter_contains_rev(pick, r[k]);
    }
    assert forall|j: int| 0 <= j < s.len() && search_selects(#[trigger] s[j], normalized_query(query), filter)
        implies r.contains(s[j]) by {
        s.lemma_filter_contains(pick, j);
        let i = choose|i: int| 0 <= i < chosen.len() && chosen[i] == s[j];
        assert(r.contains(chosen[i]));
    }
}

/// A blank query (empty or only white space), with no category filter,
/// finds every stored shortcut.
pub proof fn law_blank_query_finds_all(s: Seq<Shortcut>, query: Seq<char>, r: Seq<Shortcut>)
    requires
        trimmed_of(query).len() == 0,
        is_search_result(s, query, None, r),
    ensures
        r.len() == s.len(),
        forall|j: int| 0 <= j < s.len() ==> r.contains(#[trigger] s[j]),
{
    let pick = |x: Shortcut| search_selects(x, normalized_query(query), None);
    assert forall|j: int| 0 <= j < s.len() implies #[trigger] pick(s[j]) by {}
    lemma_filter_keeps_all(s, pick);
    law_search_returns_selected(s, query, None, r);
    let chosen = s.filter(pick);
    let perm = choose|perm: Seq<int>| is_stable_ranking(chosen, lowered_names(chosen), r, perm);
    law_ranking_rearranges(chosen, lowered_names(chosen), r, perm);
}

/// Searching with the category filter "All" is searching without a filter.
pub proof fn law_all_is_no_filter(s: Seq<Shortcut>, query: Seq<char>, r: Seq<Shortcut>)
    ensures
        is_search_result(s, query, Some(seq!['A', 'l', 'l']), r) == is_search_result(s, query, None, r),
{
    let q = normalized_query(query);
    assert((|x: Shortcut| search_selects(x, q, Some(seq!['A', 'l', 'l']))) =~= (|x: Shortcut|
        search_selects(x, q, None)));
}

/// A category filter other than "All" is exact: a search returns only
/// shortcuts whose category is the filter itself, and with a blank query
/// it returns every shortcut of that category.
pub proof fn law_category_filter_is_exact(s: Seq<Shortcut>, query: Seq<char>, f: Seq<char>, r: Seq<Shortcut>)
    requires
        is_search_result(s, query, Some(f), r),
        f != "All"@,
    ensures
        forall|k: int| 0 <= k < r.len() ==> (#[trigger] r[k]).category@ == f,
        trimmed_of(query).len() == 0 ==> forall|i: int|
            0 <= i < s.len() && (#[trigger] s[i]).category@ == f ==> r.contains(s[i]),
{
    reveal_strlit("All");
    assert("All"@ =~= seq!['A', 'l', 'l']);
    let q = normalized_query(query);
    let pred = |x: Shortcut| search_selects(x, q, Some(f));
    let chosen = s.filter(pred);
    let perm = choose|perm: Seq<int>| is_stable_ranking(chosen, lowered_names(chosen), r, perm);
    law_ranking_rearranges(chosen, lowered_names(chosen), r, perm);
    assert forall|k: int| 0 <= k < r.len() implies (#[trigger] r[k]).category@ == f by {
        assert(chosen.contains(r[k]));
        let j = choose|j: int| 0 <= j < chosen.len() && chosen[j] == r[k];
        s.lemma_filter_pred(pred, j);
    }
    if trimmed_of(query).len() == 0 {
        assert forall|i: int| 0 <= i < s.len() && (#[trigger] s[i]).category@ == f implies r.contains(s[i]) by {
            assert(pred(s[i]));
            s.lemma_filter_contains(pred, i);
            let j = choose|j: int| 0 <= j < chosen.len() && chosen[j] == s[i];
            assert(chosen.contains(chosen[j]));
        }
    }
}

/// A search without category filter finds every shortcut whose lowercased
/// name holds the normalized query (at position `start`), and returns only
/// shortcuts of the store.
pub proof fn law_search_finds_containing_names(
    s: Seq<Shortcut>,
    query: Seq<char>,
    r: Seq<Shortcut>,
    i: int,
    start: int,
)
    requires
        is_search_result(s, query, None, r),
        0 <= i < s.len(),
        0 <= start,
        start + normalized_query(query).len() <= lowercase_text(s[i].name@).len(),
        lowercase_text(s[i].name@).subrange(start, start + normalized_query(query).len())
            == normalized_query(query),
    ensures
        r.contains(s[i]),
        forall|k: int| 0 <= k < r.len() ==> s.contains(#[trigger] r[k]),
{
    let q = normalized_query(query);
    let pred = |x: Shortcut| search_selects(x, q, None);
    let chosen = s.filter(pred);
    let perm = choose|perm: Seq<int>| is_stable_ranking(chosen, lowered_names(chosen), r, perm);
    law_ranking_rearranges(chosen, lowered_names(chosen), r, perm);
    assert(has_substring(lowercase_text(s[i].name@), q));
    assert(pred(s[i]));
    s.lemma_filter_contains(pred, i);
    let j = choose|j: int| 0 <= j < chosen.len() && chosen[j] == s[i];
    assert(r.contains(chosen[j]));
    assert forall|k: int| 0 <= k < r.len() implies s.contains(#[trigger] r[k]) by {
        assert(chosen.contains(r[k]));
        s.lemma_filter_contains_rev(pred, r[k]);
    }
}

/// White space around the query does not change a search.
pub proof fn law_search_ignores_surrounding_space(
    s: Seq<Shortcut>,
    query: Seq<char>,
    filter: Option<Seq<char>>,
    r: Seq<Shortcut>,
)
    ensures
        is_search_result(s, trimmed_of(query), filter, r) == is_search_result(s, query, filter, r),
{
    crate::text::lemma_trim_idempotent(query);
    assert(normalized_query(trimmed_of(query)) == normalized_query(query));
}

/// Searching ignores ASCII case: two ASCII queries that differ only in the
/// case of their letters give the same results.
pub proof fn law_search_ignores_ascii_case(
    s: Seq<Shortcut>,
    q1: Seq<char>,
    q2: Seq<char>,
    filter: Option<Seq<char>>,
    r: Seq<Shortcut>,
)
    requires
        is_ascii_text(q1),
        is_ascii_text(q2),
        ascii_lowercase_of(q1) == ascii_lowercase_of(q2),
    ensures
        is_search_result(s, q1, filter, r) == is_search_result(s, q2, filter, r),
{
    lemma_trimmed_lowercase(q1);
    lemma_trimmed_lowercase(q2);
    lemma_trimmed_ascii(q1);
    lemma_trimmed_ascii(q2);
    assert(ascii_lowercase_of(trimmed_of(q1)).len() == trimmed_of(q1).len());
    assert(ascii_lowercase_of(trimmed_of(q2)).len() == trimmed_of(q2).len());
    assert(normalized_query(q1) == normalized_query(q2));
}

/// No two shortcuts of `s` share an id.
pub open spec fn unique_ids(s: Seq<Shortcut>) -> bool {
    forall|a: int, b: int| 0 <= a < s.len() && 0 <= b < s.len() && (#[trigger] s[a]).id@ == (#[trigger] s[b]).id@ ==> a == b
}

/// A blank search without filter considers every stored shortcut.
proof fn lemma_blank_search_keeps_all(s: Seq<Shortcut>)
    ensures
        s.filter(|x: Shortcut| search_selects(x, normalized_query(Seq::<char>::empty()), None)) == s,
{
    let pick = |x: Shortcut| search_selects(x, normalized_query(Seq::<char>::empty()), None);
    assert(trimmed_of(Seq::<char>::empty()).len() == 0);
    assert forall|j: int| 0 <= j < s.len() implies #[trigger] pick(s[j]) by {}
    lemma_filter_keeps_all(s, pick);
}

/// Launching a shortcut never moves it down the full list (the blank
/// search without filter): afterwards it stands no later than before, and
/// ahead of every other shortcut launched at most as often as it had been.
pub proof fn law_bump_moves_no_later(
    v: Seq<Shortcut>,
    i: int,
    r0: Seq<Shortcut>,
    r1: Seq<Shortcut>,
    k0: int,
    k1: int,
)
    requires
        unique_ids(v),
        0 <= i < v.len(),
        v[i].launch_count < u64::MAX,
        is_search_result(v, Seq::<char>::empty(), None, r0),
        is_search_result(v.update(i, launched_once_more(v[i])), Seq::<char>::empty(), None, r1),
        0 <= k0 < r0.len(),
        r0[k0] == v[i],
        0 <= k1 < r1.len(),
        r1[k1] == launched_once_more(v[i]),
    ensures
        k1 <= k0,
        forall|j: int| 0 <= j < r1.len() && j != k1 && (#[trigger] r1[j]).launch_count <= v[i].launch_count ==> k1 < j,
{
    let b = launched_once_more(v[i]);
    let after = v.update(i, b);
    lemma_blank_search_keeps_all(v);
    lemma_blank_search_keeps_all(after);
    let keys0 = lowered_names(v);
    let keys1 = lowered_names(after);
    let ranks0 = ranks_of(v, keys0);
    let ranks1 = ranks_of(after, keys1);
    let p0 = choose|perm: Seq<int>| is_stable_ranking(v, keys0, r0, perm);
    let p1 = choose|perm: Seq<int>| is_stable_ranking(after, keys1, r1, perm);
    assert(is_stable_ranking(v, keys0, r0, p0));
    assert(is_stable_ranking(after, keys1, r1, p1));
    // Where the launched shortcut sits in each ranking.
    assert(p0[k0] == i) by {
        assert(v[p0[k0]] == r0[k0]);
    }
    assert(p1[k1] == i) by {
        assert(after[p1[k1]] == r1[k1]);
        if p1[k1] != i {
            assert(after[p1[k1]] == v[p1[k1]]);
            assert(v[p1[k1]].id@ == v[i].id@);
        }
    }
    // Nothing before it in `r1` has at most its old count.
    law_ranking_most_launched_first(after, keys1, r1, p1);
    assert forall|j: int| 0 <= j < r1.len() && j != k1 && (#[trigger] r1[j]).launch_count <= v[i].launch_count implies k1 < j by {
        if j < k1 {
            assert(r1[j].launch_count >= r1[k1].launch_count);
        }
    }
    // Every shortcut ahead of it in `r1` was ahead of it in `r0`.
    lemma_order_onto(v, ranks0, r0, p0);
    let ahead1 = p1.take(k1);
    let ahead0 = p0.take(k0);
    assert forall|a: int| 0 <= a < k1 implies ahead0.contains(#[trigger] ahead1[a]) by {
        let j = p1[a];
        assert(j != i);
        lemma_order_increasing(after, ranks1, r1, p1, a, k1);
        assert(keys1[j] == keys0[j]);
        assert(keys1[i] == keys0[i]);
        assert(ranks1[j] == ranks0[j]);
        assert(ranks1[i].0 == ranks0[i].0 + 1 && ranks1[i].1 == ranks0[i].1);
        assert(precedes(v, ranks0, j, i));
        assert(0 <= j < v.len());
        assert(reached(p0, j));
        let m = choose|m: int| 0 <= m < p0.len() && #[trigger] p0[m] == j;
        if m > k0 {
            lemma_order_increasing(v, ranks0, r0, p0, k0, m);
            lemma_precedes_asymmetric(v, ranks0, j, i);
        }
        assert(m != k0);
        assert(ahead0[m] == j);
    }
    assert(ahead1.no_duplicates()) by {
        assert forall|a: int, c: int| 0 <= a < ahead1.len() && 0 <= c < ahead1.len() && a != c implies ahead1[a] != ahead1[c] by {
            if a < c {
                assert(p1[a] != p1[c]);
            } else {
                assert(p1[c] != p1[a]);
            }
        }
    }
    ahead1.unique_seq_to_set();
    ahead0.lemma_cardinality_of_set();
    vstd::seq_lib::seq_to_set_is_finite(ahead0);
    assert(ahead1.to_set().subset_of(ahead0.to_set())) by {
        assert forall|x: int| #[trigger] ahead1.to_set().contains(x) implies ahead0.to_set().contains(x) by {
            let a = choose|a: int| 0 <= a < ahead1.len() && ahead1[a] == x;
            assert(ahead0.contains(ahead1[a]));
        }
    }
    vstd::set_lib::lemma_len_subset(ahead1.to_set(), ahead0.to_set());
}

/// Filtering with a predicate that holds everywhere keeps the sequence.
proof fn lemma_filter_keeps_all(s: Seq<Shortcut>, pred: spec_fn(Shortcut) -> bool)
    requires
        forall|j: int| 0 <= j < s.len() ==> #[trigger] pred(s[j]),
    ensures
        s.filter(pred) == s,
    decreases s.len(),
{
    reveal_with_fuel(Seq::<_>::filter, 1);
    if s.len() > 0 {
        assert forall|j: int| 0 <= j < s.drop_last().len() implies #[trigger] pred(s.drop_last()[j]) by {
            assert(s.drop_last()[j] == s[j]);
        }
        lemma_filter_keeps_all(s.drop_last(), pred);
        assert(pred(s[s.len() - 1]));
        assert(s.drop_last().push(s.last()) =~= s);
    } else {
        assert(s.filter(pred) =~= s);
    }
}

} // verus!
