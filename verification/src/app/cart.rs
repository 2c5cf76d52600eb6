//! The menu list (search and category filter) and editing the active order's
//! cart.
use vstd::prelude::*;

use super::{App, AppEffect};
use crate::cart::{can_add_item, cart_with_item, same_but_cart};
use crate::fuzzy::{fuzzy_score, skim_score};
use crate::models::{lines_view, opt_view, Focus, MenuItem, Order, OrderStatus};
use crate::text::{concat, decimal, decimal_seq, push_str, str_eq, trim, trim_seq};

verus! {

// ---------------------------------------------------------------------------
// The visible menu
// ---------------------------------------------------------------------------

/// `s / 2`, rounded toward zero.
pub open spec fn half_toward_zero(s: i64) -> i64 {
    if s >= 0 {
        (s / 2) as i64
    } else {
        (-((-s) / 2)) as i64
    }
}

/// How well a menu item matches the query: by its name, else at half weight
/// by its category.
pub open spec fn menu_score<M>(it: MenuItem<M>, q: Seq<char>) -> Option<i64> {
    match skim_score(it.name@, q) {
        Some(s) => Some(s),
        None => match skim_score(it.category@, q) {
            Some(c) => Some(half_toward_zero(c)),
            None => None,
        },
    }
}

/// The item passes the category filter (no filter passes everything).
pub open spec fn in_category<M>(it: MenuItem<M>, cat: Option<Seq<char>>) -> bool {
    match cat {
        Some(c) => it.category@ == c,
        None => true,
    }
}

/// Indices, in menu order, of the first `n` items that pass the filter.
pub open spec fn category_indices<M>(items: Seq<MenuItem<M>>, cat: Option<Seq<char>>, n: nat) -> Seq<
    usize,
>
    decreases n,
{
    if n == 0 {
        Seq::empty()
    } else {
        let prev = category_indices(items, cat, (n - 1) as nat);
        if in_category(items[n - 1], cat) {
            prev.push((n - 1) as usize)
        } else {
            prev
        }
    }
}

/// Where an entry scoring `s` goes in a list ranked by falling score: after
/// every entry that scores at least as much.
pub open spec fn insert_pos(list: Seq<(i64, usize)>, s: i64) -> nat
    decreases list.len(),
{
    if list.len() == 0 {
        0
    } else if list[0].0 < s {
        0
    } else {
        1 + insert_pos(list.drop_first(), s)
    }
}

/// The first `n` items that pass the filter and match the query, as
/// (score, index), by falling score; equal scores keep menu order.
pub open spec fn ranked<M>(items: Seq<MenuItem<M>>, q: Seq<char>, cat: Option<Seq<char>>, n: nat) -> Seq<
    (i64, usize),
>
    decreases n,
{
    if n == 0 {
        Seq::empty()
    } else {
        let prev = ranked(items, q, cat, (n - 1) as nat);
        let it = items[n - 1];
        if in_category(it, cat) {
            match menu_score(it, q) {
                Some(s) => prev.insert(insert_pos(prev, s) as int, (s, (n - 1) as usize)),
                None => prev,
            }
        } else {
            prev
        }
    }
}

/// The indices of the menu items shown for a search text and category
/// filter: with no query, every item of the category in menu order; else the
/// matching ones, best match first.
pub open spec fn visible_indices<M>(items: Seq<MenuItem<M>>, search: Seq<char>, cat: Option<Seq<char>>) -> Seq<
    usize,
> {
    let q = trim_seq(search);
    if q.len() == 0 {
        category_indices(items, cat, items.len())
    } else {
        ranked(items, q, cat, items.len()).map_values(|e: (i64, usize)| e.1)
    }
}

/// Every entry of the ranked list names one of the first `n` items, of the
/// selected category, that matches the query with the entry's score.
proof fn lemma_ranked_entries<M>(items: Seq<MenuItem<M>>, q: Seq<char>, cat: Option<Seq<char>>, n: nat)
    requires
        n <= items.len(),
        items.len() <= usize::MAX,
    ensures
        forall|k: int|
            0 <= k < ranked(items, q, cat, n).len() ==> {
                let e = #[trigger] ranked(items, q, cat, n)[k];
                &&& (e.1 as int) < n
                &&& (cat matches Some(c) ==> items[e.1 as int].category@ == c)
                &&& menu_score(items[e.1 as int], q) == Some(e.0)
            },
    decreases n,
{
    if n > 0 {
        let prev = ranked(items, q, cat, (n - 1) as nat);
        lemma_ranked_entries(items, q, cat, (n - 1) as nat);
        let it = items[n - 1];
        if in_category(it, cat) {
            match menu_score(it, q) {
                Some(s) => {
                    let p = insert_pos(prev, s) as int;
                    lemma_insert_pos_bound(prev, s);
                    prev.insert_ensures(p, (s, (n - 1) as usize));
                    let r = ranked(items, q, cat, n);
                    assert(r == prev.insert(p, (s, (n - 1) as usize)));
                    assert forall|k: int| 0 <= k < r.len() implies {
                        let e = #[trigger] r[k];
                        &&& (e.1 as int) < n
                        &&& (cat matches Some(c) ==> items[e.1 as int].category@ == c)
                        &&& menu_score(items[e.1 as int], q) == Some(e.0)
                    } by {
                        if k < p {
                            assert(r[k] == prev[k]);
                        } else if k > p {
                            assert(r[(k - 1) + 1] == prev[k - 1]);
                        }
                    }
                },
                None => {},
            }
        }
    }
}

/// Entries by falling score, equal scores in rising menu order.
pub open spec fn by_falling_score(list: Seq<(i64, usize)>) -> bool {
    forall|a: int, b: int|
        0 <= a < b < list.len() ==> (#[trigger] list[a]).0 >= (#[trigger] list[b]).0 && (list[a].0 == list[b].0
            ==> list[a].1 < list[b].1)
}

proof fn lemma_insert_pos_split(list: Seq<(i64, usize)>, s: i64)
    requires
        by_falling_score(list),
    ensures
        forall|j: int| 0 <= j < insert_pos(list, s) ==> (#[trigger] list[j]).0 >= s,
        forall|j: int| insert_pos(list, s) <= j < list.len() ==> (#[trigger] list[j]).0 < s,
    decreases list.len(),
{
    if list.len() > 0 {
        if list[0].0 >= s {
            let t = list.drop_first();
            assert(by_falling_score(t)) by {
                assert forall|a: int, b: int| 0 <= a < b < t.len() implies (#[trigger] t[a]).0 >= (
                #[trigger] t[b]).0 && (t[a].0 == t[b].0 ==> t[a].1 < t[b].1) by {
                    assert(t[a] == list[a + 1] && t[b] == list[b + 1]);
                }
            }
            lemma_insert_pos_split(t, s);
            assert(insert_pos(list, s) == 1 + insert_pos(t, s));
            lemma_insert_pos_bound(list, s);
            assert forall|j: int| 0 <= j < insert_pos(list, s) implies (#[trigger] list[j]).0 >= s by {
                if j > 0 {
                    assert(list[j] == t[j - 1]);
                }
            }
            assert forall|j: int| insert_pos(list, s) <= j < list.len() implies (#[trigger] list[j]).0 < s by {
                assert(list[j] == t[j - 1]);
            }
        } else {
            assert forall|j: int| 0 <= j < list.len() implies (#[trigger] list[j]).0 < s by {
                if j > 0 {
                    assert(list[0].0 >= list[j].0);
                }
            }
        }
    }
}

/// The ranked list is ordered by falling score (equal scores in menu order)
/// and holds every one of the first `n` items of the category that matches.
proof fn lemma_ranked_order<M>(items: Seq<MenuItem<M>>, q: Seq<char>, cat: Option<Seq<char>>, n: nat)
    requires
        n <= items.len(),
        items.len() <= usize::MAX,
    ensures
        by_falling_score(ranked(items, q, cat, n)),
        forall|i: int|
            0 <= i < n && (cat matches Some(c) ==> items[i].category@ == c) && #[trigger] menu_score(items[i], q)
                is Some ==> exists|k: int|
                0 <= k < ranked(items, q, cat, n).len() && ranked(items, q, cat, n)[k] == (
                    menu_score(items[i], q)->0,
                    i as usize,
                ),
    decreases n,
{
    if n > 0 {
        let prev = ranked(items, q, cat, (n - 1) as nat);
        lemma_ranked_order(items, q, cat, (n - 1) as nat);
        lemma_ranked_entries(items, q, cat, (n - 1) as nat);
        let it = items[n - 1];
        let r = ranked(items, q, cat, n);
        if in_category(it, cat) && menu_score(it, q) is Some {
            let s = menu_score(it, q)->0;
            let p = insert_pos(prev, s) as int;
            let e = (s, (n - 1) as usize);
            lemma_insert_pos_bound(prev, s);
            lemma_insert_pos_split(prev, s);
            prev.insert_ensures(p, e);
            assert(r == prev.insert(p, e));
            assert forall|a: int| 0 <= a < r.len() implies #[trigger] r[a] == (if a < p {
                prev[a]
            } else if a == p {
                e
            } else {
                prev[a - 1]
            }) by {
                if a > p {
                    assert(r[(a - 1) + 1] == prev[a - 1]);
                }
            }
            assert forall|a: int, b: int| 0 <= a < b < r.len() implies (#[trigger] r[a]).0 >= (
            #[trigger] r[b]).0 && (r[a].0 == r[b].0 ==> r[a].1 < r[b].1) by {
                if b < p {
                } else if b == p {
                    assert(prev[a].1 < n - 1);
                } else if a < p {
                    assert(prev[b - 1].0 < s);
                } else if a == p {
                    assert(prev[b - 1].0 < s);
                } else {
                    assert(prev[a - 1] == r[a] && prev[b - 1] == r[b]);
                }
            }
            assert forall|i: int|
                0 <= i < n && (cat matches Some(c) ==> items[i].category@ == c) && #[trigger] menu_score(
                    items[i],
                    q,
                ) is Some implies exists|k: int|
                0 <= k < r.len() && r[k] == (menu_score(items[i], q)->0, i as usize) by {
                if i == n - 1 {
                    assert(r[p] == e);
                } else {
                    let k0 = choose|k: int|
                        0 <= k < prev.len() && prev[k] == (menu_score(items[i], q)->0, i as usize);
                    if k0 < p {
                        assert(r[k0] == prev[k0]);
                    } else {
                        assert(r[k0 + 1] == prev[k0]);
                    }
                }
            }
        } else {
            assert(r == prev);
            assert forall|i: int|
                0 <= i < n && (cat matches Some(c) ==> items[i].category@ == c) && #[trigger] menu_score(
                    items[i],
                    q,
                ) is Some implies exists|k: int|
                0 <= k < r.len() && r[k] == (menu_score(items[i], q)->0, i as usize) by {
                if i == n - 1 {
                    assert(in_category(it, cat));
                }
            }
        }
    }
}

/// Every entry of the unsearched list is one of the first `n` items, of the
/// selected category.
proof fn lemma_category_entries<M>(items: Seq<MenuItem<M>>, cat: Option<Seq<char>>, n: nat)
    requires
        n <= items.len(),
        items.len() <= usize::MAX,
    ensures
        forall|k: int|
            0 <= k < category_indices(items, cat, n).len() ==> {
                let i = #[trigger] category_indices(items, cat, n)[k];
                &&& (i as int) < n
                &&& (cat matches Some(c) ==> items[i as int].category@ == c)
            },
    decreases n,
{
    if n > 0 {
        lemma_category_entries(items, cat, (n - 1) as nat);
        let prev = category_indices(items, cat, (n - 1) as nat);
        let r = category_indices(items, cat, n);
        if in_category(items[n - 1], cat) {
            assert(r == prev.push((n - 1) as usize));
            assert forall|k: int| 0 <= k < r.len() implies {
                let i = #[trigger] r[k];
                &&& (i as int) < n
                &&& (cat matches Some(c) ==> items[i as int].category@ == c)
            } by {
                if k < prev.len() {
                    assert(r[k] == prev[k]);
                }
            }
        } else {
            assert(r == prev);
        }
    }
}

/// The item belongs to the selected category (any item when none is selected).
pub open spec fn of_category<M>(it: MenuItem<M>, cat: Option<Seq<char>>) -> bool {
    cat matches Some(c) ==> it.category@ == c
}

/// Every listed index names a menu item of the selected category.
pub open spec fn listed_in_category<M>(items: Seq<MenuItem<M>>, cat: Option<Seq<char>>, v: Seq<usize>) -> bool {
    forall|k: int|
        0 <= k < v.len() ==> (#[trigger] v[k] as int) < items.len() && (cat matches Some(c) ==> items[v[k] as int].category@
            == c)
}

/// Without a search text: every item of the category, each once, in menu order.
pub open spec fn lists_category_in_menu_order<M>(items: Seq<MenuItem<M>>, cat: Option<Seq<char>>, v: Seq<usize>) -> bool {
    &&& forall|a: int, b: int| 0 <= a < b < v.len() ==> #[trigger] v[a] < #[trigger] v[b]
    &&& forall|i: int| 0 <= i < items.len() && of_category(#[trigger] items[i], cat) ==> v.contains(i as usize)
}

/// With a search text `q`: every item of the category that matches `q`, each
/// once, best score first and equal scores in menu order.
pub open spec fn lists_matches_best_first<M>(
    items: Seq<MenuItem<M>>,
    q: Seq<char>,
    cat: Option<Seq<char>>,
    v: Seq<usize>,
) -> bool {
    &&& forall|k: int| 0 <= k < v.len() ==> menu_score(items[#[trigger] v[k] as int], q) is Some
    &&& forall|a: int, b: int|
        0 <= a < b < v.len() ==> {
            let sa = menu_score(items[#[trigger] v[a] as int], q)->0;
            let sb = menu_score(items[#[trigger] v[b] as int], q)->0;
            sa >= sb && (sa == sb ==> v[a] < v[b])
        }
    &&& forall|i: int|
        0 <= i < items.len() && of_category(#[trigger] items[i], cat) && menu_score(items[i], q) is Some
            ==> v.contains(i as usize)
}

/// The unsearched list is the items of the category in menu order.
proof fn lemma_category_order<M>(items: Seq<MenuItem<M>>, cat: Option<Seq<char>>, n: nat)
    requires
        n <= items.len(),
        items.len() <= usize::MAX,
    ensures
        forall|a: int, b: int|
            0 <= a < b < category_indices(items, cat, n).len() ==> #[trigger] category_indices(items, cat, n)[a]
                < #[trigger] category_indices(items, cat, n)[b],
        forall|i: int|
            0 <= i < n && of_category(#[trigger] items[i], cat) ==> category_indices(items, cat, n).contains(
                i as usize,
            ),
    decreases n,
{
    if n > 0 {
        lemma_category_order(items, cat, (n - 1) as nat);
        lemma_category_entries(items, cat, (n - 1) as nat);
        let prev = category_indices(items, cat, (n - 1) as nat);
        let r = category_indices(items, cat, n);
        if in_category(items[n - 1], cat) {
            assert(r == prev.push((n - 1) as usize));
            assert forall|a: int, b: int| 0 <= a < b < r.len() implies #[trigger] r[a] < #[trigger] r[b] by {
                assert(r[a] == prev[a]);
                if b < prev.len() {
                    assert(r[b] == prev[b]);
                }
            }
            assert forall|i: int| 0 <= i < n && of_category(#[trigger] items[i], cat) implies r.contains(
                i as usize,
            ) by {
                if i == n - 1 {
                    assert(r[prev.len() as int] == (n - 1) as usize);
                } else {
                    let k = choose|k: int| 0 <= k < prev.len() && prev[k] == i as usize;
                    assert(r[k] == prev[k]);
                }
            }
        } else {
            assert(r == prev);
        }
    }
}

/// The menu list: only items of the selected category, with or without a
/// search text; without one, every item of the category in menu order; with
/// one, every item of the category that matches it, best match first and
/// equal scores in menu order.
pub proof fn lemma_visible_items_in_category<M>(items: Seq<MenuItem<M>>, search: Seq<char>, cat: Option<Seq<char>>)
    requires
        items.len() <= usize::MAX,
    ensures
        listed_in_category(items, cat, visible_indices(items, search, cat)),
        trim_seq(search).len() == 0 ==> lists_category_in_menu_order(items, cat, visible_indices(items, search, cat)),
        trim_seq(search).len() > 0 ==> lists_matches_best_first(
            items,
            trim_seq(search),
            cat,
            visible_indices(items, search, cat),
        ),
{
    let q = trim_seq(search);
    let v = visible_indices(items, search, cat);
    if q.len() == 0 {
        lemma_category_entries(items, cat, items.len());
        lemma_category_order(items, cat, items.len());
    } else {
        lemma_ranked_entries(items, q, cat, items.len());
        lemma_ranked_order(items, q, cat, items.len());
        let r = ranked(items, q, cat, items.len());
        assert forall|k: int| 0 <= k < v.len() implies #[trigger] v[k] == r[k].1 by {}
        assert forall|k: int| 0 <= k < v.len() implies (#[trigger] v[k] as int) < items.len() && (cat matches Some(
            c,
        ) ==> items[v[k] as int].category@ == c) && menu_score(items[v[k] as int], q) == Some(r[k].0) by {
            assert(v[k] == r[k].1);
        }
        assert forall|a: int, b: int| 0 <= a < b < v.len() implies {
            let sa = menu_score(items[#[trigger] v[a] as int], q)->0;
            let sb = menu_score(items[#[trigger] v[b] as int], q)->0;
            sa >= sb && (sa == sb ==> v[a] < v[b])
        } by {
            assert(v[a] == r[a].1 && v[b] == r[b].1);
            assert(r[a].0 >= r[b].0);
        }
        assert forall|i: int|
            0 <= i < items.len() && of_category(#[trigger] items[i], cat) && menu_score(items[i], q) is Some
                implies v.contains(i as usize) by {
            let k = choose|k: int|
                0 <= k < r.len() && r[k] == (menu_score(items[i], q)->0, i as usize);
            assert(v[k] == r[k].1);
        }
    }
}

pub proof fn lemma_insert_pos_bound(list: Seq<(i64, usize)>, s: i64)
    ensures
        insert_pos(list, s) <= list.len(),
    decreases list.len(),
{
    if list.len() > 0 && list[0].0 >= s {
        lemma_insert_pos_bound(list.drop_first(), s);
    }
}

/// A stepping stone of `insert_pos`: the entries before `p` all score at
/// least `s`.
proof fn lemma_insert_pos_step(list: Seq<(i64, usize)>, s: i64, p: int)
    requires
        0 <= p < list.len(),
        list[p].0 >= s,
    ensures
        insert_pos(list.subrange(p, list.len() as int), s) == 1 + insert_pos(
            list.subrange(p + 1, list.len() as int),
            s,
        ),
{
    let tail = list.subrange(p, list.len() as int);
    assert(tail.drop_first() =~= list.subrange(p + 1, list.len() as int));
}

impl<M> App<M> {
    /// The category the menu is filtered by (the first category means all).
    pub open spec fn category_filter(&self) -> Option<Seq<char>> {
        if self.selected_category_index > 0 && self.selected_category_index < self.categories@.len() {
            Some(self.categories@[self.selected_category_index as int]@)
        } else {
            None
        }
    }

    /// The indices of the menu items shown.
    pub open spec fn spec_visible(&self) -> Seq<usize> {
        visible_indices(self.items@, self.search@, self.category_filter())
    }

    /// The menu item under the menu cursor.
    pub open spec fn selected_item(&self) -> Option<usize> {
        if self.menu_index < self.spec_visible().len() {
            Some(self.spec_visible()[self.menu_index as int])
        } else {
            None
        }
    }

    /// Whether the menu item at `i` passes the category filter.
    fn item_in_category(&self, i: usize) -> (r: bool)
        requires
            i < self.items@.len(),
        ensures
            r == in_category(self.items@[i as int], self.category_filter()),
    {
        if self.selected_category_index > 0 && self.selected_category_index < self.categories.len() {
            str_eq(
                self.items[i].category.as_str(),
                self.categories[self.selected_category_index].as_str(),
            )
        } else {
            true
        }
    }

    /// How well the menu item at `i` matches `q`.
    fn item_score(&self, i: usize, q: &str) -> (r: Option<i64>)
        requires
            i < self.items@.len(),
        ensures
            r == menu_score(self.items@[i as int], q@),
    {
        match fuzzy_score(self.items[i].name.as_str(), q) {
            Some(s) => Some(s),
            None => match fuzzy_score(self.items[i].category.as_str(), q) {
                Some(c) => {
                    if c >= 0 {
                        Some(c / 2)
                    } else if c == i64::MIN {
                        Some(-4611686018427387904i64)
                    } else {
                        Some(-((-c) / 2))
                    }
                },
                None => None,
            },
        }
    }

    /// The indices of the menu items shown: with an empty search every item
    /// of the selected category in menu order, otherwise the items that match
    /// the search, best first (equal scores in menu order).
    pub fn visible_items(&self) -> (r: Vec<usize>)
        ensures
            r@ == self.spec_visible(),
            forall|k: int| 0 <= k < r@.len() ==> #[trigger] r@[k] < self.items@.len(),
            listed_in_category(self.items@, self.category_filter(), r@),
            trim_seq(self.search@).len() == 0 ==> lists_category_in_menu_order(self.items@, self.category_filter(), r@),
            trim_seq(self.search@).len() > 0 ==> lists_matches_best_first(
                self.items@,
                trim_seq(self.search@),
                self.category_filter(),
                r@,
            ),
    {
        let q = trim(self.search.as_str());
        let n = self.items.len();
        let ghost cat = self.category_filter();
        if q.unicode_len() == 0 {
            let mut r: Vec<usize> = Vec::new();
            let mut i: usize = 0;
            while i < n
                invariant
                    n == self.items@.len(),
                    i <= n,
                    cat == self.category_filter(),
                    r@ == category_indices(self.items@, cat, i as nat),
                    forall|k: int| 0 <= k < r@.len() ==> #[trigger] r@[k] < i,
                decreases n - i,
            {
                if self.item_in_category(i) {
                    r.push(i);
                }
                i = i + 1;
            }
            proof {
                lemma_visible_items_in_category(self.items@, self.search@, self.category_filter());
            }
            return r;
        }
        let mut list: Vec<(i64, usize)> = Vec::new();
        let mut i: usize = 0;
        while i < n
            invariant
                n == self.items@.len(),
                i <= n,
                cat == self.category_filter(),
                list@ == ranked(self.items@, q@, cat, i as nat),
                forall|k: int| 0 <= k < list@.len() ==> #[trigger] list@[k].1 < i,
            decreases n - i,
        {
            if self.item_in_category(i) {
                match self.item_score(i, q.as_str()) {
                    Some(s) => {
                        let mut p: usize = 0;
                        proof {
                            assert(list@.subrange(0, list@.len() as int) =~= list@);
                        }
                        while p < list.len() && list[p].0 >= s
                            invariant
                                p <= list@.len(),
                                insert_pos(list@, s) == p + insert_pos(
                                    list@.subrange(p as int, list@.len() as int),
                                    s,
                                ),
                            decreases list.len() - p,
                        {
                            proof {
                                lemma_insert_pos_step(list@, s, p as int);
                            }
                            p = p + 1;
                        }
                        proof {
                            let tail = list@.subrange(p as int, list@.len() as int);
                            if p < list@.len() {
                                assert(tail[0] == list@[p as int]);
                            }
                            lemma_insert_pos_bound(list@, s);
                        }
                        list.insert(p, (s, i));
                    },
                    None => {},
                }
            }
            i = i + 1;
        }
        let mut r: Vec<usize> = Vec::new();
        let mut k: usize = 0;
        while k < list.len()
            invariant
                k <= list@.len(),
                r@ == list@.subrange(0, k as int).map_values(|e: (i64, usize)| e.1),
                forall|j: int| 0 <= j < list@.len() ==> #[trigger] list@[j].1 < n,
            decreases list.len() - k,
        {
            r.push(list[k].1);
            k = k + 1;
            assert(r@ =~= list@.subrange(0, k as int).map_values(|e: (i64, usize)| e.1));
        }
        assert(list@.subrange(0, list@.len() as int) =~= list@);
        proof {
            lemma_visible_items_in_category(self.items@, self.search@, self.category_filter());
        }
        r
    }
}

/// Everything of the session but its open orders and the listed fields is as
/// before; of the orders, only the active one may differ.
pub open spec fn only_active_order_changed<M>(a: App<M>, b: App<M>) -> bool {
    &&& a.orders@.len() == b.orders@.len()
    &&& a.active_order == b.active_order
    &&& forall|j: int|
        0 <= j < a.orders@.len() && j != a.active_order ==> #[trigger] a.orders@[j] == b.orders@[j]
}

/// The effects queued when the active order is saved.
pub open spec fn persist_active_effects<M>(app: App<M>) -> Seq<AppEffect> {
    if app.orders@.len() > 0 && app.active_order < app.orders@.len() {
        seq![AppEffect::PersistOrder { order_id: app.orders@[app.active_order as int].id }]
    } else {
        Seq::empty()
    }
}

/// Whether the active order may be edited: there is one and it is not paid.
pub open spec fn editable<M>(app: App<M>) -> bool {
    app.orders@.len() > 0 && app.orders@[app.active_order as int].status != OrderStatus::Paid
}

/// The message shown when the active order may not be edited.
pub open spec fn not_editable_message<M>(app: App<M>) -> Seq<char> {
    if app.orders@.len() == 0 {
        "No active order. Open a table or take-out order first."@
    } else {
        "Bill #"@ + decimal_seq(app.orders@[app.active_order as int].id as nat)
            + " is paid and cannot be changed."@
    }
}

impl<M: Copy> App<M> {
    /// Queues saving the active order, when there is one.
    pub fn persist_active_order(&mut self)
        requires
            old(self).wf(),
        ensures
            final(self).pending_effects@ == old(self).pending_effects@ + persist_active_effects(*old(self)),
            *final(self) == (App { pending_effects: final(self).pending_effects, ..*old(self) }),
    {
        if self.orders.len() > 0 {
            let id = self.orders[self.active_order].id;
            self.queue_effect(AppEffect::PersistOrder { order_id: id });
            assert(self.pending_effects@ =~= old(self).pending_effects@ + persist_active_effects(*old(self)));
        } else {
            assert(self.pending_effects@ =~= old(self).pending_effects@ + persist_active_effects(*old(self)));
        }
    }

    /// Whether the active order may be edited; announces why not otherwise.
    pub fn ensure_editable_order(&mut self) -> (ok: bool)
        requires
            old(self).wf(),
        ensures
            ok == editable(*old(self)),
            ok ==> *final(self) == *old(self),
            active_order_paid(*old(self)) ==> !ok && final(self).notes() == old(self).notes().push(
                paid_bill_notice(old(self).orders@[old(self).active_order as int].id),
            ),
            old(self).orders@.len() > 0 && !active_order_paid(*old(self)) ==> ok,
            !ok ==> *final(self) == (App { notifications: final(self).notifications, ..*old(self) })
                && final(self).notes() == old(self).notes().push(not_editable_message(*old(self))),
    {
        if self.orders.len() == 0 {
            self.notify(String::from_str("No active order. Open a table or take-out order first."));
            return false;
        }
        let i = self.active_order;
        if self.orders[i].status == OrderStatus::Paid {
            let d = decimal(self.orders[i].id as u64);
            let mut msg = concat("Bill #", d.as_str());
            push_str(&mut msg, " is paid and cannot be changed.");
            self.notify(msg);
            return false;
        }
        true
    }

    /// Whether one more unit of the menu item under the cursor fits on the
    /// active order's cart.
    pub open spec fn selected_add_fits(&self) -> bool {
        match self.selected_item() {
            Some(idx) => editable(*self) && idx < self.items@.len() ==> can_add_item(
                lines_view(self.active().cart@),
                self.items@[idx as int].name@,
            ),
            None => true,
        }
    }

    /// Adds one unit of the menu item under the cursor to the active order,
    /// unless the order may not be edited or the item is out of stock.
    pub fn add_selected_to_cart(&mut self)
        requires
            old(self).wf(),
            old(self).selected_add_fits(),
        ensures
            final(self).wf(),
            item_added(*old(self), *final(self)),
            active_order_paid(*old(self)) ==> *final(self) == (App { notifications: final(self).notifications, ..*old(self) })
                && final(self).notes() == old(self).notes().push(
                paid_bill_notice(old(self).orders@[old(self).active_order as int].id),
            ),
    {
        if !self.ensure_editable_order() {
            return;
        }
        let vis = self.visible_items();
        if self.menu_index >= vis.len() {
            return;
        }
        let idx = vis[self.menu_index];
        if !self.items[idx].is_available {
            let mut msg = concat("'", self.items[idx].name.as_str());
            push_str(&mut msg, "' is currently OUT OF STOCK (86)!");
            self.notify(msg);
            return;
        }
        let name = self.items[idx].name.clone();
        let price = self.items[idx].price;
        let i = self.active_order;
        let mut order = self.orders.remove(i);
        crate::cart::add_item(&mut order.cart, name.as_str(), price);
        let id = order.id;
        let mut msg = concat("Added ", name.as_str());
        push_str(&mut msg, " to ");
        push_str(&mut msg, order.label.as_str());
        push_str(&mut msg, ".");
        self.orders.insert(i, order);
        assert(self.orders@ =~= old(self).orders@.update(i as int, self.orders@[i as int]));
        self.notify(msg);
        self.queue_effect(AppEffect::PersistOrder { order_id: id });
    }
}

/// The active order exists and has been paid.
pub open spec fn active_order_paid<M>(app: App<M>) -> bool {
    app.orders@.len() > 0 && app.active_order < app.orders@.len() && app.orders@[app.active_order as int].status
        == OrderStatus::Paid
}

/// The notice that the paid bill `id` cannot be changed.
pub open spec fn paid_bill_notice(id: u32) -> Seq<char> {
    "Bill #"@ + decimal_seq(id as nat) + " is paid and cannot be changed."@
}

/// A paid bill is never changed by editing its cart: whether an item is
/// added, a quantity changed, a line removed, the cart cleared or a cooking
/// note asked for, the session
/// afterwards is the one before with one more notice, that the bill is paid
/// and cannot be changed.
pub proof fn lemma_paid_bill_cart_is_frozen<M: Copy>(before: App<M>, after: App<M>, change: i32)
    requires
        active_order_paid(before),
        item_added(before, after) || line_adjusted(before, after, change) || line_removed(before, after)
            || cart_cleared(before, after) || note_prompt_opened(before, after),
    ensures
        after == (App { notifications: after.notifications, ..before }),
        after.notes() == before.notes().push(paid_bill_notice(before.orders@[before.active_order as int].id)),
{
}

/// `n` is `o` after one unit of the menu item under the cursor was offered
/// to the active order: refused when the order may not be edited or the item
/// is out of stock (with a message), nothing when no item is under the
/// cursor, else added to the cart, announced and queued for storing.
pub open spec fn item_added<M>(o: App<M>, n: App<M>) -> bool {
    &&& !editable(o) ==> n == (App { notifications: n.notifications, ..o }) && n.notes() == o.notes().push(
        not_editable_message(o),
    )
    &&& editable(o) && o.selected_item() is None ==> n == o
    &&& editable(o) ==> match o.selected_item() {
        Some(idx) => {
            let item = o.items@[idx as int];
            if !item.is_available {
                n == (App { notifications: n.notifications, ..o }) && n.notes() == o.notes().push(
                    "'"@ + item.name@ + "' is currently OUT OF STOCK (86)!"@,
                )
            } else {
                &&& only_active_order_changed(n, o)
                &&& same_but_cart(n.active(), o.active())
                &&& n.active().cart_index == o.active().cart_index
                &&& lines_view(n.active().cart@) == cart_with_item(lines_view(o.active().cart@), item.name@, item.price)
                &&& n.notes() == o.notes().push("Added "@ + item.name@ + " to "@ + o.active().label@ + "."@)
                &&& n.pending_effects@ == o.pending_effects@.push(AppEffect::PersistOrder { order_id: o.active().id })
                &&& n == (App {
                    orders: n.orders,
                    notifications: n.notifications,
                    pending_effects: n.pending_effects,
                    ..o
                })
            }
        },
        None => true,
    }
}

/// `after` is `before` once removing the selected bill line was asked for (see `remove_selected_line`).
pub open spec fn line_removed<M: Copy>(before: App<M>, after: App<M>) -> bool {
    &&& !editable(before) ==> after == (App { notifications: after.notifications, ..before })
        && after.notes() =~= before.notes().push(not_editable_message(before))
    &&& editable(before) && before.active().cart_index >= before.active().cart@.len()
        ==> after == before
    &&& editable(before) && before.active().cart_index < before.active().cart@.len() ==> {
        let ci = before.active().cart_index as int;
        let rest = before.active().cart@.remove(ci);
        &&& only_active_order_changed(after, before)
        &&& same_but_cart(after.active(), before.active())
        &&& after.active().cart@ =~= rest
        &&& after.active().cart_index == (if ci >= rest.len() && rest.len() > 0 {
            (rest.len() - 1) as usize
        } else {
            ci as usize
        })
        &&& after.notes() =~= before.notes().push(
            "Removed "@ + before.active().cart@[ci].name@ + "."@,
        )
        &&& after.pending_effects@ =~= before.pending_effects@.push(
            AppEffect::PersistOrder { order_id: before.active().id },
        )
        &&& after == (App {
            orders: after.orders,
            pending_effects: after.pending_effects,
            notifications: after.notifications,
            ..before
        })
    }
}

/// `after` is `before` once the selected line was changed by `change` units (see `adjust_selected_line_quantity`).
pub open spec fn line_adjusted<M: Copy>(before: App<M>, after: App<M>, change: i32) -> bool {
    &&& !editable(before) ==> after == (App { notifications: after.notifications, ..before })
        && after.notes() =~= before.notes().push(not_editable_message(before))
    &&& editable(before) ==> {
        let ci = before.active().cart_index as int;
        let cart = before.active().cart@;
        &&& after.pending_effects@ =~= before.pending_effects@.push(
            AppEffect::PersistOrder { order_id: before.active().id },
        )
        &&& only_active_order_changed(after, before)
        &&& same_but_cart(after.active(), before.active())
        &&& after.active().cart_index == before.active().cart_index
        &&& after == (App {
            orders: after.orders,
            pending_effects: after.pending_effects,
            notifications: after.notifications,
            ..before
        })
        &&& if ci >= cart.len() {
            &&& after.active().cart == before.active().cart
            &&& after.notes() =~= before.notes().push("No item selected in the bill."@)
        } else if change > 0 || cart[ci].qty > 1 {
            &&& lines_view(after.active().cart@) == lines_view(cart).update(
                ci,
                crate::models::CartLineView { qty: (cart[ci].qty + change) as nat, ..cart[ci]@ },
            )
            &&& after.notes() =~= before.notes().push(
                (if change > 0 {
                    "Increased "@
                } else {
                    "Decreased "@
                }) + cart[ci].name@ + "."@,
            )
        } else {
            &&& after.active().cart == before.active().cart
            &&& after.notes() =~= before.notes().push("Cannot decrease below 1."@)
        }
    }
}

/// `after` is `before` once clearing the active cart was asked for (see `clear_active_cart`).
pub open spec fn cart_cleared<M: Copy>(before: App<M>, after: App<M>) -> bool {
    &&& !editable(before) ==> after == (App { notifications: after.notifications, ..before })
        && after.notes() =~= before.notes().push(not_editable_message(before))
    &&& editable(before) ==> {
        &&& only_active_order_changed(after, before)
        &&& same_but_cart(after.active(), before.active())
        &&& after.active().cart@.len() == 0
        &&& after.active().cart_index == 0
        &&& after.pending_effects@ =~= before.pending_effects@.push(
            AppEffect::PersistOrder { order_id: before.active().id },
        )
        &&& after.notes() =~= before.notes().push("Cart cleared."@)
        &&& after == (App {
            orders: after.orders,
            pending_effects: after.pending_effects,
            notifications: after.notifications,
            ..before
        })
    }
}

/// `after` is `before` once the item-note popup was asked for (see `open_item_note_prompt`).
pub open spec fn note_prompt_opened<M: Copy>(before: App<M>, after: App<M>) -> bool {
    &&& !editable(before) ==> after == (App { notifications: after.notifications, ..before })
        && after.notes() =~= before.notes().push(not_editable_message(before))
    &&& editable(before) && before.active().cart_index >= before.active().cart@.len()
        ==> after == (App { notifications: after.notifications, ..before })
        && after.notes() =~= before.notes().push("No cart line selected to add note."@)
    &&& editable(before) && before.active().cart_index < before.active().cart@.len()
        ==> after == (App {
        item_note_buffer: after.item_note_buffer,
        focus_return: before.focus,
        focus: Focus::ItemNote,
        ..before
    }) && after.item_note_buffer@ =~= match before.active().cart@[before.active().cart_index as int].note {
        Some(n) => n@,
        None => Seq::empty(),
    }
}

/// `after` is `before` once the stock of the item under the cursor was flipped (see `toggle_selected_menu_item_stock`).
pub open spec fn stock_toggled<M: Copy>(before: App<M>, after: App<M>) -> bool {
    &&& before.selected_item() is None ==> after == before
    &&& match before.selected_item() {
        Some(idx) => {
            let item = before.items@[idx as int];
            &&& after.items@ =~= before.items@.update(
                idx as int,
                MenuItem { is_available: !item.is_available, ..item },
            )
            &&& after.pending_effects@ =~= before.pending_effects@.push(
                AppEffect::UpdateItemAvailability { name: item.name, available: !item.is_available },
            )
            &&& after.notes() =~= before.notes().push(
                "Marked '"@ + item.name@ + "' as "@ + (if !item.is_available {
                    "AVAILABLE"@
                } else {
                    "OUT OF STOCK (86)"@
                }) + "."@,
            )
            &&& after == (App {
                items: after.items,
                notifications: after.notifications,
                pending_effects: after.pending_effects,
                ..before
            })
        },
        None => true,
    }
}

/// `after` is `before` once the typed note was saved (see `save_item_note`).
pub open spec fn item_note_saved<M: Copy>(before: App<M>, after: App<M>) -> bool {
    &&& after.focus == before.focus_return
    &&& before.active().cart_index >= before.active().cart@.len() ==> after == (App {
        focus: before.focus_return,
        ..before
    })
    &&& before.active().cart_index < before.active().cart@.len() ==> {
        let ci = before.active().cart_index as int;
        let note = trim_seq(before.item_note_buffer@);
        &&& only_active_order_changed(after, before)
        &&& same_but_cart(after.active(), before.active())
        &&& after.active().cart_index == before.active().cart_index
        &&& lines_view(after.active().cart@) == lines_view(before.active().cart@).update(
            ci,
            crate::models::CartLineView {
                note: if note.len() == 0 {
                    None
                } else {
                    Some(note)
                },
                ..before.active().cart@[ci]@
            },
        )
        &&& after.pending_effects@ =~= before.pending_effects@.push(
            AppEffect::PersistOrder { order_id: before.active().id },
        )
        &&& after.notes() =~= before.notes().push("Item note updated."@)
        &&& after == (App {
            orders: after.orders,
            pending_effects: after.pending_effects,
            notifications: after.notifications,
            focus: before.focus_return,
            ..before
        })
    }
}

impl<M: Copy> App<M> {
    /// Flips whether the menu item under the cursor is in stock, queues
    /// storing it and announces it.
    pub fn toggle_selected_menu_item_stock(&mut self)
        ensures
            stock_toggled(*old(self), *final(self)),
    {
        let vis = self.visible_items();
        if self.menu_index >= vis.len() {
            return;
        }
        let idx = vis[self.menu_index];
        let avail = !self.items[idx].is_available;
        self.items[idx].is_available = avail;
        let name = self.items[idx].name.clone();
        let name2 = self.items[idx].name.clone();
        self.queue_effect(AppEffect::UpdateItemAvailability { name: name2, available: avail });
        let mut msg = concat("Marked '", name.as_str());
        push_str(&mut msg, "' as ");
        if avail {
            push_str(&mut msg, "AVAILABLE");
        } else {
            push_str(&mut msg, "OUT OF STOCK (86)");
        }
        push_str(&mut msg, ".");
        self.notify(msg);
    }

    /// Opens the note popup for the selected cart line, pre-filled with its
    /// note.
    pub fn open_item_note_prompt(&mut self)
        requires
            old(self).wf(),
        ensures
            note_prompt_opened(*old(self), *final(self)),
            active_order_paid(*old(self)) ==> *final(self) == (App { notifications: final(self).notifications, ..*old(self) })
                && final(self).notes() == old(self).notes().push(
                paid_bill_notice(old(self).orders@[old(self).active_order as int].id),
            ),
    {
        if !self.ensure_editable_order() {
            return;
        }
        let i = self.active_order;
        let ci = self.orders[i].cart_index;
        if ci >= self.orders[i].cart.len() {
            self.notify(String::from_str("No cart line selected to add note."));
            return;
        }
        self.item_note_buffer = match &self.orders[i].cart[ci].note {
            Some(n) => n.clone(),
            None => String::new(),
        };
        self.focus_return = self.focus;
        self.focus = Focus::ItemNote;
    }

    /// Stores the note typed in the popup (trimmed; empty removes it) on the
    /// selected cart line and returns to the previous panel.
    pub fn save_item_note(&mut self)
        requires
            old(self).wf(),
            old(self).orders@.len() > 0,
        ensures
            final(self).wf(),
            item_note_saved(*old(self), *final(self)),
    {
        let note = trim(self.item_note_buffer.as_str());
        let i = self.active_order;
        let ci = self.orders[i].cart_index;
        if ci < self.orders[i].cart.len() {
            let id = self.orders[i].id;
            let value = if note.unicode_len() == 0 {
                None
            } else {
                Some(note)
            };
            let mut order = self.orders.remove(i);
            order.cart[ci].note = value;
            self.orders.insert(i, order);
            assert(self.orders@ =~= old(self).orders@.update(i as int, self.orders@[i as int]));
            assert(lines_view(self.active().cart@) =~= lines_view(old(self).active().cart@).update(
                ci as int,
                self.active().cart@[ci as int]@,
            ));
            self.queue_effect(AppEffect::PersistOrder { order_id: id });
            self.notify(String::from_str("Item note updated."));
        }
        self.focus = self.focus_return;
    }

    /// Removes the selected cart line of the active order; the cursor stays
    /// on the last line when it falls off the end.
    pub fn remove_selected_line(&mut self)
        requires
            old(self).wf(),
        ensures
            final(self).wf(),
            line_removed(*old(self), *final(self)),
            active_order_paid(*old(self)) ==> *final(self) == (App { notifications: final(self).notifications, ..*old(self) })
                && final(self).notes() == old(self).notes().push(
                paid_bill_notice(old(self).orders@[old(self).active_order as int].id),
            ),
    {
        if !self.ensure_editable_order() {
            return;
        }
        let i = self.active_order;
        let ci = self.orders[i].cart_index;
        if ci >= self.orders[i].cart.len() {
            return;
        }
        let id = self.orders[i].id;
        let mut order = self.orders.remove(i);
        let line = order.cart.remove(ci);
        if order.cart_index >= order.cart.len() && order.cart.len() > 0 {
            order.cart_index = order.cart.len() - 1;
        }
        self.orders.insert(i, order);
        assert(self.orders@ =~= old(self).orders@.update(i as int, self.orders@[i as int]));
        let msg = crate::app::orders::msg3("Removed ", line.name.as_str(), ".");
        self.notify(msg);
        self.queue_effect(AppEffect::PersistOrder { order_id: id });
    }

    /// Whether changing the selected line's quantity by `change` stays within
    /// `u32`.
    pub open spec fn adjust_fits(&self, change: i32) -> bool {
        editable(*self) && self.active().cart_index < self.active().cart@.len() ==> {
            let q = self.active().cart@[self.active().cart_index as int].qty;
            &&& change > 0 ==> q + change <= u32::MAX
            &&& change <= 0 && q > 1 ==> change > i32::MIN && q >= -change
        }
    }

    /// Changes the quantity of the selected cart line by `change`; a line is
    /// never decreased below one unit.
    pub fn adjust_selected_line_quantity(&mut self, change: i32)
        requires
            old(self).wf(),
            old(self).adjust_fits(change),
        ensures
            final(self).wf(),
            line_adjusted(*old(self), *final(self), change),
            active_order_paid(*old(self)) ==> *final(self) == (App { notifications: final(self).notifications, ..*old(self) })
                && final(self).notes() == old(self).notes().push(
                paid_bill_notice(old(self).orders@[old(self).active_order as int].id),
            ),
    {
        if !self.ensure_editable_order() {
            return;
        }
        let i = self.active_order;
        let ci = self.orders[i].cart_index;
        let id = self.orders[i].id;
        let msg;
        if ci >= self.orders[i].cart.len() {
            msg = String::from_str("No item selected in the bill.");
        } else if change > 0 || self.orders[i].cart[ci].qty > 1 {
            let mut order = self.orders.remove(i);
            let q = order.cart[ci].qty;
            let increase = change > 0;
            if increase {
                order.cart[ci].qty = q + change as u32;
            } else {
                order.cart[ci].qty = q - (-change) as u32;
            }
            msg = crate::app::orders::msg3(
                if increase {
                    "Increased "
                } else {
                    "Decreased "
                },
                order.cart[ci].name.as_str(),
                ".",
            );
            self.orders.insert(i, order);
            assert(self.orders@ =~= old(self).orders@.update(i as int, self.orders@[i as int]));
            assert(lines_view(self.active().cart@) =~= lines_view(old(self).active().cart@).update(
                ci as int,
                self.active().cart@[ci as int]@,
            ));
        } else {
            msg = String::from_str("Cannot decrease below 1.");
        }
        self.notify(msg);
        self.queue_effect(AppEffect::PersistOrder { order_id: id });
    }

    /// Empties the active order's cart.
    pub fn clear_active_cart(&mut self)
        requires
            old(self).wf(),
        ensures
            final(self).wf(),
            cart_cleared(*old(self), *final(self)),
            active_order_paid(*old(self)) ==> *final(self) == (App { notifications: final(self).notifications, ..*old(self) })
                && final(self).notes() == old(self).notes().push(
                paid_bill_notice(old(self).orders@[old(self).active_order as int].id),
            ),
    {
        if !self.ensure_editable_order() {
            return;
        }
        let i = self.active_order;
        let id = self.orders[i].id;
        let mut order = self.orders.remove(i);
        order.cart.clear();
        order.cart_index = 0;
        self.orders.insert(i, order);
        assert(self.orders@ =~= old(self).orders@.update(i as int, self.orders@[i as int]));
        self.queue_effect(AppEffect::PersistOrder { order_id: id });
        self.notify(String::from_str("Cart cleared."));
    }
}

/// With nothing typed and no category chosen, the menu shows every item in
/// menu order.
pub proof fn lemma_unfiltered_menu_shows_everything<M>(items: Seq<MenuItem<M>>, n: nat)
    requires
        n <= items.len(),
    ensures
        category_indices(items, None, n) == Seq::new(n, |i: int| i as usize),
    decreases n,
{
    if n > 0 {
        lemma_unfiltered_menu_shows_everything(items, (n - 1) as nat);
        assert(category_indices(items, None, n) =~= Seq::new(n, |i: int| i as usize));
    } else {
        assert(category_indices(items, None, 0) =~= Seq::new(0, |i: int| i as usize));
    }
}

} // verus!
