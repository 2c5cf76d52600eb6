//! The table-jump search: every table of the floor plan, ranked against what
//! was typed (table numbers, area prefixes, states, order labels, fuzzy
//! match).
use vstd::prelude::*;

use super::cart::insert_pos;
use super::{lemma_word_len_bounds, word_len, App};
use crate::fuzzy::{fuzzy_score, skim_score};
use crate::models::{opt_view, Area, Order, PhysicalTable, TableStatus};
use crate::seqs::{first_index, lemma_first_index};
use crate::tables::{at_slot, find_order_at_table, find_table, seated_at, slot_order, slot_status};
use crate::text::{
    char_is_whitespace, chars_contains, chars_of, chars_starts_with, contains_seq, decimal,
    decimal_seq, is_white_space, parse_usize, parse_usize_seq, push_str, starts_with_seq, string_of,
    to_lowercase, trim, trim_seq, unicode_lowercase, all_ascii, ascii_lower_seq,
};

verus! {

/// A table of the floor plan as the table-jump search lists it.
#[derive(Clone, Debug)]
pub struct TableSearchResult {
    pub area_index: usize,
    pub area_name: String,
    pub table_number: usize,
    pub is_ac: bool,
    pub status: TableStatus,
    /// When cleaning started, for a table being cleaned.
    pub dirty_since: Option<i64>,
    pub order_id: Option<u32>,
    pub order_label: Option<String>,
}

// ---------------------------------------------------------------------------
// Specifications
// ---------------------------------------------------------------------------

/// The whitespace-separated words of `s`, in order.
pub open spec fn words(s: Seq<char>) -> Seq<Seq<char>>
    decreases s.len(),
{
    if s.len() == 0 {
        Seq::empty()
    } else if is_white_space(s[0]) {
        words(s.drop_first())
    } else {
        proof {
            lemma_word_len_bounds(s);
            lemma_word_len_bounds(s.drop_first());
        }
        let w = word_len(s);
        seq![s.take(w)] + words(s.skip(w))
    }
}

/// Every table slot of the floor plan as (area index, table number), area by
/// area, tables in order.
pub open spec fn search_slots(areas: Seq<Area>) -> Seq<(int, nat)>
    decreases areas.len(),
{
    if areas.len() == 0 {
        Seq::empty()
    } else {
        let a = areas.len() - 1;
        search_slots(areas.drop_last()) + Seq::new(
            areas.last().table_count as nat,
            |i: int| (a, (i + 1) as nat),
        )
    }
}

/// When cleaning started at a slot, by its first table.
pub open spec fn slot_dirty(tables: Seq<PhysicalTable>, area: Seq<char>, number: nat) -> Option<i64> {
    match first_index(tables, at_slot(area, number)) {
        Some(i) => tables[i].dirty_since,
        None => None,
    }
}

/// The label of the order seated at a slot.
pub open spec fn slot_label<M>(orders: Seq<Order<M>>, area: Seq<char>, number: nat) -> Option<Seq<char>> {
    match first_index(orders, seated_at::<M>(area, number)) {
        Some(i) => Some(orders[i].label@),
        None => None,
    }
}

/// `r` lists slot (a, number) of the floor plan with its current state.
pub open spec fn result_for<M>(
    r: TableSearchResult,
    areas: Seq<Area>,
    tables: Seq<PhysicalTable>,
    orders: Seq<Order<M>>,
    slot: (int, nat),
) -> bool {
    let (a, n) = slot;
    let name = areas[a].name@;
    &&& r.area_index == a
    &&& r.area_name@ == name
    &&& r.table_number == n
    &&& r.is_ac == areas[a].is_ac
    &&& r.status == slot_status(tables, name, n)
    &&& r.dirty_since == slot_dirty(tables, name, n)
    &&& r.order_id == slot_order(orders, name, n)
    &&& opt_view(r.order_label) == slot_label(orders, name, n)
}

/// The table number a query asks for: after a leading `t` (trimmed), or the
/// whole query.
pub open spec fn query_number(q: Seq<char>) -> Option<nat> {
    if q.len() > 0 && q[0] == 't' {
        parse_usize_seq(trim_seq(q.drop_first()))
    } else {
        parse_usize_seq(q)
    }
}

/// A word of a query fits a table: a number must be its number, other words
/// must occur in its area name or state.
pub open spec fn token_fits(tok: Seq<char>, n: nat, area_l: Seq<char>, title_l: Seq<char>) -> bool {
    match parse_usize_seq(tok) {
        Some(num) => n == num,
        None => contains_seq(area_l, tok) || contains_seq(title_l, tok),
    }
}

/// Every word of a query fits a table.
pub open spec fn tokens_fit(toks: Seq<Seq<char>>, n: nat, area_l: Seq<char>, title_l: Seq<char>) -> bool {
    forall|i: int| 0 <= i < toks.len() ==> token_fits(#[trigger] toks[i], n, area_l, title_l)
}

/// The text a table is fuzzily matched against.
pub open spec fn haystack(name: Seq<char>, n: nat, status: TableStatus) -> Seq<char> {
    name + " T"@ + decimal_seq(n) + " "@ + status.spec_title() + " "@ + status.spec_label()
}

/// Points for the number asked for: 100, and 50 more in the selected area.
pub open spec fn number_points(q: Seq<char>, cur: int, a: int, n: nat) -> int {
    if query_number(q) == Some(n) {
        if a == cur {
            150
        } else {
            100
        }
    } else {
        0
    }
}

/// Points when a query of two words or more fits the table word by word.
pub open spec fn word_points(q: Seq<char>, n: nat, area_l: Seq<char>, title_l: Seq<char>) -> int {
    if words(q).len() >= 2 && tokens_fit(words(q), n, area_l, title_l) {
        80
    } else {
        0
    }
}

/// Points when the query is the first `k` characters of the area name
/// followed by the table number (`bonus` of them).
pub open spec fn prefix_points(q: Seq<char>, k: int, n: nat, area_l: Seq<char>, bonus: int) -> int {
    if q.len() >= k + 1 && parse_usize_seq(q.skip(k)) == Some(n) && starts_with_seq(area_l, q.take(k)) {
        bonus
    } else {
        0
    }
}

/// `points` when `hit`.
pub open spec fn points_if(hit: bool, points: int) -> int {
    if hit {
        points
    } else {
        0
    }
}

/// Points when the seated order's label contains the query.
pub open spec fn label_points(q: Seq<char>, label: Option<Seq<char>>) -> int {
    match label {
        Some(l) => points_if(contains_seq(unicode_lowercase(l), q), 60),
        None => 0,
    }
}

/// The fuzzy score of the table's text.
pub open spec fn fuzzy_points(q: Seq<char>, name: Seq<char>, n: nat, status: TableStatus) -> int {
    match skim_score(haystack(name, n, status), q) {
        Some(f) => f as int,
        None => 0,
    }
}

/// How well a table matches the (lowercased, trimmed) query `q`, with `cur`
/// the selected area: a matching number (more in the selected area), all
/// words fitting, an area prefix followed by the number, the area name, the
/// state, the seated order's label, and the fuzzy score.
pub open spec fn table_score(
    q: Seq<char>,
    cur: int,
    a: int,
    name: Seq<char>,
    n: nat,
    status: TableStatus,
    label: Option<Seq<char>>,
) -> int {
    let area_l = unicode_lowercase(name);
    let title_l = unicode_lowercase(status.spec_title());
    let label_l = unicode_lowercase(status.spec_label());
    number_points(q, cur, a, n) + word_points(q, n, area_l, title_l) + prefix_points(q, 1, n, area_l, 90)
        + prefix_points(q, 2, n, area_l, 95) + points_if(contains_seq(area_l, q), 40) + points_if(
        contains_seq(title_l, q) || contains_seq(label_l, q),
        35,
    ) + label_points(q, label) + fuzzy_points(q, name, n, status)
}

/// The score of slot `s` of the floor plan.
pub open spec fn slot_score<M>(
    q: Seq<char>,
    cur: int,
    areas: Seq<Area>,
    tables: Seq<PhysicalTable>,
    orders: Seq<Order<M>>,
    s: (int, nat),
) -> int {
    let name = areas[s.0].name@;
    table_score(q, cur, s.0, name, s.1, slot_status(tables, name, s.1), slot_label(orders, name, s.1))
}

/// The first `k` slots that score above zero, as (score, position), best
/// first; equal scores keep floor-plan order.
pub open spec fn ranked_slots<M>(
    q: Seq<char>,
    cur: int,
    areas: Seq<Area>,
    tables: Seq<PhysicalTable>,
    orders: Seq<Order<M>>,
    k: nat,
) -> Seq<(i64, usize)>
    decreases k,
{
    if k == 0 {
        Seq::empty()
    } else {
        let prev = ranked_slots(q, cur, areas, tables, orders, (k - 1) as nat);
        let sc = slot_score(q, cur, areas, tables, orders, search_slots(areas)[k - 1]);
        if sc > 0 {
            prev.insert(insert_pos(prev, sc as i64) as int, (sc as i64, (k - 1) as usize))
        } else {
            prev
        }
    }
}

/// The slots the search lists for query `q`: with no query every table, the
/// selected area's first; otherwise the tables that score above zero, best
/// first, then by area and number.
pub open spec fn search_order<M>(
    q: Seq<char>,
    cur: int,
    areas: Seq<Area>,
    tables: Seq<PhysicalTable>,
    orders: Seq<Order<M>>,
) -> Seq<(int, nat)> {
    let all = search_slots(areas);
    if q.len() == 0 {
        all.filter(in_area(cur)) + all.filter(not_in_area(cur))
    } else {
        ranked_slots(q, cur, areas, tables, orders, all.len()).map_values(|e: (i64, usize)| all[e.1 as int])
    }
}

/// The slot lies in area `cur`.
pub open spec fn in_area(cur: int) -> spec_fn((int, nat)) -> bool {
    |s: (int, nat)| s.0 == cur
}

/// The slot lies outside area `cur`.
pub open spec fn not_in_area(cur: int) -> spec_fn((int, nat)) -> bool {
    |s: (int, nat)| s.0 != cur
}

/// Whether the query can be cut after its first and second bytes: its first
/// two characters are ASCII.
pub open spec fn splits_cleanly(q: Seq<char>) -> bool {
    &&& q.len() >= 1 ==> (q[0] as u32) < 0x80
    &&& q.len() >= 2 ==> (q[1] as u32) < 0x80
}

// ---------------------------------------------------------------------------
// Text pieces
// ---------------------------------------------------------------------------

/// The characters `v[from..to]`.
pub fn chars_range(v: &Vec<char>, from: usize, to: usize) -> (r: Vec<char>)
    requires
        from <= to <= v@.len(),
    ensures
        r@ == v@.subrange(from as int, to as int),
{
    let mut r: Vec<char> = Vec::new();
    let mut i: usize = from;
    while i < to
        invariant
            from <= i <= to,
            to <= v@.len(),
            r@ == v@.subrange(from as int, i as int),
        decreases to - i,
    {
        r.push(v[i]);
        i = i + 1;
        assert(r@ =~= v@.subrange(from as int, i as int));
    }
    r
}

/// The whitespace-separated words of `v`, in order.
pub fn split_words(v: &Vec<char>) -> (r: Vec<Vec<char>>)
    ensures
        r@.len() == words(v@).len(),
        forall|k: int| 0 <= k < r@.len() ==> (#[trigger] r@[k])@ == words(v@)[k],
{
    let n = v.len();
    let mut r: Vec<Vec<char>> = Vec::new();
    let ghost done: Seq<Seq<char>> = Seq::empty();
    let mut i: usize = 0;
    assert(v@.subrange(0, n as int) =~= v@);
    while i < n
        invariant
            n == v@.len(),
            i <= n,
            r@.len() == done.len(),
            forall|k: int| 0 <= k < r@.len() ==> (#[trigger] r@[k])@ == done[k],
            words(v@) == done + words(v@.subrange(i as int, n as int)),
        decreases n - i,
    {
        let ghost rest = v@.subrange(i as int, n as int);
        if char_is_whitespace(v[i]) {
            assert(rest.drop_first() =~= v@.subrange(i + 1, n as int));
            i = i + 1;
        } else {
            let mut j: usize = i;
            while j < n && !char_is_whitespace(v[j])
                invariant
                    n == v@.len(),
                    i <= j <= n,
                    rest == v@.subrange(i as int, n as int),
                    word_len(rest) == (j - i) + word_len(v@.subrange(j as int, n as int)),
                decreases n - j,
            {
                assert(v@.subrange(j as int, n as int).drop_first() =~= v@.subrange(j + 1, n as int));
                j = j + 1;
            }
            assert(word_len(v@.subrange(j as int, n as int)) == 0);
            let w = chars_range(v, i, j);
            proof {
                lemma_word_len_bounds(rest);
                assert(rest.take(word_len(rest)) =~= w@);
                assert(rest.skip(word_len(rest)) =~= v@.subrange(j as int, n as int));
                assert(done.push(w@) + words(v@.subrange(j as int, n as int)) =~= done + (seq![w@]
                    + words(v@.subrange(j as int, n as int))));
                done = done.push(w@);
            }
            r.push(w);
            i = j;
        }
    }
    assert(words(v@.subrange(n as int, n as int)) =~= Seq::<Seq<char>>::empty()) by {
        assert(v@.subrange(n as int, n as int).len() == 0);
    }
    assert(words(v@) =~= done);
    r
}

/// The table number a query asks for.
fn query_number_of(q: &Vec<char>) -> (r: Option<usize>)
    ensures
        match r {
            Some(n) => query_number(q@) == Some(n as nat),
            None => query_number(q@) is None,
        },
{
    if q.len() > 0 && q[0] == 't' {
        let rest = chars_range(q, 1, q.len());
        assert(rest@ =~= q@.drop_first());
        let t = crate::text::trim_chars(&rest);
        let st = string_of(&t);
        parse_usize(st.as_str())
    } else {
        let st = string_of(q);
        parse_usize(st.as_str())
    }
}

/// Whether every word fits a table.
fn tokens_fit_exec(toks: &Vec<Vec<char>>, n: usize, area_l: &Vec<char>, title_l: &Vec<char>) -> (r: bool)
    ensures
        r == tokens_fit(toks@.map_values(|w: Vec<char>| w@), n as nat, area_l@, title_l@),
{
    let ghost views = toks@.map_values(|w: Vec<char>| w@);
    let mut i: usize = 0;
    while i < toks.len()
        invariant
            i <= toks@.len(),
            views == toks@.map_values(|w: Vec<char>| w@),
            forall|k: int| 0 <= k < i ==> token_fits(#[trigger] views[k], n as nat, area_l@, title_l@),
        decreases toks.len() - i,
    {
        let st = string_of(&toks[i]);
        let fits = match parse_usize(st.as_str()) {
            Some(num) => n == num,
            None => chars_contains(area_l, &toks[i]) || chars_contains(title_l, &toks[i]),
        };
        if !fits {
            assert(!token_fits(views[i as int], n as nat, area_l@, title_l@));
            return false;
        }
        i = i + 1;
    }
    true
}

// ---------------------------------------------------------------------------
// The search
// ---------------------------------------------------------------------------

/// A copy of a search result.
pub fn copy_result(e: &TableSearchResult) -> (r: TableSearchResult)
    ensures
        r == *e,
{
    TableSearchResult {
        area_index: e.area_index,
        area_name: e.area_name.clone(),
        table_number: e.table_number,
        is_ac: e.is_ac,
        status: e.status,
        dirty_since: e.dirty_since,
        order_id: e.order_id,
        order_label: match &e.order_label {
            Some(l) => Some(l.clone()),
            None => None,
        },
    }
}

proof fn lemma_search_slots_step(areas: Seq<Area>, a: int)
    requires
        0 <= a < areas.len(),
    ensures
        search_slots(areas.take(a + 1)) == search_slots(areas.take(a)) + Seq::new(
            areas[a].table_count as nat,
            |i: int| (a, (i + 1) as nat),
        ),
{
    assert(areas.take(a + 1).drop_last() =~= areas.take(a));
    assert(areas.take(a + 1).last() == areas[a]);
}

impl<M> App<M> {
    /// Every table of the floor plan with its state, area by area.
    pub fn all_table_results(&self) -> (r: Vec<TableSearchResult>)
        ensures
            r@.len() == search_slots(self.areas@).len(),
            forall|k: int|
                0 <= k < r@.len() ==> result_for(
                    #[trigger] r@[k],
                    self.areas@,
                    self.physical_tables@,
                    self.orders@,
                    search_slots(self.areas@)[k],
                ),
    {
        let mut r: Vec<TableSearchResult> = Vec::new();
        let mut a: usize = 0;
        while a < self.areas.len()
            invariant
                a <= self.areas@.len(),
                r@.len() == search_slots(self.areas@.take(a as int)).len(),
                forall|k: int|
                    0 <= k < r@.len() ==> result_for(
                        #[trigger] r@[k],
                        self.areas@,
                        self.physical_tables@,
                        self.orders@,
                        search_slots(self.areas@.take(a as int))[k],
                    ),
            decreases self.areas.len() - a,
        {
            let ghost base = search_slots(self.areas@.take(a as int));
            let count = self.areas[a].table_count;
            let ghost slots = Seq::new(count as nat, |i: int| (a as int, (i + 1) as nat));
            let mut num: usize = 0;
            while num < count
                invariant
                    a < self.areas@.len(),
                    count == self.areas@[a as int].table_count,
                    slots == Seq::new(count as nat, |i: int| (a as int, (i + 1) as nat)),
                    num <= count,
                    r@.len() == base.len() + num,
                    forall|k: int|
                        0 <= k < r@.len() ==> result_for(
                            #[trigger] r@[k],
                            self.areas@,
                            self.physical_tables@,
                            self.orders@,
                            (base + slots.take(num as int))[k],
                        ),
                decreases count - num,
            {
                let n = num + 1;
                let name = self.areas[a].name.clone();
                let (status, dirty_since) = match find_table(&self.physical_tables, name.as_str(), n) {
                    Some(i) => (self.physical_tables[i].status, self.physical_tables[i].dirty_since),
                    None => (TableStatus::Ready, None),
                };
                let (order_id, order_label) = match find_order_at_table(&self.orders, name.as_str(), n) {
                    Some(oi) => {
                        proof {
                            lemma_first_index(self.orders@, seated_at::<M>(name@, n as nat));
                        }
                        (Some(self.orders[oi].id), Some(self.orders[oi].label.clone()))
                    },
                    None => (None, None),
                };
                let e = TableSearchResult {
                    area_index: a,
                    area_name: name,
                    table_number: n,
                    is_ac: self.areas[a].is_ac,
                    status,
                    dirty_since,
                    order_id,
                    order_label,
                };
                proof {
                    assert(base + slots.take(n as int) =~= (base + slots.take(num as int)).push(slots[num as int]));
                }
                r.push(e);
                num = n;
            }
            proof {
                lemma_search_slots_step(self.areas@, a as int);
                assert(slots.take(count as int) =~= slots);
            }
            a = a + 1;
        }
        assert(self.areas@.take(self.areas@.len() as int) =~= self.areas@);
        r
    }
}

impl<M> App<M> {
    /// The score of search result `e` for query `q` (with `qs` its text,
    /// `toks` its words and `qnum` the number it asks for).
    #[verifier::spinoff_prover]
    #[verifier::rlimit(50)]
    fn score_result(
        &self,
        q: &Vec<char>,
        qs: &str,
        toks: &Vec<Vec<char>>,
        qnum: Option<usize>,
        e: &TableSearchResult,
    ) -> (s: i64)
        requires
            q@ == qs@,
            toks@.map_values(|w: Vec<char>| w@) == words(q@),
            match qnum {
                Some(n) => query_number(q@) == Some(n as nat),
                None => query_number(q@) is None,
            },
        ensures
            s == table_score(
                q@,
                self.selected_area_index as int,
                e.area_index as int,
                e.area_name@,
                e.table_number as nat,
                e.status,
                opt_view(e.order_label),
            ),
    {
        let al = to_lowercase(e.area_name.as_str());
        let area_l = chars_of(al.as_str());
        let tl = to_lowercase(e.status.title());
        let title_l = chars_of(tl.as_str());
        let ll = to_lowercase(e.status.label());
        let label_l = chars_of(ll.as_str());
        let n = e.table_number;
        let s1: i64 = match qnum {
            Some(p) => if n == p {
                if e.area_index == self.selected_area_index {
                    150
                } else {
                    100
                }
            } else {
                0
            },
            None => 0,
        };
        assert(s1 == number_points(q@, self.selected_area_index as int, e.area_index as int, n as nat));
        let s2: i64 = if toks.len() >= 2 && tokens_fit_exec(toks, n, &area_l, &title_l) {
            80
        } else {
            0
        };
        assert(s2 == word_points(q@, n as nat, area_l@, title_l@));
        let mut s3: i64 = 0;
        if q.len() >= 2 {
            let rest = chars_range(q, 1, q.len());
            let pre = chars_range(q, 0, 1);
            assert(rest@ =~= q@.skip(1));
            assert(pre@ =~= q@.take(1));
            let rs = string_of(&rest);
            if parse_usize(rs.as_str()) == Some(n) && chars_starts_with(&area_l, &pre) {
                s3 = 90;
            }
        }
        assert(s3 == prefix_points(q@, 1, n as nat, area_l@, 90));
        let mut s4: i64 = 0;
        if q.len() >= 3 {
            let rest = chars_range(q, 2, q.len());
            let pre = chars_range(q, 0, 2);
            assert(rest@ =~= q@.skip(2));
            assert(pre@ =~= q@.take(2));
            let rs = string_of(&rest);
            if parse_usize(rs.as_str()) == Some(n) && chars_starts_with(&area_l, &pre) {
                s4 = 95;
            }
        }
        assert(s4 == prefix_points(q@, 2, n as nat, area_l@, 95));
        let s5: i64 = if chars_contains(&area_l, q) {
            40
        } else {
            0
        };
        let s6: i64 = if chars_contains(&title_l, q) || chars_contains(&label_l, q) {
            35
        } else {
            0
        };
        let s7: i64 = match &e.order_label {
            Some(l) => {
                let lo = to_lowercase(l.as_str());
                let lv = chars_of(lo.as_str());
                if chars_contains(&lv, q) {
                    60
                } else {
                    0
                }
            },
            None => 0,
        };
        assert(s7 == label_points(q@, opt_view(e.order_label)));
        let mut hay = e.area_name.clone();
        push_str(&mut hay, " T");
        let d = decimal(n as u64);
        push_str(&mut hay, d.as_str());
        push_str(&mut hay, " ");
        push_str(&mut hay, e.status.title());
        push_str(&mut hay, " ");
        push_str(&mut hay, e.status.label());
        let s8: i64 = match fuzzy_score(hay.as_str(), qs) {
            Some(f) => f,
            None => 0,
        };
        assert(hay@ =~= haystack(e.area_name@, n as nat, e.status));
        assert(s8 == fuzzy_points(q@, e.area_name@, n as nat, e.status));
        s1 + s2 + s3 + s4 + s5 + s6 + s7 + s8
    }
}

impl<M> App<M> {
    /// The floor plan ranked for the lowercased, trimmed query `qs`.
    #[verifier::rlimit(30)]
    pub fn rank_tables(&self, qs: &str) -> (r: Vec<TableSearchResult>)
        requires
            splits_cleanly(qs@),
        ensures
            r@.len() == search_order(
                qs@,
                self.selected_area_index as int,
                self.areas@,
                self.physical_tables@,
                self.orders@,
            ).len(),
            forall|k: int|
                0 <= k < r@.len() ==> result_for(
                    #[trigger] r@[k],
                    self.areas@,
                    self.physical_tables@,
                    self.orders@,
                    search_order(
                        qs@,
                        self.selected_area_index as int,
                        self.areas@,
                        self.physical_tables@,
                        self.orders@,
                    )[k],
                ),
    {
        let all = self.all_table_results();
        let ghost slots = search_slots(self.areas@);
        let ghost areas = self.areas@;
        let ghost tables = self.physical_tables@;
        let ghost orders = self.orders@;
        let ghost cur = self.selected_area_index as int;
        let q = chars_of(qs);
        let n = all.len();
        let mut r: Vec<TableSearchResult> = Vec::new();
        if q.len() == 0 {
            let ghost p1 = in_area(cur);
            let ghost p2 = not_in_area(cur);
            let mut i: usize = 0;
            assert(slots.take(0).filter(p1) =~= Seq::<(int, nat)>::empty());
            while i < n
                invariant
                    n == all@.len(),
                    n == slots.len(),
                    slots == search_slots(areas),
                    areas == self.areas@,
                    tables == self.physical_tables@,
                    orders == self.orders@,
                    cur == self.selected_area_index as int,
                    p1 == in_area(cur),
                    forall|k: int| 0 <= k < n ==> result_for(#[trigger] all@[k], areas, tables, orders, slots[k]),
                    i <= n,
                    r@.len() == slots.take(i as int).filter(p1).len(),
                    forall|k: int|
                        0 <= k < r@.len() ==> result_for(
                            #[trigger] r@[k],
                            areas,
                            tables,
                            orders,
                            slots.take(i as int).filter(p1)[k],
                        ),
                decreases n - i,
            {
                proof {
                    assert(slots.take(i + 1) =~= slots.take(i as int).push(slots[i as int]));
                    slots.take(i as int).lemma_filter_push(slots[i as int], p1);
                }
                if all[i].area_index == self.selected_area_index {
                    r.push(copy_result(&all[i]));
                }
                i = i + 1;
            }
            assert(slots.take(n as int) =~= slots);
            let ghost f1 = slots.filter(p1);
            let mut j: usize = 0;
            assert(slots.take(0).filter(p2) =~= Seq::<(int, nat)>::empty());
            while j < n
                invariant
                    n == all@.len(),
                    n == slots.len(),
                    slots == search_slots(areas),
                    areas == self.areas@,
                    tables == self.physical_tables@,
                    orders == self.orders@,
                    cur == self.selected_area_index as int,
                    p2 == not_in_area(cur),
                    f1 == slots.filter(p1),
                    forall|k: int| 0 <= k < n ==> result_for(#[trigger] all@[k], areas, tables, orders, slots[k]),
                    j <= n,
                    r@.len() == f1.len() + slots.take(j as int).filter(p2).len(),
                    forall|k: int|
                        0 <= k < r@.len() ==> result_for(
                            #[trigger] r@[k],
                            areas,
                            tables,
                            orders,
                            (f1 + slots.take(j as int).filter(p2))[k],
                        ),
                decreases n - j,
            {
                proof {
                    assert(slots.take(j + 1) =~= slots.take(j as int).push(slots[j as int]));
                    slots.take(j as int).lemma_filter_push(slots[j as int], p2);
                    assert(f1 + slots.take(j + 1).filter(p2) =~= if p2(slots[j as int]) {
                        (f1 + slots.take(j as int).filter(p2)).push(slots[j as int])
                    } else {
                        f1 + slots.take(j as int).filter(p2)
                    });
                }
                if all[j].area_index != self.selected_area_index {
                    r.push(copy_result(&all[j]));
                }
                j = j + 1;
            }
            assert(slots.take(n as int) =~= slots);
            return r;
        }
        let toks = split_words(&q);
        proof {
            assert(toks@.map_values(|w: Vec<char>| w@) =~= words(q@));
        }
        let qnum = query_number_of(&q);
        let mut list: Vec<(i64, usize)> = Vec::new();
        let mut i: usize = 0;
        while i < n
            invariant
                n == all@.len(),
                n == slots.len(),
                slots == search_slots(areas),
                areas == self.areas@,
                tables == self.physical_tables@,
                orders == self.orders@,
                cur == self.selected_area_index as int,
                q@ == qs@,
                q@.len() > 0,
                toks@.map_values(|w: Vec<char>| w@) == words(q@),
                match qnum {
                    Some(m) => query_number(q@) == Some(m as nat),
                    None => query_number(q@) is None,
                },
                forall|k: int| 0 <= k < n ==> result_for(#[trigger] all@[k], areas, tables, orders, slots[k]),
                i <= n,
                list@ == ranked_slots(q@, cur, areas, tables, orders, i as nat),
                forall|k: int| 0 <= k < list@.len() ==> #[trigger] list@[k].1 < i,
            decreases n - i,
        {
            let sc = self.score_result(&q, qs, &toks, qnum, &all[i]);
            proof {
                assert(result_for(all@[i as int], areas, tables, orders, slots[i as int]));
                assert(sc == slot_score(q@, cur, areas, tables, orders, slots[i as int]));
            }
            if sc > 0 {
                let mut p: usize = 0;
                proof {
                    assert(list@.subrange(0, list@.len() as int) =~= list@);
                }
                while p < list.len() && list[p].0 >= sc
                    invariant
                        p <= list@.len(),
                        insert_pos(list@, sc) == p + insert_pos(
                            list@.subrange(p as int, list@.len() as int),
                            sc,
                        ),
                    decreases list.len() - p,
                {
                    proof {
                        let tail = list@.subrange(p as int, list@.len() as int);
                        assert(tail.drop_first() =~= list@.subrange(p + 1, list@.len() as int));
                    }
                    p = p + 1;
                }
                proof {
                    let tail = list@.subrange(p as int, list@.len() as int);
                    if p < list@.len() {
                        assert(tail[0] == list@[p as int]);
                    }
                    super::cart::lemma_insert_pos_bound(list@, sc);
                }
                list.insert(p, (sc, i));
            }
            i = i + 1;
        }
        let mut k: usize = 0;
        while k < list.len()
            invariant
                n == all@.len(),
                n == slots.len(),
                forall|j: int| 0 <= j < n ==> result_for(#[trigger] all@[j], areas, tables, orders, slots[j]),
                forall|j: int| 0 <= j < list@.len() ==> #[trigger] list@[j].1 < n,
                k <= list@.len(),
                r@.len() == k,
                forall|j: int|
                    0 <= j < k ==> result_for(
                        #[trigger] r@[j],
                        areas,
                        tables,
                        orders,
                        slots[list@[j].1 as int],
                    ),
            decreases list.len() - k,
        {
            let pos = list[k].1;
            r.push(copy_result(&all[pos]));
            k = k + 1;
        }
        r
    }

    /// The floor plan ranked against what was typed in the table-jump box
    /// (trimmed and lowercased); `None` when the lowercased query does not
    /// begin with two ASCII characters, where it cannot be cut after its
    /// first and second bytes.
    pub fn matching_tables(&self) -> (r: Option<Vec<TableSearchResult>>)
        ensures
            all_ascii(trim_seq(self.table_input@)) ==> unicode_lowercase(trim_seq(self.table_input@))
                == ascii_lower_seq(trim_seq(self.table_input@)),
            ({
                let q = unicode_lowercase(trim_seq(self.table_input@));
                match r {
                    Some(v) => splits_cleanly(q) && v@.len() == search_order(
                        q,
                        self.selected_area_index as int,
                        self.areas@,
                        self.physical_tables@,
                        self.orders@,
                    ).len() && forall|k: int|
                        0 <= k < v@.len() ==> result_for(
                            #[trigger] v@[k],
                            self.areas@,
                            self.physical_tables@,
                            self.orders@,
                            search_order(
                                q,
                                self.selected_area_index as int,
                                self.areas@,
                                self.physical_tables@,
                                self.orders@,
                            )[k],
                        ),
                    None => !splits_cleanly(q),
                }
            }),
    {
        let t = trim(self.table_input.as_str());
        let q = to_lowercase(t.as_str());
        let v = chars_of(q.as_str());
        #[verifier::truncate]
        let ok0 = v.len() < 1 || (v[0] as u32) < 0x80;
        #[verifier::truncate]
        let ok1 = v.len() < 2 || (v[1] as u32) < 0x80;
        if ok0 && ok1 {
            Some(self.rank_tables(q.as_str()))
        } else {
            None
        }
    }
}

/// An area filter and its complement split the slots: every slot is listed
/// once.
proof fn lemma_filter_split(s: Seq<(int, nat)>, cur: int)
    ensures
        s.filter(in_area(cur)).len() + s.filter(not_in_area(cur)).len() == s.len(),
    decreases s.len(),
{
    if s.len() > 0 {
        let d = s.drop_last();
        lemma_filter_split(d, cur);
        assert(s =~= d.push(s.last()));
        d.lemma_filter_push(s.last(), in_area(cur));
        d.lemma_filter_push(s.last(), not_in_area(cur));
    } else {
        assert(s.filter(in_area(cur)) =~= Seq::<(int, nat)>::empty());
        assert(s.filter(not_in_area(cur)) =~= Seq::<(int, nat)>::empty());
    }
}

/// With nothing typed, the table jump lists every table of the floor plan,
/// each once: the selected area's tables first, then the others, each group
/// in floor-plan order.
pub proof fn lemma_empty_query_lists_every_table<M>(
    cur: int,
    areas: Seq<Area>,
    tables: Seq<PhysicalTable>,
    orders: Seq<Order<M>>,
)
    ensures
        search_order(Seq::empty(), cur, areas, tables, orders).len() == search_slots(areas).len(),
        forall|k: int|
            0 <= k < search_order(Seq::empty(), cur, areas, tables, orders).len() ==> {
                let s = #[trigger] search_order(Seq::empty(), cur, areas, tables, orders)[k];
                search_slots(areas).contains(s)
            },
{
    let all = search_slots(areas);
    lemma_filter_split(all, cur);
    let f1 = all.filter(in_area(cur));
    let f2 = all.filter(not_in_area(cur));
    assert forall|k: int| 0 <= k < (f1 + f2).len() implies all.contains(#[trigger] (f1 + f2)[k]) by {
        if k < f1.len() {
            assert((f1 + f2)[k] == f1[k]);
            assert(f1.contains(f1[k]));
            all.lemma_filter_contains_rev(in_area(cur), f1[k]);
        } else {
            assert((f1 + f2)[k] == f2[k - f1.len()]);
            assert(f2.contains(f2[k - f1.len()]));
            all.lemma_filter_contains_rev(not_in_area(cur), f2[k - f1.len()]);
        }
    }
}

} // verus!
