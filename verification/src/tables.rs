//! The dining-room floor: physical tables laid out by area, their lifecycle
//! states, the cleaning timer, and the lookup of the order seated at a table.
use vstd::prelude::*;

use crate::models::{opt_view, Area, Order, PhysicalTable, Service, TableStatus, CLEANING_SECONDS};
use crate::seqs::{first_index, lemma_first_index, lemma_first_index_is, lemma_first_index_none};
use crate::text::{chars_eq, chars_of, parse_u32, parse_u32_seq, string_of};

verus! {

// ---------------------------------------------------------------------------
// Layout
// ---------------------------------------------------------------------------

/// The (area, number) slots of one area: tables 1..=table_count.
pub open spec fn area_slots(a: Area) -> Seq<(Seq<char>, nat)> {
    Seq::new(a.table_count as nat, |i: int| (a.name@, (i + 1) as nat))
}

/// The (area, number) slots of every table, area after area.
pub open spec fn layout(areas: Seq<Area>) -> Seq<(Seq<char>, nat)>
    decreases areas.len(),
{
    if areas.len() == 0 {
        Seq::empty()
    } else {
        layout(areas.drop_last()) + area_slots(areas.last())
    }
}

/// The slot of a physical table.
pub open spec fn slot_of(t: PhysicalTable) -> (Seq<char>, nat) {
    (t.area@, t.number as nat)
}

/// The table sits in slot (area, number).
pub open spec fn at_slot(area: Seq<char>, number: nat) -> spec_fn(PhysicalTable) -> bool {
    |t: PhysicalTable| t.area@ == area && t.number == number
}

/// The order is the dine-in order seated at (area, number).
pub open spec fn seated_at<M>(area: Seq<char>, number: nat) -> spec_fn(Order<M>) -> bool {
    |o: Order<M>| o.at_table(area, number)
}

/// The order has identifier `id`.
pub open spec fn has_id<M>(id: u32) -> spec_fn(Order<M>) -> bool {
    |o: Order<M>| o.id == id
}

/// The lifecycle part of a table: status, seated order and cleaning start.
pub open spec fn table_state(t: PhysicalTable) -> (TableStatus, Option<u32>, Option<i64>) {
    (t.status, t.order_id, t.dirty_since)
}

/// The state a rebuilt table takes: that of the first earlier table in the
/// same slot, or Ready with nothing seated.
pub open spec fn carried_state(prev: Seq<PhysicalTable>, area: Seq<char>, number: nat) -> (
    TableStatus,
    Option<u32>,
    Option<i64>,
) {
    match first_index(prev, at_slot(area, number)) {
        Some(i) => table_state(prev[i]),
        None => (TableStatus::Ready, None, None),
    }
}

pub proof fn lemma_layout_push(areas: Seq<Area>, a: int)
    requires
        0 <= a < areas.len(),
    ensures
        layout(areas.subrange(0, a + 1)) == layout(areas.subrange(0, a)) + area_slots(areas[a]),
{
    assert(areas.subrange(0, a + 1).drop_last() =~= areas.subrange(0, a));
}

/// Fresh tables, all Ready, one per slot of the area layout.
pub fn init_physical_tables(areas: &[Area]) -> (tables: Vec<PhysicalTable>)
    ensures
        tables@.len() == layout(areas@).len(),
        forall|k: int|
            0 <= k < tables@.len() ==> slot_of(#[trigger] tables@[k]) == layout(areas@)[k]
                && table_state(tables@[k]) == (TableStatus::Ready, None::<u32>, None::<i64>),
{
    let mut tables: Vec<PhysicalTable> = Vec::new();
    let mut a: usize = 0;
    while a < areas.len()
        invariant
            a <= areas.len(),
            tables@.len() == layout(areas@.subrange(0, a as int)).len(),
            forall|k: int|
                0 <= k < tables@.len() ==> slot_of(#[trigger] tables@[k]) == layout(
                    areas@.subrange(0, a as int),
                )[k] && table_state(tables@[k]) == (TableStatus::Ready, None::<u32>, None::<i64>),
        decreases areas.len() - a,
    {
        let ghost base = layout(areas@.subrange(0, a as int));
        let ghost slots = area_slots(areas@[a as int]);
        let count = areas[a].table_count;
        let mut num: usize = 0;
        while num < count
            invariant
                a < areas.len(),
                count == areas@[a as int].table_count,
                slots == area_slots(areas@[a as int]),
                num <= count,
                tables@.len() == base.len() + num,
                forall|k: int|
                    0 <= k < tables@.len() ==> slot_of(#[trigger] tables@[k]) == (base + slots)[k]
                        && table_state(tables@[k]) == (
                        TableStatus::Ready,
                        None::<u32>,
                        None::<i64>,
                    ),
            decreases count - num,
        {
            let t = PhysicalTable::ready(areas[a].name.as_str(), num + 1);
            tables.push(t);
            num = num + 1;
        }
        proof {
            lemma_layout_push(areas@, a as int);
        }
        a = a + 1;
    }
    assert(areas@.subrange(0, areas@.len() as int) =~= areas@);
    tables
}

/// Fresh tables for the layout of `areas`, each carrying the state of the
/// earlier table in the same slot when there was one.
pub fn rebuild_physical_tables(areas: &[Area], previous: &Vec<PhysicalTable>) -> (tables: Vec<
    PhysicalTable,
>)
    ensures
        tables@.len() == layout(areas@).len(),
        forall|k: int|
            0 <= k < tables@.len() ==> slot_of(#[trigger] tables@[k]) == layout(areas@)[k]
                && table_state(tables@[k]) == carried_state(
                previous@,
                layout(areas@)[k].0,
                layout(areas@)[k].1,
            ),
{
    let fresh = init_physical_tables(areas);
    let mut tables: Vec<PhysicalTable> = Vec::new();
    let mut k: usize = 0;
    while k < fresh.len()
        invariant
            k <= fresh.len(),
            fresh@.len() == layout(areas@).len(),
            forall|j: int|
                0 <= j < fresh@.len() ==> slot_of(#[trigger] fresh@[j]) == layout(areas@)[j],
            tables@.len() == k,
            forall|j: int|
                0 <= j < k ==> slot_of(#[trigger] tables@[j]) == layout(areas@)[j] && table_state(
                    tables@[j],
                ) == carried_state(previous@, layout(areas@)[j].0, layout(areas@)[j].1),
        decreases fresh.len() - k,
    {
        let mut t = PhysicalTable::ready(fresh[k].area.as_str(), fresh[k].number);
        assert(slot_of(fresh@[k as int]) == layout(areas@)[k as int]);
        match find_table(previous, fresh[k].area.as_str(), fresh[k].number) {
            Some(i) => {
                t.status = previous[i].status;
                t.order_id = previous[i].order_id;
                t.dirty_since = previous[i].dirty_since;
            },
            None => {},
        }
        tables.push(t);
        k = k + 1;
    }
    tables
}

// ---------------------------------------------------------------------------
// Lookup
// ---------------------------------------------------------------------------

/// Index of the first table in slot (area, number).
pub fn find_table(tables: &Vec<PhysicalTable>, area: &str, number: usize) -> (r: Option<usize>)
    ensures
        r matches Some(i) ==> first_index(tables@, at_slot(area@, number as nat)) == Some(i as int),
        r matches Some(i) ==> i < tables@.len() && tables@[i as int].area@ == area@
            && tables@[i as int].number == number,
        r is None ==> first_index(tables@, at_slot(area@, number as nat)) is None,
{
    let target = chars_of(area);
    let mut i: usize = 0;
    while i < tables.len()
        invariant
            i <= tables.len(),
            target@ == area@,
            forall|j: int| 0 <= j < i ==> !(at_slot(area@, number as nat))(#[trigger] tables@[j]),
        decreases tables.len() - i,
    {
        if tables[i].number == number {
            let name = chars_of(tables[i].area.as_str());
            if chars_eq(&name, &target) {
                proof {
                    lemma_first_index_is(tables@, at_slot(area@, number as nat), i as int);
                }
                return Some(i);
            }
        }
        i = i + 1;
    }
    proof {
        lemma_first_index_none(tables@, at_slot(area@, number as nat));
    }
    None
}

/// Whether an optional string equals `s`.
pub fn opt_str_eq(o: &Option<String>, s: &str) -> (r: bool)
    ensures
        r == (opt_view(*o) == Some(s@)),
{
    match o {
        Some(x) => {
            let vx = chars_of(x.as_str());
            let vs = chars_of(s);
            chars_eq(&vx, &vs)
        },
        None => false,
    }
}

/// Index of the first dine-in order seated at (area, number).
pub fn find_order_at_table<M>(orders: &Vec<Order<M>>, area: &str, number: usize) -> (r: Option<
    usize,
>)
    ensures
        r matches Some(i) ==> first_index(orders@, seated_at(area@, number as nat)) == Some(i as int),
        r matches Some(i) ==> i < orders@.len() && orders@[i as int].at_table(area@, number as nat),
        r is None ==> first_index(orders@, seated_at(area@, number as nat)) is None,
{
    let mut i: usize = 0;
    while i < orders.len()
        invariant
            i <= orders.len(),
            forall|j: int|
                0 <= j < i ==> !(seated_at::<M>(area@, number as nat))(#[trigger] orders@[j]),
        decreases orders.len() - i,
    {
        let o = &orders[i];
        if o.service == Service::DineIn && o.table_number == Some(number) && opt_str_eq(&o.area, area) {
            proof {
                lemma_first_index_is(orders@, seated_at(area@, number as nat), i as int);
            }
            return Some(i);
        }
        i = i + 1;
    }
    proof {
        lemma_first_index_none(orders@, seated_at::<M>(area@, number as nat));
    }
    None
}

/// Index of the first order with identifier `id`.
pub fn find_order_by_id<M>(orders: &Vec<Order<M>>, id: u32) -> (r: Option<usize>)
    ensures
        r matches Some(i) ==> first_index(orders@, has_id(id)) == Some(i as int),
        r matches Some(i) ==> i < orders@.len() && orders@[i as int].id == id,
        r is None ==> first_index(orders@, has_id::<M>(id)) is None,
{
    let mut i: usize = 0;
    while i < orders.len()
        invariant
            i <= orders.len(),
            forall|j: int| 0 <= j < i ==> !(has_id::<M>(id))(#[trigger] orders@[j]),
        decreases orders.len() - i,
    {
        if orders[i].id == id {
            proof {
                lemma_first_index_is(orders@, has_id(id), i as int);
            }
            return Some(i);
        }
        i = i + 1;
    }
    proof {
        lemma_first_index_none(orders@, has_id::<M>(id));
    }
    None
}

// ---------------------------------------------------------------------------
// Lifecycle transitions
// ---------------------------------------------------------------------------

/// The table state after moving to `status` at time `now`: Ready frees the
/// table, Dirty frees it and starts the cleaning timer, any other state keeps
/// the seated order and timer.
pub open spec fn moved_state(t: PhysicalTable, status: TableStatus, now: i64) -> (
    TableStatus,
    Option<u32>,
    Option<i64>,
) {
    match status {
        TableStatus::Ready => (TableStatus::Ready, None, None),
        TableStatus::Dirty => (TableStatus::Dirty, None, Some(now)),
        _ => (status, t.order_id, t.dirty_since),
    }
}

/// The table after moving to `status` at time `now`.
pub open spec fn moved_table(t: PhysicalTable, status: TableStatus, now: i64) -> PhysicalTable {
    match status {
        TableStatus::Ready => PhysicalTable { status: TableStatus::Ready, order_id: None, dirty_since: None, ..t },
        TableStatus::Dirty => PhysicalTable { status: TableStatus::Dirty, order_id: None, dirty_since: Some(now), ..t },
        _ => PhysicalTable { status, ..t },
    }
}

/// Only the lifecycle part of table `i` differs between `a` and `b`.
pub open spec fn only_state_changed(a: Seq<PhysicalTable>, b: Seq<PhysicalTable>, i: int) -> bool {
    &&& a.len() == b.len()
    &&& forall|j: int| 0 <= j < a.len() && j != i ==> #[trigger] b[j] == a[j]
    &&& 0 <= i < a.len() ==> b[i].area == a[i].area && b[i].number == a[i].number
}

/// Moves the first table in slot (area, number) to `status`; returns its
/// index, or `None` when no table sits in that slot (nothing changes then).
pub fn transition_table_status(
    tables: &mut Vec<PhysicalTable>,
    area: &str,
    number: usize,
    status: TableStatus,
    now: i64,
) -> (r: Option<usize>)
    ensures
        r matches Some(i) ==> first_index(old(tables)@, at_slot(area@, number as nat)) == Some(i as int),
        r is None ==> first_index(old(tables)@, at_slot(area@, number as nat)) is None,
        r matches Some(i) ==> only_state_changed(old(tables)@, final(tables)@, i as int)
            && table_state(final(tables)@[i as int]) == moved_state(old(tables)@[i as int], status, now)
            && final(tables)@ == old(tables)@.update(i as int, moved_table(old(tables)@[i as int], status, now)),
        r is None ==> final(tables)@ == old(tables)@,
{
    match find_table(tables, area, number) {
        Some(i) => {
            proof {
                lemma_first_index(tables@, at_slot(area@, number as nat));
            }
            match status {
                TableStatus::Ready => {
                    tables[i].status = TableStatus::Ready;
                    tables[i].order_id = None;
                    tables[i].dirty_since = None;
                },
                TableStatus::Dirty => {
                    tables[i].status = TableStatus::Dirty;
                    tables[i].order_id = None;
                    tables[i].dirty_since = Some(now);
                },
                _ => {
                    tables[i].status = status;
                },
            }
            assert(tables@ =~= old(tables)@.update(i as int, moved_table(old(tables)@[i as int], status, now)));
            Some(i)
        },
        None => None,
    }
}

/// Seats order `id` at the first table in slot (area, number) with `status`.
pub fn seat_order(
    tables: &mut Vec<PhysicalTable>,
    area: &str,
    number: usize,
    status: TableStatus,
    id: u32,
) -> (r: Option<usize>)
    ensures
        r matches Some(i) ==> first_index(old(tables)@, at_slot(area@, number as nat)) == Some(i as int),
        r is None ==> first_index(old(tables)@, at_slot(area@, number as nat)) is None,
        r matches Some(i) ==> only_state_changed(old(tables)@, final(tables)@, i as int)
            && final(tables)@[i as int].status == status && final(tables)@[i as int].order_id == Some(
            id,
        ) && final(tables)@[i as int].dirty_since == old(tables)@[i as int].dirty_since,
        r is None ==> final(tables)@ == old(tables)@,
{
    match find_table(tables, area, number) {
        Some(i) => {
            proof {
                lemma_first_index(tables@, at_slot(area@, number as nat));
            }
            tables[i].status = status;
            tables[i].order_id = Some(id);
            Some(i)
        },
        None => None,
    }
}

/// The cleaning window of a table has run out at time `now`.
pub open spec fn cleaning_done(t: PhysicalTable, now: i64) -> bool {
    t.status == TableStatus::Dirty && match t.dirty_since {
        Some(since) => now - since >= CLEANING_SECONDS,
        None => true,
    }
}

/// A table after the cleaning tick at time `now`.
pub open spec fn after_tick(t: PhysicalTable, now: i64) -> PhysicalTable {
    if cleaning_done(t, now) {
        PhysicalTable { status: TableStatus::Ready, order_id: None, dirty_since: None, ..t }
    } else {
        t
    }
}

/// Number of tables whose cleaning window has run out.
pub open spec fn count_cleaned(tables: Seq<PhysicalTable>, now: i64) -> nat
    decreases tables.len(),
{
    if tables.len() == 0 {
        0
    } else {
        count_cleaned(tables.drop_last(), now) + if cleaning_done(tables.last(), now) {
            1nat
        } else {
            0nat
        }
    }
}

pub proof fn lemma_count_cleaned_bound(tables: Seq<PhysicalTable>, now: i64)
    ensures
        count_cleaned(tables, now) <= tables.len(),
    decreases tables.len(),
{
    if tables.len() > 0 {
        lemma_count_cleaned_bound(tables.drop_last(), now);
    }
}

/// A table that went to cleaning at `since` comes back Ready at the tick at
/// `now` exactly when ten minutes have passed; until then it stays Dirty.
pub proof fn lemma_cleaning_window(t: PhysicalTable, since: i64, now: i64)
    ensures
        after_tick(moved_table(t, TableStatus::Dirty, since), now).status == if now - since >= CLEANING_SECONDS {
            TableStatus::Ready
        } else {
            TableStatus::Dirty
        },
        now - since >= CLEANING_SECONDS ==> after_tick(moved_table(t, TableStatus::Dirty, since), now)
            == (PhysicalTable { status: TableStatus::Ready, order_id: None, dirty_since: None, ..t }),
{
}

/// A second tick at the same time cleans nothing more: ticking is idempotent.
pub proof fn lemma_tick_idempotent(tables: Seq<PhysicalTable>, now: i64)
    ensures
        count_cleaned(tables.map_values(|t: PhysicalTable| after_tick(t, now)), now) == 0,
        tables.map_values(|t: PhysicalTable| after_tick(t, now)).map_values(
            |t: PhysicalTable| after_tick(t, now),
        ) == tables.map_values(|t: PhysicalTable| after_tick(t, now)),
    decreases tables.len(),
{
    let once = tables.map_values(|t: PhysicalTable| after_tick(t, now));
    assert(once.map_values(|t: PhysicalTable| after_tick(t, now)) =~= once);
    if tables.len() > 0 {
        lemma_tick_idempotent(tables.drop_last(), now);
        assert(once.drop_last() =~= tables.drop_last().map_values(|t: PhysicalTable| after_tick(t, now)));
    }
}

/// Returns to Ready every table whose ten-minute cleaning window has run out
/// (or that is Dirty with no recorded start), and counts them.
pub fn tick_cleaning(tables: &mut Vec<PhysicalTable>, now: i64) -> (cleaned: usize)
    ensures
        final(tables)@.len() == old(tables)@.len(),
        forall|k: int|
            0 <= k < old(tables)@.len() ==> #[trigger] final(tables)@[k] == after_tick(
                old(tables)@[k],
                now,
            ),
        cleaned == count_cleaned(old(tables)@, now),
{
    let mut cleaned: usize = 0;
    let mut i: usize = 0;
    proof {
        lemma_count_cleaned_bound(old(tables)@, now);
    }
    while i < tables.len()
        invariant
            i <= tables.len(),
            tables@.len() == old(tables)@.len(),
            count_cleaned(old(tables)@, now) <= old(tables)@.len(),
            forall|k: int| 0 <= k < i ==> #[trigger] tables@[k] == after_tick(old(tables)@[k], now),
            forall|k: int| i <= k < tables@.len() ==> #[trigger] tables@[k] == old(tables)@[k],
            cleaned == count_cleaned(old(tables)@.subrange(0, i as int), now),
        decreases tables.len() - i,
    {
        proof {
            assert(old(tables)@.subrange(0, i + 1).drop_last() =~= old(tables)@.subrange(0, i as int));
            lemma_count_cleaned_bound(old(tables)@.subrange(0, i as int), now);
        }
        if tables[i].status == TableStatus::Dirty {
            let done = match tables[i].dirty_since {
                Some(since) => (now as i128) - (since as i128) >= 600,
                None => true,
            };
            if done {
                tables[i].status = TableStatus::Ready;
                tables[i].dirty_since = None;
                tables[i].order_id = None;
                cleaned = cleaned + 1;
            }
        }
        i = i + 1;
    }
    assert(old(tables)@.subrange(0, old(tables)@.len() as int) =~= old(tables)@);
    cleaned
}

// ---------------------------------------------------------------------------
// Move targets
// ---------------------------------------------------------------------------

/// A table an order can be moved to, with what currently occupies it.
#[derive(Clone, Debug)]
pub struct TableDestination {
    pub area_name: String,
    pub table_number: usize,
    pub is_ac: bool,
    pub status: TableStatus,
    pub order_id: Option<u32>,
    pub order_label: Option<String>,
}

/// The state a slot shows: its first table's status, or Ready when no table
/// is recorded there.
pub open spec fn slot_status(tables: Seq<PhysicalTable>, area: Seq<char>, number: nat) -> TableStatus {
    match first_index(tables, at_slot(area, number)) {
        Some(i) => tables[i].status,
        None => TableStatus::Ready,
    }
}

/// The identifier of the order seated at a slot.
pub open spec fn slot_order<M>(orders: Seq<Order<M>>, area: Seq<char>, number: nat) -> Option<u32> {
    match first_index(orders, seated_at(area, number)) {
        Some(i) => Some(orders[i].id),
        None => None,
    }
}

/// The slots of the layout other than (area, number), in layout order.
pub open spec fn other_slots(areas: Seq<Area>, area: Seq<char>, number: nat) -> Seq<(Seq<char>, nat)> {
    layout(areas).filter(not_slot(area, number))
}

/// The slots of one area, each with the area's air-conditioning.
pub open spec fn area_slots_ac(a: Area) -> Seq<((Seq<char>, nat), bool)> {
    Seq::new(a.table_count as nat, |i: int| ((a.name@, (i + 1) as nat), a.is_ac))
}

/// The slots of every table with the air-conditioning of the area they were
/// laid out in, area after area.
pub open spec fn layout_ac(areas: Seq<Area>) -> Seq<((Seq<char>, nat), bool)>
    decreases areas.len(),
{
    if areas.len() == 0 {
        Seq::empty()
    } else {
        layout_ac(areas.drop_last()) + area_slots_ac(areas.last())
    }
}

/// The slots other than (area, number), each with its air-conditioning, in
/// layout order (they match `other_slots` one for one).
pub open spec fn other_slots_ac(areas: Seq<Area>, area: Seq<char>, number: nat) -> Seq<((Seq<char>, nat), bool)> {
    layout_ac(areas).filter(not_slot_ac(area, number))
}

/// The slot of the pair is not (area, number).
pub open spec fn not_slot_ac(area: Seq<char>, number: nat) -> spec_fn(((Seq<char>, nat), bool)) -> bool {
    |p: ((Seq<char>, nat), bool)| !(p.0.0 == area && p.0.1 == number)
}

/// The slot is not (area, number).
pub open spec fn not_slot(area: Seq<char>, number: nat) -> spec_fn((Seq<char>, nat)) -> bool {
    |s: (Seq<char>, nat)| !(s.0 == area && s.1 == number)
}

/// Whether area `a` is air-conditioned, by its first entry in `areas`.
pub open spec fn slot_destination_ok<M>(
    d: TableDestination,
    tables: Seq<PhysicalTable>,
    orders: Seq<Order<M>>,
) -> bool {
    &&& d.status == slot_status(tables, d.area_name@, d.table_number as nat)
    &&& d.order_id == slot_order(orders, d.area_name@, d.table_number as nat)
    &&& match first_index(orders, seated_at::<M>(d.area_name@, d.table_number as nat)) {
        Some(i) => opt_view(d.order_label) == Some(orders[i].label@),
        None => d.order_label is None,
    }
}

/// The destination lies in one of `areas`, whose air-conditioning it carries.
pub open spec fn from_area(areas: Seq<Area>, d: TableDestination) -> bool {
    exists|a: int| 0 <= a < areas.len() && (#[trigger] areas[a]).name@ == d.area_name@ && areas[a].is_ac == d.is_ac
}

/// Every table but (area, number), with its state and seated order, in layout
/// order.
pub fn table_move_targets<M>(
    areas: &[Area],
    tables: &Vec<PhysicalTable>,
    orders: &Vec<Order<M>>,
    area: &str,
    number: usize,
) -> (r: Vec<TableDestination>)
    ensures
        r@.len() == other_slots(areas@, area@, number as nat).len(),
        forall|k: int|
            0 <= k < r@.len() ==> (#[trigger] r@[k]).area_name@ == other_slots(
                areas@,
                area@,
                number as nat,
            )[k].0 && r@[k].table_number == other_slots(areas@, area@, number as nat)[k].1
                && slot_destination_ok(r@[k], tables@, orders@) && from_area(areas@, r@[k]),
        other_slots_ac(areas@, area@, number as nat).len() == r@.len(),
        forall|k: int|
            0 <= k < r@.len() ==> (#[trigger] r@[k]).is_ac == other_slots_ac(areas@, area@, number as nat)[k].1,
{
    let current = chars_of(area);
    let mut list: Vec<TableDestination> = Vec::new();
    let ghost pred = not_slot(area@, number as nat);
    let ghost pred_ac = not_slot_ac(area@, number as nat);
    let mut a: usize = 0;
    while a < areas.len()
        invariant
            a <= areas.len(),
            current@ == area@,
            pred == not_slot(area@, number as nat),
            pred_ac == not_slot_ac(area@, number as nat),
            list@.len() == layout(areas@.subrange(0, a as int)).filter(pred).len(),
            list@.len() == layout_ac(areas@.subrange(0, a as int)).filter(pred_ac).len(),
            forall|k: int|
                0 <= k < list@.len() ==> (#[trigger] list@[k]).is_ac == layout_ac(areas@.subrange(0, a as int)).filter(
                    pred_ac,
                )[k].1,
            forall|k: int|
                0 <= k < list@.len() ==> (#[trigger] list@[k]).area_name@ == layout(
                    areas@.subrange(0, a as int),
                ).filter(pred)[k].0 && list@[k].table_number == layout(
                    areas@.subrange(0, a as int),
                ).filter(pred)[k].1 && slot_destination_ok(list@[k], tables@, orders@)
                    && from_area(areas@, list@[k]),
        decreases areas.len() - a,
    {
        let ghost base = layout(areas@.subrange(0, a as int));
        let ghost slots = area_slots(areas@[a as int]);
        let ghost base_ac = layout_ac(areas@.subrange(0, a as int));
        let ghost slots_ac = area_slots_ac(areas@[a as int]);
        let name = chars_of(areas[a].name.as_str());
        let count = areas[a].table_count;
        let mut num: usize = 0;
        while num < count
            invariant
                a < areas.len(),
                count == areas@[a as int].table_count,
                name@ == areas@[a as int].name@,
                slots == area_slots(areas@[a as int]),
                current@ == area@,
                pred == not_slot(area@, number as nat),
                pred_ac == not_slot_ac(area@, number as nat),
                slots_ac == area_slots_ac(areas@[a as int]),
                num <= count,
                list@.len() == (base + slots.subrange(0, num as int)).filter(pred).len(),
                list@.len() == (base_ac + slots_ac.subrange(0, num as int)).filter(pred_ac).len(),
                forall|k: int|
                    0 <= k < list@.len() ==> (#[trigger] list@[k]).is_ac == (base_ac + slots_ac.subrange(
                        0,
                        num as int,
                    )).filter(pred_ac)[k].1,
                forall|k: int|
                    0 <= k < list@.len() ==> (#[trigger] list@[k]).area_name@ == (base
                        + slots.subrange(0, num as int)).filter(pred)[k].0 && list@[k].table_number
                        == (base + slots.subrange(0, num as int)).filter(pred)[k].1
                        && slot_destination_ok(list@[k], tables@, orders@) && from_area(areas@, list@[k]),
            decreases count - num,
        {
            let n = num + 1;
            let ghost prev = base + slots.subrange(0, num as int);
            let ghost prev_ac = base_ac + slots_ac.subrange(0, num as int);
            proof {
                assert((base + slots.subrange(0, n as int)) =~= prev.push(slots[num as int]));
                assert(prev.push(slots[num as int]).drop_last() =~= prev);
                prev.lemma_filter_push(slots[num as int], pred);
                assert((base_ac + slots_ac.subrange(0, n as int)) =~= prev_ac.push(slots_ac[num as int]));
                assert(prev_ac.push(slots_ac[num as int]).drop_last() =~= prev_ac);
                prev_ac.lemma_filter_push(slots_ac[num as int], pred_ac);
            }
            if n == number && chars_eq(&name, &current) {
                assert(!pred(slots[num as int]));
            } else {
                assert(pred(slots[num as int]));
                let status = match find_table(tables, areas[a].name.as_str(), n) {
                    Some(i) => tables[i].status,
                    None => TableStatus::Ready,
                };
                let (order_id, order_label) = match find_order_at_table(
                    orders,
                    areas[a].name.as_str(),
                    n,
                ) {
                    Some(oi) => (Some(orders[oi].id), Some(orders[oi].label.clone())),
                    None => (None, None),
                };
                let d = TableDestination {
                    area_name: areas[a].name.clone(),
                    table_number: n,
                    is_ac: areas[a].is_ac,
                    status,
                    order_id,
                    order_label,
                };
                assert(from_area(areas@, d)) by {
                    assert(areas@[a as int].name@ == d.area_name@);
                }
                list.push(d);
            }
            num = n;
        }
        proof {
            lemma_layout_push(areas@, a as int);
            assert(slots.subrange(0, count as int) =~= slots);
            assert(areas@.subrange(0, a + 1).drop_last() =~= areas@.subrange(0, a as int));
            assert(slots_ac.subrange(0, count as int) =~= slots_ac);
        }
        a = a + 1;
    }
    assert(areas@.subrange(0, areas@.len() as int) =~= areas@);
    list
}

// ---------------------------------------------------------------------------
// Restoring state after a restart
// ---------------------------------------------------------------------------

/// The table that order `o` is re-seated at: the first table at its seat,
/// when that table shows Ready or has no order.
pub open spec fn reseat_index<M>(tables: Seq<PhysicalTable>, o: Order<M>) -> Option<int> {
    match (o.area, o.table_number) {
        (Some(a), Some(n)) => match first_index(tables, at_slot(a@, n as nat)) {
            Some(t) => if tables[t].status == TableStatus::Ready || tables[t].order_id is None {
                Some(t)
            } else {
                None
            },
            None => None,
        },
        _ => None,
    }
}

/// The floor plan after re-seating order `o`: its table follows the order's
/// stage and holds the order.
pub open spec fn reseated<M>(tables: Seq<PhysicalTable>, o: Order<M>) -> Seq<PhysicalTable> {
    match reseat_index(tables, o) {
        Some(t) => tables.update(
            t,
            PhysicalTable { status: o.status.spec_table_status(), order_id: Some(o.id), ..tables[t] },
        ),
        None => tables,
    }
}

/// The floor plan after re-seating the orders one after another.
pub open spec fn reconciled<M>(tables: Seq<PhysicalTable>, orders: Seq<Order<M>>) -> Seq<PhysicalTable>
    decreases orders.len(),
{
    if orders.len() == 0 {
        tables
    } else {
        reseated(reconciled(tables, orders.drop_last()), orders.last())
    }
}

/// The tables re-seated, in the order of the orders.
pub open spec fn reseat_indices<M>(tables: Seq<PhysicalTable>, orders: Seq<Order<M>>) -> Seq<int>
    decreases orders.len(),
{
    if orders.len() == 0 {
        Seq::empty()
    } else {
        let prev = reseat_indices(tables, orders.drop_last());
        match reseat_index(reconciled(tables, orders.drop_last()), orders.last()) {
            Some(t) => prev.push(t),
            None => prev,
        }
    }
}

/// Re-seats every dine-in order at its table when the stored table lost track
/// of it (the table shows Ready or has no order): the table then follows the
/// order's stage. Returns the indices of the tables that changed, in order.
pub fn reconcile_tables_with_orders<M>(tables: &mut Vec<PhysicalTable>, orders: &Vec<Order<M>>) -> (changed: Vec<usize>)
    ensures
        final(tables)@ == reconciled(old(tables)@, orders@),
        changed@.map_values(|k: usize| k as int) == reseat_indices(old(tables)@, orders@),
        final(tables)@.len() == old(tables)@.len(),
        forall|k: int| 0 <= k < changed@.len() ==> #[trigger] changed@[k] < final(tables)@.len(),
{
    let mut changed: Vec<usize> = Vec::new();
    let mut i: usize = 0;
    while i < orders.len()
        invariant
            i <= orders.len(),
            tables@ == reconciled(old(tables)@, orders@.take(i as int)),
            changed@.map_values(|k: usize| k as int) == reseat_indices(old(tables)@, orders@.take(i as int)),
            tables@.len() == old(tables)@.len(),
            forall|k: int| 0 <= k < changed@.len() ==> #[trigger] changed@[k] < tables@.len(),
        decreases orders.len() - i,
    {
        let ghost prev_tables = tables@;
        let ghost prev_changed = changed@;
        proof {
            assert(orders@.take(i + 1).drop_last() =~= orders@.take(i as int));
            assert(orders@.take(i + 1).last() == orders@[i as int]);
        }
        let o = &orders[i];
        match (&o.area, o.table_number) {
            (Some(area), Some(number)) => {
                match find_table(tables, area.as_str(), number) {
                    Some(t) => {
                        if tables[t].status == TableStatus::Ready || tables[t].order_id.is_none() {
                            let st = o.status.table_status();
                            tables[t].status = st;
                            tables[t].order_id = Some(o.id);
                            changed.push(t);
                            proof {
                                assert(tables@ =~= reseated(prev_tables, *o));
                                assert(changed@.map_values(|k: usize| k as int) =~= prev_changed.map_values(
                                    |k: usize| k as int,
                                ).push(t as int));
                            }
                        }
                    },
                    None => {},
                }
            },
            _ => {},
        }
        i = i + 1;
    }
    assert(orders@.take(orders@.len() as int) =~= orders@);
    changed
}

// ---------------------------------------------------------------------------
// Take-out numbering
// ---------------------------------------------------------------------------

/// The number in a take-out label "TK<n>", if the label has that form.
pub open spec fn takeout_number(label: Seq<char>) -> Option<nat> {
    if label.len() >= 2 && label[0] == 'T' && label[1] == 'K' {
        parse_u32_seq(label.subrange(2, label.len() as int))
    } else {
        None
    }
}

/// Largest take-out number of a sequence of orders.
pub open spec fn max_takeout_of<M>(orders: Seq<Order<M>>) -> nat
    decreases orders.len(),
{
    if orders.len() == 0 {
        0
    } else {
        let rest = max_takeout_of(orders.drop_last());
        let o = orders.last();
        match (o.service, takeout_number(o.label@)) {
            (Service::TakeOut, Some(n)) => if n > rest {
                n
            } else {
                rest
            },
            _ => rest,
        }
    }
}

/// The number in a take-out label "TK<n>".
pub fn parse_takeout_label(label: &str) -> (r: Option<u32>)
    ensures
        r matches Some(n) ==> takeout_number(label@) == Some(n as nat),
        r is None ==> takeout_number(label@) is None,
{
    let v = chars_of(label);
    if v.len() >= 2 && v[0] == 'T' && v[1] == 'K' {
        let mut rest: Vec<char> = Vec::new();
        let mut i: usize = 2;
        while i < v.len()
            invariant
                2 <= i <= v.len(),
                rest@ == v@.subrange(2, i as int),
            decreases v.len() - i,
        {
            rest.push(v[i]);
            i = i + 1;
            assert(rest@ =~= v@.subrange(2, i as int));
        }
        let s = string_of(&rest);
        parse_u32(s.as_str())
    } else {
        None
    }
}

/// The largest "TK<n>" number among the take-out orders (0 when there is none).
pub fn max_takeout_number<M>(orders: &[Order<M>]) -> (r: u32)
    ensures
        r as nat == max_takeout_of(orders@),
{
    let mut best: u32 = 0;
    let mut i: usize = 0;
    while i < orders.len()
        invariant
            i <= orders.len(),
            best as nat == max_takeout_of(orders@.subrange(0, i as int)),
        decreases orders.len() - i,
    {
        assert(orders@.subrange(0, i + 1).drop_last() =~= orders@.subrange(0, i as int));
        if orders[i].service == Service::TakeOut {
            match parse_takeout_label(orders[i].label.as_str()) {
                Some(n) => {
                    if n > best {
                        best = n;
                    }
                },
                None => {},
            }
        }
        i = i + 1;
    }
    assert(orders@.subrange(0, orders@.len() as int) =~= orders@);
    best
}

} // verus!
