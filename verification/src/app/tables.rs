//! Moving an order to another table, or merging it into the order seated
//! there.
use vstd::prelude::*;

use super::orders::{msg3, persist_table_effects};
use super::{make_table_label, table_label, App, AppEffect};
use crate::cart::{merge_carts, merge_fits, merge_lines, same_but_cart, total_qty};
use crate::models::{lines_view, opt_view, Focus, Order, PhysicalTable, TableStatus};
use crate::seqs::{first_index, lemma_first_index};
use crate::tables::{
    at_slot, find_order_at_table, find_order_by_id, find_table, from_area, has_id, other_slots,
    seat_order, seated_at, slot_order, TableDestination,
};
use crate::text::{decimal, decimal_seq, push_str};

verus! {

/// The tables after the first one in slot (area, number) is freed (its
/// cleaning timer is kept).
pub open spec fn tables_freed(tables: Seq<PhysicalTable>, area: Seq<char>, number: nat) -> Seq<PhysicalTable> {
    match first_index(tables, at_slot(area, number)) {
        Some(i) => tables.update(i, PhysicalTable { status: TableStatus::Ready, order_id: None, ..tables[i] }),
        None => tables,
    }
}

/// The tables after order `id` is seated, Taking order, at the first table in
/// slot (area, number).
pub open spec fn tables_seated(tables: Seq<PhysicalTable>, area: Seq<char>, number: nat, id: u32) -> Seq<
    PhysicalTable,
> {
    match first_index(tables, at_slot(area, number)) {
        Some(i) => tables.update(
            i,
            PhysicalTable { status: TableStatus::TakingOrder, order_id: Some(id), ..tables[i] },
        ),
        None => tables,
    }
}

/// `after` is `before` once the table-move popup was asked for (see `open_table_move`).
pub open spec fn table_move_opened<M: Copy>(before: App<M>, after: App<M>) -> bool {
    &&& before.selected_order_index() is None ==> after == (App {
        notifications: after.notifications,
        ..before
    }) && after.notes() =~= before.notes().push(
        "Selected table does not have an active order to move."@,
    )
    &&& before.selected_order_index() is Some ==> after == (App {
        table_move_target_index: 0,
        focus_return: before.focus,
        focus: Focus::TableMove,
        ..before
    })
}

impl<M: Copy> App<M> {
    /// The tables the order at the selected table can move to: every other
    /// table, with its state and the order seated there.
    pub fn table_move_targets(&self) -> (r: Vec<TableDestination>)
        requires
            self.wf(),
        ensures
            r@.len() == self.move_slots().len(),
            forall|k: int|
                0 <= k < r@.len() ==> (#[trigger] r@[k]).area_name@ == self.move_slots()[k].0
                    && r@[k].table_number == self.move_slots()[k].1
                    && crate::tables::slot_destination_ok(r@[k], self.physical_tables@, self.orders@)
                    && from_area(self.areas@, r@[k]),
            self.move_slots_ac().len() == r@.len(),
            forall|k: int| 0 <= k < r@.len() ==> (#[trigger] r@[k]).is_ac == self.move_slots_ac()[k].1,
    {
        let area = self.selected_area_name();
        crate::tables::table_move_targets(
            self.areas.as_slice(),
            &self.physical_tables,
            &self.orders,
            area.as_str(),
            self.selected_table_index + 1,
        )
    }

    /// Every table slot but the selected one, in layout order.
    pub open spec fn move_slots(&self) -> Seq<(Seq<char>, nat)> {
        other_slots(self.areas@, self.spec_selected_area_name(), self.selected_number())
    }

    /// Every table slot but the selected one with the air-conditioning of the
    /// area it was laid out in, in layout order.
    pub open spec fn move_slots_ac(&self) -> Seq<((Seq<char>, nat), bool)> {
        crate::tables::other_slots_ac(self.areas@, self.spec_selected_area_name(), self.selected_number())
    }

    /// Whether the slot the table-move cursor is on (the last one when it is
    /// past the end) lies in an air-conditioned area.
    pub open spec fn move_target_ac(&self) -> bool {
        let n = self.move_slots_ac().len();
        if self.table_move_target_index < n {
            self.move_slots_ac()[self.table_move_target_index as int].1
        } else {
            self.move_slots_ac()[n - 1].1
        }
    }

    /// The slot the table-move cursor is on (the last one when it is past
    /// the end).
    pub open spec fn move_target(&self) -> (Seq<char>, nat) {
        let n = self.move_slots().len();
        if self.table_move_target_index < n {
            self.move_slots()[self.table_move_target_index as int]
        } else {
            self.move_slots()[n - 1]
        }
    }

    /// Opens the table-move popup when the selected table has an order.
    pub fn open_table_move(&mut self)
        requires
            old(self).wf(),
        ensures
            table_move_opened(*old(self), *final(self)),
    {
        if self.selected_table_order().is_none() {
            self.notify(String::from_str("Selected table does not have an active order to move."));
            return;
        }
        self.table_move_target_index = 0;
        self.focus_return = self.focus;
        self.focus = Focus::TableMove;
    }

    /// Whether merging the order at the selected table into any other order
    /// keeps every quantity within `u32`.
    pub open spec fn merge_fits_any(&self) -> bool {
        match self.selected_order_index() {
            Some(s) => forall|j: int|
                0 <= j < self.orders@.len() ==> total_qty(lines_view(self.orders@[s].cart@)) + total_qty(
                    lines_view(#[trigger] self.orders@[j].cart@),
                ) <= u32::MAX,
            None => true,
        }
    }

    /// Frees the first table in slot (area, number) and queues saving it.
    fn free_table(&mut self, area: &str, number: usize)
        ensures
            final(self).physical_tables@ == tables_freed(old(self).physical_tables@, area@, number as nat),
            final(self).pending_effects@ == old(self).pending_effects@ + persist_table_effects(
                old(self).physical_tables@,
                area@,
                number as nat,
            ),
            *final(self) == (App {
                physical_tables: final(self).physical_tables,
                pending_effects: final(self).pending_effects,
                ..*old(self)
            }),
    {
        match find_table(&self.physical_tables, area, number) {
            Some(i) => {
                proof {
                    lemma_first_index(self.physical_tables@, at_slot(area@, number as nat));
                }
                self.physical_tables[i].status = TableStatus::Ready;
                self.physical_tables[i].order_id = None;
                let a = self.physical_tables[i].area.clone();
                let n = self.physical_tables[i].number;
                self.queue_effect(AppEffect::PersistTable { area: a, number: n });
                assert(self.physical_tables@ =~= tables_freed(old(self).physical_tables@, area@, number as nat));
                assert(self.pending_effects@ =~= old(self).pending_effects@ + persist_table_effects(
                    old(self).physical_tables@,
                    area@,
                    number as nat,
                ));
            },
            None => {
                assert(self.pending_effects@ =~= old(self).pending_effects@ + persist_table_effects(
                    old(self).physical_tables@,
                    area@,
                    number as nat,
                ));
            },
        }
    }

    /// Seats order `id` at the first table in slot (area, number) and queues
    /// saving it.
    fn occupy_table(&mut self, area: &str, number: usize, id: u32)
        ensures
            final(self).physical_tables@ == tables_seated(old(self).physical_tables@, area@, number as nat, id),
            final(self).pending_effects@ == old(self).pending_effects@ + persist_table_effects(
                old(self).physical_tables@,
                area@,
                number as nat,
            ),
            *final(self) == (App {
                physical_tables: final(self).physical_tables,
                pending_effects: final(self).pending_effects,
                ..*old(self)
            }),
    {
        match seat_order(&mut self.physical_tables, area, number, TableStatus::TakingOrder, id) {
            Some(i) => {
                proof {
                    lemma_first_index(old(self).physical_tables@, at_slot(area@, number as nat));
                }
                let a = self.physical_tables[i].area.clone();
                let n = self.physical_tables[i].number;
                self.queue_effect(AppEffect::PersistTable { area: a, number: n });
                assert(self.physical_tables@ =~= tables_seated(old(self).physical_tables@, area@, number as nat, id));
                assert(self.pending_effects@ =~= old(self).pending_effects@ + persist_table_effects(
                    old(self).physical_tables@,
                    area@,
                    number as nat,
                ));
            },
            None => {
                assert(self.pending_effects@ =~= old(self).pending_effects@ + persist_table_effects(
                    old(self).physical_tables@,
                    area@,
                    number as nat,
                ));
            },
        }
    }
}

/// The message announcing a merge of the order at table `src` into the order
/// at (area, number).
pub open spec fn merge_message(src: nat, area: Seq<char>, number: nat) -> Seq<char> {
    "Merged Table "@ + decimal_seq(src) + " into "@ + area + " Table "@ + decimal_seq(number) + "!"@
}

/// The message announcing a move of the order at table `src` to (area, number).
pub open spec fn move_message(src: nat, area: Seq<char>, number: nat) -> Seq<char> {
    "Moved Table "@ + decimal_seq(src) + " to "@ + area + " Table "@ + decimal_seq(number) + "!"@
}

/// `after` is `before` once the table-move choice was carried out (see `execute_table_move_or_merge`).
pub open spec fn table_moved_or_merged<M: Copy>(before: App<M>, after: App<M>) -> bool {
    &&& after.focus == Focus::Tables
    &&& before.move_slots().len() == 0 || before.selected_order_index() is None ==> after
        == (App { focus: Focus::Tables, ..before })
    &&& before.move_slots().len() > 0 ==> match before.selected_order_index() {
        Some(s) => {
            let (ta, tn) = before.move_target();
            let src_area = before.spec_selected_area_name();
            let src_num = before.selected_number();
            let source = before.orders@[s];
            match slot_order(before.orders@, ta, tn) {
                Some(tid) => {
                    let rest = before.orders@.remove(s);
                    &&& after.orders@.len() == rest.len()
                    &&& after.physical_tables@ =~= tables_freed(
                        before.physical_tables@,
                        src_area,
                        src_num,
                    )
                    &&& after.notes() =~= before.notes().push(merge_message(src_num, ta, tn))
                    &&& match first_index(rest, has_id::<M>(tid)) {
                        Some(t) => {
                            &&& forall|j: int|
                                0 <= j < rest.len() && j != t ==> #[trigger] after.orders@[j]
                                    == rest[j]
                            &&& same_but_cart(after.orders@[t], rest[t])
                            &&& after.orders@[t].cart_index == rest[t].cart_index
                            &&& lines_view(after.orders@[t].cart@) == merge_lines(
                                lines_view(rest[t].cart@),
                                lines_view(source.cart@),
                            )
                            &&& after.active_order == t
                            &&& after.pending_effects@ =~= before.pending_effects@.push(
                                AppEffect::DeleteOpenOrder { order_id: source.id },
                            ) + persist_table_effects(before.physical_tables@, src_area, src_num)
                                + seq![AppEffect::PersistOrder { order_id: tid }]
                        },
                        None => {
                            &&& after.orders@ =~= rest
                            &&& after.active_order == (if before.active_order >= rest.len()
                                && rest.len() > 0 {
                                (rest.len() - 1) as usize
                            } else {
                                before.active_order
                            })
                            &&& after.pending_effects@ =~= before.pending_effects@.push(
                                AppEffect::DeleteOpenOrder { order_id: source.id },
                            ) + persist_table_effects(before.physical_tables@, src_area, src_num)
                        },
                    }
                },
                None => {
                    let moved = after.orders@[s];
                    &&& after.orders@ =~= before.orders@.update(s, moved)
                    &&& moved == (Order {
                        label: moved.label,
                        area: moved.area,
                        table_number: Some(tn as usize),
                        is_ac: moved.is_ac,
                        ac_rate: if moved.is_ac {
                            before.ac_rate
                        } else {
                            before.no_charge
                        },
                        ..source
                    })
                    &&& moved.label@ =~= table_label(ta, tn)
                    &&& opt_view(moved.area) == Some(ta)
                    &&& moved.is_ac == before.move_target_ac()
                    &&& after.active_order == before.active_order
                    &&& after.physical_tables@ =~= tables_seated(
                        tables_freed(before.physical_tables@, src_area, src_num),
                        ta,
                        tn,
                        source.id,
                    )
                    &&& after.pending_effects@ =~= before.pending_effects@ + persist_table_effects(
                        before.physical_tables@,
                        src_area,
                        src_num,
                    ) + persist_table_effects(
                        tables_freed(before.physical_tables@, src_area, src_num),
                        ta,
                        tn,
                    ) + seq![AppEffect::PersistOrder { order_id: before.active().id }]
                    &&& after.notes() =~= before.notes().push(move_message(src_num, ta, tn))
                },
            }
        },
        None => true,
    }
}

impl<M: Copy> App<M> {
    /// Carries out the table-move popup's choice for the order at the
    /// selected table: into an occupied table it merges its cart into the
    /// order seated there; to a free table it moves the order (label, area,
    /// air-conditioning). Either way the old table is freed and the floor
    /// plan gets the focus.
    #[verifier::rlimit(40)]
    pub fn execute_table_move_or_merge(&mut self)
        requires
            old(self).wf(),
            old(self).merge_fits_any(),
        ensures
            final(self).wf(),
            table_moved_or_merged(*old(self), *final(self)),
    {
        let targets = self.table_move_targets();
        if targets.len() == 0 {
            self.focus = Focus::Tables;
            return;
        }
        let k = if self.table_move_target_index < targets.len() {
            self.table_move_target_index
        } else {
            targets.len() - 1
        };
        let t_area = targets[k].area_name.clone();
        let t_num = targets[k].table_number;
        let t_ac = targets[k].is_ac;
        let t_order = targets[k].order_id;
        proof {
            assert(from_area(self.areas@, targets@[k as int]));
        }
        let src_area = self.selected_area_name();
        let src_num = self.selected_table_index + 1;
        let src = match find_order_at_table(&self.orders, src_area.as_str(), src_num) {
            Some(p) => p,
            None => {
                self.focus = Focus::Tables;
                return;
            },
        };
        proof {
            lemma_first_index(self.orders@, seated_at::<M>(src_area@, src_num as nat));
        }
        match t_order {
            Some(tid) => {
                let ghost before = self.orders@;
                let source = self.orders.remove(src);
                let src_id = source.id;
                let ghost rest = self.orders@;
                assert(rest =~= before.remove(src as int));
                let found = find_order_by_id(&self.orders, tid);
                match found {
                    Some(t) => {
                        proof {
                            let oj = if t < src {
                                t as int
                            } else {
                                t + 1
                            };
                            assert(rest[t as int] == before[oj]);
                            assert(total_qty(lines_view(before[src as int].cart@)) + total_qty(
                                lines_view(before[oj].cart@),
                            ) <= u32::MAX);
                        }
                        let mut order = self.orders.remove(t);
                        merge_carts(&mut order.cart, source.cart);
                        self.orders.insert(t, order);
                        assert(self.orders@ =~= rest.update(t as int, self.orders@[t as int]));
                    },
                    None => {},
                }
                self.queue_effect(AppEffect::DeleteOpenOrder { order_id: src_id });
                self.free_table(src_area.as_str(), src_num);
                match found {
                    Some(t) => {
                        self.queue_effect(AppEffect::PersistOrder { order_id: tid });
                        self.active_order = t;
                    },
                    None => {
                        if self.active_order >= self.orders.len() && self.orders.len() > 0 {
                            self.active_order = self.orders.len() - 1;
                        }
                    },
                }
                let d = decimal(src_num as u64);
                let mut msg = msg3("Merged Table ", d.as_str(), " into ");
                push_str(&mut msg, t_area.as_str());
                push_str(&mut msg, " Table ");
                let e = decimal(t_num as u64);
                push_str(&mut msg, e.as_str());
                push_str(&mut msg, "!");
                self.notify(msg);
            },
            None => {
                let mut order = self.orders.remove(src);
                let id = order.id;
                order.area = Some(t_area.clone());
                order.table_number = Some(t_num);
                order.label = make_table_label(t_area.as_str(), t_num);
                order.is_ac = t_ac;
                order.ac_rate = if t_ac {
                    self.ac_rate
                } else {
                    self.no_charge
                };
                self.orders.insert(src, order);
                assert(self.orders@ =~= old(self).orders@.update(src as int, self.orders@[src as int]));
                self.free_table(src_area.as_str(), src_num);
                self.occupy_table(t_area.as_str(), t_num, id);
                let aid = self.orders[self.active_order].id;
                self.queue_effect(AppEffect::PersistOrder { order_id: aid });
                let d = decimal(src_num as u64);
                let mut msg = msg3("Moved Table ", d.as_str(), " to ");
                push_str(&mut msg, t_area.as_str());
                push_str(&mut msg, " Table ");
                let e = decimal(t_num as u64);
                push_str(&mut msg, e.as_str());
                push_str(&mut msg, "!");
                self.notify(msg);
            },
        }
        self.focus = Focus::Tables;
    }
}

} // verus!
