//! Opening, advancing, cancelling and closing orders, and the table states
//! that follow them.
use vstd::prelude::*;

use super::{make_table_label, table_label, App, AppEffect};
use crate::models::{
    all_payment_modes, opt_view, BillSummary, Focus, Order, OrderStatus, PaymentMode, Service,
    TableStatus, CLEANING_MINUTES,
};
use crate::seqs::{first_index, lemma_first_index};
use crate::tables::{
    after_tick, at_slot, count_cleaned, moved_table, find_order_by_id, find_table, has_id, moved_state,
    only_state_changed, table_state, transition_table_status,
};
use crate::text::{concat, decimal, decimal_seq, push_str};

verus! {

/// `a` then `b` then `c`.
pub fn msg3(a: &str, b: &str, c: &str) -> (r: String)
    ensures
        r@ == a@ + b@ + c@,
{
    let mut r = concat(a, b);
    push_str(&mut r, c);
    r
}

/// The orders after removing the active one, and the index that stays active.
pub open spec fn after_removal<M>(orders: Seq<Order<M>>, active: usize) -> (Seq<Order<M>>, usize) {
    let rest = orders.remove(active as int);
    (rest, if active >= rest.len() && rest.len() > 0 {
        (rest.len() - 1) as usize
    } else {
        active
    })
}

/// The table and area an order is seated at, when it has both.
pub open spec fn seat_of<M>(o: Order<M>) -> Option<(Seq<char>, nat)> {
    match (o.area, o.table_number) {
        (Some(a), Some(n)) => Some((a@, n as nat)),
        _ => None,
    }
}

/// The tables after the table in slot (area, number) moves to `status` at `now`.
pub open spec fn tables_after_move(
    tables: Seq<crate::models::PhysicalTable>,
    area: Seq<char>,
    number: nat,
    status: TableStatus,
    now: i64,
) -> Seq<crate::models::PhysicalTable> {
    match first_index(tables, at_slot(area, number)) {
        Some(i) => tables.update(i, moved_table(tables[i], status, now)),
        None => tables,
    }
}

/// The effects that save every Ready table of `tables`, in floor-plan order.
pub open spec fn ready_table_saves(tables: Seq<crate::models::PhysicalTable>) -> Seq<AppEffect>
    decreases tables.len(),
{
    if tables.len() == 0 {
        Seq::empty()
    } else {
        let rest = ready_table_saves(tables.drop_last());
        if tables.last().status == TableStatus::Ready {
            rest.push(AppEffect::PersistTable { area: tables.last().area, number: tables.last().number })
        } else {
            rest
        }
    }
}

/// The effects queued when the table in slot (area, number) is saved.
pub open spec fn persist_table_effects(
    tables: Seq<crate::models::PhysicalTable>,
    area: Seq<char>,
    number: nat,
) -> Seq<AppEffect> {
    match first_index(tables, at_slot(area, number)) {
        Some(i) => seq![AppEffect::PersistTable { area: tables[i].area, number: tables[i].number }],
        None => Seq::empty(),
    }
}

/// `after` is `before` once the selected table was opened at time `now` (see `open_table_order`).
pub open spec fn table_order_opened<M: Copy>(before: App<M>, after: App<M>, now: i64) -> bool {
    &&& before.spec_selected_area_name().len() == 0 ==> after == (App {
        notifications: after.notifications,
        ..before
    }) && after.notes() =~= before.notes().push("No dining areas configured."@)
    &&& before.spec_selected_area_name().len() > 0 && before.selected_table_slot() is None
        ==> after == before
    &&& before.spec_selected_area_name().len() > 0 ==> match before.selected_table_slot() {
        Some(t) => {
        let table = before.physical_tables@[t];
        if table.status == TableStatus::Dirty {
            &&& after.physical_tables@ =~= tables_after_move(
                before.physical_tables@,
                before.spec_selected_area_name(),
                before.selected_number(),
                TableStatus::Ready,
                now,
            )
            &&& after.orders == before.orders
            &&& after.active_order == before.active_order
        } else if table.status != TableStatus::Ready {
            &&& after.orders == before.orders
            &&& after.physical_tables == before.physical_tables
            &&& after.pending_effects == before.pending_effects
            &&& match table.order_id {
                Some(oid) => match first_index(before.orders@, has_id(oid)) {
                    Some(k) => after.active_order == k && after.notes()
                        == before.notes().push(
                        "Switched to "@ + before.orders@[k].label@ + "."@,
                    ),
                    None => after.active_order == before.active_order,
                },
                None => after.active_order == before.active_order,
            }
        } else {
            let o = after.orders@.last();
            &&& after.orders@.len() == before.orders@.len() + 1
            &&& after.orders@.drop_last() =~= before.orders@
            &&& after.active_order == before.orders@.len()
            &&& after.next_order_id == (if before.next_order_id == u32::MAX {
                0
            } else {
                (before.next_order_id + 1) as u32
            })
            &&& o.id == before.next_order_id
            &&& o.label@ =~= table_label(before.spec_selected_area_name(), before.selected_number())
            &&& o.service == Service::DineIn
            &&& o.table_number == Some(before.selected_number() as usize)
            &&& opt_view(o.area) == Some(before.spec_selected_area_name())
            &&& o.is_ac == before.areas@[before.selected_area_index as int].is_ac
            &&& o.ac_rate == before.ac_rate
            &&& o.discount_percent == before.no_charge
            &&& o.cart@.len() == 0
            &&& o.cart_index == 0
            &&& o.status == OrderStatus::TakingOrder
            &&& o.customer_mobile is None
            &&& o.payment_mode is None
            &&& o.kot_sent_count == 0
            &&& after.physical_tables@ =~= before.physical_tables@.update(
                t,
                crate::models::PhysicalTable {
                    status: TableStatus::TakingOrder,
                    order_id: Some(before.next_order_id),
                    ..table
                },
            )
            &&& after.notes() =~= before.notes().push(
                "Opened order for Table "@ + decimal_seq(before.selected_number()),
            )
        }
        },
        None => true,
    }
}

/// `after` is `before` once a take-out order was opened (see `open_takeout_order`).
pub open spec fn takeout_opened<M: Copy>(before: App<M>, after: App<M>) -> bool {
    &&& after.orders@.len() == before.orders@.len() + 1
    &&& after.orders@.drop_last() =~= before.orders@
    &&& after.active_order == before.orders@.len()
    &&& after.orders@.last().id == before.next_order_id
    &&& after.orders@.last().label@ =~= "TK"@ + decimal_seq(before.next_takeout_id as nat)
    &&& after.orders@.last().service == Service::TakeOut
    &&& after.orders@.last().table_number is None
    &&& after.orders@.last().area is None
    &&& !after.orders@.last().is_ac
    &&& after.orders@.last().ac_rate == before.no_charge
    &&& after.orders@.last().discount_percent == before.no_charge
    &&& after.orders@.last().cart@.len() == 0
    &&& after.orders@.last().status == OrderStatus::TakingOrder
    &&& after.orders@.last().kot_sent_count == 0
    &&& after.notes() =~= before.notes().push(
        "Opened take-out order TK"@ + decimal_seq(before.next_takeout_id as nat) + "."@,
    )
    &&& after.physical_tables == before.physical_tables
    &&& after.focus == before.focus
}

/// `after` is `before` once the active order was cancelled at time `now`:
/// it is dropped (see `after_removal`), its table (if any) made Ready and
/// queued for saving, and dropping the stored order is queued and announced.
pub open spec fn order_cancelled<M>(before: App<M>, after: App<M>, now: i64) -> bool {
    &&& before.orders@.len() == 0 ==> after == (App { notifications: after.notifications, ..before })
        && after.notes() =~= before.notes().push("No active order to cancel."@)
    &&& before.orders@.len() > 0 ==> {
        &&& (after.orders@, after.active_order) == after_removal(before.orders@, before.active_order)
        &&& after.physical_tables@ =~= match seat_of(before.active()) {
            Some((a, n)) => tables_after_move(before.physical_tables@, a, n, TableStatus::Ready, now),
            None => before.physical_tables@,
        }
        &&& after.pending_effects@ =~= before.pending_effects@.push(
            AppEffect::DeleteOpenOrder { order_id: before.active().id },
        ) + match seat_of(before.active()) {
            Some((a, n)) => persist_table_effects(before.physical_tables@, a, n),
            None => Seq::empty(),
        }
        &&& after.notes() =~= before.notes().push(
            "Order #"@ + decimal_seq(before.active().id as nat) + " cancelled."@,
        )
        &&& after == (App {
            orders: after.orders,
            active_order: after.active_order,
            physical_tables: after.physical_tables,
            pending_effects: after.pending_effects,
            notifications: after.notifications,
            ..before
        })
    }
}

/// `after` is `before` once closing the active order was asked for (see `close_order`).
pub open spec fn order_closed<M: Copy>(before: App<M>, after: App<M>, now: i64) -> bool {
    &&& before.orders@.len() == 0 ==> after == (App {
        notifications: after.notifications,
        ..before
    }) && after.notes() =~= before.notes().push("No orders to close."@)
    &&& before.orders@.len() > 0 && before.active().status == OrderStatus::Paid ==> after == (App {
        payment_mode_index: match before.active().payment_mode {
            Some(m) => m.spec_index() as usize,
            None => 0,
        },
        close_on_payment: true,
        focus_return: before.focus,
        focus: Focus::PaymentMode,
        ..before
    })
    &&& before.orders@.len() > 0 && before.active().status != OrderStatus::Paid
        && before.active().cart@.len() == 0 ==> order_cancelled(before, after, now)
    &&& before.orders@.len() > 0 && before.active().status != OrderStatus::Paid
        && before.active().cart@.len() > 0 ==> after == (App {
        notifications: after.notifications,
        ..before
    }) && after.notes() =~= before.notes().push(
        "Cannot close order with items. Generate bill first."@,
    )
}

/// `after` is `before` once the active order was moved on a stage at time `now` (see `advance_stage`).
pub open spec fn stage_advanced<M: Copy>(before: App<M>, after: App<M>, now: i64) -> bool {
    &&& before.orders@.len() == 0 ==> after == (App {
        notifications: after.notifications,
        ..before
    }) && after.notes() =~= before.notes().push("No active order."@)
    &&& before.orders@.len() > 0 && before.active().status.spec_advance() is None ==> after
        == (App { notifications: after.notifications, ..before }) && after.notes()
        == before.notes().push(
        "Order already at final stage (use p to bill, c to close)."@,
    )
    &&& before.orders@.len() > 0 ==> match before.active().status.spec_advance() {
        Some(next) => {
        &&& after.orders@ =~= before.orders@.update(
            before.active_order as int,
            Order { status: next, ..before.active() },
        )
        &&& after.active_order == before.active_order
        &&& after.physical_tables@ =~= match seat_of(before.active()) {
            Some((a, n)) => tables_after_move(
                before.physical_tables@,
                a,
                n,
                next.spec_table_status(),
                now,
            ),
            None => before.physical_tables@,
        }
        &&& after.notes() =~= before.notes().push(
            "Table "@ + before.active().label@ + " — "@ + stage_text(next) + "."@,
        )
        },
        None => true,
    }
    &&& after.focus == before.focus
}

/// `after` is `before` once the selected table was marked cleaned at time `now` (see `clean_selected_table`).
pub open spec fn table_cleaned<M: Copy>(before: App<M>, after: App<M>, now: i64) -> bool {
    &&& after.physical_tables@ =~= tables_after_move(
        before.physical_tables@,
        before.spec_selected_area_name(),
        before.selected_number(),
        TableStatus::Ready,
        now,
    )
    &&& before.selected_table_index < usize::MAX ==> after.notes()
        == before.notes().push(
        "Table "@ + decimal_seq(before.selected_number()) + " cleaned and ready."@,
    )
    &&& after == (App {
        physical_tables: after.physical_tables,
        pending_effects: after.pending_effects,
        notifications: after.notifications,
        ..before
    })
}

/// `after` is `before` once payment mode `mode` was chosen at time `now` (see `select_payment_mode`).
pub open spec fn payment_selected<M: Copy>(before: App<M>, after: App<M>, mode: PaymentMode, now: i64) -> bool {
    &&& !before.close_on_payment ==> after.focus == before.focus_return
    &&& !before.close_on_payment ==> after.orders@.len() == before.orders@.len()
    &&& before.close_on_payment && before.orders@.len() > 0 && before.active().status
        == OrderStatus::Paid ==> after.orders@ =~= after_removal(
        before.orders@.update(
            before.active_order as int,
            Order { payment_mode: Some(mode), ..before.active() },
        ),
        before.active_order,
    ).0
}

impl<M: Copy> App<M> {
    /// Moves the table in slot (area, number) to `status` and queues saving it.
    pub fn transition_table_status(&mut self, area: &str, number: usize, status: TableStatus, now: i64)
        ensures
            final(self).physical_tables@ == tables_after_move(
                old(self).physical_tables@,
                area@,
                number as nat,
                status,
                now,
            ),
            final(self).pending_effects@ == old(self).pending_effects@ + persist_table_effects(
                old(self).physical_tables@,
                area@,
                number as nat,
            ),
            *final(self) == (App {
                physical_tables: final(self).physical_tables,
                pending_effects: final(self).pending_effects,
                ..*old(self)
            }),
    {
        let ghost before = self.physical_tables@;
        match transition_table_status(&mut self.physical_tables, area, number, status, now) {
            Some(i) => {
                proof {
                    lemma_first_index(before, at_slot(area@, number as nat));
                    assert(self.physical_tables@ =~= tables_after_move(before, area@, number as nat, status, now));
                }
                let a = self.physical_tables[i].area.clone();
                let n = self.physical_tables[i].number;
                self.pending_effects.push(AppEffect::PersistTable { area: a, number: n });
                proof {
                    assert(self.pending_effects@ =~= old(self).pending_effects@ + persist_table_effects(
                        before,
                        area@,
                        number as nat,
                    ));
                }
            },
            None => {
                assert(self.pending_effects@ =~= old(self).pending_effects@ + persist_table_effects(
                    before,
                    area@,
                    number as nat,
                ));
            },
        }
    }

    /// Marks the selected table Ready (ends cleaning early) and announces it.
    pub fn clean_selected_table(&mut self, now: i64)
        ensures
            table_cleaned(*old(self), *final(self), now),
    {
        if self.selected_table_index >= usize::MAX {
            assert(first_index(self.physical_tables@, at_slot(self.spec_selected_area_name(), self.selected_number())) is None) by {
                crate::seqs::lemma_first_index_none(
                    self.physical_tables@,
                    at_slot(self.spec_selected_area_name(), self.selected_number()),
                );
            }
            return;
        }
        let area = self.selected_area_name();
        let num = self.selected_table_index + 1;
        self.transition_table_status(area.as_str(), num, TableStatus::Ready, now);
        let n = decimal(num as u64);
        self.notify(msg3("Table ", n.as_str(), " cleaned and ready."));
    }

    /// Returns to Ready every table whose cleaning window has run out at `now`
    /// and queues saving every Ready table when any was cleaned; returns how
    /// many were cleaned.
    pub fn tick_cleaning(&mut self, now: i64) -> (cleaned: usize)
        ensures
            final(self).physical_tables@.len() == old(self).physical_tables@.len(),
            forall|k: int|
                0 <= k < old(self).physical_tables@.len() ==> #[trigger] final(self).physical_tables@[k]
                    == after_tick(old(self).physical_tables@[k], now),
            cleaned == count_cleaned(old(self).physical_tables@, now),
            cleaned == 0 ==> final(self).pending_effects@ == old(self).pending_effects@,
            cleaned > 0 ==> final(self).pending_effects@ == old(self).pending_effects@ + ready_table_saves(
                final(self).physical_tables@,
            ),
            *final(self) == (App {
                physical_tables: final(self).physical_tables,
                pending_effects: final(self).pending_effects,
                ..*old(self)
            }),
    {
        let cleaned = crate::tables::tick_cleaning(&mut self.physical_tables, now);
        if cleaned > 0 {
            let ghost pre = *self;
            let mut i: usize = 0;
            while i < self.physical_tables.len()
                invariant
                    i <= self.physical_tables@.len(),
                    *self == (App { pending_effects: self.pending_effects, ..pre }),
                    self.pending_effects@ == pre.pending_effects@ + ready_table_saves(
                        self.physical_tables@.subrange(0, i as int),
                    ),
                decreases self.physical_tables.len() - i,
            {
                proof {
                    assert(self.physical_tables@.subrange(0, i + 1).drop_last() =~= self.physical_tables@.subrange(
                        0,
                        i as int,
                    ));
                }
                if self.physical_tables[i].status == TableStatus::Ready {
                    let a = self.physical_tables[i].area.clone();
                    let n = self.physical_tables[i].number;
                    self.pending_effects.push(AppEffect::PersistTable { area: a, number: n });
                }
                i = i + 1;
                assert(self.pending_effects@ =~= pre.pending_effects@ + ready_table_saves(
                    self.physical_tables@.subrange(0, i as int),
                ));
            }
            assert(self.physical_tables@.subrange(0, self.physical_tables@.len() as int)
                =~= self.physical_tables@);
        }
        cleaned
    }

    /// Opens, or switches to, the order of the selected table. A table being
    /// cleaned is made Ready instead; an occupied table switches to its order;
    /// a Ready table gets a new dine-in order in the Taking-order stage.
    pub fn open_table_order(&mut self, now: i64)
        requires
            old(self).wf(),
        ensures
            final(self).wf(),
            table_order_opened(*old(self), *final(self), now),
    {
        let area = self.selected_area_name();
        if area.unicode_len() == 0 {
            self.notify(String::from_str("No dining areas configured."));
            return;
        }
        if self.selected_table_index >= usize::MAX {
            assert(self.selected_table_slot() is None) by {
                crate::seqs::lemma_first_index_none(
                    self.physical_tables@,
                    at_slot(self.spec_selected_area_name(), self.selected_number()),
                );
            }
            return;
        }
        let num = self.selected_table_index + 1;
        let t = match find_table(&self.physical_tables, area.as_str(), num) {
            Some(t) => t,
            None => {
                return;
            },
        };
        proof {
            lemma_first_index(self.physical_tables@, at_slot(area@, num as nat));
        }
        let status = self.physical_tables[t].status;
        if status == TableStatus::Dirty {
            self.clean_selected_table(now);
            return;
        }
        if status != TableStatus::Ready {
            match self.physical_tables[t].order_id {
                Some(oid) => {
                    match find_order_by_id(&self.orders, oid) {
                        Some(k) => {
                            self.active_order = k;
                            let msg = msg3("Switched to ", self.orders[k].label.as_str(), ".");
                            self.notify(msg);
                        },
                        None => {},
                    }
                },
                None => {},
            }
            return;
        }
        let id = self.next_order_id;
        self.next_order_id = if self.next_order_id == 0xFFFF_FFFFu32 {
            0
        } else {
            self.next_order_id + 1
        };
        let label = make_table_label(area.as_str(), num);
        let is_ac = self.areas[self.selected_area_index].is_ac;
        let order = Order {
            id,
            label,
            service: Service::DineIn,
            table_number: Some(num),
            area: Some(area.clone()),
            is_ac,
            ac_rate: self.ac_rate,
            discount_percent: self.no_charge,
            cart: Vec::new(),
            cart_index: 0,
            status: OrderStatus::TakingOrder,
            customer_mobile: None,
            payment_mode: None,
            kot_sent_count: 0,
        };
        self.orders.push(order);
        assert(self.orders@.drop_last() =~= old(self).orders@);
        self.active_order = self.orders.len() - 1;
        self.physical_tables[t].status = TableStatus::TakingOrder;
        self.physical_tables[t].order_id = Some(id);
        self.queue_effect(AppEffect::PersistOrder { order_id: id });
        let a2 = area.clone();
        self.queue_effect(AppEffect::PersistTable { area: a2, number: num });
        let n = decimal(num as u64);
        self.notify(concat("Opened order for Table ", n.as_str()));
    }

    /// Opens a new take-out order labelled "TK<n>" and makes it active.
    pub fn open_takeout_order(&mut self)
        requires
            old(self).wf(),
        ensures
            final(self).wf(),
            takeout_opened(*old(self), *final(self)),
    {
        let id = self.next_order_id;
        self.next_order_id = if self.next_order_id == 0xFFFF_FFFFu32 {
            0
        } else {
            self.next_order_id + 1
        };
        let tk = self.next_takeout_id;
        self.next_takeout_id = if self.next_takeout_id == 0xFFFF_FFFFu32 {
            0
        } else {
            self.next_takeout_id + 1
        };
        let d = decimal(tk as u64);
        let label = concat("TK", d.as_str());
        let order = Order {
            id,
            label,
            service: Service::TakeOut,
            table_number: None,
            area: None,
            is_ac: false,
            ac_rate: self.no_charge,
            discount_percent: self.no_charge,
            cart: Vec::new(),
            cart_index: 0,
            status: OrderStatus::TakingOrder,
            customer_mobile: None,
            payment_mode: None,
            kot_sent_count: 0,
        };
        self.orders.push(order);
        assert(self.orders@.drop_last() =~= old(self).orders@);
        self.active_order = self.orders.len() - 1;
        self.queue_effect(AppEffect::PersistOrder { order_id: id });
        self.notify(msg3("Opened take-out order TK", d.as_str(), "."));
    }

    /// Removes the active order (keeping a valid active index) and returns its
    /// id and seat.
    fn remove_active_order(&mut self) -> (r: (u32, Option<(String, usize)>, String))
        requires
            old(self).wf(),
            old(self).orders@.len() > 0,
        ensures
            final(self).wf(),
            (final(self).orders@, final(self).active_order) == after_removal(
                old(self).orders@,
                old(self).active_order,
            ),
            r.0 == old(self).active().id,
            r.2@ == old(self).active().label@,
            match r.1 {
                Some((a, n)) => seat_of(old(self).active()) == Some((a@, n as nat)),
                None => seat_of(old(self).active()) is None,
            },
            *final(self) == (App { orders: final(self).orders, active_order: final(self).active_order, ..*old(self) }),
    {
        let i = self.active_order;
        let closed_id = self.orders[i].id;
        let label = self.orders[i].label.clone();
        let seat = match (&self.orders[i].area, self.orders[i].table_number) {
            (Some(a), Some(n)) => Some((a.clone(), n)),
            _ => None,
        };
        self.orders.remove(i);
        if self.active_order >= self.orders.len() && self.orders.len() > 0 {
            self.active_order = self.orders.len() - 1;
        }
        (closed_id, seat, label)
    }

    /// Cancels the active order: drops it, frees its table.
    pub fn cancel_order(&mut self, now: i64)
        requires
            old(self).wf(),
        ensures
            final(self).wf(),
            order_cancelled(*old(self), *final(self), now),
    {
        if self.orders.len() == 0 {
            self.notify(String::from_str("No active order to cancel."));
            return;
        }
        let (closed_id, seat, _label) = self.remove_active_order();
        self.queue_effect(AppEffect::DeleteOpenOrder { order_id: closed_id });
        match seat {
            Some((area, num)) => {
                self.transition_table_status(area.as_str(), num, TableStatus::Ready, now);
            },
            None => {},
        }
        let d = decimal(closed_id as u64);
        self.notify(msg3("Order #", d.as_str(), " cancelled."));
    }

    /// Closes the active order: a paid order opens the payment popup to
    /// settle and close it, an empty order is cancelled, any other is refused.
    pub fn close_order(&mut self, now: i64)
        requires
            old(self).wf(),
        ensures
            final(self).wf(),
            order_closed(*old(self), *final(self), now),
    {
        if self.orders.len() == 0 {
            self.notify(String::from_str("No orders to close."));
            return;
        }
        let i = self.active_order;
        if self.orders[i].status == OrderStatus::Paid {
            self.payment_mode_index = match self.orders[i].payment_mode {
                Some(m) => m.index(),
                None => 0,
            };
            self.close_on_payment = true;
            self.focus_return = self.focus;
            self.focus = Focus::PaymentMode;
        } else if self.orders[i].cart.len() == 0 {
            self.cancel_order(now);
        } else {
            self.notify(String::from_str("Cannot close order with items. Generate bill first."));
        }
    }

    /// Records a new payment mode on the active, paid order and on its entry
    /// in the recent bills; queues storing it.
    pub fn update_paid_order_payment_mode(&mut self, mode: PaymentMode)
        requires
            old(self).wf(),
        ensures
            final(self).wf(),
            (old(self).orders@.len() == 0 || old(self).active().status != OrderStatus::Paid) ==> *final(self)
                == *old(self),
            old(self).orders@.len() > 0 && old(self).active().status == OrderStatus::Paid ==> {
                &&& final(self).orders@ == old(self).orders@.update(
                    old(self).active_order as int,
                    Order { payment_mode: Some(mode), ..old(self).active() },
                )
                &&& final(self).pending_effects@ == old(self).pending_effects@.push(
                    AppEffect::UpdatePaymentMode { order_id: old(self).active().id },
                )
                &&& final(self).recent_bills@ == match first_index(
                    old(self).recent_bills@,
                    bill_has_id::<M>(old(self).active().id),
                ) {
                    Some(k) => old(self).recent_bills@.update(
                        k,
                        BillSummary { payment_mode: Some(mode), ..old(self).recent_bills@[k] },
                    ),
                    None => old(self).recent_bills@,
                }
                &&& final(self).notes() == old(self).notes().push(
                    "Bill #"@ + decimal_seq(old(self).active().id as nat) + " updated with payment type "@
                        + mode.spec_display() + "."@,
                )
                &&& *final(self) == (App {
                    orders: final(self).orders,
                    pending_effects: final(self).pending_effects,
                    recent_bills: final(self).recent_bills,
                    notifications: final(self).notifications,
                    ..*old(self)
                })
            },
    {
        if self.orders.len() == 0 || self.orders[self.active_order].status != OrderStatus::Paid {
            return;
        }
        let i = self.active_order;
        let order_id = self.orders[i].id;
        self.orders[i].payment_mode = Some(mode);
        self.queue_effect(AppEffect::UpdatePaymentMode { order_id });
        let found = find_bill(&self.recent_bills, order_id);
        match found {
            Some(f) => {
                proof {
                    lemma_first_index(self.recent_bills@, bill_has_id::<M>(order_id));
                }
                self.recent_bills[f].payment_mode = Some(mode);
            },
            None => {},
        }
        let d = decimal(order_id as u64);
        let mut msg = msg3("Bill #", d.as_str(), " updated with payment type ");
        push_str(&mut msg, mode.display());
        push_str(&mut msg, ".");
        self.notify(msg);
    }

    /// Advances the active order one stage (Taking order → Serving → Ready
    /// for bill) and moves its table along.
    pub fn advance_stage(&mut self, now: i64)
        requires
            old(self).wf(),
        ensures
            final(self).wf(),
            stage_advanced(*old(self), *final(self), now),
    {
        if self.orders.len() == 0 {
            self.notify(String::from_str("No active order."));
            return;
        }
        let i = self.active_order;
        let current = self.orders[i].status;
        match current.advance() {
            Some(next) => {
                self.orders[i].status = next;
                let label = self.orders[i].label.clone();
                let id = self.orders[i].id;
                let seat = match (&self.orders[i].area, self.orders[i].table_number) {
                    (Some(a), Some(n)) => Some((a.clone(), n)),
                    _ => None,
                };
                match seat {
                    Some((area, num)) => {
                        self.transition_table_status(area.as_str(), num, next.table_status(), now);
                    },
                    None => {},
                }
                self.queue_effect(AppEffect::PersistOrder { order_id: id });
                let stage = match next {
                    OrderStatus::Serving => "now being served",
                    OrderStatus::BillRequested => "ready for bill",
                    _ => "advanced",
                };
                let mut msg = msg3("Table ", label.as_str(), " — ");
                push_str(&mut msg, stage);
                push_str(&mut msg, ".");
                self.notify(msg);
            },
            None => {
                self.notify(String::from_str("Order already at final stage (use p to bill, c to close)."));
            },
        }
    }

    /// Applies the mode chosen in the payment popup: closes the paid order, or
    /// only updates its payment mode and returns to the previous panel.
    pub fn select_payment_mode(&mut self, mode: PaymentMode, now: i64)
        requires
            old(self).wf(),
        ensures
            final(self).wf(),
            payment_selected(*old(self), *final(self), mode, now),
    {
        if self.close_on_payment {
            self.perform_close_with_mode(mode, now);
        } else {
            self.update_paid_order_payment_mode(mode);
            self.focus = self.focus_return;
        }
    }

    /// Settles the active, paid order with `mode` and closes it; its table
    /// goes to cleaning.
    pub fn perform_close_with_mode(&mut self, mode: PaymentMode, now: i64)
        requires
            old(self).wf(),
        ensures
            final(self).wf(),
            (old(self).orders@.len() == 0 || old(self).active().status != OrderStatus::Paid) ==> *final(self)
                == *old(self),
            old(self).orders@.len() > 0 && old(self).active().status == OrderStatus::Paid ==> {
                let paid = old(self).orders@.update(
                    old(self).active_order as int,
                    Order { payment_mode: Some(mode), ..old(self).active() },
                );
                &&& (final(self).orders@, final(self).active_order) == after_removal(paid, old(self).active_order)
                &&& final(self).focus == old(self).focus_return
                &&& final(self).physical_tables@ == match seat_of(old(self).active()) {
                    Some((a, n)) => tables_after_move(old(self).physical_tables@, a, n, TableStatus::Dirty, now),
                    None => old(self).physical_tables@,
                }
                &&& final(self).notes() == old(self).notes().push(
                    "Bill #"@ + decimal_seq(old(self).active().id as nat) + " updated with payment type "@
                        + mode.spec_display() + "."@,
                ).push(
                    match seat_of(old(self).active()) {
                        Some((a, n)) => "Closed "@ + old(self).active().label@ + " via "@ + mode.spec_display()
                            + ". Table "@ + decimal_seq(n) + " cleaning — auto-ready in "@ + decimal_seq(
                            CLEANING_MINUTES as nat,
                        ) + " min."@,
                        None => "Closed "@ + old(self).active().label@ + " via "@ + mode.spec_display() + "."@,
                    },
                )
                &&& final(self).recent_bills@ == match first_index(
                    old(self).recent_bills@,
                    bill_has_id::<M>(old(self).active().id),
                ) {
                    Some(k) => old(self).recent_bills@.update(
                        k,
                        BillSummary { payment_mode: Some(mode), ..old(self).recent_bills@[k] },
                    ),
                    None => old(self).recent_bills@,
                }
                &&& final(self).pending_effects@ == old(self).pending_effects@.push(
                    AppEffect::UpdatePaymentMode { order_id: old(self).active().id },
                ).push(AppEffect::DeleteOpenOrder { order_id: old(self).active().id }) + match seat_of(
                    old(self).active(),
                ) {
                    Some((a, n)) => persist_table_effects(old(self).physical_tables@, a, n),
                    None => Seq::empty(),
                }
                &&& *final(self) == (App {
                    orders: final(self).orders,
                    active_order: final(self).active_order,
                    focus: final(self).focus,
                    physical_tables: final(self).physical_tables,
                    pending_effects: final(self).pending_effects,
                    notifications: final(self).notifications,
                    recent_bills: final(self).recent_bills,
                    ..*old(self)
                })
            },
    {
        if self.orders.len() == 0 || self.orders[self.active_order].status != OrderStatus::Paid {
            return;
        }
        self.update_paid_order_payment_mode(mode);
        let (closed_id, seat, label) = self.remove_active_order();
        self.focus = self.focus_return;
        self.queue_effect(AppEffect::DeleteOpenOrder { order_id: closed_id });
        let mut msg = msg3("Closed ", label.as_str(), " via ");
        push_str(&mut msg, mode.display());
        match seat {
            Some((area, num)) => {
                self.transition_table_status(area.as_str(), num, TableStatus::Dirty, now);
                push_str(&mut msg, ". Table ");
                let d = decimal(num as u64);
                push_str(&mut msg, d.as_str());
                push_str(&mut msg, " cleaning — auto-ready in ");
                let m = decimal(CLEANING_MINUTES as u64);
                push_str(&mut msg, m.as_str());
                push_str(&mut msg, " min.");
                self.notify(msg);
            },
            None => {
                push_str(&mut msg, ".");
                self.notify(msg);
            },
        }
    }
}

/// The stage text announced when an order advances.
pub open spec fn stage_text(next: OrderStatus) -> Seq<char> {
    match next {
        OrderStatus::Serving => "now being served"@,
        OrderStatus::BillRequested => "ready for bill"@,
        _ => "advanced"@,
    }
}

/// Position of the first bill with identifier `id`.
pub fn find_bill<M>(bills: &Vec<BillSummary<M>>, id: u32) -> (r: Option<usize>)
    ensures
        match r {
            Some(k) => first_index(bills@, bill_has_id::<M>(id)) == Some(k as int),
            None => first_index(bills@, bill_has_id::<M>(id)) is None,
        },
{
    let mut k: usize = 0;
    while k < bills.len()
        invariant
            k <= bills@.len(),
            forall|j: int| 0 <= j < k ==> !(bill_has_id::<M>(id))(#[trigger] bills@[j]),
        decreases bills.len() - k,
    {
        if bills[k].id == id {
            proof {
                crate::seqs::lemma_first_index_is(bills@, bill_has_id::<M>(id), k as int);
            }
            return Some(k);
        }
        k = k + 1;
    }
    proof {
        crate::seqs::lemma_first_index_none(bills@, bill_has_id::<M>(id));
    }
    None
}

/// The bill has identifier `id`.
pub open spec fn bill_has_id<M>(id: u32) -> spec_fn(BillSummary<M>) -> bool {
    |b: BillSummary<M>| b.id == id
}

impl<M: Copy> App<M> {
    /// Queues saving the first table in slot (area, number), when there is one.
    pub fn persist_table(&mut self, area: &str, number: usize)
        ensures
            final(self).pending_effects@ == old(self).pending_effects@ + persist_table_effects(
                old(self).physical_tables@,
                area@,
                number as nat,
            ),
            *final(self) == (App { pending_effects: final(self).pending_effects, ..*old(self) }),
    {
        match find_table(&self.physical_tables, area, number) {
            Some(i) => {
                proof {
                    lemma_first_index(self.physical_tables@, at_slot(area@, number as nat));
                }
                let a = self.physical_tables[i].area.clone();
                let n = self.physical_tables[i].number;
                self.queue_effect(AppEffect::PersistTable { area: a, number: n });
                assert(self.pending_effects@ =~= old(self).pending_effects@ + persist_table_effects(
                    old(self).physical_tables@,
                    area@,
                    number as nat,
                ));
            },
            None => {
                assert(self.pending_effects@ =~= old(self).pending_effects@ + persist_table_effects(
                    old(self).physical_tables@,
                    area@,
                    number as nat,
                ));
            },
        }
    }

    /// The active order, for editing.
    pub fn order_mut(&mut self) -> (r: &mut Order<M>)
        requires
            old(self).wf(),
            old(self).orders@.len() > 0,
        ensures
            *r == old(self).active(),
            final(self).orders@ == old(self).orders@.update(old(self).active_order as int, *final(r)),
            *final(self) == (App { orders: final(self).orders, ..*old(self) }),
    {
        let i = self.active_order;
        &mut self.orders[i]
    }
}

} // verus!
