//! Billing the active order: the billing prompts, applying the offer and the
//! customer mobile, and recording the paid bill. Amounts are computed by the
//! caller and handed in.
use vstd::prelude::*;

use super::cart::only_active_order_changed;
use super::orders::{msg3, persist_table_effects, seat_of};
use super::{App, AppEffect};
use crate::models::{BillSummary, Focus, Offer, Order, OrderStatus, PaymentMode, PhysicalTable, Service, TableStatus};
use crate::seqs::{first_index, lemma_first_index};
use crate::tables::{at_slot, find_table};
use crate::text::{concat, decimal, decimal_seq, push_str, trim, trim_seq};

verus! {

/// The heading of the bill panel: the bill number, then the order's state
/// (with the payment mode in capitals once it is paid and a mode is known),
/// its label and its service.
pub open spec fn bill_heading_seq(
    id: nat,
    label: Seq<char>,
    service: Service,
    status: OrderStatus,
    mode: Option<PaymentMode>,
) -> Seq<char> {
    let who = label + " / "@ + service.spec_label();
    " [5] Bill #"@ + decimal_seq(id) + match status {
        OrderStatus::Paid => match mode {
            Some(m) => " \u{2014} PAID via "@ + m.spec_display_upper() + " \u{2714} ("@ + who + ") "@,
            None => " \u{2014} PAID \u{2714} ("@ + who + ") "@,
        },
        OrderStatus::BillRequested => " \u{2014} READY FOR BILL \u{23f3} ("@ + who + ") "@,
        OrderStatus::Serving => " \u{2014} SERVING \u{2605} ("@ + who + ") "@,
        OrderStatus::TakingOrder => " \u{2014} "@ + who + " "@,
    }
}

/// The heading of the bill panel for `o` (see `bill_heading_seq`).
pub fn bill_heading<M>(o: &Order<M>) -> (r: String)
    ensures
        r@ == bill_heading_seq(o.id as nat, o.label@, o.service, o.status, o.payment_mode),
{
    let mut r = concat(" [5] Bill #", decimal(o.id as u64).as_str());
    let mut who = concat(o.label.as_str(), " / ");
    push_str(&mut who, o.service.label());
    match o.status {
        OrderStatus::Paid => match o.payment_mode {
            Some(m) => {
                push_str(&mut r, " \u{2014} PAID via ");
                push_str(&mut r, m.display_upper());
                push_str(&mut r, " \u{2714} (");
            },
            None => push_str(&mut r, " \u{2014} PAID \u{2714} ("),
        },
        OrderStatus::BillRequested => push_str(&mut r, " \u{2014} READY FOR BILL \u{23f3} ("),
        OrderStatus::Serving => push_str(&mut r, " \u{2014} SERVING \u{2605} ("),
        OrderStatus::TakingOrder => push_str(&mut r, " \u{2014} "),
    }
    push_str(&mut r, who.as_str());
    match o.status {
        OrderStatus::TakingOrder => push_str(&mut r, " "),
        _ => push_str(&mut r, ") "),
    }
    proof {
        assert(r@ =~= bill_heading_seq(o.id as nat, o.label@, o.service, o.status, o.payment_mode));
    }
    r
}

/// The offer has identifier `id`.
pub open spec fn offer_has_id<M>(id: u32) -> spec_fn(Offer<M>) -> bool {
    |o: Offer<M>| o.id == id
}

/// Position of the first offer with identifier `id`.
pub fn find_offer<M>(offers: &Vec<Offer<M>>, id: u32) -> (r: Option<usize>)
    ensures
        match r {
            Some(k) => first_index(offers@, offer_has_id::<M>(id)) == Some(k as int) && k < offers@.len(),
            None => first_index(offers@, offer_has_id::<M>(id)) is None,
        },
{
    let mut k: usize = 0;
    while k < offers.len()
        invariant
            k <= offers@.len(),
            forall|j: int| 0 <= j < k ==> !(offer_has_id::<M>(id))(#[trigger] offers@[j]),
        decreases offers.len() - k,
    {
        if offers[k].id == id {
            proof {
                crate::seqs::lemma_first_index_is(offers@, offer_has_id::<M>(id), k as int);
            }
            return Some(k);
        }
        k = k + 1;
    }
    proof {
        crate::seqs::lemma_first_index_none(offers@, offer_has_id::<M>(id));
    }
    None
}

/// The discount an order gets: that of the first offer with identifier
/// `offer_id`, else the one it had.
pub open spec fn discount_after<M>(offers: Seq<Offer<M>>, offer_id: Option<u32>, current: M) -> M {
    match offer_id {
        Some(id) => match first_index(offers, offer_has_id::<M>(id)) {
            Some(k) => offers[k].discount_percent,
            None => current,
        },
        None => current,
    }
}

/// The customer mobile recorded for a typed one: trimmed, none when blank.
pub open spec fn mobile_after(mobile: Seq<char>) -> Option<Seq<char>> {
    if trim_seq(mobile).len() == 0 {
        None
    } else {
        Some(trim_seq(mobile))
    }
}

/// The recent bills after `b` is added: newest first, five at most.
pub open spec fn bills_with<M>(recent: Seq<BillSummary<M>>, b: BillSummary<M>) -> Seq<BillSummary<M>> {
    let all = seq![b] + recent;
    if all.len() > 5 {
        all.take(5)
    } else {
        all
    }
}

/// The tables after the one an order is seated at shows Paid.
pub open spec fn tables_paid<M>(tables: Seq<PhysicalTable>, o: Order<M>) -> Seq<PhysicalTable> {
    match seat_of(o) {
        Some((a, n)) => match first_index(tables, at_slot(a, n)) {
            Some(i) => tables.update(i, PhysicalTable { status: TableStatus::Paid, ..tables[i] }),
            None => tables,
        },
        None => tables,
    }
}

/// The effects that save the table an order is seated at.
pub open spec fn seat_persist_effects<M>(tables: Seq<PhysicalTable>, o: Order<M>) -> Seq<AppEffect> {
    match seat_of(o) {
        Some((a, n)) => persist_table_effects(tables, a, n),
        None => Seq::empty(),
    }
}

/// The file a paid bill's receipt is saved to.
pub open spec fn receipt_path(id: u32) -> Seq<char> {
    "receipts/bill_"@ + decimal_seq(id as nat) + ".txt"@
}

/// `after` is `before` once billing the active order was started (see `begin_billing`).
pub open spec fn billing_begun<M: Copy>(before: App<M>, after: App<M>) -> bool {
    &&& before.orders@.len() == 0 ==> after == (App { notifications: after.notifications, ..before })
        && after.notes() =~= before.notes().push("No active order."@)
    &&& before.orders@.len() > 0 && before.active().status == OrderStatus::Paid ==> after
        == (App {
        payment_mode_index: match before.active().payment_mode {
            Some(m) => m.spec_index() as usize,
            None => 0,
        },
        close_on_payment: false,
        focus_return: before.focus,
        focus: Focus::PaymentMode,
        notifications: after.notifications,
        ..before
    }) && after.notes() =~= before.notes().push(
        "Select payment type for Bill #"@ + decimal_seq(before.active().id as nat)
            + " (1/c: Cash, 2/u: UPI, 3/d: Card)"@,
    )
    &&& before.orders@.len() > 0 && before.active().status != OrderStatus::Paid
        && before.active().cart@.len() == 0 ==> after == (App {
        notifications: after.notifications,
        ..before
    }) && after.notes() =~= before.notes().push("Cart is empty."@)
    &&& before.orders@.len() > 0 && before.active().status != OrderStatus::Paid
        && before.active().cart@.len() > 0 ==> after == (App {
        focus_return: before.focus,
        mobile_buffer: after.mobile_buffer,
        focus: Focus::MobileEntry,
        ..before
    }) && after.mobile_buffer@.len() == 0
}

/// `after` is `before` once offer choice `index` was taken (see `apply_offer_and_bill`).
pub open spec fn offer_applied<M: Copy>(before: App<M>, after: App<M>, index: usize) -> bool {
    &&& after.pending_mobile@.len() == 0
    &&& after.pending_effects@ =~= before.pending_effects@.push(
        AppEffect::CompleteBilling {
            mobile: before.pending_mobile,
            offer_id: if index == 0 || index - 1 >= before.offers@.len() {
                None
            } else {
                Some(before.offers@[index - 1].id)
            },
        },
    )
    &&& after == (App {
        pending_mobile: after.pending_mobile,
        pending_effects: after.pending_effects,
        ..before
    })
}

impl<M: Copy> App<M> {
    /// Starts billing the active order: a paid order opens the payment popup
    /// to change its payment mode, an order with items asks for the customer
    /// mobile.
    pub fn begin_billing(&mut self)
        requires
            old(self).wf(),
        ensures
            billing_begun(*old(self), *final(self)),
    {
        if self.orders.len() == 0 {
            self.notify(String::from_str("No active order."));
            return;
        }
        let i = self.active_order;
        if self.orders[i].status == OrderStatus::Paid {
            self.payment_mode_index = match self.orders[i].payment_mode {
                Some(m) => m.index(),
                None => 0,
            };
            self.close_on_payment = false;
            self.focus_return = self.focus;
            self.focus = Focus::PaymentMode;
            let d = decimal(self.orders[i].id as u64);
            self.notify(msg3("Select payment type for Bill #", d.as_str(), " (1/c: Cash, 2/u: UPI, 3/d: Card)"));
            return;
        }
        if self.orders[i].cart.len() == 0 {
            self.notify(String::from_str("Cart is empty."));
            return;
        }
        self.focus_return = self.focus;
        self.mobile_buffer = String::new();
        self.focus = Focus::MobileEntry;
    }

    /// Takes the offer chosen in the offer popup (0 means none, `k` the k-th
    /// offer) and the mobile typed earlier, and queues billing with them.
    pub fn apply_offer_and_bill(&mut self, index: usize)
        ensures
            offer_applied(*old(self), *final(self), index),
    {
        let offer_id = if index == 0 || index - 1 >= self.offers.len() {
            None
        } else {
            Some(self.offers[index - 1].id)
        };
        let mut mobile = String::new();
        std::mem::swap(&mut mobile, &mut self.pending_mobile);
        self.queue_effect(AppEffect::CompleteBilling { mobile, offer_id });
    }

    /// First step of completing the bill: refuses an empty cart or a total
    /// that is not above zero (`total_positive`, worked out by the caller),
    /// else applies the offer `offer_id` and the customer mobile. Returns
    /// whether billing goes on.
    pub fn prepare_billing(&mut self, mobile: &str, offer_id: Option<u32>, total_positive: bool) -> (go: bool)
        requires
            old(self).wf(),
        ensures
            final(self).wf(),
            go == (old(self).orders@.len() > 0 && old(self).active().status != OrderStatus::Paid
                && old(self).active().cart@.len() > 0 && total_positive),
            (old(self).orders@.len() == 0 || old(self).active().status == OrderStatus::Paid) ==> *final(self)
                == *old(self),
            old(self).orders@.len() > 0 && old(self).active().status != OrderStatus::Paid
                && old(self).active().cart@.len() == 0 ==> *final(self) == (App {
                notifications: final(self).notifications,
                ..*old(self)
            }) && final(self).notes() == old(self).notes().push("Cart is empty."@),
            old(self).orders@.len() > 0 && old(self).active().status != OrderStatus::Paid
                && old(self).active().cart@.len() > 0 && !total_positive ==> *final(self) == (App {
                notifications: final(self).notifications,
                ..*old(self)
            }) && final(self).notes() == old(self).notes().push("Total must be greater than zero."@),
            go ==> {
                &&& only_active_order_changed(*final(self), *old(self))
                &&& final(self).active() == (Order {
                    discount_percent: discount_after(
                        old(self).offers@,
                        offer_id,
                        old(self).active().discount_percent,
                    ),
                    customer_mobile: final(self).active().customer_mobile,
                    ..old(self).active()
                })
                &&& crate::models::opt_view(final(self).active().customer_mobile) == mobile_after(mobile@)
                &&& *final(self) == (App { orders: final(self).orders, ..*old(self) })
            },
    {
        if self.orders.len() == 0 || self.orders[self.active_order].status == OrderStatus::Paid {
            return false;
        }
        let i = self.active_order;
        if self.orders[i].cart.len() == 0 {
            self.notify(String::from_str("Cart is empty."));
            return false;
        }
        if !total_positive {
            self.notify(String::from_str("Total must be greater than zero."));
            return false;
        }
        let discount = match offer_id {
            Some(id) => match find_offer(&self.offers, id) {
                Some(k) => self.offers[k].discount_percent,
                None => self.orders[i].discount_percent,
            },
            None => self.orders[i].discount_percent,
        };
        let m = trim(mobile);
        let customer = if m.unicode_len() == 0 {
            None
        } else {
            Some(m)
        };
        let mut order = self.orders.remove(i);
        order.discount_percent = discount;
        order.customer_mobile = customer;
        self.orders.insert(i, order);
        assert(self.orders@ =~= old(self).orders@.update(i as int, self.orders@[i as int]));
        true
    }

    /// Last step of completing the bill: records the active order as paid
    /// with `total`, its `receipt` text and the receipt's ESC/POS bytes;
    /// lists it first among the recent bills, queues printing and saving the
    /// receipt, shows its table as Paid and returns to the previous panel.
    pub fn finish_billing(&mut self, total: M, receipt: String, escpos: Vec<u8>)
        requires
            old(self).wf(),
            old(self).orders@.len() > 0,
        ensures
            final(self).wf(),
            only_active_order_changed(*final(self), *old(self)),
            final(self).active() == (Order { status: OrderStatus::Paid, ..old(self).active() }),
            final(self).recent_bills@ == bills_with(
                old(self).recent_bills@,
                BillSummary {
                    id: old(self).active().id,
                    label: final(self).recent_bills@[0].label,
                    service: old(self).active().service,
                    total,
                    receipt,
                    payment_mode: old(self).active().payment_mode,
                },
            ),
            final(self).recent_bills@[0].label@ == old(self).active().label@,
            final(self).recent_bill_index == 0,
            final(self).physical_tables@ == tables_paid(old(self).physical_tables@, old(self).active()),
            final(self).pending_effects@.len() == old(self).pending_effects@.len() + 2 + seat_persist_effects(
                old(self).physical_tables@,
                old(self).active(),
            ).len(),
            final(self).pending_effects@.subrange(0, old(self).pending_effects@.len() as int)
                == old(self).pending_effects@,
            final(self).pending_effects@[old(self).pending_effects@.len() as int] == (AppEffect::PrintReceipt {
                printer: old(self).printer_config.bill_printer,
                data: escpos,
            }),
            (final(self).pending_effects@[old(self).pending_effects@.len() + 1int] matches AppEffect::SaveFile {
                path,
                content,
            } && path@ == receipt_path(old(self).active().id) && content == receipt),
            final(self).pending_effects@.subrange(
                old(self).pending_effects@.len() + 2int,
                final(self).pending_effects@.len() as int,
            ) == seat_persist_effects(old(self).physical_tables@, old(self).active()),
            final(self).focus == old(self).focus_return,
            *final(self) == (App {
                orders: final(self).orders,
                recent_bills: final(self).recent_bills,
                recent_bill_index: 0,
                physical_tables: final(self).physical_tables,
                pending_effects: final(self).pending_effects,
                focus: old(self).focus_return,
                ..*old(self)
            }),
    {
        let i = self.active_order;
        let id = self.orders[i].id;
        let summary = BillSummary {
            id,
            label: self.orders[i].label.clone(),
            service: self.orders[i].service,
            total,
            receipt: receipt.clone(),
            payment_mode: self.orders[i].payment_mode,
        };
        self.recent_bills.insert(0, summary);
        self.recent_bills.truncate(5);
        proof {
            assert(self.recent_bills@ =~= bills_with(old(self).recent_bills@, self.recent_bills@[0]));
        }
        self.recent_bill_index = 0;
        let printer = self.printer_config.bill_printer.clone();
        self.queue_effect(AppEffect::PrintReceipt { printer, data: escpos });
        let d = decimal(id as u64);
        let path = msg3("receipts/bill_", d.as_str(), ".txt");
        self.queue_effect(AppEffect::SaveFile { path, content: receipt });
        let ghost mid = self.pending_effects@;
        self.orders[i].status = OrderStatus::Paid;
        assert(self.orders@ =~= old(self).orders@.update(i as int, self.orders@[i as int]));
        let seat = match (&self.orders[i].area, self.orders[i].table_number) {
            (Some(a), Some(n)) => Some((a.clone(), n)),
            _ => None,
        };
        match seat {
            Some((area, num)) => {
                match find_table(&self.physical_tables, area.as_str(), num) {
                    Some(t) => {
                        proof {
                            lemma_first_index(self.physical_tables@, at_slot(area@, num as nat));
                        }
                        self.physical_tables[t].status = TableStatus::Paid;
                        let a = self.physical_tables[t].area.clone();
                        let n = self.physical_tables[t].number;
                        self.queue_effect(AppEffect::PersistTable { area: a, number: n });
                        assert(self.physical_tables@ =~= tables_paid(
                            old(self).physical_tables@,
                            old(self).active(),
                        ));
                        assert(self.pending_effects@ =~= mid + seat_persist_effects(
                            old(self).physical_tables@,
                            old(self).active(),
                        ));
                    },
                    None => {
                        assert(self.pending_effects@ =~= mid + seat_persist_effects(
                            old(self).physical_tables@,
                            old(self).active(),
                        ));
                    },
                }
            },
            None => {
                assert(self.pending_effects@ =~= mid + seat_persist_effects(
                    old(self).physical_tables@,
                    old(self).active(),
                ));
            },
        }
        self.focus = self.focus_return;
    }

    /// Opens the UPI payment QR of the active order.
    pub fn show_upi_qr(&mut self)
        ensures
            old(self).orders@.len() == 0 ==> *final(self) == (App { notifications: final(self).notifications, ..*old(self) })
                && final(self).notes() == old(self).notes().push("No active order for UPI QR."@),
            old(self).orders@.len() > 0 ==> *final(self) == (App {
                focus_return: old(self).focus,
                focus: Focus::UpiQr,
                ..*old(self)
            }),
    {
        if self.orders.len() == 0 {
            self.notify(String::from_str("No active order for UPI QR."));
            return;
        }
        self.focus_return = self.focus;
        self.focus = Focus::UpiQr;
    }
}

} // verus!
