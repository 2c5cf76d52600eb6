//! Kitchen order tickets (KOTs): deciding and recording them, the kitchen
//! display's status cycle, and reprints.
use vstd::prelude::*;

use super::cart::only_active_order_changed;
use super::{App, AppEffect};
use crate::cart::{
    all_sent, copy_lines, count_units, delta_lines, kot_batch, lemma_delta_lines_len, mark_all_sent,
    next_kot_batch, total_qty, unsent_qty,
};
use crate::models::{lines_view, opt_view, CartLine, CartLineView, Focus, KotSummary, Order};
use crate::printer::{build_escpos_kot_at, escpos_kot_bytes};
use crate::receipts::{items_match, kot_text, printed_name, KotDocument};
use crate::text::{concat, decimal, decimal_seq, push_str, str_eq};
use super::orders::msg3;

verus! {

/// A kitchen ticket ready to be stored and printed.
pub struct KotTicket {
    pub order_id: u32,
    pub label: String,
    pub area: String,
    pub item_count: u32,
    /// The ticket as text, for the KOT panel and the kitchen display.
    pub text: String,
    /// The ticket as ESC/POS bytes for the kitchen printer.
    pub escpos: Vec<u8>,
    pub is_reprint: bool,
    pub is_delta: bool,
    /// A full reprint on request, which does not count as a new ticket.
    pub full: bool,
}

/// How long a ticket has waited on the kitchen display, as a colour band.
#[derive(Clone, Copy, Debug, PartialEq, Eq, Structural)]
pub enum KdsUrgency {
    /// Under ten minutes.
    Normal,
    /// Ten to under twenty minutes.
    Warning,
    /// Twenty minutes or more.
    Urgent,
}

/// The band of a ticket that has waited `mins` whole minutes.
pub fn kds_urgency(mins: i64) -> (u: KdsUrgency)
    ensures
        mins < 10 ==> u == KdsUrgency::Normal,
        10 <= mins < 20 ==> u == KdsUrgency::Warning,
        mins >= 20 ==> u == KdsUrgency::Urgent,
{
    if mins < 10 {
        KdsUrgency::Normal
    } else if mins < 20 {
        KdsUrgency::Warning
    } else {
        KdsUrgency::Urgent
    }
}

impl KdsUrgency {
    /// The word shown after the waiting time.
    pub fn label(self) -> (r: &'static str)
        ensures
            r@ == match self {
                KdsUrgency::Normal => "Normal"@,
                KdsUrgency::Warning => "Warning"@,
                KdsUrgency::Urgent => "URGENT"@,
            },
    {
        match self {
            KdsUrgency::Normal => "Normal",
            KdsUrgency::Warning => "Warning",
            KdsUrgency::Urgent => "URGENT",
        }
    }
}

/// The statuses a ticket goes through on the kitchen display, in a cycle.
pub open spec fn next_kot_status(s: Seq<char>) -> Seq<char> {
    if s == "PENDING"@ {
        "PREPARING"@
    } else if s == "PREPARING"@ {
        "READY"@
    } else if s == "READY"@ {
        "SERVED"@
    } else {
        "PENDING"@
    }
}

/// Bumping a ticket four times brings a status of the cycle back.
pub proof fn lemma_kot_status_cycle(s: Seq<char>)
    requires
        s == "PENDING"@ || s == "PREPARING"@ || s == "READY"@ || s == "SERVED"@,
    ensures
        next_kot_status(next_kot_status(next_kot_status(next_kot_status(s)))) == s,
{
    reveal_strlit("PENDING");
    reveal_strlit("PREPARING");
    reveal_strlit("READY");
    reveal_strlit("SERVED");
    assert("PENDING"@.len() == 7);
    assert("PREPARING"@.len() == 9);
    assert("READY"@.len() == 5);
    assert("SERVED"@.len() == 6);
    assert(next_kot_status("PENDING"@) == "PREPARING"@);
    assert(next_kot_status("PREPARING"@) == "READY"@);
    assert(next_kot_status("READY"@) == "SERVED"@);
    assert(next_kot_status("SERVED"@) == "PENDING"@);
}

/// The add-on lines of a cart hold no more units than the cart.
pub proof fn lemma_delta_total_any<M>(cart: Seq<CartLineView<M>>)
    ensures
        total_qty(delta_lines(cart)) <= total_qty(cart),
    decreases cart.len(),
{
    if cart.len() > 0 {
        let d = delta_lines(cart.drop_last());
        lemma_delta_total_any(cart.drop_last());
        if unsent_qty(cart.last()) > 0 {
            let l = CartLineView { qty: unsent_qty(cart.last()), ..cart.last() };
            assert(d.push(l).drop_last() =~= d);
        }
    }
}

/// A copy of a ticket summary.
pub fn copy_kot(k: &KotSummary) -> (r: KotSummary)
    ensures
        r == *k,
{
    KotSummary {
        id: k.id,
        order_id: k.order_id,
        label: k.label.clone(),
        area: k.area.clone(),
        item_count: k.item_count,
        ticket_text: k.ticket_text.clone(),
        is_reprint: k.is_reprint,
        created_at: k.created_at.clone(),
        status: k.status.clone(),
    }
}

/// A copy of a list of ticket summaries.
pub fn copy_kots(v: &Vec<KotSummary>) -> (r: Vec<KotSummary>)
    ensures
        r@ == v@,
{
    let mut r: Vec<KotSummary> = Vec::new();
    let mut i: usize = 0;
    while i < v.len()
        invariant
            i <= v@.len(),
            r@ == v@.subrange(0, i as int),
        decreases v.len() - i,
    {
        r.push(copy_kot(&v[i]));
        i = i + 1;
        assert(r@ =~= v@.subrange(0, i as int));
    }
    assert(v@.subrange(0, v@.len() as int) =~= v@);
    r
}

/// The text of a ticket for `order` holding `items`, as the ticket panel and
/// kitchen display show it: some ticket document with these fields.
pub open spec fn is_ticket_text<M>(
    text: Seq<char>,
    order: Order<M>,
    items: Seq<CartLine<M>>,
    is_reprint: bool,
    is_delta: bool,
    restaurant_name: Seq<char>,
    stamp: Seq<char>,
) -> bool {
    exists|d: KotDocument|
        text == kot_text(d) && d.restaurant_name@ == printed_name(restaurant_name) && d.order_id
            == order.id && d.table_label@ == order.label@ && opt_view(d.area_name) == opt_view(
            order.area,
        ) && d.is_reprint == is_reprint && d.is_delta == is_delta && items_match(d.items@, items)
            && d.timestamp_str@ == stamp
}

/// The area of an order as stored with its tickets ("" for take-out).
pub open spec fn area_text<M>(o: Order<M>) -> Seq<char> {
    match o.area {
        Some(a) => a@,
        None => Seq::empty(),
    }
}

/// A ticket of `order` holding `items`, with its text and bytes stamped `stamp`.
pub open spec fn ticket_of<M>(
    t: KotTicket,
    order: Order<M>,
    items: Seq<CartLine<M>>,
    is_reprint: bool,
    is_delta: bool,
    full: bool,
    restaurant_name: Seq<char>,
    stamp: Seq<char>,
) -> bool {
    &&& t.order_id == order.id
    &&& t.label@ == order.label@
    &&& t.area@ == area_text(order)
    &&& t.item_count == total_qty(lines_view(items))
    &&& is_ticket_text(t.text@, order, items, is_reprint, is_delta, restaurant_name, stamp)
    &&& t.escpos@ == escpos_kot_bytes(order, items, is_reprint, is_delta, restaurant_name, stamp)
    &&& t.is_reprint == is_reprint
    &&& t.is_delta == is_delta
    &&& t.full == full
}

/// The tag a ticket is announced with.
pub open spec fn kot_tag(is_reprint: bool, is_delta: bool) -> Seq<char> {
    if is_reprint {
        "REPRINT"@
    } else if is_delta {
        "DELTA"@
    } else {
        "NEW"@
    }
}

/// The list of recent tickets after `k` is added: newest first, ten at most.
pub open spec fn recent_with(recent: Seq<KotSummary>, k: KotSummary) -> Seq<KotSummary> {
    let all = seq![k] + recent;
    if all.len() > 10 {
        all.take(10)
    } else {
        all
    }
}

/// `after` is `before` once ticket `t`, stored under `kot_id` (0 when it was
/// not stored) at `created_at`, was recorded (see `record_kot`).
pub open spec fn kot_recorded<M>(before: App<M>, after: App<M>, t: KotTicket, kot_id: u32, created_at: Seq<char>) -> bool {
    &&& after.recent_kots@.len() > 0
    &&& summary_of(t, kot_id, created_at, after.recent_kots@[0])
    &&& pushed_recent(after.recent_kots@, before.recent_kots@, after.recent_kots@[0])
    &&& after.notes() =~= before.notes().push(ticket_message(t, kot_id))
    &&& t.full ==> after == (App {
        recent_kots: after.recent_kots,
        pending_effects: after.pending_effects,
        notifications: after.notifications,
        ..before
    }) && after.pending_effects@ =~= before.pending_effects@.push(
        AppEffect::PrintKot { printer: before.printer_config.kot_printer, data: t.escpos },
    )
    &&& !t.full ==> {
        &&& only_active_order_changed(after, before)
        &&& after.active() == (Order {
            kot_sent_count: (before.active().kot_sent_count + 1) as usize,
            cart: after.active().cart,
            ..before.active()
        })
        &&& lines_view(after.active().cart@) =~= all_sent(lines_view(before.active().cart@))
        &&& after.pending_effects@ =~= before.pending_effects@.push(
            AppEffect::PrintKot { printer: before.printer_config.kot_printer, data: t.escpos },
        ).push(AppEffect::PersistOrder { order_id: before.active().id })
        &&& after == (App {
            orders: after.orders,
            recent_kots: after.recent_kots,
            pending_effects: after.pending_effects,
            notifications: after.notifications,
            ..before
        })
    }
}

/// Ticket `t` is the next kitchen ticket of the active order of `app`, stamped
/// `stamp` (see `prepare_kot`).
pub open spec fn kot_prepared<M>(app: App<M>, t: KotTicket, stamp: Seq<char>) -> bool {
    let (items, is_reprint, is_delta) = kot_batch(lines_view(app.active().cart@), app.active().kot_sent_count as nat);
    exists|s: Seq<CartLine<M>>|
        lines_view(s) == items && ticket_of(t, app.active(), s, is_reprint, is_delta, false, app.restaurant_name@, stamp)
}

/// Ticket `t` is the whole cart of the active order of `app` as a reprint,
/// stamped `stamp` (see `prepare_full_kot`).
pub open spec fn kot_full_prepared<M>(app: App<M>, t: KotTicket, stamp: Seq<char>) -> bool {
    ticket_of(t, app.active(), app.active().cart@, true, false, true, app.restaurant_name@, stamp)
}

impl<M: Copy> App<M> {
    /// Whether the units on the active order's cart can be counted in a `u32`.
    pub open spec fn kot_fits(&self) -> bool {
        self.orders@.len() > 0 ==> total_qty(lines_view(self.active().cart@)) <= u32::MAX
    }

    fn ticket_for(&self, items: &Vec<CartLine<M>>, is_reprint: bool, is_delta: bool, full: bool, stamp: &str) -> (t: KotTicket)
        requires
            self.orders@.len() > 0,
            self.wf(),
            total_qty(lines_view(items@)) <= u32::MAX,
        ensures
            ticket_of(t, self.active(), items@, is_reprint, is_delta, full, self.restaurant_name@, stamp@),
    {
        let order = &self.orders[self.active_order];
        let doc = KotDocument::build(
            order,
            items.as_slice(),
            is_reprint,
            is_delta,
            self.restaurant_name.as_str(),
            String::from_str(stamp),
        );
        let text = doc.render_ascii();
        let escpos = build_escpos_kot_at(
            order,
            items.as_slice(),
            is_reprint,
            is_delta,
            self.restaurant_name.as_str(),
            stamp,
        );
        let count = count_units(items.as_slice()) as u32;
        let area = match &order.area {
            Some(a) => a.clone(),
            None => String::new(),
        };
        KotTicket {
            order_id: order.id,
            label: order.label.clone(),
            area,
            item_count: count,
            text,
            escpos,
            is_reprint,
            is_delta,
            full,
        }
    }

    /// Decides the next kitchen ticket of the active order, stamped `stamp`:
    /// only the units not yet sent (an add-on when an earlier ticket went
    /// out), or the whole cart again when nothing is new.
    pub fn prepare_kot(&self, stamp: &str) -> (r: Result<KotTicket, String>)
        requires
            self.wf(),
            self.kot_fits(),
        ensures
            self.orders@.len() == 0 ==> (r matches Err(m) && m@ == "No active order for KOT."@),
            self.orders@.len() > 0 && self.active().cart@.len() == 0 ==> (r matches Err(m) && m@
                == "Cart is empty - cannot generate KOT."@),
            self.orders@.len() > 0 && self.active().cart@.len() > 0 ==> (r matches Ok(t) && kot_prepared(
                *self,
                t,
                stamp@,
            )),
    {
        if self.orders.len() == 0 {
            return Err(String::from_str("No active order for KOT."));
        }
        let order = &self.orders[self.active_order];
        if order.cart.len() == 0 {
            return Err(String::from_str("Cart is empty - cannot generate KOT."));
        }
        let (items, is_reprint, is_delta) = next_kot_batch(order);
        proof {
            lemma_delta_total_any(lines_view(order.cart@));
        }
        let t = self.ticket_for(&items, is_reprint, is_delta, false, stamp);
        Ok(t)
    }
}

/// The summary listed for ticket `t` once stored under `kot_id`.
pub open spec fn summary_of(t: KotTicket, kot_id: u32, created_at: Seq<char>, s: KotSummary) -> bool {
    &&& s.id == kot_id
    &&& s.order_id == t.order_id
    &&& s.label == t.label
    &&& s.area == t.area
    &&& s.item_count == t.item_count
    &&& s.ticket_text == t.text
    &&& s.is_reprint == t.is_reprint
    &&& s.created_at@ == created_at
    &&& s.status@ == "PENDING"@
}

/// The list of recent tickets gained `s` in front and keeps at most ten.
pub open spec fn pushed_recent(after: Seq<KotSummary>, before: Seq<KotSummary>, s: KotSummary) -> bool {
    after == recent_with(before, s)
}

/// The message announcing ticket `t` stored under `kot_id`.
pub open spec fn ticket_message(t: KotTicket, kot_id: u32) -> Seq<char> {
    if t.full {
        "Reprinted full KOT for "@ + t.label@ + " ("@ + decimal_seq(t.item_count as nat) + " items)."@
    } else {
        "KOT #"@ + decimal_seq((if kot_id > 0 {
            kot_id
        } else {
            t.order_id
        }) as nat) + " ("@ + kot_tag(t.is_reprint, t.is_delta) + ") sent to kitchen ("@ + decimal_seq(
            t.item_count as nat,
        ) + " items) for "@ + t.label@ + "."@
    }
}

impl<M: Copy> App<M> {
    /// Records ticket `t`, stored under `kot_id` (0 when it was not stored) at
    /// `created_at`: lists it first among the recent tickets, queues printing
    /// it in the kitchen and announces it. A new ticket also marks every unit
    /// of the active order as sent and counts the ticket on the order.
    pub fn record_kot(&mut self, t: KotTicket, kot_id: u32, created_at: String)
        requires
            old(self).wf(),
            old(self).orders@.len() > 0,
            !t.full ==> old(self).active().kot_sent_count < usize::MAX,
        ensures
            final(self).wf(),
            kot_recorded(*old(self), *final(self), t, kot_id, created_at@),
    {
        let ghost t0 = t;
        let summary = KotSummary {
            id: kot_id,
            order_id: t.order_id,
            label: t.label.clone(),
            area: t.area.clone(),
            item_count: t.item_count,
            ticket_text: t.text.clone(),
            is_reprint: t.is_reprint,
            created_at,
            status: String::from_str("PENDING"),
        };
        self.recent_kots.insert(0, summary);
        self.recent_kots.truncate(10);
        proof {
            assert(self.recent_kots@ =~= recent_with(old(self).recent_kots@, self.recent_kots@[0]));
        }
        let printer = self.printer_config.kot_printer.clone();
        let msg;
        if t.full {
            let mut m = concat("Reprinted full KOT for ", t.label.as_str());
            push_str(&mut m, " (");
            let c = decimal(t.item_count as u64);
            push_str(&mut m, c.as_str());
            push_str(&mut m, " items).");
            msg = m;
            self.queue_effect(AppEffect::PrintKot { printer, data: t.escpos });
        } else {
            let shown = if kot_id > 0 {
                kot_id
            } else {
                t.order_id
            };
            let d = decimal(shown as u64);
            let mut m = msg3("KOT #", d.as_str(), " (");
            push_str(
                &mut m,
                if t.is_reprint {
                    "REPRINT"
                } else if t.is_delta {
                    "DELTA"
                } else {
                    "NEW"
                },
            );
            push_str(&mut m, ") sent to kitchen (");
            let c = decimal(t.item_count as u64);
            push_str(&mut m, c.as_str());
            push_str(&mut m, " items) for ");
            push_str(&mut m, t.label.as_str());
            push_str(&mut m, ".");
            msg = m;
            self.queue_effect(AppEffect::PrintKot { printer, data: t.escpos });
            let i = self.active_order;
            let mut order = self.orders.remove(i);
            order.kot_sent_count = order.kot_sent_count + 1;
            mark_all_sent(&mut order.cart);
            let id = order.id;
            self.orders.insert(i, order);
            assert(self.orders@ =~= old(self).orders@.update(i as int, self.orders@[i as int]));
            self.queue_effect(AppEffect::PersistOrder { order_id: id });
        }
        self.notify(msg);
    }

    /// Sends the next kitchen ticket of the active order, stamped `stamp`,
    /// when no database stores tickets (its id is then 0).
    pub fn generate_kot(&mut self, stamp: &str, created_at: String)
        requires
            old(self).wf(),
            old(self).kot_fits(),
            old(self).orders@.len() > 0 ==> old(self).active().kot_sent_count < usize::MAX,
        ensures
            final(self).wf(),
            old(self).orders@.len() == 0 ==> *final(self) == (App { notifications: final(self).notifications, ..*old(self) })
                && final(self).notes() == old(self).notes().push("No active order for KOT."@),
            old(self).orders@.len() > 0 && old(self).active().cart@.len() == 0 ==> *final(self) == (App {
                notifications: final(self).notifications,
                ..*old(self)
            }) && final(self).notes() == old(self).notes().push("Cart is empty - cannot generate KOT."@),
            old(self).orders@.len() > 0 && old(self).active().cart@.len() > 0 ==> exists|t: KotTicket|
                kot_prepared(*old(self), t, stamp@) && kot_recorded(*old(self), *final(self), t, 0, created_at@),
    {
        match self.prepare_kot(stamp) {
            Ok(t) => {
                let ghost t0 = t;
                let ghost c0 = created_at@;
                self.record_kot(t, 0, created_at);
                assert(kot_prepared(*old(self), t0, stamp@) && kot_recorded(*old(self), *self, t0, 0, c0));
            },
            Err(m) => {
                self.notify(m);
            },
        }
    }

    /// The whole cart of the active order again as a reprint, stamped `stamp`.
    pub fn prepare_full_kot(&self, stamp: &str) -> (r: Result<KotTicket, String>)
        requires
            self.wf(),
            self.kot_fits(),
        ensures
            self.orders@.len() == 0 ==> (r matches Err(m) && m@ == "No active order to reprint KOT."@),
            self.orders@.len() > 0 && self.active().cart@.len() == 0 ==> (r matches Err(m) && m@
                == "Cart is empty."@),
            self.orders@.len() > 0 && self.active().cart@.len() > 0 ==> (r matches Ok(t) && kot_full_prepared(
                *self,
                t,
                stamp@,
            )),
    {
        if self.orders.len() == 0 {
            return Err(String::from_str("No active order to reprint KOT."));
        }
        let order = &self.orders[self.active_order];
        if order.cart.len() == 0 {
            return Err(String::from_str("Cart is empty."));
        }
        let t = self.ticket_for(&order.cart, true, false, true, stamp);
        Ok(t)
    }

    /// Reprints the whole cart of the active order for the kitchen, stamped
    /// `stamp`, when no database stores tickets.
    pub fn reprint_full_kot(&mut self, stamp: &str, created_at: String)
        requires
            old(self).wf(),
            old(self).kot_fits(),
        ensures
            final(self).wf(),
            final(self).orders == old(self).orders,
            old(self).orders@.len() == 0 ==> final(self).notes() == old(self).notes().push(
                "No active order to reprint KOT."@,
            ),
            old(self).orders@.len() > 0 && old(self).active().cart@.len() == 0 ==> final(self).notes()
                == old(self).notes().push("Cart is empty."@),
            old(self).orders@.len() > 0 && old(self).active().cart@.len() > 0 ==> exists|t: KotTicket|
                kot_full_prepared(*old(self), t, stamp@) && kot_recorded(*old(self), *final(self), t, 0, created_at@),
    {
        match self.prepare_full_kot(stamp) {
            Ok(t) => {
                let ghost t0 = t;
                let ghost c0 = created_at@;
                self.record_kot(t, 0, created_at);
                assert(kot_full_prepared(*old(self), t0, stamp@) && kot_recorded(*old(self), *self, t0, 0, c0));
            },
            Err(m) => {
                self.notify(m);
            },
        }
    }
}

/// `after` is `before` once the kitchen display was opened (see `open_kds`).
pub open spec fn kds_opened<M>(before: App<M>, after: App<M>) -> bool {
    &&& before.has_database ==> after.pending_effects@ =~= before.pending_effects@.push(
        AppEffect::LoadKitchenDisplay,
    ) && after == (App {
        kds_index: 0,
        focus_return: before.focus,
        focus: Focus::KitchenDisplay,
        pending_effects: after.pending_effects,
        ..before
    })
    &&& !before.has_database ==> after.kds_kots@ =~= before.recent_kots@ && after == (App {
        kds_kots: after.kds_kots,
        kds_index: 0,
        focus_return: before.focus,
        focus: Focus::KitchenDisplay,
        ..before
    })
}

impl<M> App<M> {
    /// Opens the kitchen display: with a database the caller fills it with
    /// the active tickets, otherwise it shows the recent tickets.
    pub fn open_kds(&mut self)
        ensures
            kds_opened(*old(self), *final(self)),
    {
        if self.has_database {
            self.queue_effect(AppEffect::LoadKitchenDisplay);
        } else {
            self.kds_kots = copy_kots(&self.recent_kots);
        }
        self.kds_index = 0;
        self.focus_return = self.focus;
        self.focus = Focus::KitchenDisplay;
    }
}

/// `after` is `before` once the selected ticket was moved on (see `kds_bump_status`).
pub open spec fn kds_bumped<M>(before: App<M>, after: App<M>) -> bool {
    &&& before.kds_index >= before.kds_kots@.len() ==> after == before
    &&& before.kds_index < before.kds_kots@.len() ==> {
        let k = before.kds_kots@[before.kds_index as int];
        let next = next_kot_status(k.status@);
        &&& after.kds_kots@.len() == before.kds_kots@.len()
        &&& after.kds_kots@[before.kds_index as int] == (KotSummary {
            status: after.kds_kots@[before.kds_index as int].status,
            ..k
        })
        &&& after.kds_kots@[before.kds_index as int].status@ =~= next
        &&& forall|j: int|
            0 <= j < before.kds_kots@.len() && j != before.kds_index ==> #[trigger] after.kds_kots@[j]
                == before.kds_kots@[j]
        &&& after.pending_effects@.len() == before.pending_effects@.len() + 1
        &&& after.pending_effects@.drop_last() =~= before.pending_effects@
        &&& (after.pending_effects@.last() matches AppEffect::UpdateKotStatus { kot_id, status }
            && kot_id == k.id && status@ =~= next)
        &&& after.notes() =~= before.notes().push(
            if next == "SERVED"@ {
                "KOT #"@ + decimal_seq(k.id as nat) + " for "@ + k.label@ + " marked as SERVED!"@
            } else {
                "KOT #"@ + decimal_seq(k.id as nat) + " for "@ + k.label@ + " status: "@ + next
            },
        )
        &&& after == (App {
            kds_kots: after.kds_kots,
            pending_effects: after.pending_effects,
            notifications: after.notifications,
            ..before
        })
    }
}

/// `after` is `before` once reprinting the selected recent bill was asked for (see `reprint_selected_recent_bill`).
pub open spec fn recent_bill_reprinted<M>(before: App<M>, after: App<M>) -> bool {
    &&& before.recent_bill_index >= before.recent_bills@.len() ==> after == before
    &&& before.recent_bill_index < before.recent_bills@.len() ==> {
        let b = before.recent_bills@[before.recent_bill_index as int];
        &&& after.pending_effects@ =~= before.pending_effects@.push(
            AppEffect::ReprintBill { bill_id: b.id, fallback: b.receipt },
        )
        &&& after.notes() =~= before.notes().push(
            "Reprinted Bill #"@ + decimal_seq(b.id as nat) + "!"@,
        )
        &&& after == (App {
            pending_effects: after.pending_effects,
            notifications: after.notifications,
            ..before
        })
    }
}

/// `after` is `before` once reprinting the selected recent ticket was asked for (see `reprint_selected_recent_kot`).
pub open spec fn recent_kot_reprinted<M>(before: App<M>, after: App<M>) -> bool {
    &&& before.recent_kot_index >= before.recent_kots@.len() ==> after == before
    &&& before.recent_kot_index < before.recent_kots@.len() ==> {
        let k = before.recent_kots@[before.recent_kot_index as int];
        &&& after.pending_effects@ =~= before.pending_effects@.push(
            AppEffect::PrintText { text: k.ticket_text },
        )
        &&& after.notes() =~= before.notes().push(
            "Reprinted KOT #"@ + decimal_seq(k.id as nat) + " for "@ + k.label@ + "!"@,
        )
        &&& after == (App {
            pending_effects: after.pending_effects,
            notifications: after.notifications,
            ..before
        })
    }
}

impl<M> App<M> {
    /// Moves the selected ticket of the kitchen display one status on
    /// (pending, preparing, ready, served, then pending again), queues
    /// storing it and announces it.
    pub fn kds_bump_status(&mut self)
        ensures
            kds_bumped(*old(self), *final(self)),
    {
        let i = self.kds_index;
        if i >= self.kds_kots.len() {
            return;
        }
        let cur = self.kds_kots[i].status.as_str();
        let next = if str_eq(cur, "PENDING") {
            "PREPARING"
        } else if str_eq(cur, "PREPARING") {
            "READY"
        } else if str_eq(cur, "READY") {
            "SERVED"
        } else {
            "PENDING"
        };
        self.kds_kots[i].status = String::from_str(next);
        let kot_id = self.kds_kots[i].id;
        let label = self.kds_kots[i].label.clone();
        self.queue_effect(AppEffect::UpdateKotStatus { kot_id, status: String::from_str(next) });
        let d = decimal(kot_id as u64);
        let mut msg = msg3("KOT #", d.as_str(), " for ");
        push_str(&mut msg, label.as_str());
        if str_eq(next, "SERVED") {
            push_str(&mut msg, " marked as SERVED!");
        } else {
            push_str(&mut msg, " status: ");
            push_str(&mut msg, next);
        }
        self.notify(msg);
    }

    /// Queues reprinting the selected recent bill (its stored receipt when it
    /// can be loaded, else the text kept with it) and announces it.
    pub fn reprint_selected_recent_bill(&mut self)
        ensures
            recent_bill_reprinted(*old(self), *final(self)),
    {
        let i = self.recent_bill_index;
        if i >= self.recent_bills.len() {
            return;
        }
        let id = self.recent_bills[i].id;
        let fallback = self.recent_bills[i].receipt.clone();
        self.queue_effect(AppEffect::ReprintBill { bill_id: id, fallback });
        let d = decimal(id as u64);
        self.notify(msg3("Reprinted Bill #", d.as_str(), "!"));
    }

    /// Queues printing the text of the selected recent ticket and announces it.
    pub fn reprint_selected_recent_kot(&mut self)
        ensures
            recent_kot_reprinted(*old(self), *final(self)),
    {
        let i = self.recent_kot_index;
        if i >= self.recent_kots.len() {
            return;
        }
        let text = self.recent_kots[i].ticket_text.clone();
        let id = self.recent_kots[i].id;
        let label = self.recent_kots[i].label.clone();
        self.queue_effect(AppEffect::PrintText { text });
        let d = decimal(id as u64);
        let mut msg = msg3("Reprinted KOT #", d.as_str(), " for ");
        push_str(&mut msg, label.as_str());
        push_str(&mut msg, "!");
        self.notify(msg);
    }
}

} // verus!
