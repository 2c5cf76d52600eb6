//! The point-of-sale session: open orders, floor plan, panels and popups,
//! driven by key presses. Work that needs the database, printers or files is
//! handed out as `AppEffect`s for the caller to perform.
use vstd::prelude::*;

use crate::models::{
    Area, BillSummary, Focus, KotSummary, MenuItem, Offer, Order, PhysicalTable, RecentTab, Service,
};
use crate::printer::PrinterConfig;
use crate::seqs::first_index;
use crate::tables::{at_slot, seated_at};
use crate::text::{char_is_whitespace, chars_of, decimal_seq, is_white_space, string_of};

pub mod orders;
pub mod cart;
pub mod kot;
pub mod billing;
pub mod tables;
pub mod reports;
pub mod search;
pub mod events;
pub mod setup;


verus! {

/// A key press, as the terminal reports it.
#[derive(Clone, Copy, Debug)]
pub enum Key {
    Char(char),
    Enter,
    Esc,
    Tab,
    BackTab,
    Backspace,
    Delete,
    Up,
    Down,
    Left,
    Right,
    F(u8),
    Other,
}

/// Work that the session hands to the caller: persistence, printing, files
/// and the panels that are filled from the database.
#[derive(Clone, Debug)]
pub enum AppEffect {
    PrintReceipt { printer: String, data: Vec<u8> },
    PrintKot { printer: String, data: Vec<u8> },
    SaveFile { path: String, content: String },
    TriggerBackup,
    /// Save the open order with this id.
    PersistOrder { order_id: u32 },
    /// Save the state of the table in this slot.
    PersistTable { area: String, number: usize },
    /// Drop the stored open order with this id.
    DeleteOpenOrder { order_id: u32 },
    /// Store a menu item's availability.
    UpdateItemAvailability { name: String, available: bool },
    /// Store the payment mode of a paid order and refresh its receipt.
    UpdatePaymentMode { order_id: u32 },
    /// Store the new status of a kitchen ticket.
    UpdateKotStatus { kot_id: u32, status: String },
    /// Send plain text to the receipt printer.
    PrintText { text: String },
    /// Fill the kitchen display with the active tickets from the database.
    LoadKitchenDisplay,
    /// Reload the kitchen display from the database and announce it.
    RefreshKitchenDisplay,
    /// Work out today's sales summary and show it.
    OpenDailyReport,
    /// Print (and store) the Z-report of the summary shown.
    PrintDailyReport,
    /// Work out today's sales analytics and show them.
    OpenSalesAnalytics,
    /// Fill the bill-search results for the current query.
    RefreshBillSearch,
    /// Print the stored receipt of historical bill `bill_id`.
    ReprintHistoricalBill { bill_id: u32 },
    /// Print the stored receipt of bill `bill_id`, or `fallback` when it
    /// cannot be loaded.
    ReprintBill { bill_id: u32, fallback: String },
    /// Load the visit history of the customer with this phone number.
    RefreshCustomerProfile { phone: String },
    /// Forget the customer profile shown.
    ClearCustomerProfile,
    /// Write the configuration CSV files.
    ExportConfig,
    /// Read the configuration CSV files and import them.
    ImportConfig,
    /// Decide, store, print and record the next kitchen ticket of the active
    /// order (the whole cart again when `full`).
    SendKot { full: bool },
    /// Bill the active order with this customer mobile and offer.
    CompleteBilling { mobile: String, offer_id: Option<u32> },
}

/// The popup that is open, with its buffers.
#[derive(Clone, Debug)]
pub enum ModalState {
    /// No popup is open.
    NoModal,
    MobileEntry { buffer: String },
    PaymentMode { index: usize, close_on_payment: bool },
    OfferSelect { index: usize },
    TableJump { query: String, index: usize },
    TableMove { target_index: usize },
    ItemNote { buffer: String },
    BillSearch { query: String, index: usize },
    DailyReport,
    KitchenDisplay { index: usize },
    SalesAnalytics,
    Help,
}

/// A historical bill found by the bill search; `M` carries its total.
#[derive(Clone, Debug)]
pub struct HistoricalBill<M> {
    pub id: u32,
    pub label: String,
    pub service: Service,
    pub customer_mobile: String,
    pub total: M,
    pub payment_mode: Option<crate::models::PaymentMode>,
    pub created_at: String,
}

/// The session state; `M` carries prices, rates and totals.
pub struct App<M> {
    pub items: Vec<MenuItem<M>>,
    /// All open orders (dine-in and take-out).
    pub orders: Vec<Order<M>>,
    /// Index into `orders` of the order being edited.
    pub active_order: usize,
    pub next_order_id: u32,
    pub next_takeout_id: u32,
    pub physical_tables: Vec<PhysicalTable>,
    pub areas: Vec<Area>,
    pub restaurant_name: String,
    pub restaurant_address: String,
    pub restaurant_contact: String,
    pub gst_number: String,
    /// AC surcharge rate frozen into orders seated in AC areas.
    pub ac_rate: M,
    /// The amount or rate that means "nothing" (no surcharge, no discount).
    pub no_charge: M,
    pub offers: Vec<Offer<M>>,
    pub upi_id: String,
    pub menu_index: usize,
    pub search: String,
    pub focus: Focus,
    pub selected_area_index: usize,
    pub selected_table_index: usize,
    /// Messages for the status line, oldest first, not yet shown.
    pub notifications: Vec<String>,
    /// Newest first, up to five completed bills.
    pub recent_bills: Vec<BillSummary<M>>,
    pub recent_bill_index: usize,
    /// Newest first, up to ten kitchen tickets.
    pub recent_kots: Vec<KotSummary>,
    pub recent_kot_index: usize,
    pub recent_tab: RecentTab,
    /// Panel to restore when a popup closes.
    pub focus_return: Focus,
    pub mobile_buffer: String,
    pub payment_mode_index: usize,
    /// Whether the payment popup closes the order (or only updates the bill).
    pub close_on_payment: bool,
    pub offer_index: usize,
    pub pending_mobile: String,
    pub show_help: bool,
    pub table_input: String,
    pub table_search_index: usize,
    pub bill_search_query: String,
    pub bill_search_results: Vec<HistoricalBill<M>>,
    pub bill_search_index: usize,
    pub item_note_buffer: String,
    pub table_move_target_index: usize,
    pub categories: Vec<String>,
    pub selected_category_index: usize,
    pub kds_kots: Vec<KotSummary>,
    pub kds_index: usize,
    pub printer_config: PrinterConfig,
    /// Whether a database backs the session.
    pub has_database: bool,
    pub pending_effects: Vec<AppEffect>,
}

// ---------------------------------------------------------------------------
// Text helpers
// ---------------------------------------------------------------------------

/// The first whitespace-separated word of `s`, if any.
pub open spec fn first_word(s: Seq<char>) -> Option<Seq<char>> {
    let rest = crate::text::trim_start_seq(s);
    if rest.len() == 0 {
        None
    } else {
        Some(rest.take(word_len(rest)))
    }
}

/// Length of the leading run of non-whitespace characters.
pub open spec fn word_len(s: Seq<char>) -> int
    decreases s.len(),
{
    if s.len() == 0 || is_white_space(s[0]) {
        0
    } else {
        1 + word_len(s.drop_first())
    }
}

pub proof fn lemma_word_len_bounds(s: Seq<char>)
    ensures
        0 <= word_len(s) <= s.len(),
    decreases s.len(),
{
    if s.len() > 0 && !is_white_space(s[0]) {
        lemma_word_len_bounds(s.drop_first());
    }
}

/// The label of a dine-in order: the area's first word (or "T"), "-T", the
/// table number.
pub open spec fn table_label(area: Seq<char>, number: nat) -> Seq<char> {
    let w = match first_word(area) {
        Some(w) => w,
        None => "T"@,
    };
    w + "-T"@ + decimal_seq(number)
}

/// The first whitespace-separated word of `s`, if any.
pub fn first_word_of(s: &str) -> (r: Option<String>)
    ensures
        match r {
            Some(w) => first_word(s@) == Some(w@),
            None => first_word(s@) is None,
        },
{
    let v = chars_of(s);
    let n = v.len();
    let mut start: usize = 0;
    assert(v@.subrange(0, n as int) =~= v@);
    while start < n && char_is_whitespace(v[start])
        invariant
            n == v.len(),
            start <= n,
            crate::text::trim_start_seq(v@) == crate::text::trim_start_seq(
                v@.subrange(start as int, n as int),
            ),
        decreases n - start,
    {
        assert(v@.subrange(start as int, n as int).drop_first() =~= v@.subrange(
            start + 1,
            n as int,
        ));
        start = start + 1;
    }
    let ghost rest = v@.subrange(start as int, n as int);
    assert(crate::text::trim_start_seq(rest) == rest);
    if start == n {
        return None;
    }
    let mut w: Vec<char> = Vec::new();
    let mut i: usize = start;
    while i < n && !char_is_whitespace(v[i])
        invariant
            n == v.len(),
            start <= i <= n,
            rest == v@.subrange(start as int, n as int),
            w@ == v@.subrange(start as int, i as int),
            forall|j: int| start <= j < i ==> !is_white_space(#[trigger] v@[j]),
            word_len(rest) == (i - start) + word_len(v@.subrange(i as int, n as int)),
        decreases n - i,
    {
        assert(v@.subrange(i as int, n as int).drop_first() =~= v@.subrange(i + 1, n as int));
        w.push(v[i]);
        i = i + 1;
        assert(w@ =~= v@.subrange(start as int, i as int));
    }
    proof {
        assert(word_len(v@.subrange(i as int, n as int)) == 0);
        assert(rest.take(word_len(rest)) =~= w@);
    }
    Some(string_of(&w))
}

/// The label of a dine-in order at table `number` of `area`.
pub fn make_table_label(area: &str, number: usize) -> (r: String)
    ensures
        r@ == table_label(area@, number as nat),
{
    let mut r = match first_word_of(area) {
        Some(w) => w,
        None => String::from_str("T"),
    };
    crate::text::push_str(&mut r, "-T");
    let d = crate::text::decimal(number as u64);
    crate::text::push_str(&mut r, d.as_str());
    r
}

// ---------------------------------------------------------------------------
// Session invariants and lookups
// ---------------------------------------------------------------------------

impl<M> App<M> {
    /// The active order index points into the open orders whenever there is
    /// one, and the table cursor has a table number.
    pub open spec fn wf(&self) -> bool {
        &&& self.orders@.len() > 0 ==> self.active_order < self.orders@.len()
        &&& self.selected_table_index < usize::MAX
    }

    /// The texts of the queued status-line messages.
    pub open spec fn notes(&self) -> Seq<Seq<char>> {
        self.notifications@.map_values(|s: String| s@)
    }

    /// The active order.
    pub open spec fn active(&self) -> Order<M> {
        self.orders@[self.active_order as int]
    }

    /// Name of the selected dining area (empty when there is none).
    pub open spec fn spec_selected_area_name(&self) -> Seq<char> {
        if self.selected_area_index < self.areas@.len() {
            self.areas@[self.selected_area_index as int].name@
        } else {
            Seq::empty()
        }
    }

    /// The table number the cursor is on.
    pub open spec fn selected_number(&self) -> nat {
        (self.selected_table_index + 1) as nat
    }

    /// Index of the dine-in order seated at the selected table.
    pub open spec fn selected_order_index(&self) -> Option<int> {
        first_index(self.orders@, seated_at(self.spec_selected_area_name(), self.selected_number()))
    }

    /// Index of the physical table under the cursor.
    pub open spec fn selected_table_slot(&self) -> Option<int> {
        first_index(self.physical_tables@, at_slot(self.spec_selected_area_name(), self.selected_number()))
    }

    /// The selected dining area.
    pub fn selected_area(&self) -> (r: Option<&Area>)
        ensures
            match r {
                Some(a) => self.selected_area_index < self.areas@.len() && *a
                    == self.areas@[self.selected_area_index as int],
                None => self.selected_area_index >= self.areas@.len(),
            },
    {
        if self.selected_area_index < self.areas.len() {
            Some(&self.areas[self.selected_area_index])
        } else {
            None
        }
    }

    /// Name of the selected dining area, empty when none is selected.
    pub fn selected_area_name(&self) -> (r: String)
        ensures
            r@ == self.spec_selected_area_name(),
    {
        match self.selected_area() {
            Some(a) => a.name.clone(),
            None => String::new(),
        }
    }

    /// The physical table under the cursor.
    pub fn selected_physical_table(&self) -> (r: Option<&PhysicalTable>)
        ensures
            match self.selected_table_slot() {
                Some(i) => r == Some(&self.physical_tables@[i]),
                None => r is None,
            },
    {
        if self.selected_table_index >= usize::MAX {
            proof {
                crate::seqs::lemma_first_index(
                    self.physical_tables@,
                    at_slot(self.spec_selected_area_name(), self.selected_number()),
                );
            }
            assert(self.selected_table_slot() is None) by {
                crate::seqs::lemma_first_index_none(
                    self.physical_tables@,
                    at_slot(self.spec_selected_area_name(), self.selected_number()),
                );
            }
            return None;
        }
        let area = self.selected_area_name();
        match crate::tables::find_table(&self.physical_tables, area.as_str(), self.selected_table_index + 1) {
            Some(i) => Some(&self.physical_tables[i]),
            None => None,
        }
    }

    /// The dine-in order seated at the selected table.
    pub fn selected_table_order(&self) -> (r: Option<&Order<M>>)
        ensures
            match self.selected_order_index() {
                Some(i) => r == Some(&self.orders@[i]),
                None => r is None,
            },
    {
        if self.selected_table_index >= usize::MAX {
            assert(self.selected_order_index() is None) by {
                assert forall|j: int| 0 <= j < self.orders@.len() implies !(seated_at::<M>(
                    self.spec_selected_area_name(),
                    self.selected_number(),
                ))(#[trigger] self.orders@[j]) by {}
                crate::seqs::lemma_first_index_none(
                    self.orders@,
                    seated_at::<M>(self.spec_selected_area_name(), self.selected_number()),
                );
            }
            return None;
        }
        let area = self.selected_area_name();
        match crate::tables::find_order_at_table(&self.orders, area.as_str(), self.selected_table_index + 1) {
            Some(i) => Some(&self.orders[i]),
            None => None,
        }
    }

    /// The active order.
    pub fn order(&self) -> (r: &Order<M>)
        requires
            self.active_order < self.orders@.len(),
        ensures
            *r == self.active(),
    {
        &self.orders[self.active_order]
    }

    /// Queues a message for the status line.
    pub fn notify(&mut self, msg: String)
        ensures
            final(self).notifications@ == old(self).notifications@.push(msg),
            final(self).notes() == old(self).notes().push(msg@),
            *final(self) == (App { notifications: final(self).notifications, ..*old(self) }),
    {
        self.notifications.push(msg);
        assert(self.notes() =~= old(self).notes().push(msg@));
    }

    /// Takes the queued status-line messages, oldest first.
    pub fn drain_notifications(&mut self) -> (r: Vec<String>)
        ensures
            r@ == old(self).notifications@,
            final(self).notifications@.len() == 0,
            *final(self) == (App { notifications: final(self).notifications, ..*old(self) }),
    {
        let mut taken: Vec<String> = Vec::new();
        std::mem::swap(&mut taken, &mut self.notifications);
        taken
    }

    /// Pushes an effect for the caller to perform.
    pub fn queue_effect(&mut self, effect: AppEffect)
        ensures
            final(self).pending_effects@ == old(self).pending_effects@.push(effect),
            *final(self) == (App { pending_effects: final(self).pending_effects, ..*old(self) }),
    {
        self.pending_effects.push(effect);
    }

    /// Takes all pending effects, oldest first.
    pub fn drain_effects(&mut self) -> (r: Vec<AppEffect>)
        ensures
            r@ == old(self).pending_effects@,
            final(self).pending_effects@.len() == 0,
            *final(self) == (App { pending_effects: final(self).pending_effects, ..*old(self) }),
    {
        let mut taken: Vec<AppEffect> = Vec::new();
        std::mem::swap(&mut taken, &mut self.pending_effects);
        taken
    }

    /// The popup currently shown: help wins over the focused popup.
    pub fn active_modal(&self) -> (r: ModalState)
        ensures
            self.show_help ==> r is Help,
            !self.show_help ==> match self.focus {
                Focus::MobileEntry => r matches ModalState::MobileEntry { buffer } && buffer@
                    == self.mobile_buffer@,
                Focus::PaymentMode => r matches ModalState::PaymentMode { index, close_on_payment }
                    && index == self.payment_mode_index && close_on_payment == self.close_on_payment,
                Focus::OfferSelect => r matches ModalState::OfferSelect { index } && index
                    == self.offer_index,
                Focus::TableJump => r matches ModalState::TableJump { query, index } && query@
                    == self.table_input@ && index == self.table_search_index,
                Focus::TableMove => r matches ModalState::TableMove { target_index } && target_index
                    == self.table_move_target_index,
                Focus::ItemNote => r matches ModalState::ItemNote { buffer } && buffer@
                    == self.item_note_buffer@,
                Focus::BillSearch => r matches ModalState::BillSearch { query, index } && query@
                    == self.bill_search_query@ && index == self.bill_search_index,
                Focus::DailyReport => r is DailyReport,
                Focus::KitchenDisplay => r matches ModalState::KitchenDisplay { index } && index
                    == self.kds_index,
                Focus::Analytics => r is SalesAnalytics,
                _ => r is NoModal,
            },
    {
        if self.show_help {
            return ModalState::Help;
        }
        match self.focus {
            Focus::MobileEntry => ModalState::MobileEntry { buffer: self.mobile_buffer.clone() },
            Focus::PaymentMode => ModalState::PaymentMode {
                index: self.payment_mode_index,
                close_on_payment: self.close_on_payment,
            },
            Focus::OfferSelect => ModalState::OfferSelect { index: self.offer_index },
            Focus::TableJump => ModalState::TableJump {
                query: self.table_input.clone(),
                index: self.table_search_index,
            },
            Focus::TableMove => ModalState::TableMove { target_index: self.table_move_target_index },
            Focus::ItemNote => ModalState::ItemNote { buffer: self.item_note_buffer.clone() },
            Focus::BillSearch => ModalState::BillSearch {
                query: self.bill_search_query.clone(),
                index: self.bill_search_index,
            },
            Focus::DailyReport => ModalState::DailyReport,
            Focus::KitchenDisplay => ModalState::KitchenDisplay { index: self.kds_index },
            Focus::Analytics => ModalState::SalesAnalytics,
            _ => ModalState::NoModal,
        }
    }

    /// Closes any popup: clears its buffers and returns focus to the panel
    /// that opened it.
    pub fn close_active_modal(&mut self)
        ensures
            *final(self) == (App {
                show_help: false,
                mobile_buffer: final(self).mobile_buffer,
                item_note_buffer: final(self).item_note_buffer,
                table_input: final(self).table_input,
                focus: old(self).focus_return,
                ..*old(self)
            }),
            final(self).mobile_buffer@.len() == 0,
            final(self).item_note_buffer@.len() == 0,
            final(self).table_input@.len() == 0,
    {
        self.show_help = false;
        self.mobile_buffer = String::new();
        self.item_note_buffer = String::new();
        self.table_input = String::new();
        self.focus = self.focus_return;
    }

    /// Jumps to a numbered box: 1 tables, 2 table jump, 3 menu search,
    /// 4 menu, 5 bill, 6 recent bills, 7 kitchen tickets; other numbers do nothing.
    pub fn switch_to_box(&mut self, box_num: u8)
        ensures
            box_num == 1 ==> *final(self) == (App { focus: Focus::Tables, ..*old(self) }),
            box_num == 2 ==> *final(self) == (App {
                focus: Focus::TableJump,
                table_input: final(self).table_input,
                table_search_index: 0,
                ..*old(self)
            }) && final(self).table_input@.len() == 0,
            box_num == 3 ==> *final(self) == (App { focus: Focus::Search, ..*old(self) }),
            box_num == 4 ==> *final(self) == (App { focus: Focus::Menu, ..*old(self) }),
            box_num == 5 ==> *final(self) == (App { focus: Focus::Cart, ..*old(self) }),
            box_num == 6 ==> *final(self) == (App {
                focus: Focus::RecentBills,
                recent_tab: RecentTab::Bills,
                ..*old(self)
            }),
            box_num == 7 ==> *final(self) == (App {
                focus: Focus::RecentBills,
                recent_tab: RecentTab::Kots,
                ..*old(self)
            }),
            (box_num == 0 || box_num > 7) ==> *final(self) == *old(self),
    {
        match box_num {
            1 => {
                self.focus = Focus::Tables;
            },
            2 => {
                self.focus = Focus::TableJump;
                self.table_input = String::new();
                self.table_search_index = 0;
            },
            3 => {
                self.focus = Focus::Search;
            },
            4 => {
                self.focus = Focus::Menu;
            },
            5 => {
                self.focus = Focus::Cart;
            },
            6 => {
                self.focus = Focus::RecentBills;
                self.recent_tab = RecentTab::Bills;
            },
            7 => {
                self.focus = Focus::RecentBills;
                self.recent_tab = RecentTab::Kots;
            },
            _ => {},
        }
    }
}

} // verus!
