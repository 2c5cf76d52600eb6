//! Core domain types: menu items, cart lines, orders, dining areas and tables.
//!
//! Amounts of money and rates are carried by a type parameter `M`; the
//! library moves them around but never computes with them, so the arithmetic
//! on prices stays with the caller's number type.
use vstd::prelude::*;

use crate::text::str_eq;

verus! {

/// Minutes a table stays in the Cleaning state before it becomes Ready again.
pub const CLEANING_MINUTES: i64 = 10;

/// Seconds in the cleaning window.
pub const CLEANING_SECONDS: i64 = 600;

/// The view of an optional string.
pub open spec fn opt_view(o: Option<String>) -> Option<Seq<char>> {
    match o {
        Some(s) => Some(s@),
        None => None,
    }
}

// ---------------------------------------------------------------------------
// Service
// ---------------------------------------------------------------------------

#[derive(PartialEq, Eq, Structural, Clone, Copy, Debug)]
pub enum Service {
    DineIn,
    TakeOut,
}

impl Service {
    pub open spec fn spec_label(self) -> Seq<char> {
        match self {
            Service::DineIn => "DINE-IN"@,
            Service::TakeOut => "TAKE-OUT"@,
        }
    }

    pub open spec fn spec_parse(raw: Seq<char>) -> Option<Service> {
        if raw == "TAKE-OUT"@ {
            Some(Service::TakeOut)
        } else if raw == "DINE-IN"@ {
            Some(Service::DineIn)
        } else {
            None
        }
    }

    /// The label stored in the database and printed on receipts.
    pub fn label(self) -> (r: &'static str)
        ensures
            r@ == self.spec_label(),
    {
        match self {
            Service::DineIn => "DINE-IN",
            Service::TakeOut => "TAKE-OUT",
        }
    }

    /// Reads a service back from its label.
    pub fn parse(raw: &str) -> (r: Option<Service>)
        ensures
            r == Service::spec_parse(raw@),
    {
        if str_eq(raw, "TAKE-OUT") {
            Some(Service::TakeOut)
        } else if str_eq(raw, "DINE-IN") {
            Some(Service::DineIn)
        } else {
            None
        }
    }
}

/// Reading back the label of a service gives that service.
pub proof fn lemma_service_label_roundtrip(s: Service)
    ensures
        Service::spec_parse(s.spec_label()) == Some(s),
{
    reveal_strlit("TAKE-OUT");
    reveal_strlit("DINE-IN");
    if s == Service::DineIn {
        assert("DINE-IN"@.len() != "TAKE-OUT"@.len());
    }
}

// ---------------------------------------------------------------------------
// PaymentMode
// ---------------------------------------------------------------------------

/// How the bill was settled, captured in the payment confirmation popup.
#[derive(PartialEq, Eq, Structural, Clone, Copy, Debug)]
pub enum PaymentMode {
    Cash,
    Upi,
    Card,
    PersonCredit,
    HaveItOnHotel,
}

/// Every payment mode, in the order in which the payment popup lists them.
pub open spec fn all_payment_modes() -> Seq<PaymentMode> {
    seq![
        PaymentMode::Cash,
        PaymentMode::Upi,
        PaymentMode::Card,
        PaymentMode::PersonCredit,
        PaymentMode::HaveItOnHotel,
    ]
}

impl PaymentMode {
    pub open spec fn spec_label(self) -> Seq<char> {
        match self {
            PaymentMode::Cash => "CASH"@,
            PaymentMode::Upi => "UPI"@,
            PaymentMode::Card => "CARD"@,
            PaymentMode::PersonCredit => "PERSON_CREDIT"@,
            PaymentMode::HaveItOnHotel => "HAVE_IT_ON_HOTEL"@,
        }
    }

    pub open spec fn spec_display(self) -> Seq<char> {
        match self {
            PaymentMode::Cash => "Cash"@,
            PaymentMode::Upi => "UPI"@,
            PaymentMode::Card => "Card"@,
            PaymentMode::PersonCredit => "Person credit"@,
            PaymentMode::HaveItOnHotel => "Have it on hotel"@,
        }
    }

    /// The display name in capitals, as the bill heading shows it.
    pub open spec fn spec_display_upper(self) -> Seq<char> {
        match self {
            PaymentMode::Cash => "CASH"@,
            PaymentMode::Upi => "UPI"@,
            PaymentMode::Card => "CARD"@,
            PaymentMode::PersonCredit => "PERSON CREDIT"@,
            PaymentMode::HaveItOnHotel => "HAVE IT ON HOTEL"@,
        }
    }

    /// The first mode in `all_payment_modes()` whose label is `raw`.
    pub open spec fn spec_parse(raw: Seq<char>) -> Option<PaymentMode> {
        if raw == "CASH"@ {
            Some(PaymentMode::Cash)
        } else if raw == "UPI"@ {
            Some(PaymentMode::Upi)
        } else if raw == "CARD"@ {
            Some(PaymentMode::Card)
        } else if raw == "PERSON_CREDIT"@ {
            Some(PaymentMode::PersonCredit)
        } else if raw == "HAVE_IT_ON_HOTEL"@ {
            Some(PaymentMode::HaveItOnHotel)
        } else {
            None
        }
    }

    /// Position of the mode in `all()`.
    pub open spec fn spec_index(self) -> nat {
        match self {
            PaymentMode::Cash => 0,
            PaymentMode::Upi => 1,
            PaymentMode::Card => 2,
            PaymentMode::PersonCredit => 3,
            PaymentMode::HaveItOnHotel => 4,
        }
    }

    pub fn all() -> (r: [PaymentMode; 5])
        ensures
            r@ == all_payment_modes(),
    {
        let r = [
            PaymentMode::Cash,
            PaymentMode::Upi,
            PaymentMode::Card,
            PaymentMode::PersonCredit,
            PaymentMode::HaveItOnHotel,
        ];
        assert(r@ =~= all_payment_modes());
        r
    }

    /// Stable identifier stored in the database and printed on receipts.
    pub fn label(self) -> (r: &'static str)
        ensures
            r@ == self.spec_label(),
    {
        match self {
            PaymentMode::Cash => "CASH",
            PaymentMode::Upi => "UPI",
            PaymentMode::Card => "CARD",
            PaymentMode::PersonCredit => "PERSON_CREDIT",
            PaymentMode::HaveItOnHotel => "HAVE_IT_ON_HOTEL",
        }
    }

    /// Human-readable name shown in popups and notifications.
    pub fn display(self) -> (r: &'static str)
        ensures
            r@ == self.spec_display(),
    {
        match self {
            PaymentMode::Cash => "Cash",
            PaymentMode::Upi => "UPI",
            PaymentMode::Card => "Card",
            PaymentMode::PersonCredit => "Person credit",
            PaymentMode::HaveItOnHotel => "Have it on hotel",
        }
    }

    /// The display name in capitals.
    pub fn display_upper(self) -> (r: &'static str)
        ensures
            r@ == self.spec_display_upper(),
    {
        match self {
            PaymentMode::Cash => "CASH",
            PaymentMode::Upi => "UPI",
            PaymentMode::Card => "CARD",
            PaymentMode::PersonCredit => "PERSON CREDIT",
            PaymentMode::HaveItOnHotel => "HAVE IT ON HOTEL",
        }
    }

    /// Reads a mode back from its stored label.
    pub fn parse(raw: &str) -> (r: Option<PaymentMode>)
        ensures
            r == PaymentMode::spec_parse(raw@),
    {
        let modes = PaymentMode::all();
        let mut i: usize = 0;
        while i < 5
            invariant
                modes@ == all_payment_modes(),
                i <= 5,
                forall|j: int| 0 <= j < i ==> modes@[j].spec_label() != raw@,
            decreases 5 - i,
        {
            if str_eq(modes[i].label(), raw) {
                proof {
                    lemma_payment_parse_first_match(raw@, i as int);
                }
                return Some(modes[i]);
            }
            i = i + 1;
        }
        proof {
            lemma_payment_parse_none(raw@);
        }
        None
    }

    /// Position of the mode in `all()`.
    pub fn index(self) -> (r: usize)
        ensures
            r == self.spec_index(),
            all_payment_modes()[r as int] == self,
    {
        match self {
            PaymentMode::Cash => 0,
            PaymentMode::Upi => 1,
            PaymentMode::Card => 2,
            PaymentMode::PersonCredit => 3,
            PaymentMode::HaveItOnHotel => 4,
        }
    }
}

proof fn lemma_payment_parse_first_match(raw: Seq<char>, i: int)
    requires
        0 <= i < 5,
        all_payment_modes()[i].spec_label() == raw,
        forall|j: int| 0 <= j < i ==> all_payment_modes()[j].spec_label() != raw,
    ensures
        PaymentMode::spec_parse(raw) == Some(all_payment_modes()[i]),
{
    assert(all_payment_modes()[0] == PaymentMode::Cash);
    assert(all_payment_modes()[1] == PaymentMode::Upi);
    assert(all_payment_modes()[2] == PaymentMode::Card);
    assert(all_payment_modes()[3] == PaymentMode::PersonCredit);
    assert(all_payment_modes()[4] == PaymentMode::HaveItOnHotel);
}

proof fn lemma_payment_parse_none(raw: Seq<char>)
    requires
        forall|j: int| 0 <= j < 5 ==> all_payment_modes()[j].spec_label() != raw,
    ensures
        PaymentMode::spec_parse(raw) is None,
{
    assert(all_payment_modes()[0].spec_label() != raw);
    assert(all_payment_modes()[1].spec_label() != raw);
    assert(all_payment_modes()[2].spec_label() != raw);
    assert(all_payment_modes()[3].spec_label() != raw);
    assert(all_payment_modes()[4].spec_label() != raw);
}

/// Reading back the stored label of a payment mode gives that mode.
pub proof fn lemma_payment_mode_label_roundtrip(m: PaymentMode)
    ensures
        PaymentMode::spec_parse(m.spec_label()) == Some(m),
{
    reveal_strlit("CASH");
    reveal_strlit("UPI");
    reveal_strlit("CARD");
    reveal_strlit("PERSON_CREDIT");
    reveal_strlit("HAVE_IT_ON_HOTEL");
    assert("UPI"@.len() != "CASH"@.len());
    assert("CARD"@[2] != "CASH"@[2]);
    assert("PERSON_CREDIT"@.len() != "CASH"@.len());
    assert("HAVE_IT_ON_HOTEL"@.len() != "CASH"@.len());
    assert("CARD"@.len() != "UPI"@.len());
    assert("PERSON_CREDIT"@.len() != "UPI"@.len());
    assert("HAVE_IT_ON_HOTEL"@.len() != "UPI"@.len());
    assert("PERSON_CREDIT"@.len() != "CARD"@.len());
    assert("HAVE_IT_ON_HOTEL"@.len() != "CARD"@.len());
    assert("HAVE_IT_ON_HOTEL"@.len() != "PERSON_CREDIT"@.len());
}

/// The payment modes are five distinct values and `index` finds each of them.
pub proof fn lemma_payment_modes_distinct()
    ensures
        all_payment_modes().len() == 5,
        forall|i: int, j: int| 0 <= i < j < 5 ==> all_payment_modes()[i] != all_payment_modes()[j],
        forall|m: PaymentMode| #[trigger] all_payment_modes()[m.spec_index() as int] == m,
{
}

// ---------------------------------------------------------------------------
// Focus and panels
// ---------------------------------------------------------------------------

/// The panel or popup that receives key presses.
#[derive(PartialEq, Eq, Structural, Clone, Copy, Debug)]
pub enum Focus {
    Search,
    Menu,
    Cart,
    Tables,
    RecentBills,
    /// Modal capture of the customer mobile number during billing.
    MobileEntry,
    /// Modal confirmation of the mode of payment during billing.
    PaymentMode,
    /// Modal selection of a discount offer to apply at billing.
    OfferSelect,
    TableJump,
    DailyReport,
    BillSearch,
    UpiQr,
    TableMove,
    ItemNote,
    KitchenDisplay,
    Analytics,
}

/// Which box of the recent panel is active.
#[derive(PartialEq, Eq, Structural, Clone, Copy, Debug)]
pub enum RecentTab {
    Bills,
    Kots,
}

// ---------------------------------------------------------------------------
// OrderStatus and TableStatus
// ---------------------------------------------------------------------------

#[derive(PartialEq, Eq, Structural, Clone, Copy, Debug)]
pub enum OrderStatus {
    TakingOrder,
    Serving,
    BillRequested,
    Paid,
}

#[derive(PartialEq, Eq, Structural, Clone, Copy, Debug)]
pub enum TableStatus {
    Ready,
    TakingOrder,
    Serving,
    BillRequested,
    Paid,
    Dirty,
}

impl OrderStatus {
    pub open spec fn spec_advance(self) -> Option<OrderStatus> {
        match self {
            OrderStatus::TakingOrder => Some(OrderStatus::Serving),
            OrderStatus::Serving => Some(OrderStatus::BillRequested),
            OrderStatus::BillRequested => None,
            OrderStatus::Paid => None,
        }
    }

    pub open spec fn spec_table_status(self) -> TableStatus {
        match self {
            OrderStatus::TakingOrder => TableStatus::TakingOrder,
            OrderStatus::Serving => TableStatus::Serving,
            OrderStatus::BillRequested => TableStatus::BillRequested,
            OrderStatus::Paid => TableStatus::Paid,
        }
    }

    pub open spec fn spec_label(self) -> Seq<char> {
        match self {
            OrderStatus::TakingOrder => "ORDERING"@,
            OrderStatus::Serving => "SERVING"@,
            OrderStatus::BillRequested => "BILL_REQUESTED"@,
            OrderStatus::Paid => "PAID"@,
        }
    }

    pub open spec fn spec_parse(raw: Seq<char>) -> Option<OrderStatus> {
        if raw == "ORDERING"@ {
            Some(OrderStatus::TakingOrder)
        } else if raw == "SERVING"@ {
            Some(OrderStatus::Serving)
        } else if raw == "BILL_REQUESTED"@ {
            Some(OrderStatus::BillRequested)
        } else if raw == "PAID"@ {
            Some(OrderStatus::Paid)
        } else {
            None
        }
    }

    /// Next stage of the dine-in lifecycle:
    /// Taking order → Serving → Ready-for-bill. Paid is terminal.
    pub fn advance(self) -> (r: Option<OrderStatus>)
        ensures
            r == self.spec_advance(),
    {
        match self {
            OrderStatus::TakingOrder => Some(OrderStatus::Serving),
            OrderStatus::Serving => Some(OrderStatus::BillRequested),
            OrderStatus::BillRequested => None,
            OrderStatus::Paid => None,
        }
    }

    /// The physical-table state that mirrors this order stage.
    pub fn table_status(self) -> (r: TableStatus)
        ensures
            r == self.spec_table_status(),
    {
        match self {
            OrderStatus::TakingOrder => TableStatus::TakingOrder,
            OrderStatus::Serving => TableStatus::Serving,
            OrderStatus::BillRequested => TableStatus::BillRequested,
            OrderStatus::Paid => TableStatus::Paid,
        }
    }

    pub fn label(self) -> (r: &'static str)
        ensures
            r@ == self.spec_label(),
    {
        match self {
            OrderStatus::TakingOrder => "ORDERING",
            OrderStatus::Serving => "SERVING",
            OrderStatus::BillRequested => "BILL_REQUESTED",
            OrderStatus::Paid => "PAID",
        }
    }

    pub fn parse(raw: &str) -> (r: Option<OrderStatus>)
        ensures
            r == OrderStatus::spec_parse(raw@),
    {
        if str_eq(raw, "ORDERING") {
            Some(OrderStatus::TakingOrder)
        } else if str_eq(raw, "SERVING") {
            Some(OrderStatus::Serving)
        } else if str_eq(raw, "BILL_REQUESTED") {
            Some(OrderStatus::BillRequested)
        } else if str_eq(raw, "PAID") {
            Some(OrderStatus::Paid)
        } else {
            None
        }
    }
}

/// Advancing never reaches or leaves `Paid`, and every stage that advances
/// goes strictly forward: an order can be advanced at most twice in a row.
pub proof fn lemma_advance_moves_forward(s: OrderStatus)
    ensures
        s.spec_advance() is Some ==> s != OrderStatus::Paid
            && s.spec_advance()->0 != OrderStatus::Paid
            && s.spec_advance()->0 != OrderStatus::TakingOrder
            && s.spec_advance()->0 != s,
        s.spec_advance() is Some && s.spec_advance()->0.spec_advance() is Some
            ==> s.spec_advance()->0.spec_advance()->0.spec_advance() is None,
{
}

/// Reading back the label of an order stage gives that stage.
pub proof fn lemma_order_status_label_roundtrip(s: OrderStatus)
    ensures
        OrderStatus::spec_parse(s.spec_label()) == Some(s),
{
    reveal_strlit("ORDERING");
    reveal_strlit("SERVING");
    reveal_strlit("BILL_REQUESTED");
    reveal_strlit("PAID");
    assert("SERVING"@.len() != "ORDERING"@.len());
    assert("BILL_REQUESTED"@.len() != "ORDERING"@.len());
    assert("PAID"@.len() != "ORDERING"@.len());
    assert("BILL_REQUESTED"@.len() != "SERVING"@.len());
    assert("PAID"@.len() != "SERVING"@.len());
    assert("PAID"@.len() != "BILL_REQUESTED"@.len());
}

/// An order stage and the table state that mirrors it carry the same label.
pub proof fn lemma_table_status_mirrors_order_label(s: OrderStatus)
    ensures
        s.spec_table_status().spec_label() == s.spec_label(),
{
}

impl TableStatus {
    pub open spec fn spec_label(self) -> Seq<char> {
        match self {
            TableStatus::Ready => "READY"@,
            TableStatus::TakingOrder => "ORDERING"@,
            TableStatus::Serving => "SERVING"@,
            TableStatus::BillRequested => "BILL_REQUESTED"@,
            TableStatus::Paid => "PAID"@,
            TableStatus::Dirty => "CLEANING"@,
        }
    }

    pub open spec fn spec_title(self) -> Seq<char> {
        match self {
            TableStatus::Ready => "Ready"@,
            TableStatus::TakingOrder => "Taking order"@,
            TableStatus::Serving => "Serving"@,
            TableStatus::BillRequested => "Ready for bill"@,
            TableStatus::Paid => "Bill paid"@,
            TableStatus::Dirty => "Cleaning"@,
        }
    }

    pub open spec fn spec_parse(raw: Seq<char>) -> Option<TableStatus> {
        if raw == "READY"@ {
            Some(TableStatus::Ready)
        } else if raw == "ORDERING"@ {
            Some(TableStatus::TakingOrder)
        } else if raw == "SERVING"@ {
            Some(TableStatus::Serving)
        } else if raw == "BILL_REQUESTED"@ {
            Some(TableStatus::BillRequested)
        } else if raw == "PAID"@ {
            Some(TableStatus::Paid)
        } else if raw == "CLEANING"@ {
            Some(TableStatus::Dirty)
        } else {
            None
        }
    }

    pub fn label(self) -> (r: &'static str)
        ensures
            r@ == self.spec_label(),
    {
        match self {
            TableStatus::Ready => "READY",
            TableStatus::TakingOrder => "ORDERING",
            TableStatus::Serving => "SERVING",
            TableStatus::BillRequested => "BILL_REQUESTED",
            TableStatus::Paid => "PAID",
            TableStatus::Dirty => "CLEANING",
        }
    }

    pub fn parse(raw: &str) -> (r: Option<TableStatus>)
        ensures
            r == TableStatus::spec_parse(raw@),
    {
        if str_eq(raw, "READY") {
            Some(TableStatus::Ready)
        } else if str_eq(raw, "ORDERING") {
            Some(TableStatus::TakingOrder)
        } else if str_eq(raw, "SERVING") {
            Some(TableStatus::Serving)
        } else if str_eq(raw, "BILL_REQUESTED") {
            Some(TableStatus::BillRequested)
        } else if str_eq(raw, "PAID") {
            Some(TableStatus::Paid)
        } else if str_eq(raw, "CLEANING") {
            Some(TableStatus::Dirty)
        } else {
            None
        }
    }

    pub fn title(self) -> (r: &'static str)
        ensures
            r@ == self.spec_title(),
    {
        match self {
            TableStatus::Ready => "Ready",
            TableStatus::TakingOrder => "Taking order",
            TableStatus::Serving => "Serving",
            TableStatus::BillRequested => "Ready for bill",
            TableStatus::Paid => "Bill paid",
            TableStatus::Dirty => "Cleaning",
        }
    }
}

/// Reading back the label of a table state gives that state.
pub proof fn lemma_table_status_label_roundtrip(s: TableStatus)
    ensures
        TableStatus::spec_parse(s.spec_label()) == Some(s),
{
    reveal_strlit("READY");
    reveal_strlit("ORDERING");
    reveal_strlit("SERVING");
    reveal_strlit("BILL_REQUESTED");
    reveal_strlit("PAID");
    reveal_strlit("CLEANING");
    assert("ORDERING"@[0] != "READY"@[0]);
    assert("SERVING"@[0] != "READY"@[0]);
    assert("BILL_REQUESTED"@[0] != "READY"@[0]);
    assert("PAID"@[0] != "READY"@[0]);
    assert("CLEANING"@[0] != "READY"@[0]);
    assert("SERVING"@.len() != "ORDERING"@.len());
    assert("BILL_REQUESTED"@.len() != "ORDERING"@.len());
    assert("PAID"@.len() != "ORDERING"@.len());
    assert("CLEANING"@[0] != "ORDERING"@[0]);
    assert("BILL_REQUESTED"@.len() != "SERVING"@.len());
    assert("PAID"@.len() != "SERVING"@.len());
    assert("CLEANING"@.len() != "SERVING"@.len());
    assert("PAID"@.len() != "BILL_REQUESTED"@.len());
    assert("CLEANING"@.len() != "BILL_REQUESTED"@.len());
    assert("CLEANING"@.len() != "PAID"@.len());
}

// ---------------------------------------------------------------------------
// Areas and physical tables
// ---------------------------------------------------------------------------

/// A configurable dining area (e.g. First Floor, Ground Floor, Serve in Cars).
/// Each area has its own table count and an `is_ac` flag that triggers the
/// AC surcharge and 5% GST.
#[derive(Clone, Debug)]
pub struct Area {
    pub name: String,
    pub is_ac: bool,
    pub table_count: usize,
}

/// The seed layout of dining areas.
pub open spec fn default_area_specs() -> Seq<(Seq<char>, bool, nat)> {
    seq![
        ("Main Hall"@, false, 8nat),
        ("AC Dining"@, true, 6nat),
        ("Family Section"@, true, 4nat),
        ("Garden"@, false, 6nat),
    ]
}

impl Area {
    pub open spec fn spec_key(self) -> (Seq<char>, bool, nat) {
        (self.name@, self.is_ac, self.table_count as nat)
    }

    pub fn new(name: &str, is_ac: bool, table_count: usize) -> (a: Area)
        ensures
            a.name@ == name@,
            a.is_ac == is_ac,
            a.table_count == table_count,
    {
        Area { name: String::from_str(name), is_ac, table_count }
    }

    /// Seed layout used when no area configuration exists yet.
    pub fn defaults() -> (r: Vec<Area>)
        ensures
            r@.len() == 4,
            forall|i: int| 0 <= i < 4 ==> #[trigger] r@[i].spec_key() == default_area_specs()[i],
    {
        let mut r: Vec<Area> = Vec::new();
        r.push(Area::new("Main Hall", false, 8));
        r.push(Area::new("AC Dining", true, 6));
        r.push(Area::new("Family Section", true, 4));
        r.push(Area::new("Garden", false, 6));
        r
    }
}

/// The seed layout seats 24 tables, 10 of them in air-conditioned areas.
pub proof fn lemma_default_areas_capacity()
    ensures
        default_area_specs()[0].2 + default_area_specs()[1].2 + default_area_specs()[2].2
            + default_area_specs()[3].2 == 24,
        default_area_specs()[1].0 == "AC Dining"@ && default_area_specs()[1].1
            && default_area_specs()[1].2 == 6,
{
}

/// One physical table of a dining area and its lifecycle state.
#[derive(Clone, Debug)]
pub struct PhysicalTable {
    pub number: usize,
    pub area: String,
    pub status: TableStatus,
    pub order_id: Option<u32>,
    /// When the bill was closed and cleaning started (seconds since the Unix
    /// epoch); drives the automatic return to Ready.
    pub dirty_since: Option<i64>,
}

impl PhysicalTable {
    pub fn ready(area: &str, number: usize) -> (t: PhysicalTable)
        ensures
            t.number == number,
            t.area@ == area@,
            t.status == TableStatus::Ready,
            t.order_id is None,
            t.dirty_since is None,
    {
        PhysicalTable {
            number,
            area: String::from_str(area),
            status: TableStatus::Ready,
            order_id: None,
            dirty_since: None,
        }
    }
}

// ---------------------------------------------------------------------------
// Menu, cart and orders
// ---------------------------------------------------------------------------

/// An item of the menu catalogue; `M` carries its price.
#[derive(Clone, Debug)]
pub struct MenuItem<M> {
    pub category: String,
    pub name: String,
    pub unit: String,
    pub price: M,
    pub is_available: bool,
}

impl<M> MenuItem<M> {
    pub fn new(category: &str, name: &str, unit: &str, price: M) -> (it: MenuItem<M>)
        ensures
            it.category@ == category@,
            it.name@ == name@,
            it.unit@ == unit@,
            it.price == price,
            it.is_available,
    {
        MenuItem {
            category: String::from_str(category),
            name: String::from_str(name),
            unit: String::from_str(unit),
            price,
            is_available: true,
        }
    }
}

/// One line of an order's cart; `M` carries its unit price.
#[derive(Clone, Debug)]
pub struct CartLine<M> {
    pub name: String,
    pub unit_price: M,
    pub qty: u32,
    pub note: Option<String>,
    /// How much of `qty` has already been sent to the kitchen.
    pub kot_sent_qty: u32,
}

/// What the logic reads of a cart line.
pub struct CartLineView<M> {
    pub name: Seq<char>,
    pub unit_price: M,
    pub qty: nat,
    pub note: Option<Seq<char>>,
    pub kot_sent_qty: nat,
}

impl<M> View for CartLine<M> {
    type V = CartLineView<M>;

    open spec fn view(&self) -> CartLineView<M> {
        CartLineView {
            name: self.name@,
            unit_price: self.unit_price,
            qty: self.qty as nat,
            note: opt_view(self.note),
            kot_sent_qty: self.kot_sent_qty as nat,
        }
    }
}

impl<M> CartLine<M> {
    pub fn new(name: &str, unit_price: M, qty: u32) -> (l: CartLine<M>)
        ensures
            l@ == (CartLineView { name: name@, unit_price, qty: qty as nat, note: None, kot_sent_qty: 0 }),
    {
        CartLine { name: String::from_str(name), unit_price, qty, note: None, kot_sent_qty: 0 }
    }
}

/// The views of a sequence of cart lines.
pub open spec fn lines_view<M>(s: Seq<CartLine<M>>) -> Seq<CartLineView<M>> {
    s.map_values(|l: CartLine<M>| l@)
}

/// A discount offer applied at billing time; `M` carries its percentage.
#[derive(Clone, Debug)]
pub struct Offer<M> {
    pub id: u32,
    pub name: String,
    pub discount_percent: M,
}

/// An open (or just billed) order; `M` carries prices and rates.
#[derive(Clone, Debug)]
pub struct Order<M> {
    pub id: u32,
    pub label: String,
    pub service: Service,
    pub table_number: Option<usize>,
    /// Area name for dine-in orders; `None` for take-out.
    pub area: Option<String>,
    /// Whether this order's area is air-conditioned (drives 5% GST + surcharge).
    pub is_ac: bool,
    /// AC surcharge rate frozen when the order started.
    pub ac_rate: M,
    /// Discount percentage (0–100) applied to the subtotal at billing.
    pub discount_percent: M,
    pub cart: Vec<CartLine<M>>,
    pub cart_index: usize,
    pub status: OrderStatus,
    pub customer_mobile: Option<String>,
    pub payment_mode: Option<PaymentMode>,
    pub kot_sent_count: usize,
}

impl<M> Order<M> {
    /// The order sits at table `number` of area `area` (dine-in only).
    pub open spec fn at_table(self, area: Seq<char>, number: nat) -> bool {
        &&& self.service == Service::DineIn
        &&& opt_view(self.area) == Some(area)
        &&& self.table_number matches Some(n) && n as nat == number
    }
}

/// A completed bill shown in the recent-bills panel; `M` carries its total.
#[derive(Clone, Debug)]
pub struct BillSummary<M> {
    pub id: u32,
    pub label: String,
    pub service: Service,
    pub total: M,
    pub receipt: String,
    pub payment_mode: Option<PaymentMode>,
}

/// A kitchen order ticket as listed in the KOT panel and the kitchen display.
#[derive(Clone, Debug)]
pub struct KotSummary {
    pub id: u32,
    pub order_id: u32,
    pub label: String,
    pub area: String,
    pub item_count: u32,
    pub ticket_text: String,
    pub is_reprint: bool,
    pub created_at: String,
    pub status: String,
}

} // verus!
