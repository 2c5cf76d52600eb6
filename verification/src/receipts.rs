//! Kitchen order tickets (KOT) rendered as 42-column plain text.
use vstd::prelude::*;

use crate::models::{opt_view, CartLine, Order};
use crate::text::{
    chars_of, decimal, push_char, decimal_seq, pad_left_seq, pad_right_seq, push_repeat, push_str, repeat_char,
    string_of, trim_chars, trim_seq,
};

verus! {

/// The name printed when no restaurant name is configured.
pub open spec fn default_restaurant_name() -> Seq<char> {
    "SHREE KRISHNA RESTAURANT"@
}

/// `text` preceded by enough spaces to sit in the middle of `width` columns.
pub open spec fn center_seq(text: Seq<char>, width: nat) -> Seq<char> {
    let padding: nat = if width > text.len() {
        ((width - text.len()) as nat / 2) as nat
    } else {
        0
    };
    repeat_char(' ', padding) + text
}

/// Centres `text` in `width` columns by padding it on the left.
pub fn center(text: &str, width: usize) -> (r: String)
    ensures
        r@ == center_seq(text@, width as nat),
{
    let n = text.unicode_len();
    let padding: usize = if width > n {
        (width - n) / 2
    } else {
        0
    };
    let mut r = String::new();
    push_repeat(&mut r, ' ', padding);
    push_str(&mut r, text);
    assert(r@ =~= center_seq(text@, width as nat));
    r
}

/// Appends `s` padded on the right to `width` columns.
pub fn push_padded_right(out: &mut String, s: &str, width: usize)
    ensures
        final(out)@ == old(out)@ + pad_right_seq(s@, width as nat),
{
    let n = s.unicode_len();
    push_str(out, s);
    if n < width {
        push_repeat(out, ' ', width - n);
    }
    assert(final(out)@ =~= old(out)@ + pad_right_seq(s@, width as nat));
}

/// Appends `s` padded on the left to `width` columns.
pub fn push_padded_left(out: &mut String, s: &str, width: usize)
    ensures
        final(out)@ == old(out)@ + pad_left_seq(s@, width as nat),
{
    let n = s.unicode_len();
    if n < width {
        push_repeat(out, ' ', width - n);
    }
    push_str(out, s);
    assert(final(out)@ =~= old(out)@ + pad_left_seq(s@, width as nat));
}

/// A line of a kitchen ticket.
#[derive(Clone, Debug)]
pub struct KotItem {
    pub name: String,
    pub qty: u32,
    pub note: Option<String>,
}

/// A kitchen order ticket ready to print.
#[derive(Clone, Debug)]
pub struct KotDocument {
    pub restaurant_name: String,
    pub order_id: u32,
    pub table_label: String,
    pub area_name: Option<String>,
    pub is_reprint: bool,
    pub is_delta: bool,
    pub items: Vec<KotItem>,
    pub timestamp_str: String,
}

/// A rule of 42 dashes followed by a newline.
pub open spec fn rule_line() -> Seq<char> {
    repeat_char('-', 42) + "\n"@
}

/// The title of a ticket: reprints and add-ons are marked as such.
pub open spec fn kot_title(is_reprint: bool, is_delta: bool) -> Seq<char> {
    if is_reprint {
        "*** KITCHEN ORDER TICKET [REPRINT] ***"@
    } else if is_delta {
        "*** KITCHEN ORDER TICKET (ADD-ON / DELTA) ***"@
    } else {
        "*** KITCHEN ORDER TICKET (KOT) ***"@
    }
}

/// The two text lines of one ticket item: name and quantity in columns, then
/// the cooking note when there is one.
pub open spec fn kot_item_text(item: KotItem) -> Seq<char> {
    pad_right_seq(item.name@, 32) + pad_left_seq(decimal_seq(item.qty as nat), 10) + "\n"@
        + match item.note {
        Some(n) => "  ↳ "@ + n@ + "\n"@,
        None => Seq::empty(),
    }
}

/// The text of all ticket items, in order.
pub open spec fn kot_items_text(items: Seq<KotItem>) -> Seq<char>
    decreases items.len(),
{
    if items.len() == 0 {
        Seq::empty()
    } else {
        kot_items_text(items.drop_last()) + kot_item_text(items.last())
    }
}

/// The full text of a kitchen ticket.
pub open spec fn kot_text(d: KotDocument) -> Seq<char> {
    center_seq(d.restaurant_name@, 42) + "\n"@ + center_seq(kot_title(d.is_reprint, d.is_delta), 42)
        + "\n"@ + rule_line() + "Table / Order: "@ + d.table_label@ + "\n"@ + match d.area_name {
        Some(a) => "Area         : "@ + a@ + "\n"@,
        None => Seq::empty(),
    } + "Order ID     : #"@ + decimal_seq(d.order_id as nat) + "\n"@ + "Time         : "@
        + d.timestamp_str@ + "\n"@ + rule_line() + pad_right_seq("ITEM"@, 32) + pad_left_seq(
        "QTY"@,
        10,
    ) + "\n"@ + rule_line() + kot_items_text(d.items@) + rule_line() + center_seq(
        "Send to Kitchen"@,
        42,
    ) + "\n\n"@
}

// ---------------------------------------------------------------------------
// Slip width
// ---------------------------------------------------------------------------

/// The number of characters of the line that `s` is in just before
/// position `k`.
pub open spec fn column_at(s: Seq<char>, k: int) -> nat
    decreases k,
{
    if k <= 0 {
        0
    } else if s[k - 1] == '\n' {
        0
    } else {
        column_at(s, k - 1) + 1
    }
}

/// No line of `s` is wider than `w` characters.
#[verifier::opaque]
pub open spec fn fits_columns(s: Seq<char>, w: nat) -> bool {
    forall|k: int| 0 <= k <= s.len() ==> #[trigger] column_at(s, k) <= w
}

/// The width of a ticket's widest line: 42 columns, except on an add-on
/// ticket that is not a reprint, whose 45-character title is printed
/// uncentred on a line of its own.
pub open spec fn kot_width(d: KotDocument) -> nat {
    if !d.is_reprint && d.is_delta {
        45
    } else {
        42
    }
}

/// Text that fits `w` columns fits any wider slip.
proof fn lemma_fits_wider(s: Seq<char>, w: nat, wider: nat)
    requires
        fits_columns(s, w),
        w <= wider,
    ensures
        fits_columns(s, wider),
{
    reveal(fits_columns);
}

/// A column never exceeds the position.
proof fn lemma_column_at_most(s: Seq<char>, k: int)
    requires
        0 <= k <= s.len(),
    ensures
        column_at(s, k) <= k,
    decreases k,
{
    if k > 0 && s[k - 1] != '\n' {
        lemma_column_at_most(s, k - 1);
    }
}

/// In `a + b`, columns inside `a` are those of `a`.
proof fn lemma_column_prefix(a: Seq<char>, b: Seq<char>, k: int)
    requires
        0 <= k <= a.len(),
    ensures
        column_at(a + b, k) == column_at(a, k),
    decreases k,
{
    if k > 0 {
        assert((a + b)[k - 1] == a[k - 1]);
        lemma_column_prefix(a, b, k - 1);
    }
}

/// In `a + b`, where `a` is empty or ends a line, columns inside `b` are
/// those of `b`.
proof fn lemma_column_suffix(a: Seq<char>, b: Seq<char>, k: int)
    requires
        a.len() == 0 || a.last() == '\n',
        0 <= k <= b.len(),
    ensures
        column_at(a + b, a.len() + k) == column_at(b, k),
    decreases k,
{
    if k > 0 {
        assert((a + b)[a.len() + k - 1] == b[k - 1]);
        lemma_column_suffix(a, b, k - 1);
    } else if a.len() > 0 {
        assert((a + b)[a.len() - 1] == a.last());
    }
}

/// Two texts that fit, the first ending a line, fit together.
proof fn lemma_fits_concat(a: Seq<char>, b: Seq<char>, w: nat)
    requires
        fits_columns(a, w),
        fits_columns(b, w),
        a.len() == 0 || a.last() == '\n',
    ensures
        fits_columns(a + b, w),
{
    reveal(fits_columns);
    assert forall|k: int| 0 <= k <= (a + b).len() implies #[trigger] column_at(a + b, k) <= w by {
        if k <= a.len() {
            lemma_column_prefix(a, b, k);
        } else {
            lemma_column_suffix(a, b, k - a.len());
            assert(column_at(b, k - a.len()) <= w);
        }
    }
}

/// A line of at most `w` characters fits.
proof fn lemma_fits_line(x: Seq<char>, w: nat)
    requires
        x.len() <= w,
    ensures
        fits_columns(x + "\n"@, w),
        (x + "\n"@).last() == '\n',
{
    reveal(fits_columns);
    reveal_strlit("\n");
    let s = x + "\n"@;
    assert(s.last() == '\n');
    assert forall|k: int| 0 <= k <= s.len() implies #[trigger] column_at(s, k) <= w by {
        if k <= x.len() {
            lemma_column_at_most(s, k);
        } else {
            assert(s[k - 1] == '\n');
        }
    }
}

/// `10^k`.
pub open spec fn pow10(k: nat) -> nat
    decreases k,
{
    if k == 0 {
        1
    } else {
        10 * pow10((k - 1) as nat)
    }
}

/// A number below `10^k` (`k >= 1`) has at most `k` decimal digits.
proof fn lemma_decimal_len(n: nat, k: nat)
    requires
        k >= 1,
        n < pow10(k),
    ensures
        decimal_seq(n).len() <= k,
    decreases n,
{
    if n >= 10 {
        assert(k >= 2) by {
            if k == 1 {
                assert(pow10(1) == 10 * pow10(0));
            }
        }
        assert(pow10(k) == 10 * pow10((k - 1) as nat));
        assert(n / 10 < pow10((k - 1) as nat));
        lemma_decimal_len(n / 10, (k - 1) as nat);
    }
}

/// A `u32` has at most ten decimal digits.
proof fn lemma_decimal_len_u32(n: u32)
    ensures
        decimal_seq(n as nat).len() <= 10,
{
    reveal_with_fuel(pow10, 11);
    assert(pow10(10) == 10000000000);
    lemma_decimal_len(n as nat, 10);
}

/// Centring text of at most `w` characters gives at most `w` characters.
proof fn lemma_center_len(t: Seq<char>, w: nat)
    requires
        t.len() <= w,
    ensures
        center_seq(t, w).len() <= w,
{
}

/// The ticket fields are short enough for a 42-column slip: the restaurant
/// name at most 42 characters; table label, area and time at most 27 (after
/// their 15-character captions); item names at most 32 and notes at most 38.
pub open spec fn kot_fields_fit(d: KotDocument) -> bool {
    &&& d.restaurant_name@.len() <= 42
    &&& d.table_label@.len() <= 27
    &&& (d.area_name matches Some(a) ==> a@.len() <= 27)
    &&& d.timestamp_str@.len() <= 27
    &&& forall|i: int|
        0 <= i < d.items@.len() ==> (#[trigger] d.items@[i]).name@.len() <= 32 && (d.items@[i].note matches Some(
            n,
        ) ==> n@.len() <= 38)
}

/// The items of a ticket with short fields fit 42 columns.
proof fn lemma_items_fit(items: Seq<KotItem>)
    requires
        forall|i: int|
            0 <= i < items.len() ==> (#[trigger] items[i]).name@.len() <= 32 && (items[i].note matches Some(n)
                ==> n@.len() <= 38),
    ensures
        fits_columns(kot_items_text(items), 42),
        kot_items_text(items).len() == 0 || kot_items_text(items).last() == '\n',
    decreases items.len(),
{
    reveal(fits_columns);
    reveal_strlit("  ↳ ");
    reveal_strlit("\n");
    if items.len() == 0 {
        assert forall|k: int| 0 <= k <= kot_items_text(items).len() implies #[trigger] column_at(
            kot_items_text(items),
            k,
        ) <= 42 by {
            lemma_column_at_most(kot_items_text(items), k);
        }
    } else {
        let rest = items.drop_last();
        assert forall|i: int| 0 <= i < rest.len() implies (#[trigger] rest[i]).name@.len() <= 32 && (
        rest[i].note matches Some(n) ==> n@.len() <= 38) by {
            assert(rest[i] == items[i]);
        }
        lemma_items_fit(rest);
        let it = items.last();
        assert(it == items[items.len() - 1]);
        lemma_decimal_len_u32(it.qty);
        let line1 = pad_right_seq(it.name@, 32) + pad_left_seq(decimal_seq(it.qty as nat), 10);
        assert(line1.len() == 42);
        lemma_fits_line(line1, 42);
        let text = match it.note {
            Some(n) => {
                let line2 = "  ↳ "@ + n@;
                lemma_fits_line(line2, 42);
                lemma_fits_concat(line1 + "\n"@, line2 + "\n"@, 42);
                assert(kot_item_text(it) =~= (line1 + "\n"@) + (line2 + "\n"@));
                (line1 + "\n"@) + (line2 + "\n"@)
            },
            None => {
                assert(kot_item_text(it) =~= line1 + "\n"@);
                line1 + "\n"@
            },
        };
        assert(text.last() == '\n');
        lemma_fits_concat(kot_items_text(rest), text, 42);
    }
}

/// The lines of a ticket above its items.
pub open spec fn kot_head(d: KotDocument) -> Seq<char> {
    center_seq(d.restaurant_name@, 42) + "\n"@ + center_seq(kot_title(d.is_reprint, d.is_delta), 42) + "\n"@
        + rule_line() + "Table / Order: "@ + d.table_label@ + "\n"@ + match d.area_name {
        Some(a) => "Area         : "@ + a@ + "\n"@,
        None => Seq::empty(),
    } + "Order ID     : #"@ + decimal_seq(d.order_id as nat) + "\n"@ + "Time         : "@ + d.timestamp_str@
        + "\n"@ + rule_line() + pad_right_seq("ITEM"@, 32) + pad_left_seq("QTY"@, 10) + "\n"@ + rule_line()
}

/// The lines of a ticket below its items.
pub open spec fn kot_foot() -> Seq<char> {
    rule_line() + center_seq("Send to Kitchen"@, 42) + "\n\n"@
}

proof fn lemma_kot_text_parts(d: KotDocument)
    ensures
        kot_text(d) =~= kot_head(d) + kot_items_text(d.items@) + kot_foot(),
{
}

proof fn lemma_rule_fits()
    ensures
        fits_columns(rule_line(), 42),
        rule_line().last() == '\n',
{
    reveal_strlit("\n");
    lemma_fits_line(repeat_char('-', 42), 42);
}

proof fn lemma_title_lines_fit(d: KotDocument)
    requires
        d.restaurant_name@.len() <= 42,
    ensures
        fits_columns(center_seq(d.restaurant_name@, 42) + "\n"@ + center_seq(kot_title(d.is_reprint, d.is_delta), 42)
            + "\n"@, kot_width(d)),
        (center_seq(d.restaurant_name@, 42) + "\n"@ + center_seq(kot_title(d.is_reprint, d.is_delta), 42)
            + "\n"@).last() == '\n',
{
    reveal_strlit("\n");
    reveal_strlit("*** KITCHEN ORDER TICKET [REPRINT] ***");
    reveal_strlit("*** KITCHEN ORDER TICKET (ADD-ON / DELTA) ***");
    reveal_strlit("*** KITCHEN ORDER TICKET (KOT) ***");
    let title = kot_title(d.is_reprint, d.is_delta);
    let w = kot_width(d);
    assert(title.len() <= w);
    let l1 = center_seq(d.restaurant_name@, 42);
    let l2 = center_seq(title, 42);
    assert(l2.len() <= w);
    lemma_fits_line(l1, w);
    lemma_fits_line(l2, w);
    lemma_fits_concat(l1 + "\n"@, l2 + "\n"@, w);
    assert(l1 + "\n"@ + l2 + "\n"@ =~= (l1 + "\n"@) + (l2 + "\n"@));
}

proof fn lemma_detail_lines_fit(d: KotDocument)
    requires
        kot_fields_fit(d),
    ensures
        fits_columns(
            "Table / Order: "@ + d.table_label@ + "\n"@ + match d.area_name {
                Some(a) => "Area         : "@ + a@ + "\n"@,
                None => Seq::empty(),
            } + "Order ID     : #"@ + decimal_seq(d.order_id as nat) + "\n"@ + "Time         : "@
                + d.timestamp_str@ + "\n"@,
            42,
        ),
{
    reveal_strlit("\n");
    reveal_strlit("Table / Order: ");
    reveal_strlit("Area         : ");
    reveal_strlit("Order ID     : #");
    reveal_strlit("Time         : ");
    let nl = "\n"@;
    let l4 = "Table / Order: "@ + d.table_label@;
    let area = match d.area_name {
        Some(a) => "Area         : "@ + a@ + nl,
        None => Seq::empty(),
    };
    lemma_decimal_len_u32(d.order_id);
    let l6 = "Order ID     : #"@ + decimal_seq(d.order_id as nat);
    let l7 = "Time         : "@ + d.timestamp_str@;
    lemma_fits_line(l4, 42);
    lemma_fits_line(l6, 42);
    lemma_fits_line(l7, 42);
    match d.area_name {
        Some(a) => {
            lemma_fits_line("Area         : "@ + a@, 42);
        },
        None => {
            reveal(fits_columns);
        },
    }
    lemma_fits_concat(l4 + nl, area, 42);
    let q = (l4 + nl) + area;
    assert(q.last() == '\n');
    lemma_fits_concat(q, l6 + nl, 42);
    lemma_fits_concat(q + (l6 + nl), l7 + nl, 42);
    assert(l4 + nl + area + "Order ID     : #"@ + decimal_seq(d.order_id as nat) + nl + "Time         : "@
        + d.timestamp_str@ + nl =~= q + (l6 + nl) + (l7 + nl));
}

proof fn lemma_head_fits(d: KotDocument)
    requires
        kot_fields_fit(d),
    ensures
        fits_columns(kot_head(d), kot_width(d)),
        kot_head(d).last() == '\n',
{
    let w = kot_width(d);
    reveal_strlit("\n");
    reveal_strlit("ITEM");
    reveal_strlit("QTY");
    lemma_title_lines_fit(d);
    lemma_detail_lines_fit(d);
    lemma_rule_fits();
    let titles = center_seq(d.restaurant_name@, 42) + "\n"@ + center_seq(kot_title(d.is_reprint, d.is_delta), 42)
        + "\n"@;
    let details = "Table / Order: "@ + d.table_label@ + "\n"@ + match d.area_name {
        Some(a) => "Area         : "@ + a@ + "\n"@,
        None => Seq::empty(),
    } + "Order ID     : #"@ + decimal_seq(d.order_id as nat) + "\n"@ + "Time         : "@ + d.timestamp_str@
        + "\n"@;
    let l8 = pad_right_seq("ITEM"@, 32) + pad_left_seq("QTY"@, 10);
    lemma_fits_line(l8, w);
    lemma_fits_wider(rule_line(), 42, w);
    lemma_fits_wider(details, 42, w);
    let a = titles + rule_line();
    lemma_fits_concat(titles, rule_line(), w);
    assert(details.last() == '\n');
    let b = a + details;
    lemma_fits_concat(a, details, w);
    let c = b + rule_line();
    lemma_fits_concat(b, rule_line(), w);
    let e = c + (l8 + "\n"@);
    lemma_fits_concat(c, l8 + "\n"@, w);
    lemma_fits_concat(e, rule_line(), w);
    assert(kot_head(d) =~= e + rule_line());
}

proof fn lemma_foot_fits()
    ensures
        fits_columns(kot_foot(), 42),
{
    reveal_strlit("\n");
    reveal_strlit("\n\n");
    reveal_strlit("Send to Kitchen");
    lemma_rule_fits();
    let l9 = center_seq("Send to Kitchen"@, 42);
    lemma_fits_line(l9, 42);
    let e: Seq<char> = Seq::empty();
    lemma_fits_line(e, 42);
    lemma_fits_concat(rule_line(), l9 + "\n"@, 42);
    lemma_fits_concat(rule_line() + (l9 + "\n"@), e + "\n"@, 42);
    assert(kot_foot() =~= rule_line() + (l9 + "\n"@) + (e + "\n"@));
}

/// Every line of a ticket whose fields are short enough (see
/// `kot_fields_fit`) is at most 42 characters wide, so tickets are 42-column
/// slips; the one wider line is the 45-character title of an add-on ticket
/// that is not a reprint (see `kot_width`).
pub proof fn lemma_kot_slip_fits(d: KotDocument)
    requires
        kot_fields_fit(d),
    ensures
        fits_columns(kot_text(d), kot_width(d)),
        d.is_reprint || !d.is_delta ==> fits_columns(kot_text(d), 42),
{
    let w = kot_width(d);
    lemma_kot_text_parts(d);
    lemma_head_fits(d);
    assert forall|i: int| 0 <= i < d.items@.len() implies (#[trigger] d.items@[i]).name@.len() <= 32 && (
    d.items@[i].note matches Some(n) ==> n@.len() <= 38) by {}
    lemma_items_fit(d.items@);
    lemma_fits_wider(kot_items_text(d.items@), 42, w);
    lemma_fits_concat(kot_head(d), kot_items_text(d.items@), w);
    let hi = kot_head(d) + kot_items_text(d.items@);
    assert(hi.last() == '\n') by {
        if kot_items_text(d.items@).len() == 0 {
            assert(hi =~= kot_head(d));
        }
    }
    lemma_foot_fits();
    lemma_fits_wider(kot_foot(), 42, w);
    lemma_fits_concat(hi, kot_foot(), w);
}

/// The name printed on tickets: the trimmed configured name, or the default.
pub open spec fn printed_name(restaurant_name: Seq<char>) -> Seq<char> {
    if trim_seq(restaurant_name).len() == 0 {
        default_restaurant_name()
    } else {
        trim_seq(restaurant_name)
    }
}

/// Ticket items carry the name, quantity and note of the cart lines.
pub open spec fn items_match<M>(items: Seq<KotItem>, lines: Seq<CartLine<M>>) -> bool {
    &&& items.len() == lines.len()
    &&& forall|i: int|
        0 <= i < items.len() ==> (#[trigger] items[i]).name@ == lines[i].name@ && items[i].qty
            == lines[i].qty && opt_view(items[i].note) == opt_view(lines[i].note)
}

/// Appends the text of one ticket item.
fn push_kot_item(out: &mut String, item: &KotItem)
    ensures
        final(out)@ == old(out)@ + kot_item_text(*item),
{
    push_padded_right(out, item.name.as_str(), 32);
    let q = decimal(item.qty as u64);
    push_padded_left(out, q.as_str(), 10);
    push_str(out, "\n");
    match &item.note {
        Some(note) => {
            push_str(out, "  ↳ ");
            push_str(out, note.as_str());
            push_str(out, "\n");
        },
        None => {},
    }
    assert(final(out)@ =~= old(out)@ + kot_item_text(*item));
}

/// Appends a rule of 42 dashes and a newline.
fn push_rule(out: &mut String)
    ensures
        final(out)@ == old(out)@ + rule_line(),
{
    push_repeat(out, '-', 42);
    push_str(out, "\n");
    assert(final(out)@ =~= old(out)@ + rule_line());
}

/// A copy of an optional string.
fn copy_opt(o: &Option<String>) -> (r: Option<String>)
    ensures
        opt_view(r) == opt_view(*o),
{
    match o {
        Some(s) => Some(s.clone()),
        None => None,
    }
}

/// The name to print: the trimmed name, or the default when it is blank.
pub fn printed_restaurant_name(restaurant_name: &str) -> (r: String)
    ensures
        r@ == printed_name(restaurant_name@),
{
    let v = chars_of(restaurant_name);
    let t = trim_chars(&v);
    if t.len() == 0 {
        String::from_str("SHREE KRISHNA RESTAURANT")
    } else {
        string_of(&t)
    }
}

/// Calls `chrono::Local::now().format` with the fixed pattern
/// "%d-%m-%Y %H:%M:%S" (day-month-year hours:minutes:seconds), which chrono
/// always parses; the time changes from call to call, so nothing is stated of
/// the text.
#[verifier::external_body]
pub(crate) fn local_time_text() -> String {
    chrono::Local::now().format("%d-%m-%Y %H:%M:%S").to_string()
}

impl KotDocument {
    /// A ticket for `order` holding `items`, stamped with `timestamp`.
    pub fn build<M>(
        order: &Order<M>,
        items: &[CartLine<M>],
        is_reprint: bool,
        is_delta: bool,
        restaurant_name: &str,
        timestamp: String,
    ) -> (d: KotDocument)
        ensures
            d.restaurant_name@ == printed_name(restaurant_name@),
            d.order_id == order.id,
            d.table_label@ == order.label@,
            opt_view(d.area_name) == opt_view(order.area),
            d.is_reprint == is_reprint,
            d.is_delta == is_delta,
            items_match(d.items@, items@),
            d.timestamp_str@ == timestamp@,
    {
        let mut kot_items: Vec<KotItem> = Vec::new();
        let mut i: usize = 0;
        while i < items.len()
            invariant
                i <= items.len(),
                kot_items@.len() == i,
                forall|j: int|
                    0 <= j < i ==> (#[trigger] kot_items@[j]).name@ == items@[j].name@
                        && kot_items@[j].qty == items@[j].qty && opt_view(kot_items@[j].note)
                        == opt_view(items@[j].note),
            decreases items.len() - i,
        {
            kot_items.push(
                KotItem {
                    name: items[i].name.clone(),
                    qty: items[i].qty,
                    note: copy_opt(&items[i].note),
                },
            );
            i = i + 1;
        }
        KotDocument {
            restaurant_name: printed_restaurant_name(restaurant_name),
            order_id: order.id,
            table_label: order.label.clone(),
            area_name: copy_opt(&order.area),
            is_reprint,
            is_delta,
            items: kot_items,
            timestamp_str: timestamp,
        }
    }

    /// A ticket for `order` holding `items`, stamped with the current local time.
    pub fn from_order_items<M>(
        order: &Order<M>,
        items: &[CartLine<M>],
        is_reprint: bool,
        is_delta: bool,
        restaurant_name: &str,
    ) -> (d: KotDocument)
        ensures
            d.restaurant_name@ == printed_name(restaurant_name@),
            d.order_id == order.id,
            d.table_label@ == order.label@,
            opt_view(d.area_name) == opt_view(order.area),
            d.is_reprint == is_reprint,
            d.is_delta == is_delta,
            items_match(d.items@, items@),
    {
        let stamp = local_time_text();
        KotDocument::build(order, items, is_reprint, is_delta, restaurant_name, stamp)
    }

    /// The 42-column text of the ticket: with fields short enough (see
    /// `kot_fields_fit`) no line is wider than 42 characters, but for the
    /// 45-character title of an add-on ticket that is not a reprint.
    pub fn render_ascii(&self) -> (out: String)
        ensures
            out@ == kot_text(*self),
            kot_fields_fit(*self) ==> fits_columns(out@, kot_width(*self)),
            kot_fields_fit(*self) && (self.is_reprint || !self.is_delta) ==> fits_columns(out@, 42),
    {
        let mut out = String::new();
        let name = center(self.restaurant_name.as_str(), 42);
        push_str(&mut out, name.as_str());
        push_str(&mut out, "\n");
        let title = if self.is_reprint {
            "*** KITCHEN ORDER TICKET [REPRINT] ***"
        } else if self.is_delta {
            "*** KITCHEN ORDER TICKET (ADD-ON / DELTA) ***"
        } else {
            "*** KITCHEN ORDER TICKET (KOT) ***"
        };
        let t = center(title, 42);
        push_str(&mut out, t.as_str());
        push_str(&mut out, "\n");
        push_rule(&mut out);
        push_str(&mut out, "Table / Order: ");
        push_str(&mut out, self.table_label.as_str());
        push_str(&mut out, "\n");
        let ghost before_area = out@;
        match &self.area_name {
            Some(area) => {
                push_str(&mut out, "Area         : ");
                push_str(&mut out, area.as_str());
                push_str(&mut out, "\n");
            },
            None => {},
        }
        push_str(&mut out, "Order ID     : #");
        let id = decimal(self.order_id as u64);
        push_str(&mut out, id.as_str());
        push_str(&mut out, "\n");
        push_str(&mut out, "Time         : ");
        push_str(&mut out, self.timestamp_str.as_str());
        push_str(&mut out, "\n");
        push_rule(&mut out);
        push_padded_right(&mut out, "ITEM", 32);
        push_padded_left(&mut out, "QTY", 10);
        push_str(&mut out, "\n");
        push_rule(&mut out);
        let ghost head = out@;
        let mut i: usize = 0;
        while i < self.items.len()
            invariant
                i <= self.items@.len(),
                out@ == head + kot_items_text(self.items@.subrange(0, i as int)),
            decreases self.items.len() - i,
        {
            push_kot_item(&mut out, &self.items[i]);
            proof {
                assert(self.items@.subrange(0, i + 1).drop_last() =~= self.items@.subrange(
                    0,
                    i as int,
                ));
            }
            i = i + 1;
            assert(out@ =~= head + kot_items_text(self.items@.subrange(0, i as int)));
        }
        assert(self.items@.subrange(0, self.items@.len() as int) =~= self.items@);
        push_rule(&mut out);
        let footer = center("Send to Kitchen", 42);
        push_str(&mut out, footer.as_str());
        push_str(&mut out, "\n\n");
        assert(out@ =~= kot_text(*self));
        proof {
            if kot_fields_fit(*self) {
                lemma_kot_slip_fits(*self);
            }
        }
        out
    }
}

/// The text of a ticket holding the whole cart of `order`.
pub fn render_kot<M>(order: &Order<M>, is_reprint: bool, restaurant_name: &str) -> (r: String)
    ensures
        exists|d: KotDocument|
            r@ == kot_text(d) && d.restaurant_name@ == printed_name(restaurant_name@) && d.order_id
                == order.id && d.table_label@ == order.label@ && opt_view(d.area_name) == opt_view(
                order.area,
            ) && d.is_reprint == is_reprint && !d.is_delta && items_match(d.items@, order.cart@),
{
    render_kot_items(order, order.cart.as_slice(), is_reprint, false, restaurant_name)
}

/// The text of a ticket holding `items` of `order`, stamped with the current time.
pub fn render_kot_items<M>(
    order: &Order<M>,
    items: &[CartLine<M>],
    is_reprint: bool,
    is_delta: bool,
    restaurant_name: &str,
) -> (r: String)
    ensures
        exists|d: KotDocument|
            r@ == kot_text(d) && d.restaurant_name@ == printed_name(restaurant_name@) && d.order_id
                == order.id && d.table_label@ == order.label@ && opt_view(d.area_name) == opt_view(
                order.area,
            ) && d.is_reprint == is_reprint && d.is_delta == is_delta && items_match(d.items@, items@),
{
    let d = KotDocument::from_order_items(order, items, is_reprint, is_delta, restaurant_name);
    d.render_ascii()
}

// ---------------------------------------------------------------------------
// UPI payment QR code drawn with block characters
// ---------------------------------------------------------------------------

/// The modules of the QR code of version 4, error correction M, that encodes
/// `data`, as (width, row-major dark flags), or the encoder's error text.
pub uninterp spec fn qr_symbol_v4(data: Seq<char>) -> Result<(usize, Seq<bool>), Seq<char>>;

/// The modules of the smallest QR code, error correction M, that encodes
/// `data`, as (width, row-major dark flags), or the encoder's error text.
pub uninterp spec fn qr_symbol_auto(data: Seq<char>) -> Result<(usize, Seq<bool>), Seq<char>>;

/// Encodes `data` with `qrcode`'s `QrCode::with_version(data, Version::Normal(4),
/// EcLevel::M)` and reads back `width()` and `to_colors()` (dark modules as
/// `true`), or the error's text. The contract claims that the result depends
/// on `data` alone and, as the crate's source shows, that a code has
/// `width * width` modules and is at most 177 modules wide.
#[verifier::external_body]
fn qr_modules_v4(data: &str) -> (r: Result<(usize, Vec<bool>), String>)
    ensures
        match r {
            Ok((w, m)) => qr_symbol_v4(data@) == Ok::<(usize, Seq<bool>), Seq<char>>((w, m@)) && m@.len()
                == w * w && w <= 177,
            Err(e) => qr_symbol_v4(data@) == Err::<(usize, Seq<bool>), Seq<char>>(e@),
        },
{
    match qrcode::QrCode::with_version(data, qrcode::Version::Normal(4), qrcode::EcLevel::M) {
        Ok(code) => Ok((code.width(), code.to_colors().iter().map(|c| *c == qrcode::Color::Dark).collect())),
        Err(e) => Err(e.to_string()),
    }
}

/// Encodes `data` with `qrcode`'s `QrCode::new` (smallest version, error
/// correction M) and reads back `width()` and `to_colors()` (dark modules as
/// `true`), or the error's text; the same claims as `qr_modules_v4`.
#[verifier::external_body]
fn qr_modules_auto(data: &str) -> (r: Result<(usize, Vec<bool>), String>)
    ensures
        match r {
            Ok((w, m)) => qr_symbol_auto(data@) == Ok::<(usize, Seq<bool>), Seq<char>>((w, m@))
                && m@.len() == w * w && w <= 177,
            Err(e) => qr_symbol_auto(data@) == Err::<(usize, Seq<bool>), Seq<char>>(e@),
        },
{
    match qrcode::QrCode::new(data) {
        Ok(code) => Ok((code.width(), code.to_colors().iter().map(|c| *c == qrcode::Color::Dark).collect())),
        Err(e) => Err(e.to_string()),
    }
}

/// The block character showing a dark/light upper and lower module.
pub open spec fn block_char(top: bool, bottom: bool) -> char {
    if top && bottom {
        '█'
    } else if top {
        '▀'
    } else if bottom {
        '▄'
    } else {
        ' '
    }
}

/// Whether module (x, y) of a `w`-wide code is dark (rows past the end are light).
pub open spec fn module_dark(w: nat, m: Seq<bool>, x: int, y: int) -> bool {
    if y < w {
        m[y * w + x]
    } else {
        false
    }
}

/// The text row showing module rows `y` and `y + 1`, with a one-column quiet
/// zone on each side.
pub open spec fn block_row(w: nat, m: Seq<bool>, y: int) -> Seq<char> {
    seq![' '] + Seq::new(w, |x: int| block_char(module_dark(w, m, x, y), module_dark(w, m, x, y + 1)))
        + seq![' ']
}

/// The rows drawing a `w`-wide code two module rows per text row, between
/// blank quiet-zone rows.
pub open spec fn block_rows(w: nat, m: Seq<bool>) -> Seq<Seq<char>> {
    seq![repeat_char(' ', w + 2)] + Seq::new((w + 1) / 2, |k: int| block_row(w, m, 2 * k))
        + seq![repeat_char(' ', w + 2)]
}

/// The code the payment QR uses: version 4 when the data fits, else the
/// smallest version that holds it.
pub open spec fn upi_symbol(data: Seq<char>) -> Result<(usize, Seq<bool>), Seq<char>> {
    match qr_symbol_v4(data) {
        Ok(s) => Ok(s),
        Err(_) => qr_symbol_auto(data),
    }
}

/// The text row drawing module rows `y` and `y + 1`.
fn block_row_text(w: usize, m: &Vec<bool>, y: usize) -> (r: String)
    requires
        w <= 177,
        m@.len() == w * w,
        y < w,
    ensures
        r@ == block_row(w as nat, m@, y as int),
{
    let mut line = String::new();
    push_char(&mut line, ' ');
    let mut x: usize = 0;
    while x < w
        invariant
            w <= 177,
            m@.len() == w * w,
            y < w,
            x <= w,
            line@ == seq![' '] + Seq::new(
                x as nat,
                |i: int| block_char(module_dark(w as nat, m@, i, y as int), module_dark(w as nat, m@, i, y + 1)),
            ),
        decreases w - x,
    {
        assert(y * w + x < w * w && y * w + x <= 177 * 177) by (nonlinear_arith)
            requires
                y < w,
                x < w,
                w <= 177,
        ;
        let top = m[y * w + x];
        let bottom = if y + 1 < w {
            assert((y + 1) * w + x < w * w && (y + 1) * w + x <= 177 * 177) by (nonlinear_arith)
                requires
                    y + 1 < w,
                    x < w,
                    w <= 177,
            ;
            m[(y + 1) * w + x]
        } else {
            false
        };
        let c = if top && bottom {
            '█'
        } else if top {
            '▀'
        } else if bottom {
            '▄'
        } else {
            ' '
        };
        push_char(&mut line, c);
        x = x + 1;
        assert(line@ =~= seq![' '] + Seq::new(
            x as nat,
            |i: int| block_char(module_dark(w as nat, m@, i, y as int), module_dark(w as nat, m@, i, y + 1)),
        ));
    }
    push_char(&mut line, ' ');
    assert(line@ =~= block_row(w as nat, m@, y as int));
    line
}

/// The payment QR code for `upi_uri` drawn with block characters, two module
/// rows per text row, inside a one-module quiet zone; or the encoder's error.
pub fn generate_upi_qr_blocks(upi_uri: &str) -> (r: Result<Vec<String>, String>)
    ensures
        match upi_symbol(upi_uri@) {
            Ok((w, m)) => r matches Ok(lines) && lines@.map_values(|l: String| l@) == block_rows(w as nat, m),
            Err(e) => r matches Err(t) && t@ == e,
        },
{
    let symbol = match qr_modules_v4(upi_uri) {
        Ok(s) => Ok(s),
        Err(_) => qr_modules_auto(upi_uri),
    };
    let (w, m) = match symbol {
        Ok(s) => s,
        Err(e) => {
            return Err(e);
        },
    };
    let mut lines: Vec<String> = Vec::new();
    let mut blank = String::new();
    push_repeat(&mut blank, ' ', w + 2);
    lines.push(blank);
    let ghost rows = Seq::new(((w + 1) / 2) as nat, |k: int| block_row(w as nat, m@, 2 * k));
    let mut y: usize = 0;
    while y < w
        invariant
            w <= 177,
            m@.len() == w * w,
            y % 2 == 0,
            y <= w + 1,
            rows == Seq::new(((w + 1) / 2) as nat, |k: int| block_row(w as nat, m@, 2 * k)),
            lines@.map_values(|l: String| l@) == seq![repeat_char(' ', (w + 2) as nat)] + rows.take(
                (y / 2) as int,
            ),
        decreases (w + 1) - y,
    {
        let row = block_row_text(w, &m, y);
        let ghost k = (y / 2) as int;
        assert(2 * k == y);
        assert(k < rows.len());
        assert(rows[k] == block_row(w as nat, m@, y as int));
        assert(rows.take(k + 1) =~= rows.take(k).push(rows[k]));
        let ghost before = lines@;
        lines.push(row);
        assert(lines@.map_values(|l: String| l@) =~= before.map_values(|l: String| l@).push(
            rows[k],
        ));
        y = y + 2;
        assert((y / 2) as int == k + 1);
        assert(lines@.map_values(|l: String| l@) =~= seq![repeat_char(' ', (w + 2) as nat)] + rows.take(
            (y / 2) as int,
        ));
    }
    assert(rows.take(((w + 1) / 2) as int) =~= rows);
    assert(y / 2 == (w + 1) / 2);
    let mut blank2 = String::new();
    push_repeat(&mut blank2, ' ', w + 2);
    lines.push(blank2);
    assert(lines@.map_values(|l: String| l@) =~= block_rows(w as nat, m@));
    Ok(lines)
}

} // verus!
