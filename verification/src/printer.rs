//! Thermal printer configuration and the ESC/POS byte stream of kitchen tickets.
use vstd::prelude::*;
use vstd::utf8::encode_utf8;

use crate::config::{entries_view, ConfigMap};
use crate::models::{opt_view, CartLine, Order};
use crate::receipts::{local_time_text, printed_name, printed_restaurant_name};
use crate::seqs::{first_index, lemma_first_index, lemma_first_index_is, lemma_first_index_none};
use crate::text::{
    ascii_lower_chars, ascii_lower_seq, chars_eq, chars_of, decimal, decimal_seq, pad_left_seq,
    pad_right_seq, string_of, trim_chars, trim_seq,
};

verus! {

/// Configured output destination for thermal printing.
#[derive(Clone, Debug)]
pub enum PrinterMode {
    /// Use the system spooler (`lp` command).
    Lpr,
    /// Direct byte write to a character device or serial port.
    Device(String),
    /// Direct TCP socket to a network thermal printer.
    Network(String),
    /// Simulation mode that writes the raw bytes to files.
    Simulated,
}

#[derive(Clone, Debug)]
pub struct PrinterConfig {
    pub mode: PrinterMode,
    pub bill_printer: String,
    pub kot_printer: String,
    pub cash_drawer_enabled: bool,
}

/// The printer mode a configuration describes.
pub enum ModeKind {
    Lpr,
    Device(Seq<char>),
    Network(Seq<char>),
    Simulated,
}

pub open spec fn mode_kind(m: PrinterMode) -> ModeKind {
    match m {
        PrinterMode::Lpr => ModeKind::Lpr,
        PrinterMode::Device(d) => ModeKind::Device(d@),
        PrinterMode::Network(a) => ModeKind::Network(a@),
        PrinterMode::Simulated => ModeKind::Simulated,
    }
}

impl Default for PrinterConfig {
    fn default() -> (c: PrinterConfig)
        ensures
            mode_kind(c.mode) == ModeKind::Lpr,
            c.bill_printer@.len() == 0,
            c.kot_printer@.len() == 0,
            c.cash_drawer_enabled,
    {
        PrinterConfig {
            mode: PrinterMode::Lpr,
            bill_printer: String::new(),
            kot_printer: String::new(),
            cash_drawer_enabled: true,
        }
    }
}

/// A stored value or the empty string.
pub open spec fn or_empty(v: Option<Seq<char>>) -> Seq<char> {
    match v {
        Some(s) => s,
        None => Seq::empty(),
    }
}

/// The mode word of a configuration: the trimmed, lowercased `PrinterMode`
/// setting, "lpr" when absent.
pub open spec fn mode_word(m: ConfigMap) -> Seq<char> {
    match m.lookup("PrinterMode"@) {
        Some(v) => ascii_lower_seq(trim_seq(v)),
        None => "lpr"@,
    }
}

/// The printer mode a configuration selects.
pub open spec fn configured_mode(m: ConfigMap) -> ModeKind {
    let w = mode_word(m);
    let bill = or_empty(m.lookup("BillPrinter"@));
    if w == "device"@ || w == "raw_device"@ || w == "usb"@ {
        ModeKind::Device(if bill.len() == 0 { "/dev/usb/lp0"@ } else { bill })
    } else if w == "network"@ || w == "tcp"@ || w == "socket"@ {
        ModeKind::Network(if bill.len() == 0 { "127.0.0.1:9100"@ } else { bill })
    } else if w == "simulated"@ || w == "file"@ || w == "test"@ {
        ModeKind::Simulated
    } else {
        ModeKind::Lpr
    }
}

/// The cash drawer opens unless `CashDrawerEnabled` is set to something other
/// than "true", "1" or "yes".
pub open spec fn configured_drawer(m: ConfigMap) -> bool {
    match m.lookup("CashDrawerEnabled"@) {
        Some(v) => {
            let w = ascii_lower_seq(trim_seq(v));
            w == "true"@ || w == "1"@ || w == "yes"@
        },
        None => true,
    }
}

/// Whether `w` equals one of three words.
fn is_one_of(w: &Vec<char>, a: &str, b: &str, c: &str) -> (r: bool)
    ensures
        r == (w@ == a@ || w@ == b@ || w@ == c@),
{
    let va = chars_of(a);
    let vb = chars_of(b);
    let vc = chars_of(c);
    chars_eq(w, &va) || chars_eq(w, &vb) || chars_eq(w, &vc)
}

/// The trimmed ASCII-lowercase characters of `s`.
fn normalized(s: &str) -> (r: Vec<char>)
    ensures
        r@ == ascii_lower_seq(trim_seq(s@)),
{
    let v = chars_of(s);
    let t = trim_chars(&v);
    ascii_lower_chars(&t)
}

impl PrinterConfig {
    /// Printer settings from `config.csv` keys `PrinterMode`, `BillPrinter`,
    /// `KotPrinter` and `CashDrawerEnabled`.
    pub fn from_map(map: &ConfigMap) -> (c: PrinterConfig)
        ensures
            mode_kind(c.mode) == configured_mode(*map),
            c.bill_printer@ == or_empty(map.lookup("BillPrinter"@)),
            c.kot_printer@ == or_empty(map.lookup("KotPrinter"@)),
            c.cash_drawer_enabled == configured_drawer(*map),
    {
        let mode_str: Vec<char> = match map.get("PrinterMode") {
            Some(v) => normalized(v.as_str()),
            None => chars_of("lpr"),
        };
        let bill_printer = match map.get("BillPrinter") {
            Some(v) => v,
            None => String::new(),
        };
        let kot_printer = match map.get("KotPrinter") {
            Some(v) => v,
            None => String::new(),
        };
        let cash_drawer_enabled = match map.get("CashDrawerEnabled") {
            Some(v) => {
                let w = normalized(v.as_str());
                is_one_of(&w, "true", "1", "yes")
            },
            None => true,
        };
        let mode = if is_one_of(&mode_str, "device", "raw_device", "usb") {
            if bill_printer.unicode_len() == 0 {
                PrinterMode::Device(String::from_str("/dev/usb/lp0"))
            } else {
                PrinterMode::Device(bill_printer.clone())
            }
        } else if is_one_of(&mode_str, "network", "tcp", "socket") {
            if bill_printer.unicode_len() == 0 {
                PrinterMode::Network(String::from_str("127.0.0.1:9100"))
            } else {
                PrinterMode::Network(bill_printer.clone())
            }
        } else if is_one_of(&mode_str, "simulated", "file", "test") {
            PrinterMode::Simulated
        } else {
            PrinterMode::Lpr
        };
        PrinterConfig { mode, bill_printer, kot_printer, cash_drawer_enabled }
    }
}

// ---------------------------------------------------------------------------
// Configuration lookup by alternative keys
// ---------------------------------------------------------------------------

/// The entry's key matches `k` ignoring ASCII case and its value is not blank.
pub open spec fn loose_match(k: Seq<char>) -> spec_fn((Seq<char>, Seq<char>)) -> bool {
    |e: (Seq<char>, Seq<char>)| ascii_lower_seq(e.0) == ascii_lower_seq(k) && trim_seq(e.1).len() > 0
}

/// The value a single key yields: its own non-blank value, else the first
/// entry whose key matches ignoring ASCII case and has a non-blank value;
/// trimmed either way.
pub open spec fn key_value(m: ConfigMap, k: Seq<char>) -> Option<Seq<char>> {
    match m.lookup(k) {
        Some(v) if trim_seq(v).len() > 0 => Some(trim_seq(v)),
        _ => match first_index(entries_view(m.entries@), loose_match(k)) {
            Some(i) => Some(trim_seq(entries_view(m.entries@)[i].1)),
            None => None,
        },
    }
}

/// The value of the first key, among alternatives, that yields one.
pub open spec fn setting_value(m: ConfigMap, keys: Seq<Seq<char>>) -> Option<Seq<char>>
    decreases keys.len(),
{
    if keys.len() == 0 {
        None
    } else {
        match key_value(m, keys[0]) {
            Some(v) => Some(v),
            None => setting_value(m, keys.drop_first()),
        }
    }
}

/// The first entry whose key matches `k` ignoring ASCII case and whose value
/// is not blank, trimmed.
fn loose_lookup(m: &ConfigMap, k: &str) -> (r: Option<String>)
    ensures
        match r {
            Some(v) => first_index(entries_view(m.entries@), loose_match(k@)) matches Some(i)
                && v@ == trim_seq(entries_view(m.entries@)[i].1),
            None => first_index(entries_view(m.entries@), loose_match(k@)) is None,
        },
{
    let kl = ascii_lower_chars(&chars_of(k));
    let mut i: usize = 0;
    while i < m.entries.len()
        invariant
            i <= m.entries@.len(),
            kl@ == ascii_lower_seq(k@),
            forall|j: int| 0 <= j < i ==> !(loose_match(k@))(#[trigger] entries_view(m.entries@)[j]),
        decreases m.entries.len() - i,
    {
        let ek = ascii_lower_chars(&chars_of(m.entries[i].0.as_str()));
        let ev = trim_chars(&chars_of(m.entries[i].1.as_str()));
        if chars_eq(&ek, &kl) && ev.len() > 0 {
            proof {
                lemma_first_index_is(entries_view(m.entries@), loose_match(k@), i as int);
            }
            return Some(string_of(&ev));
        }
        i = i + 1;
    }
    proof {
        lemma_first_index_none(entries_view(m.entries@), loose_match(k@));
    }
    None
}

/// The value one key yields.
fn lookup_key(m: &ConfigMap, k: &str) -> (r: Option<String>)
    ensures
        match r {
            Some(v) => key_value(*m, k@) == Some(v@),
            None => key_value(*m, k@) is None,
        },
{
    match m.get(k) {
        Some(v) => {
            let t = trim_chars(&chars_of(v.as_str()));
            if t.len() > 0 {
                Some(string_of(&t))
            } else {
                loose_lookup(m, k)
            }
        },
        None => loose_lookup(m, k),
    }
}

/// The value of the first key among `keys` that yields one (see `key_value`).
pub fn config_setting(m: &ConfigMap, keys: &[&str]) -> (r: Option<String>)
    ensures
        match r {
            Some(v) => setting_value(*m, keys@.map_values(|k: &str| k@)) == Some(v@),
            None => setting_value(*m, keys@.map_values(|k: &str| k@)) is None,
        },
{
    let ghost ks = keys@.map_values(|k: &str| k@);
    assert(ks.subrange(0, ks.len() as int) =~= ks);
    let mut i: usize = 0;
    while i < keys.len()
        invariant
            i <= keys@.len(),
            ks == keys@.map_values(|k: &str| k@),
            setting_value(*m, ks) == setting_value(*m, ks.subrange(i as int, ks.len() as int)),
        decreases keys.len() - i,
    {
        let ghost rest = ks.subrange(i as int, ks.len() as int);
        assert(rest[0] == keys@[i as int]@);
        assert(rest.drop_first() =~= ks.subrange(i + 1, ks.len() as int));
        match lookup_key(m, keys[i]) {
            Some(v) => {
                return Some(v);
            },
            None => {},
        }
        i = i + 1;
    }
    None
}

// ---------------------------------------------------------------------------
// ESC/POS kitchen ticket
// ---------------------------------------------------------------------------

pub open spec fn esc_init() -> Seq<u8> {
    seq![0x1Bu8, 0x40u8]
}

pub open spec fn esc_align_left() -> Seq<u8> {
    seq![0x1Bu8, 0x61u8, 0x00u8]
}

pub open spec fn esc_align_center() -> Seq<u8> {
    seq![0x1Bu8, 0x61u8, 0x01u8]
}

pub open spec fn esc_bold_on() -> Seq<u8> {
    seq![0x1Bu8, 0x45u8, 0x01u8]
}

pub open spec fn esc_bold_off() -> Seq<u8> {
    seq![0x1Bu8, 0x45u8, 0x00u8]
}

pub open spec fn esc_double_size() -> Seq<u8> {
    seq![0x1Du8, 0x21u8, 0x11u8]
}

pub open spec fn esc_normal_size() -> Seq<u8> {
    seq![0x1Du8, 0x21u8, 0x00u8]
}

pub open spec fn esc_cut_paper() -> Seq<u8> {
    seq![0x1Du8, 0x56u8, 0x42u8, 0x00u8]
}

pub open spec fn esc_drawer_kick() -> Seq<u8> {
    seq![0x1Bu8, 0x70u8, 0x00u8, 0x19u8, 0xFAu8]
}

/// The command bytes of one ESC/POS instruction.
pub enum EscCommand {
    Init,
    AlignLeft,
    AlignCenter,
    AlignRight,
    BoldOn,
    BoldOff,
    DoubleSize,
    NormalSize,
    CutPaper,
    DrawerKick,
}

pub open spec fn command_bytes(c: EscCommand) -> Seq<u8> {
    match c {
        EscCommand::Init => esc_init(),
        EscCommand::AlignLeft => esc_align_left(),
        EscCommand::AlignCenter => esc_align_center(),
        EscCommand::AlignRight => seq![0x1Bu8, 0x61u8, 0x02u8],
        EscCommand::BoldOn => esc_bold_on(),
        EscCommand::BoldOff => esc_bold_off(),
        EscCommand::DoubleSize => esc_double_size(),
        EscCommand::NormalSize => esc_normal_size(),
        EscCommand::CutPaper => esc_cut_paper(),
        EscCommand::DrawerKick => esc_drawer_kick(),
    }
}

/// Appends the bytes of an ESC/POS command.
pub fn push_command(buf: &mut Vec<u8>, c: EscCommand)
    ensures
        final(buf)@ == old(buf)@ + command_bytes(c),
{
    let ghost start = buf@;
    match c {
        EscCommand::Init => {
            buf.push(0x1B);
            buf.push(0x40);
        },
        EscCommand::AlignLeft => {
            buf.push(0x1B);
            buf.push(0x61);
            buf.push(0x00);
        },
        EscCommand::AlignCenter => {
            buf.push(0x1B);
            buf.push(0x61);
            buf.push(0x01);
        },
        EscCommand::AlignRight => {
            buf.push(0x1B);
            buf.push(0x61);
            buf.push(0x02);
        },
        EscCommand::BoldOn => {
            buf.push(0x1B);
            buf.push(0x45);
            buf.push(0x01);
        },
        EscCommand::BoldOff => {
            buf.push(0x1B);
            buf.push(0x45);
            buf.push(0x00);
        },
        EscCommand::DoubleSize => {
            buf.push(0x1D);
            buf.push(0x21);
            buf.push(0x11);
        },
        EscCommand::NormalSize => {
            buf.push(0x1D);
            buf.push(0x21);
            buf.push(0x00);
        },
        EscCommand::CutPaper => {
            buf.push(0x1D);
            buf.push(0x56);
            buf.push(0x42);
            buf.push(0x00);
        },
        EscCommand::DrawerKick => {
            buf.push(0x1B);
            buf.push(0x70);
            buf.push(0x00);
            buf.push(0x19);
            buf.push(0xFA);
        },
    }
    assert(buf@ =~= start + command_bytes(c));
}

/// Appends the UTF-8 encoding of `s`.
pub fn push_text(buf: &mut Vec<u8>, s: &str)
    ensures
        final(buf)@ == old(buf)@ + encode_utf8(s@),
{
    let bytes = s.as_bytes();
    let ghost start = buf@;
    let mut i: usize = 0;
    while i < bytes.len()
        invariant
            i <= bytes@.len(),
            bytes@ == encode_utf8(s@),
            buf@ == start + bytes@.subrange(0, i as int),
        decreases bytes.len() - i,
    {
        buf.push(bytes[i]);
        i = i + 1;
        assert(buf@ =~= start + bytes@.subrange(0, i as int));
    }
    assert(bytes@.subrange(0, bytes@.len() as int) =~= bytes@);
}

/// The title of a kitchen ticket on the thermal printer.
pub open spec fn escpos_kot_title(is_reprint: bool, is_delta: bool) -> Seq<char> {
    if is_reprint {
        "*** KOT [REPRINT] ***"@
    } else if is_delta {
        "*** KOT [ADD-ON / DELTA] ***"@
    } else {
        "*** KOT (KITCHEN ORDER) ***"@
    }
}

/// A dashed rule line.
pub open spec fn dash_line() -> Seq<char> {
    "------------------------------------------\n"@
}

/// The bytes of one printed ticket line: quantity right-aligned in three
/// columns, the dish name in bold, then the cooking note.
pub open spec fn escpos_item_bytes<M>(l: CartLine<M>) -> Seq<u8> {
    esc_bold_on() + encode_utf8(pad_left_seq(decimal_seq(l.qty as nat), 3) + " x  "@ + l.name@ + "\n"@)
        + esc_bold_off() + match l.note {
        Some(n) => encode_utf8("       >> NOTE: "@ + n@ + "\n"@),
        None => Seq::empty(),
    }
}

pub open spec fn escpos_items_bytes<M>(items: Seq<CartLine<M>>) -> Seq<u8>
    decreases items.len(),
{
    if items.len() == 0 {
        Seq::empty()
    } else {
        escpos_items_bytes(items.drop_last()) + escpos_item_bytes(items.last())
    }
}

/// The ESC/POS bytes of a kitchen ticket for `order` stamped with `time`.
pub open spec fn escpos_kot_bytes<M>(
    order: Order<M>,
    items: Seq<CartLine<M>>,
    is_reprint: bool,
    is_delta: bool,
    restaurant_name: Seq<char>,
    time: Seq<char>,
) -> Seq<u8> {
    esc_init() + esc_align_center() + esc_bold_on() + encode_utf8(
        printed_name(restaurant_name) + "\n"@,
    ) + esc_double_size() + encode_utf8(escpos_kot_title(is_reprint, is_delta) + "\n"@)
        + esc_normal_size() + esc_bold_off() + encode_utf8(dash_line()) + esc_align_left()
        + esc_bold_on() + encode_utf8(
        "TABLE: "@ + pad_right_seq(order.label@, 14) + " ORDER #"@ + decimal_seq(order.id as nat)
            + "\n"@,
    ) + match order.area {
        Some(a) => encode_utf8("AREA : "@ + a@ + "\n"@),
        None => Seq::empty(),
    } + esc_bold_off() + encode_utf8("TIME : "@ + time + "\n"@) + encode_utf8(dash_line())
        + encode_utf8("QTY    DISH NAME & CUSTOMIZATION\n"@) + encode_utf8(dash_line())
        + escpos_items_bytes(items) + encode_utf8(dash_line()) + esc_align_center() + encode_utf8(
        "-- Kitchen Copy --\n\n\n"@,
    ) + esc_cut_paper()
}

/// Appends the UTF-8 encoding of a character sequence held in a `String`.
fn push_string(buf: &mut Vec<u8>, s: &String)
    ensures
        final(buf)@ == old(buf)@ + encode_utf8(s@),
{
    push_text(buf, s.as_str());
}

/// Text with padding, built as a `String`.
fn padded_left(s: &str, width: usize) -> (r: String)
    ensures
        r@ == pad_left_seq(s@, width as nat),
{
    let mut r = String::new();
    crate::receipts::push_padded_left(&mut r, s, width);
    assert(r@ =~= pad_left_seq(s@, width as nat));
    r
}

fn padded_right(s: &str, width: usize) -> (r: String)
    ensures
        r@ == pad_right_seq(s@, width as nat),
{
    let mut r = String::new();
    crate::receipts::push_padded_right(&mut r, s, width);
    assert(r@ =~= pad_right_seq(s@, width as nat));
    r
}

/// Appends the bytes of one ticket line.
fn push_escpos_item<M>(buf: &mut Vec<u8>, l: &CartLine<M>)
    ensures
        final(buf)@ == old(buf)@ + escpos_item_bytes(*l),
{
    let ghost start = buf@;
    push_command(buf, EscCommand::BoldOn);
    let q = decimal(l.qty as u64);
    let mut line = padded_left(q.as_str(), 3);
    crate::text::push_str(&mut line, " x  ");
    crate::text::push_str(&mut line, l.name.as_str());
    crate::text::push_str(&mut line, "\n");
    push_string(buf, &line);
    push_command(buf, EscCommand::BoldOff);
    match &l.note {
        Some(n) => {
            let mut nl = String::from_str("       >> NOTE: ");
            crate::text::push_str(&mut nl, n.as_str());
            crate::text::push_str(&mut nl, "\n");
            push_string(buf, &nl);
        },
        None => {},
    }
    assert(buf@ =~= start + escpos_item_bytes(*l));
}

/// The ESC/POS bytes of a kitchen ticket stamped with `time`.
pub fn build_escpos_kot_at<M>(
    order: &Order<M>,
    items_to_print: &[CartLine<M>],
    is_reprint: bool,
    is_delta: bool,
    restaurant_name: &str,
    time: &str,
) -> (buf: Vec<u8>)
    ensures
        buf@ == escpos_kot_bytes(*order, items_to_print@, is_reprint, is_delta, restaurant_name@, time@),
{
    let mut buf: Vec<u8> = Vec::new();
    push_command(&mut buf, EscCommand::Init);
    push_command(&mut buf, EscCommand::AlignCenter);
    push_command(&mut buf, EscCommand::BoldOn);
    let mut name = printed_restaurant_name(restaurant_name);
    crate::text::push_str(&mut name, "\n");
    push_string(&mut buf, &name);
    push_command(&mut buf, EscCommand::DoubleSize);
    let title = if is_reprint {
        "*** KOT [REPRINT] ***\n"
    } else if is_delta {
        "*** KOT [ADD-ON / DELTA] ***\n"
    } else {
        "*** KOT (KITCHEN ORDER) ***\n"
    };
    proof {
        reveal_strlit("*** KOT [REPRINT] ***\n");
        reveal_strlit("*** KOT [REPRINT] ***");
        reveal_strlit("*** KOT [ADD-ON / DELTA] ***\n");
        reveal_strlit("*** KOT [ADD-ON / DELTA] ***");
        reveal_strlit("*** KOT (KITCHEN ORDER) ***\n");
        reveal_strlit("*** KOT (KITCHEN ORDER) ***");
        reveal_strlit("\n");
        assert(title@ =~= escpos_kot_title(is_reprint, is_delta) + "\n"@);
    }
    push_text(&mut buf, title);
    push_command(&mut buf, EscCommand::NormalSize);
    push_command(&mut buf, EscCommand::BoldOff);
    push_text(&mut buf, "------------------------------------------\n");
    push_command(&mut buf, EscCommand::AlignLeft);
    push_command(&mut buf, EscCommand::BoldOn);
    let mut head = String::from_str("TABLE: ");
    let lbl = padded_right(order.label.as_str(), 14);
    crate::text::push_str(&mut head, lbl.as_str());
    crate::text::push_str(&mut head, " ORDER #");
    let id = decimal(order.id as u64);
    crate::text::push_str(&mut head, id.as_str());
    crate::text::push_str(&mut head, "\n");
    push_string(&mut buf, &head);
    match &order.area {
        Some(a) => {
            let mut al = String::from_str("AREA : ");
            crate::text::push_str(&mut al, a.as_str());
            crate::text::push_str(&mut al, "\n");
            push_string(&mut buf, &al);
        },
        None => {},
    }
    push_command(&mut buf, EscCommand::BoldOff);
    let mut tl = String::from_str("TIME : ");
    crate::text::push_str(&mut tl, time);
    crate::text::push_str(&mut tl, "\n");
    push_string(&mut buf, &tl);
    push_text(&mut buf, "------------------------------------------\n");
    push_text(&mut buf, "QTY    DISH NAME & CUSTOMIZATION\n");
    push_text(&mut buf, "------------------------------------------\n");
    let ghost before_items = buf@;
    let mut i: usize = 0;
    while i < items_to_print.len()
        invariant
            i <= items_to_print@.len(),
            buf@ == before_items + escpos_items_bytes(items_to_print@.subrange(0, i as int)),
        decreases items_to_print.len() - i,
    {
        push_escpos_item(&mut buf, &items_to_print[i]);
        proof {
            assert(items_to_print@.subrange(0, i + 1).drop_last() =~= items_to_print@.subrange(
                0,
                i as int,
            ));
        }
        i = i + 1;
        assert(buf@ =~= before_items + escpos_items_bytes(items_to_print@.subrange(0, i as int)));
    }
    assert(items_to_print@.subrange(0, items_to_print@.len() as int) =~= items_to_print@);
    push_text(&mut buf, "------------------------------------------\n");
    push_command(&mut buf, EscCommand::AlignCenter);
    push_text(&mut buf, "-- Kitchen Copy --\n\n\n");
    push_command(&mut buf, EscCommand::CutPaper);
    assert(buf@ =~= escpos_kot_bytes(*order, items_to_print@, is_reprint, is_delta, restaurant_name@, time@));
    buf
}

/// The ESC/POS bytes of a kitchen ticket stamped with the current local time.
pub fn build_escpos_kot<M>(
    order: &Order<M>,
    items_to_print: &[CartLine<M>],
    is_reprint: bool,
    is_delta: bool,
    restaurant_name: &str,
) -> (buf: Vec<u8>)
    ensures
        exists|t: Seq<char>|
            buf@ == escpos_kot_bytes(*order, items_to_print@, is_reprint, is_delta, restaurant_name@, t),
{
    let time = local_time_text();
    build_escpos_kot_at(order, items_to_print, is_reprint, is_delta, restaurant_name, time.as_str())
}

} // verus!
