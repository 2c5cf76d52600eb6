//! Starting a session from what was loaded (database, CSV files, defaults),
//! importing and exporting the configuration, and the periodic tick.
use vstd::prelude::*;

use super::orders::{msg3, ready_table_saves};
use super::{App, AppEffect, HistoricalBill};
use crate::config::ConfigMap;
use crate::models::{
    Area, BillSummary, Focus, KotSummary, MenuItem, Offer, Order, PhysicalTable, RecentTab,
};
use crate::printer::{config_setting, setting_value, PrinterConfig};
use crate::tables::{after_tick, count_cleaned, max_takeout_number, max_takeout_of};
use crate::text::{chars_of, concat, decimal, decimal_seq, push_str, str_eq, trim, trim_seq};

verus! {

// ---------------------------------------------------------------------------
// Menu categories
// ---------------------------------------------------------------------------

/// The category tabs for the first `n` menu items: "ALL", then each
/// non-blank category in order of first appearance.
pub open spec fn categories_upto<M>(items: Seq<MenuItem<M>>, n: nat) -> Seq<Seq<char>>
    decreases n,
{
    if n == 0 {
        seq!["ALL"@]
    } else {
        let prev = categories_upto(items, (n - 1) as nat);
        let c = items[n - 1].category@;
        if trim_seq(c).len() > 0 && !prev.contains(c) {
            prev.push(c)
        } else {
            prev
        }
    }
}

/// Whether `list` holds `s`.
fn strings_contain(list: &Vec<String>, s: &str) -> (r: bool)
    ensures
        r == list@.map_values(|t: String| t@).contains(s@),
{
    let ghost views = list@.map_values(|t: String| t@);
    let mut i: usize = 0;
    while i < list.len()
        invariant
            i <= list@.len(),
            views == list@.map_values(|t: String| t@),
            forall|j: int| 0 <= j < i ==> views[j] != s@,
        decreases list.len() - i,
    {
        if str_eq(list[i].as_str(), s) {
            assert(views[i as int] == s@);
            return true;
        }
        i = i + 1;
    }
    false
}

/// The category tabs of a menu: "ALL", then each non-blank category in
/// order of first appearance.
pub fn menu_categories<M>(items: &Vec<MenuItem<M>>) -> (r: Vec<String>)
    ensures
        r@.map_values(|t: String| t@) == categories_upto(items@, items@.len()),
{
    let mut r: Vec<String> = Vec::new();
    r.push(String::from_str("ALL"));
    assert(r@.map_values(|t: String| t@) =~= categories_upto(items@, 0));
    let mut i: usize = 0;
    while i < items.len()
        invariant
            i <= items@.len(),
            r@.map_values(|t: String| t@) == categories_upto(items@, i as nat),
        decreases items.len() - i,
    {
        let c = items[i].category.as_str();
        let t = trim(c);
        if t.unicode_len() > 0 && !strings_contain(&r, c) {
            r.push(items[i].category.clone());
        }
        i = i + 1;
        assert(r@.map_values(|t: String| t@) =~= categories_upto(items@, i as nat));
    }
    r
}

// ---------------------------------------------------------------------------
// Startup
// ---------------------------------------------------------------------------

/// A setting at startup: the stored value when it is not blank, else the
/// first configured alternative key, else the default.
pub open spec fn startup_value(stored: Option<Seq<char>>, m: ConfigMap, keys: Seq<Seq<char>>, default: Seq<char>) -> Seq<char> {
    match stored {
        Some(s) if trim_seq(s).len() > 0 => s,
        _ => match setting_value(m, keys) {
            Some(v) => v,
            None => default,
        },
    }
}

/// A setting at startup (see `startup_value`).
pub fn startup_setting(stored: Option<String>, m: &ConfigMap, keys: &[&str], default: &str) -> (r: String)
    ensures
        r@ == startup_value(crate::models::opt_view(stored), *m, keys@.map_values(|k: &str| k@), default@),
{
    match stored {
        Some(s) => {
            let t = trim(s.as_str());
            if t.unicode_len() > 0 {
                return s;
            }
        },
        None => {},
    }
    match config_setting(m, keys) {
        Some(v) => v,
        None => String::from_str(default),
    }
}

/// The next bill number: the database's next number, but above every open
/// order's id.
pub open spec fn next_number_after<M>(db_next: u32, orders: Seq<Order<M>>) -> u32
    decreases orders.len(),
{
    if orders.len() == 0 {
        db_next
    } else {
        let prev = next_number_after(db_next, orders.drop_last());
        let id = orders.last().id;
        let above = if id == u32::MAX {
            u32::MAX
        } else {
            (id + 1) as u32
        };
        if above > prev {
            above
        } else {
            prev
        }
    }
}

/// The next bill number: the larger of the database's next number and one
/// above the largest open order id (saturating).
pub fn next_order_number<M>(db_next: u32, orders: &Vec<Order<M>>) -> (r: u32)
    ensures
        r == next_number_after(db_next, orders@),
{
    let mut best = db_next;
    let mut i: usize = 0;
    while i < orders.len()
        invariant
            i <= orders@.len(),
            best == next_number_after(db_next, orders@.take(i as int)),
        decreases orders.len() - i,
    {
        assert(orders@.take(i + 1).drop_last() =~= orders@.take(i as int));
        let id = orders[i].id;
        let above = if id == 0xFFFF_FFFFu32 {
            0xFFFF_FFFFu32
        } else {
            id + 1
        };
        if above > best {
            best = above;
        }
        i = i + 1;
    }
    assert(orders@.take(orders@.len() as int) =~= orders@);
    best
}

// ---------------------------------------------------------------------------
// Start-up sources
// ---------------------------------------------------------------------------

/// The menu a session starts with: the stored catalogue when it has items,
/// else the items read from menu.csv when there are any, else the built-in
/// default menu; and whether that choice must be stored (it was not the
/// stored catalogue).
pub fn startup_menu<M>(stored: Option<Vec<MenuItem<M>>>, from_file: Result<Vec<MenuItem<M>>, String>) -> (r: (
    Vec<MenuItem<M>>,
    bool,
))
    ensures
        (stored matches Some(v) && v@.len() > 0) ==> r.0 == stored->Some_0 && !r.1,
        !(stored matches Some(v) && v@.len() > 0) ==> r.1 && if from_file matches Ok(f) && f@.len() > 0 {
            r.0 == from_file->Ok_0
        } else {
            r.0@.len() == 0
        },
{
    match stored {
        Some(v) => {
            if v.len() > 0 {
                return (v, false);
            }
        },
        None => {},
    }
    match from_file {
        Ok(f) => {
            if f.len() > 0 {
                return (f, true);
            }
        },
        Err(_) => {},
    }
    (crate::config::default_menu(), true)
}

/// The dining areas a session starts with: the stored areas when there are
/// any, else those read from table.csv, else those read from areas.csv, else
/// the default layout; and whether that choice must be stored.
pub fn startup_areas(
    stored: Option<Vec<Area>>,
    from_table: Result<Vec<Area>, String>,
    from_areas: Result<Vec<Area>, String>,
) -> (r: (Vec<Area>, bool))
    ensures
        (stored matches Some(v) && v@.len() > 0) ==> r.0 == stored->Some_0 && !r.1,
        !(stored matches Some(v) && v@.len() > 0) ==> r.1 && match (from_table, from_areas) {
            (Ok(t), _) => r.0 == t,
            (Err(_), Ok(a)) => r.0 == a,
            (Err(_), Err(_)) => r.0@.len() == 4 && forall|i: int|
                0 <= i < 4 ==> #[trigger] r.0@[i].spec_key() == crate::models::default_area_specs()[i],
        },
{
    match stored {
        Some(v) => {
            if v.len() > 0 {
                return (v, false);
            }
        },
        None => {},
    }
    match from_table {
        Ok(t) => (t, true),
        Err(_) => match from_areas {
            Ok(a) => (a, true),
            Err(_) => (Area::defaults(), true),
        },
    }
}

/// What a session starts from, as loaded by the caller.
pub struct SessionSetup<M> {
    pub items: Vec<MenuItem<M>>,
    pub orders: Vec<Order<M>>,
    pub next_order_id: u32,
    pub physical_tables: Vec<PhysicalTable>,
    pub areas: Vec<Area>,
    pub restaurant_name: String,
    pub restaurant_address: String,
    pub restaurant_contact: String,
    pub gst_number: String,
    pub ac_rate: M,
    pub no_charge: M,
    pub offers: Vec<Offer<M>>,
    pub upi_id: String,
    pub recent_bills: Vec<BillSummary<M>>,
    pub recent_kots: Vec<KotSummary>,
    pub printer_config: PrinterConfig,
    pub has_database: bool,
}

impl<M> App<M> {
    /// A session over what was loaded: the menu panel focused, the first
    /// open order active, the category tabs of the menu, and take-out
    /// numbering after the highest "TK" order.
    pub fn from_setup(s: SessionSetup<M>) -> (app: App<M>)
        ensures
            app.wf(),
            app.items == s.items,
            app.orders == s.orders,
            app.active_order == 0,
            app.next_order_id == s.next_order_id,
            app.next_takeout_id as nat == (if max_takeout_of(s.orders@) >= u32::MAX {
                u32::MAX as nat
            } else {
                max_takeout_of(s.orders@) + 1
            }),
            app.physical_tables == s.physical_tables,
            app.areas == s.areas,
            app.restaurant_name == s.restaurant_name,
            app.restaurant_address == s.restaurant_address,
            app.restaurant_contact == s.restaurant_contact,
            app.gst_number == s.gst_number,
            app.ac_rate == s.ac_rate,
            app.no_charge == s.no_charge,
            app.offers == s.offers,
            app.upi_id == s.upi_id,
            app.recent_bills == s.recent_bills,
            app.recent_kots == s.recent_kots,
            app.printer_config == s.printer_config,
            app.has_database == s.has_database,
            app.categories@.map_values(|t: String| t@) == categories_upto(s.items@, s.items@.len()),
            app.focus == Focus::Menu,
            app.focus_return == Focus::Cart,
            app.recent_tab == RecentTab::Bills,
            app.selected_area_index == 0,
            app.selected_table_index == 0,
            app.selected_category_index == 0,
            app.menu_index == 0,
            !app.show_help,
            app.search@.len() == 0,
            app.notifications@.len() == 0,
            app.pending_effects@.len() == 0,
            app.bill_search_results@.len() == 0,
            app.kds_kots@.len() == 0,
    {
        let max_tk = max_takeout_number(s.orders.as_slice());
        let next_takeout_id = if max_tk == 0xFFFF_FFFFu32 {
            0xFFFF_FFFFu32
        } else {
            max_tk + 1
        };
        let categories = menu_categories(&s.items);
        App {
            items: s.items,
            orders: s.orders,
            active_order: 0,
            next_order_id: s.next_order_id,
            next_takeout_id,
            physical_tables: s.physical_tables,
            areas: s.areas,
            restaurant_name: s.restaurant_name,
            restaurant_address: s.restaurant_address,
            restaurant_contact: s.restaurant_contact,
            gst_number: s.gst_number,
            ac_rate: s.ac_rate,
            no_charge: s.no_charge,
            offers: s.offers,
            upi_id: s.upi_id,
            menu_index: 0,
            search: String::new(),
            focus: Focus::Menu,
            selected_area_index: 0,
            selected_table_index: 0,
            notifications: Vec::new(),
            recent_bills: s.recent_bills,
            recent_bill_index: 0,
            recent_kots: s.recent_kots,
            recent_kot_index: 0,
            recent_tab: RecentTab::Bills,
            focus_return: Focus::Cart,
            mobile_buffer: String::new(),
            payment_mode_index: 0,
            close_on_payment: false,
            offer_index: 0,
            pending_mobile: String::new(),
            show_help: false,
            table_input: String::new(),
            table_search_index: 0,
            bill_search_query: String::new(),
            bill_search_results: Vec::new(),
            bill_search_index: 0,
            item_note_buffer: String::new(),
            table_move_target_index: 0,
            categories,
            selected_category_index: 0,
            kds_kots: Vec::new(),
            kds_index: 0,
            printer_config: s.printer_config,
            has_database: s.has_database,
            pending_effects: Vec::new(),
        }
    }

    /// Lays the tables out again for the current areas, keeping the state
    /// of every table that still exists.
    pub fn rebuild_physical_tables(&mut self)
        ensures
            final(self).physical_tables@.len() == crate::tables::layout(old(self).areas@).len(),
            forall|k: int|
                0 <= k < final(self).physical_tables@.len() ==> crate::tables::slot_of(
                    #[trigger] final(self).physical_tables@[k],
                ) == crate::tables::layout(old(self).areas@)[k] && crate::tables::table_state(
                    final(self).physical_tables@[k],
                ) == crate::tables::carried_state(
                    old(self).physical_tables@,
                    crate::tables::layout(old(self).areas@)[k].0,
                    crate::tables::layout(old(self).areas@)[k].1,
                ),
            *final(self) == (App { physical_tables: final(self).physical_tables, ..*old(self) }),
    {
        let t = crate::tables::rebuild_physical_tables(self.areas.as_slice(), &self.physical_tables);
        self.physical_tables = t;
    }
}

impl<M: Copy> App<M> {
    /// The periodic tick at time `now`: tables whose cleaning window ran out
    /// become Ready, and the count is announced.
    pub fn on_tick(&mut self, now: i64) -> (cleaned: usize)
        ensures
            cleaned == count_cleaned(old(self).physical_tables@, now),
            cleaned > 0 ==> final(self).notes() == old(self).notes().push(
                decimal_seq(cleaned as nat) + " table(s) cleaned and back to Ready."@,
            ),
            cleaned == 0 ==> final(self).notes() == old(self).notes(),
            final(self).physical_tables@.len() == old(self).physical_tables@.len(),
            forall|k: int|
                0 <= k < old(self).physical_tables@.len() ==> #[trigger] final(self).physical_tables@[k]
                    == after_tick(old(self).physical_tables@[k], now),
            cleaned == 0 ==> final(self).pending_effects@ == old(self).pending_effects@,
            cleaned > 0 ==> final(self).pending_effects@ == old(self).pending_effects@ + ready_table_saves(
                final(self).physical_tables@,
            ),
            *final(self) == (App {
                physical_tables: final(self).physical_tables,
                pending_effects: final(self).pending_effects,
                notifications: final(self).notifications,
                ..*old(self)
            }),
    {
        let cleaned = self.tick_cleaning(now);
        if cleaned > 0 {
            let d = decimal(cleaned as u64);
            self.notify(concat(d.as_str(), " table(s) cleaned and back to Ready."));
        }
        cleaned
    }
}

// ---------------------------------------------------------------------------
// Importing and exporting the configuration
// ---------------------------------------------------------------------------

/// The first of `keys` that the map holds, exactly as stored.
pub open spec fn first_lookup(m: ConfigMap, keys: Seq<Seq<char>>) -> Option<Seq<char>>
    decreases keys.len(),
{
    if keys.len() == 0 {
        None
    } else {
        match m.lookup(keys[0]) {
            Some(v) => Some(v),
            None => first_lookup(m, keys.drop_first()),
        }
    }
}

/// The value of the first of `keys` that the map holds, exactly as stored.
pub fn first_get(m: &ConfigMap, keys: &[&str]) -> (r: Option<String>)
    ensures
        match r {
            Some(v) => first_lookup(*m, keys@.map_values(|k: &str| k@)) == Some(v@),
            None => first_lookup(*m, keys@.map_values(|k: &str| k@)) is None,
        },
{
    let ghost ks = keys@.map_values(|k: &str| k@);
    assert(ks.subrange(0, ks.len() as int) =~= ks);
    let mut i: usize = 0;
    while i < keys.len()
        invariant
            i <= keys@.len(),
            ks == keys@.map_values(|k: &str| k@),
            first_lookup(*m, ks) == first_lookup(*m, ks.subrange(i as int, ks.len() as int)),
        decreases keys.len() - i,
    {
        let ghost rest = ks.subrange(i as int, ks.len() as int);
        assert(rest[0] == keys@[i as int]@);
        assert(rest.drop_first() =~= ks.subrange(i + 1, ks.len() as int));
        match m.get(keys[i]) {
            Some(v) => {
                return Some(v);
            },
            None => {},
        }
        i = i + 1;
    }
    None
}

/// The restaurant settings an import brings.
pub struct ImportedSettings {
    pub restaurant_name: String,
    pub restaurant_address: String,
    pub restaurant_contact: String,
    pub gst_number: String,
    pub upi_id: String,
}

/// The message an import stops with, if any: the first file that failed to
/// load, or is empty where it must not be.
pub open spec fn import_problem_text<M>(
    menu: Result<Vec<MenuItem<M>>, String>,
    areas: Result<Vec<Area>, String>,
    offers: Result<Vec<Offer<M>>, String>,
    config: Result<ConfigMap, String>,
) -> Option<Seq<char>> {
    match menu {
        Err(e) => Some("Menu import failed: "@ + e@),
        Ok(items) if items@.len() == 0 => Some("Import skipped: menu.csv empty."@),
        Ok(_) => match areas {
            Err(e) => Some("Tables import failed: "@ + e@),
            Ok(a) if a@.len() == 0 => Some("Import skipped: table.csv / areas.csv empty."@),
            Ok(_) => match offers {
                Err(e) => Some("Offers import failed: "@ + e@),
                Ok(_) => match config {
                    Err(e) => Some("Config import failed: "@ + e@),
                    Ok(_) => None,
                },
            },
        },
    }
}

/// The areas an import uses: those of table.csv, or, when it cannot be
/// read, those of areas.csv.
pub fn import_areas(from_table: Result<Vec<Area>, String>, from_areas: Result<Vec<Area>, String>) -> (r: Result<
    Vec<Area>,
    String,
>)
    ensures
        from_table is Ok ==> r == from_table,
        from_table is Err ==> r == from_areas,
{
    match from_table {
        Ok(v) => Ok(v),
        Err(_) => from_areas,
    }
}

/// The message an import stops with, if any (see `import_problem_text`).
pub fn import_problem<M>(
    menu: &Result<Vec<MenuItem<M>>, String>,
    areas: &Result<Vec<Area>, String>,
    offers: &Result<Vec<Offer<M>>, String>,
    config: &Result<ConfigMap, String>,
) -> (r: Option<String>)
    ensures
        match r {
            Some(m) => import_problem_text(*menu, *areas, *offers, *config) == Some(m@),
            None => import_problem_text(*menu, *areas, *offers, *config) is None,
        },
{
    match menu {
        Err(e) => {
            return Some(concat("Menu import failed: ", e.as_str()));
        },
        Ok(items) => {
            if items.len() == 0 {
                return Some(String::from_str("Import skipped: menu.csv empty."));
            }
        },
    }
    match areas {
        Err(e) => {
            return Some(concat("Tables import failed: ", e.as_str()));
        },
        Ok(a) => {
            if a.len() == 0 {
                return Some(String::from_str("Import skipped: table.csv / areas.csv empty."));
            }
        },
    }
    match offers {
        Err(e) => {
            return Some(concat("Offers import failed: ", e.as_str()));
        },
        Ok(_) => {},
    }
    match config {
        Err(e) => Some(concat("Config import failed: ", e.as_str())),
        Ok(_) => None,
    }
}

impl<M> App<M> {
    /// Checks what an import read: when a file failed to load or is empty
    /// where it must not be, announces the first such problem (see
    /// `import_problem_text`) and changes nothing else; otherwise changes
    /// nothing and hands back the menu, areas, offers and settings to put in
    /// place.
    pub fn check_import(
        &mut self,
        menu: Result<Vec<MenuItem<M>>, String>,
        areas: Result<Vec<Area>, String>,
        offers: Result<Vec<Offer<M>>, String>,
        config: Result<ConfigMap, String>,
    ) -> (r: Option<(Vec<MenuItem<M>>, Vec<Area>, Vec<Offer<M>>, ConfigMap)>)
        ensures
            import_problem_text(menu, areas, offers, config) matches Some(m) ==> (r is None && final(self).notes()
                == old(self).notes().push(m) && *final(self) == (App {
                notifications: final(self).notifications,
                ..*old(self)
            })),
            import_problem_text(menu, areas, offers, config) is None ==> *final(self) == *old(self) && (r matches Some(
                t,
            ) && menu == Ok::<Vec<MenuItem<M>>, String>(t.0) && areas == Ok::<Vec<Area>, String>(t.1) && offers
                == Ok::<Vec<Offer<M>>, String>(t.2) && config == Ok::<ConfigMap, String>(t.3)),
    {
        match import_problem(&menu, &areas, &offers, &config) {
            Some(m) => {
                self.notify(m);
                None
            },
            None => match (menu, areas, offers, config) {
                (Ok(a), Ok(b), Ok(c), Ok(d)) => Some((a, b, c, d)),
                _ => None,
            },
        }
    }
}

/// The text of the AC rate an import brings, if any.
pub fn import_ac_rate_text(m: &ConfigMap) -> (r: Option<String>)
    ensures
        match r {
            Some(v) => first_lookup(*m, seq!["AcRate"@, "ac_rate"@]) == Some(v@),
            None => first_lookup(*m, seq!["AcRate"@, "ac_rate"@]) is None,
        },
{
    let keys: [&str; 2] = ["AcRate", "ac_rate"];
    proof {
        assert(keys@.map_values(|k: &str| k@) =~= seq!["AcRate"@, "ac_rate"@]);
    }
    first_get(m, &keys)
}

/// A setting an import brings: the first key present, else the current value.
pub open spec fn imported_value(m: ConfigMap, keys: Seq<Seq<char>>, current: Seq<char>) -> Seq<char> {
    match first_lookup(m, keys) {
        Some(v) => v,
        None => current,
    }
}

fn imported_setting(m: &ConfigMap, keys: &[&str], current: &String) -> (r: String)
    ensures
        r@ == imported_value(*m, keys@.map_values(|k: &str| k@), current@),
{
    match first_get(m, keys) {
        Some(v) => v,
        None => current.clone(),
    }
}

impl<M> App<M> {
    /// The restaurant settings read from an imported config map, keeping the
    /// current value of each one the map lacks.
    pub fn import_settings(&self, m: &ConfigMap) -> (r: ImportedSettings)
        ensures
            r.restaurant_name@ == imported_value(
                *m,
                seq!["RestaurantName"@, "restaurant_name"@, "HotelName"@],
                self.restaurant_name@,
            ),
            r.restaurant_address@ == imported_value(
                *m,
                seq!["Address"@, "address"@, "restaurant_address"@],
                self.restaurant_address@,
            ),
            r.restaurant_contact@ == imported_value(
                *m,
                seq!["Contact"@, "contact"@, "Phone"@, "restaurant_contact"@],
                self.restaurant_contact@,
            ),
            r.gst_number@ == imported_value(*m, seq!["GSTNumber"@, "gst_number"@, "GST"@], self.gst_number@),
            r.upi_id@ == imported_value(*m, seq!["UpiId"@, "upi_id"@], self.upi_id@),
    {
        let k1: [&str; 3] = ["RestaurantName", "restaurant_name", "HotelName"];
        let k2: [&str; 3] = ["Address", "address", "restaurant_address"];
        let k3: [&str; 4] = ["Contact", "contact", "Phone", "restaurant_contact"];
        let k4: [&str; 3] = ["GSTNumber", "gst_number", "GST"];
        let k5: [&str; 2] = ["UpiId", "upi_id"];
        proof {
            assert(k1@.map_values(|k: &str| k@) =~= seq!["RestaurantName"@, "restaurant_name"@, "HotelName"@]);
            assert(k2@.map_values(|k: &str| k@) =~= seq!["Address"@, "address"@, "restaurant_address"@]);
            assert(k3@.map_values(|k: &str| k@) =~= seq![
                "Contact"@,
                "contact"@,
                "Phone"@,
                "restaurant_contact"@,
            ]);
            assert(k4@.map_values(|k: &str| k@) =~= seq!["GSTNumber"@, "gst_number"@, "GST"@]);
            assert(k5@.map_values(|k: &str| k@) =~= seq!["UpiId"@, "upi_id"@]);
        }
        ImportedSettings {
            restaurant_name: imported_setting(m, &k1, &self.restaurant_name),
            restaurant_address: imported_setting(m, &k2, &self.restaurant_address),
            restaurant_contact: imported_setting(m, &k3, &self.restaurant_contact),
            gst_number: imported_setting(m, &k4, &self.gst_number),
            upi_id: imported_setting(m, &k5, &self.upi_id),
        }
    }

    /// Puts an imported configuration in place: menu, areas, offers,
    /// settings and AC rate; lays the tables out again for the new areas
    /// (keeping the state of tables that still exist) and announces it.
    pub fn apply_import(
        &mut self,
        items: Vec<MenuItem<M>>,
        areas: Vec<Area>,
        offers: Vec<Offer<M>>,
        settings: ImportedSettings,
        ac_rate: M,
    )
        ensures
            final(self).items == items,
            final(self).areas == areas,
            final(self).offers == offers,
            final(self).restaurant_name == settings.restaurant_name,
            final(self).restaurant_address == settings.restaurant_address,
            final(self).restaurant_contact == settings.restaurant_contact,
            final(self).gst_number == settings.gst_number,
            final(self).upi_id == settings.upi_id,
            final(self).ac_rate == ac_rate,
            final(self).physical_tables@.len() == crate::tables::layout(areas@).len(),
            forall|k: int|
                0 <= k < final(self).physical_tables@.len() ==> crate::tables::slot_of(
                    #[trigger] final(self).physical_tables@[k],
                ) == crate::tables::layout(areas@)[k] && crate::tables::table_state(
                    final(self).physical_tables@[k],
                ) == crate::tables::carried_state(
                    old(self).physical_tables@,
                    crate::tables::layout(areas@)[k].0,
                    crate::tables::layout(areas@)[k].1,
                ),
            final(self).notes() == old(self).notes().push("Imported configuration from CSV files."@),
            *final(self) == (App {
                items: final(self).items,
                areas: final(self).areas,
                offers: final(self).offers,
                restaurant_name: final(self).restaurant_name,
                restaurant_address: final(self).restaurant_address,
                restaurant_contact: final(self).restaurant_contact,
                gst_number: final(self).gst_number,
                upi_id: final(self).upi_id,
                ac_rate,
                physical_tables: final(self).physical_tables,
                notifications: final(self).notifications,
                ..*old(self)
            }),
    {
        self.items = items;
        self.areas = areas;
        self.offers = offers;
        self.restaurant_name = settings.restaurant_name;
        self.restaurant_address = settings.restaurant_address;
        self.restaurant_contact = settings.restaurant_contact;
        self.gst_number = settings.gst_number;
        self.upi_id = settings.upi_id;
        self.ac_rate = ac_rate;
        self.rebuild_physical_tables();
        self.notify(String::from_str("Imported configuration from CSV files."));
    }
}

/// The message an export ends with: the counts written, or a failure.
pub open spec fn export_text(
    menu: Result<usize, String>,
    tables: Result<usize, String>,
    offers: Result<usize, String>,
    config: Result<(), String>,
) -> Seq<char> {
    match (menu, tables, offers, config) {
        (Ok(mn), Ok(tn), Ok(on), Ok(_)) => "Exported config: "@ + decimal_seq(mn as nat) + " items, "@
            + decimal_seq(tn as nat) + " table types, "@ + decimal_seq(on as nat) + " offers, settings."@,
        _ => "Config export failed."@,
    }
}

/// The message an export ends with (see `export_text`).
pub fn export_message(
    menu: &Result<usize, String>,
    tables: &Result<usize, String>,
    offers: &Result<usize, String>,
    config: &Result<(), String>,
) -> (r: String)
    ensures
        r@ == export_text(*menu, *tables, *offers, *config),
{
    match (menu, tables, offers, config) {
        (Ok(mn), Ok(tn), Ok(on), Ok(_)) => {
            let a = decimal(*mn as u64);
            let mut r = msg3("Exported config: ", a.as_str(), " items, ");
            let b = decimal(*tn as u64);
            push_str(&mut r, b.as_str());
            push_str(&mut r, " table types, ");
            let c = decimal(*on as u64);
            push_str(&mut r, c.as_str());
            push_str(&mut r, " offers, settings.");
            r
        },
        _ => String::from_str("Config export failed."),
    }
}

/// The restaurant settings a session starts with: each stored (database)
/// value when not blank, else the config file's first alternative key, else
/// the built-in default.
pub fn startup_settings(
    stored_name: Option<String>,
    stored_address: Option<String>,
    stored_contact: Option<String>,
    stored_gst: Option<String>,
    stored_upi: Option<String>,
    m: &ConfigMap,
) -> (r: ImportedSettings)
    ensures
        r.restaurant_name@ == startup_value(
            crate::models::opt_view(stored_name),
            *m,
            seq!["RestaurantName"@, "restaurant_name"@, "HotelName"@, "hotel_name"@],
            "SHREE KRISHNA RESTAURANT"@,
        ),
        r.restaurant_address@ == startup_value(
            crate::models::opt_view(stored_address),
            *m,
            seq!["Address"@, "address"@, "HotelAddress"@, "restaurant_address"@],
            "Station Road, Near Main Market"@,
        ),
        r.restaurant_contact@ == startup_value(
            crate::models::opt_view(stored_contact),
            *m,
            seq!["Contact"@, "contact"@, "Phone"@, "phone"@, "restaurant_contact"@],
            "+91 98765 43210"@,
        ),
        r.gst_number@ == startup_value(
            crate::models::opt_view(stored_gst),
            *m,
            seq!["GSTNumber"@, "gst_number"@, "GST"@, "GSTIN"@],
            "27AAPFU0939F1ZV"@,
        ),
        r.upi_id@ == startup_value(
            crate::models::opt_view(stored_upi),
            *m,
            seq!["UpiId"@, "upi_id"@, "UPI"@, "UPIID"@],
            "shreekrishna@upi"@,
        ),
{
    let k1: [&str; 4] = ["RestaurantName", "restaurant_name", "HotelName", "hotel_name"];
    let k2: [&str; 4] = ["Address", "address", "HotelAddress", "restaurant_address"];
    let k3: [&str; 5] = ["Contact", "contact", "Phone", "phone", "restaurant_contact"];
    let k4: [&str; 4] = ["GSTNumber", "gst_number", "GST", "GSTIN"];
    let k5: [&str; 4] = ["UpiId", "upi_id", "UPI", "UPIID"];
    proof {
        assert(k1@.map_values(|k: &str| k@) =~= seq![
            "RestaurantName"@,
            "restaurant_name"@,
            "HotelName"@,
            "hotel_name"@,
        ]);
        assert(k2@.map_values(|k: &str| k@) =~= seq![
            "Address"@,
            "address"@,
            "HotelAddress"@,
            "restaurant_address"@,
        ]);
        assert(k3@.map_values(|k: &str| k@) =~= seq![
            "Contact"@,
            "contact"@,
            "Phone"@,
            "phone"@,
            "restaurant_contact"@,
        ]);
        assert(k4@.map_values(|k: &str| k@) =~= seq!["GSTNumber"@, "gst_number"@, "GST"@, "GSTIN"@]);
        assert(k5@.map_values(|k: &str| k@) =~= seq!["UpiId"@, "upi_id"@, "UPI"@, "UPIID"@]);
    }
    ImportedSettings {
        restaurant_name: startup_setting(stored_name, m, &k1, "SHREE KRISHNA RESTAURANT"),
        restaurant_address: startup_setting(stored_address, m, &k2, "Station Road, Near Main Market"),
        restaurant_contact: startup_setting(stored_contact, m, &k3, "+91 98765 43210"),
        gst_number: startup_setting(stored_gst, m, &k4, "27AAPFU0939F1ZV"),
        upi_id: startup_setting(stored_upi, m, &k5, "shreekrishna@upi"),
    }
}

/// The text of the AC rate configured at startup, if any.
pub fn startup_ac_rate_text(m: &ConfigMap) -> (r: Option<String>)
    ensures
        match r {
            Some(v) => setting_value(*m, seq!["AcRate"@, "ac_rate"@, "ACRate"@]) == Some(v@),
            None => setting_value(*m, seq!["AcRate"@, "ac_rate"@, "ACRate"@]) is None,
        },
{
    let keys: [&str; 3] = ["AcRate", "ac_rate", "ACRate"];
    proof {
        assert(keys@.map_values(|k: &str| k@) =~= seq!["AcRate"@, "ac_rate"@, "ACRate"@]);
    }
    config_setting(m, &keys)
}

} // verus!
