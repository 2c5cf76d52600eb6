use dinein_takeout_billing::app::kot::{kds_urgency, KdsUrgency};
use dinein_takeout_billing::app::setup::{startup_areas, startup_menu, startup_settings, SessionSetup};
use dinein_takeout_billing::app::{App, AppEffect, Key};
use dinein_takeout_billing::config::{default_menu, ConfigMap};
use dinein_takeout_billing::models::{
    Area, CartLine, Focus, KotSummary, MenuItem, Order, OrderStatus, PaymentMode, Service,
    TableStatus,
};
use dinein_takeout_billing::printer::PrinterConfig;
use dinein_takeout_billing::tables::{
    init_physical_tables, max_takeout_number, reconcile_tables_with_orders,
};

fn session(items: Vec<MenuItem<f64>>) -> App<f64> {
    let areas = Area::defaults();
    let tables = init_physical_tables(&areas);
    let settings = startup_settings(None, None, None, None, None, &ConfigMap::new());
    App::from_setup(SessionSetup {
        items,
        orders: Vec::new(),
        next_order_id: 1,
        physical_tables: tables,
        areas,
        restaurant_name: settings.restaurant_name,
        restaurant_address: settings.restaurant_address,
        restaurant_contact: settings.restaurant_contact,
        gst_number: settings.gst_number,
        ac_rate: 0.06,
        no_charge: 0.0,
        offers: Vec::new(),
        upi_id: settings.upi_id,
        recent_bills: Vec::new(),
        recent_kots: Vec::new(),
        printer_config: PrinterConfig::default(),
        has_database: false,
    })
}

fn menu() -> Vec<MenuItem<f64>> {
    vec![
        MenuItem::new("Beverages", "Chai", "Cup", 20.0),
        MenuItem::new("Snacks", "Samosa", "Plate", 30.0),
        MenuItem::new("Snacks", "Vada Pav", "Plate", 25.0),
    ]
}

fn notes_contain(app: &mut App<f64>, text: &str) -> bool {
    app.notifications.iter().any(|n| n.contains(text))
}

#[test]
fn default_menu_is_empty() {
    let items: Vec<MenuItem<f64>> = default_menu();
    assert!(items.is_empty(), "default_menu should have no hardcoded items");
}

#[test]
fn test_max_takeout_number_edge_cases() {
    let orders: Vec<Order<f64>> = vec![
        Order {
            id: 1,
            label: "TK5".into(),
            service: Service::TakeOut,
            table_number: None,
            area: None,
            is_ac: false,
            ac_rate: 0.0,
            discount_percent: 0.0,
            cart: Vec::new(),
            cart_index: 0,
            status: OrderStatus::TakingOrder,
            customer_mobile: None,
            payment_mode: None,
            kot_sent_count: 0,
        },
        Order {
            id: 2,
            label: "MH-T1".into(),
            service: Service::DineIn,
            table_number: Some(1),
            area: Some("Main Hall".into()),
            is_ac: false,
            ac_rate: 0.0,
            discount_percent: 0.0,
            cart: Vec::new(),
            cart_index: 0,
            status: OrderStatus::TakingOrder,
            customer_mobile: None,
            payment_mode: None,
            kot_sent_count: 0,
        },
    ];
    assert_eq!(max_takeout_number(&orders), 5);
}

#[test]
fn test_tick_cleaning_and_table_merging_with_matching_notes() {
    let mut app = session(default_menu());
    let now = 1_000_000i64;

    // Dirty table with dirty_since = None
    app.physical_tables[0].status = TableStatus::Dirty;
    app.physical_tables[0].dirty_since = None;
    let cleaned = app.tick_cleaning(now);
    assert!(cleaned >= 1);
    assert_eq!(app.physical_tables[0].status, TableStatus::Ready);

    // Clean selected table
    app.selected_area_index = 0;
    app.selected_table_index = 0;
    app.physical_tables[0].status = TableStatus::Dirty;
    app.clean_selected_table(now);
    assert_eq!(app.physical_tables[0].status, TableStatus::Ready);

    // Table merging with matching item name and note
    app.selected_area_index = 0;
    app.selected_table_index = 0;
    app.open_table_order(now);
    let mut item1 = CartLine::new("Chai", 20.0, 1);
    item1.note = Some("Ginger".into());
    let i = app.active_order;
    app.orders[i].cart.push(item1.clone());

    app.selected_table_index = 1;
    app.open_table_order(now);
    let mut item2 = CartLine::new("Chai", 20.0, 2);
    item2.note = Some("Ginger".into());
    let item3 = CartLine::new("Samosa", 30.0, 1);
    let i = app.active_order;
    app.orders[i].cart.push(item2);
    app.orders[i].cart.push(item3);

    // Merge Table 2 into Table 1
    app.selected_table_index = 1;
    let target_idx = app.table_move_targets().iter().position(|t| t.table_number == 1).unwrap();
    app.table_move_target_index = target_idx;
    app.execute_table_move_or_merge();

    // Chai with note "Ginger" was combined: 1 + 2 = 3
    let merged_order = app.order();
    let chai_line = merged_order
        .cart
        .iter()
        .find(|l| l.name == "Chai" && l.note.as_deref() == Some("Ginger"))
        .unwrap();
    assert_eq!(chai_line.qty, 3);
}

#[test]
fn test_orders_and_tables_guards() {
    let mut app = session(default_menu());
    let now = 0i64;

    // Empty areas guard
    app.areas.clear();
    app.open_table_order(now);
    assert!(notes_contain(&mut app, "No dining areas configured"));

    // Restore areas
    app.areas = Area::defaults();
    app.orders.clear();

    // Close order guards
    app.close_order(now);
    assert!(notes_contain(&mut app, "No orders to close"));

    app.open_takeout_order();
    let i = app.active_order;
    app.orders[i].cart.push(CartLine::new("Chai", 20.0, 1));
    app.close_order(now);
    assert!(notes_contain(&mut app, "Cannot close order with items"));

    // Payment mode update guard
    app.update_paid_order_payment_mode(PaymentMode::Cash);

    // Advance stage guards
    app.orders.clear();
    app.advance_stage(now);
    assert!(notes_contain(&mut app, "No active order"));

    app.open_takeout_order();
    let i = app.active_order;
    app.orders[i].status = OrderStatus::Paid;
    app.advance_stage(now);
    assert!(notes_contain(&mut app, "already at final stage"));

    // Table move guards
    app.open_table_move();
    assert!(notes_contain(&mut app, "Selected table does not have an active order"));

    app.execute_table_move_or_merge();

    // Transfer to an AC table sets ac_rate
    app.selected_area_index = 0;
    app.selected_table_index = 0;
    app.open_table_order(now);
    assert_eq!(app.order().is_ac, false);

    let ac_dest_idx = app.table_move_targets().iter().position(|t| t.is_ac).unwrap();
    app.table_move_target_index = ac_dest_idx;
    app.execute_table_move_or_merge();
    assert_eq!(app.order().is_ac, true);
    assert!((app.order().ac_rate - app.ac_rate).abs() < 1e-6);
}

#[test]
fn test_cart_edge_cases_and_ensure_editable_order() {
    let mut app = session(menu());
    app.orders.clear();

    // Guard functions when orders is empty
    assert!(!app.ensure_editable_order());
    app.remove_selected_line();
    app.adjust_selected_line_quantity(1);
    app.clear_active_cart();
    app.open_item_note_prompt();

    // Open order with multiple items
    app.open_takeout_order();
    app.add_selected_to_cart();
    app.add_selected_to_cart();
    assert_eq!(app.order().cart.len(), 1);
    // Add distinct item
    if app.items.len() > 1 {
        app.menu_index = 1;
        app.add_selected_to_cart();
    }
    if app.order().cart.len() > 1 {
        // Set cart_index to last item and remove it
        let last = app.order().cart.len() - 1;
        app.order_mut().cart_index = last;
        app.remove_selected_line();
        assert_eq!(app.order().cart_index, app.order().cart.len() - 1);
    }

    // Invalid cart index adjustment
    app.order_mut().cart_index = 999;
    app.adjust_selected_line_quantity(1);
    assert!(notes_contain(&mut app, "No item selected"));

    // Decrease below 1 guard
    app.order_mut().cart_index = 0;
    app.order_mut().cart[0].qty = 1;
    app.adjust_selected_line_quantity(-1);
    assert!(notes_contain(&mut app, "Cannot decrease below 1"));

    // Clear active cart
    app.clear_active_cart();
    assert!(app.order().cart.is_empty());
}

#[test]
fn startup_uses_defaults_without_database_or_config() {
    let app = session(menu());
    assert_eq!(app.restaurant_name, "SHREE KRISHNA RESTAURANT");
    assert_eq!(app.upi_id, "shreekrishna@upi");
    assert_eq!(app.focus, Focus::Menu);
    assert_eq!(app.categories, vec!["ALL", "Beverages", "Snacks"]);
    assert_eq!(app.next_takeout_id, 1);
    assert_eq!(app.physical_tables.len(), 24);
}

#[test]
fn adding_items_merges_same_dish_and_marks_out_of_stock() {
    let mut app = session(menu());
    app.open_takeout_order();
    assert_eq!(app.order().label, "TK1");
    app.menu_index = 0;
    app.add_selected_to_cart();
    app.add_selected_to_cart();
    assert_eq!(app.order().cart.len(), 1);
    assert_eq!(app.order().cart[0].qty, 2);
    app.menu_index = 1;
    app.toggle_selected_menu_item_stock();
    assert!(!app.items[1].is_available);
    app.add_selected_to_cart();
    assert!(notes_contain(&mut app, "'Samosa' is currently OUT OF STOCK (86)!"));
    assert_eq!(app.order().cart.len(), 1);
    let effects = app.drain_effects();
    assert!(effects.iter().any(|e| matches!(e, AppEffect::UpdateItemAvailability { available: false, .. })));
}

#[test]
fn search_ranks_matches_and_filters_category() {
    let mut app = session(menu());
    assert_eq!(app.visible_items(), vec![0, 1, 2]);
    app.selected_category_index = 2;
    assert_eq!(app.visible_items(), vec![1, 2]);
    app.selected_category_index = 0;
    app.search = "samosa".into();
    let vis = app.visible_items();
    assert_eq!(vis[0], 1);
    app.search = "   ".into();
    assert_eq!(app.visible_items(), vec![0, 1, 2]);
}

#[test]
fn quantity_changes_and_line_removal() {
    let mut app = session(menu());
    app.open_takeout_order();
    app.add_selected_to_cart();
    app.adjust_selected_line_quantity(1);
    assert_eq!(app.order().cart[0].qty, 2);
    app.adjust_selected_line_quantity(-1);
    assert_eq!(app.order().cart[0].qty, 1);
    app.adjust_selected_line_quantity(-1);
    assert!(notes_contain(&mut app, "Cannot decrease below 1."));
    let i = app.active_order;
    app.orders[i].cart_index = 5;
    app.adjust_selected_line_quantity(1);
    assert!(notes_contain(&mut app, "No item selected in the bill."));
    app.orders[i].cart_index = 0;
    app.remove_selected_line();
    assert!(app.order().cart.is_empty());
    assert!(notes_contain(&mut app, "Removed Chai."));
}

#[test]
fn kot_sends_delta_then_reprints() {
    let mut app = session(menu());
    app.open_takeout_order();
    app.add_selected_to_cart();
    app.generate_kot("01-01-2026 10:00:00", "10:00:00".to_string());
    assert_eq!(app.recent_kots.len(), 1);
    assert_eq!(app.recent_kots[0].id, 0);
    assert!(!app.recent_kots[0].is_reprint);
    assert!(notes_contain(&mut app, "(NEW) sent to kitchen (1 items) for TK1."));
    assert_eq!(app.order().cart[0].kot_sent_qty, 1);
    app.add_selected_to_cart();
    app.generate_kot("01-01-2026 10:05:00", "10:05:00".to_string());
    assert!(notes_contain(&mut app, "(DELTA) sent to kitchen (1 items)"));
    assert!(app.recent_kots[0].ticket_text.contains("ADD-ON / DELTA"));
    app.generate_kot("01-01-2026 10:06:00", "10:06:00".to_string());
    assert!(notes_contain(&mut app, "(REPRINT) sent to kitchen (2 items)"));
    app.reprint_full_kot("01-01-2026 10:07:00", "10:07:00".to_string());
    assert!(notes_contain(&mut app, "Reprinted full KOT for TK1 (2 items)."));
    assert_eq!(app.order().kot_sent_count, 3);
}

#[test]
fn kds_status_cycles_back_after_four_bumps() {
    let mut app = session(menu());
    app.kds_kots.push(KotSummary {
        id: 5,
        order_id: 1,
        label: "TK1".into(),
        area: String::new(),
        item_count: 1,
        ticket_text: "KOT".into(),
        is_reprint: false,
        created_at: "12:00".into(),
        status: "PENDING".into(),
    });
    app.kds_index = 0;
    let mut seen = Vec::new();
    for _ in 0..4 {
        app.kds_bump_status();
        seen.push(app.kds_kots[0].status.clone());
    }
    assert_eq!(seen, vec!["PREPARING", "READY", "SERVED", "PENDING"]);
    assert!(notes_contain(&mut app, "KOT #5 for TK1 marked as SERVED!"));
    app.kds_kots[0].status = "UNKNOWN_CUSTOM".into();
    app.kds_bump_status();
    assert_eq!(app.kds_kots[0].status, "PENDING");
}

#[test]
fn dine_in_lifecycle_through_billing_and_close() {
    let mut app = session(menu());
    let now = 5_000i64;
    app.selected_area_index = 0;
    app.selected_table_index = 2;
    app.open_table_order(now);
    assert_eq!(app.order().label, "Main-T3");
    assert_eq!(app.physical_tables[2].status, TableStatus::TakingOrder);
    app.add_selected_to_cart();
    app.advance_stage(now);
    assert_eq!(app.physical_tables[2].status, TableStatus::Serving);
    app.advance_stage(now);
    assert_eq!(app.physical_tables[2].status, TableStatus::BillRequested);
    app.advance_stage(now);
    assert!(notes_contain(&mut app, "Order already at final stage"));

    app.begin_billing();
    assert_eq!(app.focus, Focus::MobileEntry);
    assert!(app.prepare_billing("  9876543210 ", None, true));
    assert_eq!(app.order().customer_mobile.as_deref(), Some("9876543210"));
    app.finish_billing(21.0, "RECEIPT".to_string(), vec![1, 2, 3]);
    assert_eq!(app.order().status, OrderStatus::Paid);
    assert_eq!(app.physical_tables[2].status, TableStatus::Paid);
    assert_eq!(app.recent_bills[0].receipt, "RECEIPT");
    let effects = app.drain_effects();
    assert!(effects.iter().any(|e| matches!(e, AppEffect::SaveFile { path, .. } if path == "receipts/bill_1.txt")));

    app.close_order(now);
    assert_eq!(app.focus, Focus::PaymentMode);
    app.select_payment_mode(PaymentMode::Upi, now);
    assert!(app.orders.is_empty());
    assert_eq!(app.physical_tables[2].status, TableStatus::Dirty);
    assert_eq!(app.physical_tables[2].dirty_since, Some(now));
    assert!(notes_contain(&mut app, "Closed Main-T3 via UPI. Table 3 cleaning — auto-ready in 10 min."));
    assert_eq!(app.recent_bills[0].payment_mode, Some(PaymentMode::Upi));

    // The cleaning window runs out ten minutes later.
    assert_eq!(app.on_tick(now + 599), 0);
    assert_eq!(app.on_tick(now + 600), 1);
    assert_eq!(app.physical_tables[2].status, TableStatus::Ready);
    assert!(notes_contain(&mut app, "1 table(s) cleaned and back to Ready."));
}

#[test]
fn billing_refuses_zero_total_and_empty_cart() {
    let mut app = session(menu());
    app.open_takeout_order();
    assert!(!app.prepare_billing("", None, true));
    assert!(notes_contain(&mut app, "Cart is empty."));
    app.add_selected_to_cart();
    assert!(!app.prepare_billing("", None, false));
    assert!(notes_contain(&mut app, "Total must be greater than zero."));
    assert_eq!(app.order().customer_mobile, None);
}

#[test]
fn keys_quit_only_outside_protected_panels() {
    let mut app = session(menu());
    app.focus = Focus::Search;
    assert!(!app.handle_key(Key::Char('q'), 0));
    assert_eq!(app.search, "q");
    app.focus = Focus::Menu;
    assert!(app.handle_key(Key::Char('q'), 0));
    assert!(app.handle_key(Key::Esc, 0));
    app.focus = Focus::PaymentMode;
    assert!(!app.handle_key(Key::Esc, 0));
}

#[test]
fn keys_switch_boxes_and_toggle_help() {
    let mut app = session(menu());
    app.focus = Focus::Menu;
    assert!(!app.handle_key(Key::Char('?'), 0));
    assert!(app.show_help);
    app.handle_key(Key::Char('?'), 0);
    assert!(!app.show_help);
    app.handle_key(Key::Char('1'), 0);
    assert_eq!(app.focus, Focus::Tables);
    app.handle_key(Key::Char('7'), 0);
    assert_eq!(app.focus, Focus::RecentBills);
    app.handle_key(Key::Char('2'), 0);
    assert_eq!(app.focus, Focus::TableJump);
}

#[test]
fn mobile_entry_requires_ten_digits() {
    let mut app = session(menu());
    app.open_takeout_order();
    app.add_selected_to_cart();
    app.begin_billing();
    for c in "12345".chars() {
        app.handle_key(Key::Char(c), 0);
    }
    app.handle_key(Key::Char('x'), 0);
    assert_eq!(app.mobile_buffer, "12345");
    app.handle_key(Key::Enter, 0);
    assert!(notes_contain(&mut app, "Mobile number needs 10 digits (5 so far, or press Enter on empty to skip)."));
    for c in "678901".chars() {
        app.handle_key(Key::Char(c), 0);
    }
    assert_eq!(app.mobile_buffer, "1234567890");
    app.handle_key(Key::Enter, 0);
    let effects = app.drain_effects();
    assert!(effects.iter().any(|e| matches!(e, AppEffect::CompleteBilling { mobile, offer_id: None } if mobile == "1234567890")));
}

#[test]
fn table_jump_finds_table_by_area_prefix_and_number() {
    let mut app = session(menu());
    app.table_input = "g4".into();
    let found = app.matching_tables().unwrap();
    assert_eq!(found[0].area_name, "Garden");
    assert_eq!(found[0].table_number, 4);
    app.table_input = "  G4 ".into();
    let upper = app.matching_tables().unwrap();
    assert_eq!(upper[0].area_name, "Garden");
    assert_eq!(upper[0].table_number, 4);
    app.table_input = String::new();
    app.selected_area_index = 1;
    let all = app.matching_tables().unwrap();
    assert_eq!(all.len(), 24);
    assert_eq!(all[0].area_index, 1);
    app.table_input = "é5".into();
    assert!(app.matching_tables().is_none());
}

#[test]
fn navigation_keys_move_cursors_and_wrap() {
    let mut app = session(menu());
    // Menu: categories are ALL, Beverages, Snacks; Left wraps to the last.
    app.focus = Focus::Menu;
    app.handle_key(Key::Down, 0);
    app.handle_key(Key::Down, 0);
    app.handle_key(Key::Down, 0);
    assert_eq!(app.menu_index, 2);
    app.handle_key(Key::Left, 0);
    assert_eq!(app.selected_category_index, 2);
    assert_eq!(app.menu_index, 0);
    app.handle_key(Key::Char('l'), 0);
    assert_eq!(app.selected_category_index, 0);

    // Floor plan: Garden (6 tables) is last; going up from Main Hall wraps
    // there, and the cursor is kept inside Family Section's 4 tables.
    app.focus = Focus::Tables;
    for _ in 0..7 {
        app.handle_key(Key::Right, 0);
    }
    assert_eq!(app.selected_table_index, 7);
    app.handle_key(Key::Up, 0);
    assert_eq!(app.selected_area_index, 3);
    assert_eq!(app.selected_table_index, 5);
    app.handle_key(Key::Up, 0);
    assert_eq!(app.selected_area_index, 2);
    assert_eq!(app.selected_table_index, 3);

    // Orders: `[` goes back round the open orders.
    app.open_takeout_order();
    app.open_takeout_order();
    app.open_takeout_order();
    app.active_order = 0;
    app.handle_key(Key::Char('['), 0);
    assert_eq!(app.active_order, 2);
    assert!(notes_contain(&mut app, "Switched to TK3."));

    // `z` opens the daily report and queues working it out.
    app.drain_effects();
    app.handle_key(Key::Char('z'), 0);
    assert_eq!(app.focus, Focus::DailyReport);
    assert_eq!(app.focus_return, Focus::Tables);
    assert!(matches!(app.drain_effects().as_slice(), [AppEffect::OpenDailyReport]));
    app.handle_key(Key::Char('z'), 0);
    assert_eq!(app.focus, Focus::Tables);
}

#[test]
fn table_jump_enter_selects_the_best_match() {
    let mut app = session(menu());
    app.focus = Focus::Tables;
    app.handle_key(Key::Char('g'), 0);
    assert_eq!(app.focus, Focus::TableJump);
    app.handle_key(Key::Char('g'), 0);
    app.handle_key(Key::Char('4'), 0);
    app.handle_key(Key::Enter, 0);
    assert_eq!(app.focus, Focus::Tables);
    assert_eq!(app.selected_area_index, 3);
    assert_eq!(app.selected_table_index, 3);
    assert!(app.table_input.is_empty());
    assert!(notes_contain(&mut app, "Jumped to Garden Table 4 (Ready)."));
}

fn dine_in(id: u32, area: &str, number: usize, status: OrderStatus) -> Order<f64> {
    Order {
        id,
        label: format!("{area}-T{number}"),
        service: Service::DineIn,
        table_number: Some(number),
        area: Some(area.to_string()),
        is_ac: false,
        ac_rate: 0.0,
        discount_percent: 0.0,
        cart: Vec::new(),
        cart_index: 0,
        status,
        customer_mobile: None,
        payment_mode: None,
        kot_sent_count: 0,
    }
}

#[test]
fn reconciling_reseats_orders_at_tables_that_lost_them() {
    let mut tables = init_physical_tables(&Area::defaults());
    tables[2].status = TableStatus::Dirty;
    tables[2].order_id = Some(3);
    let orders = vec![
        dine_in(7, "Main Hall", 2, OrderStatus::Serving),
        dine_in(8, "Main Hall", 3, OrderStatus::TakingOrder),
        dine_in(9, "Rooftop", 1, OrderStatus::TakingOrder),
    ];
    let changed = reconcile_tables_with_orders(&mut tables, &orders);
    assert_eq!(changed, vec![1]);
    assert_eq!(tables[1].status, TableStatus::Serving);
    assert_eq!(tables[1].order_id, Some(7));
    assert_eq!(tables[2].status, TableStatus::Dirty);
    assert_eq!(tables[2].order_id, Some(3));
    assert_eq!(tables[0].status, TableStatus::Ready);
}

#[test]
fn kitchen_tickets_are_banded_by_waiting_time() {
    assert_eq!(kds_urgency(0), KdsUrgency::Normal);
    assert_eq!(kds_urgency(9), KdsUrgency::Normal);
    assert_eq!(kds_urgency(10), KdsUrgency::Warning);
    assert_eq!(kds_urgency(19), KdsUrgency::Warning);
    assert_eq!(kds_urgency(20), KdsUrgency::Urgent);
    assert_eq!(kds_urgency(20).label(), "URGENT");
    assert_eq!(kds_urgency(-3).label(), "Normal");
}

#[test]
fn startup_sources_fall_back_in_order() {
    let (items, store) = startup_menu(Some(menu()), Ok(Vec::new()));
    assert_eq!(items.len(), 3);
    assert!(!store);
    let (items, store) = startup_menu(Some(Vec::new()), Ok(vec![MenuItem::new("Mains", "Dal", "bowl", 120.0)]));
    assert_eq!(items.len(), 1);
    assert!(store);
    let (items, store) = startup_menu::<f64>(None, Err("missing".to_string()));
    assert!(items.is_empty());
    assert!(store);

    let lounge = vec![Area::new("Lounge", true, 2)];
    let (areas, store) = startup_areas(Some(lounge), Err("x".into()), Err("y".into()));
    assert_eq!(areas[0].name, "Lounge");
    assert!(!store);
    let (areas, store) = startup_areas(None, Err("x".into()), Ok(vec![Area::new("Patio", false, 3)]));
    assert_eq!(areas[0].name, "Patio");
    assert!(store);
    let (areas, _) = startup_areas(Some(Vec::new()), Ok(Vec::new()), Ok(vec![Area::new("Patio", false, 3)]));
    assert!(areas.is_empty());
    let (areas, _) = startup_areas(None, Err("x".into()), Err("y".into()));
    assert_eq!(areas.len(), 4);
    assert_eq!(areas[3].name, "Garden");
}

#[test]
fn import_with_an_empty_menu_changes_nothing_and_says_so() {
    let mut app = session(menu());
    let items_before = app.items.len();
    let areas_before = app.areas.len();
    let name_before = app.restaurant_name.clone();
    let notes_before = app.notifications.len();
    let r = app.check_import(
        Ok(Vec::new()),
        Ok(Area::defaults()),
        Ok(Vec::new()),
        Ok(ConfigMap::new()),
    );
    assert!(r.is_none());
    assert_eq!(app.notifications.len(), notes_before + 1);
    assert!(notes_contain(&mut app, "Import skipped: menu.csv empty."));
    assert_eq!(app.items.len(), items_before);
    assert_eq!(app.areas.len(), areas_before);
    assert_eq!(app.restaurant_name, name_before);
}

#[test]
fn import_with_a_failed_settings_file_names_it() {
    let mut app = session(menu());
    let notes_before = app.notifications.len();
    let r = app.check_import(
        Ok(menu()),
        Ok(Area::defaults()),
        Ok(Vec::new()),
        Err("bad row".to_string()),
    );
    assert!(r.is_none());
    assert_eq!(app.notifications.len(), notes_before + 1);
    assert!(notes_contain(&mut app, "Config import failed: bad row"));
}

#[test]
fn import_with_every_file_sound_hands_the_values_back() {
    let mut app = session(menu());
    let notes_before = app.notifications.len();
    let r = app.check_import(
        Ok(menu()),
        Ok(Area::defaults()),
        Ok(Vec::new()),
        Ok(ConfigMap::new()),
    );
    let (items, areas, offers, _config) = r.expect("all files loaded");
    assert_eq!(items.len(), 3);
    assert_eq!(areas.len(), Area::defaults().len());
    assert!(offers.is_empty());
    assert_eq!(app.notifications.len(), notes_before);
}

fn paid_order(mode: Option<PaymentMode>, status: OrderStatus) -> Order<f64> {
    Order {
        id: 42,
        label: "MH-T3".into(),
        service: Service::DineIn,
        table_number: Some(3),
        area: Some("Main Hall".into()),
        is_ac: false,
        ac_rate: 0.0,
        discount_percent: 0.0,
        cart: Vec::new(),
        cart_index: 0,
        status,
        customer_mobile: None,
        payment_mode: mode,
        kot_sent_count: 0,
    }
}

#[test]
fn bill_heading_names_the_payment_mode_once_paid() {
    let o = paid_order(Some(PaymentMode::PersonCredit), OrderStatus::Paid);
    assert_eq!(
        dinein_takeout_billing::app::billing::bill_heading(&o),
        " [5] Bill #42 \u{2014} PAID via PERSON CREDIT \u{2714} (MH-T3 / DINE-IN) "
    );
    let o = paid_order(None, OrderStatus::Paid);
    assert_eq!(
        dinein_takeout_billing::app::billing::bill_heading(&o),
        " [5] Bill #42 \u{2014} PAID \u{2714} (MH-T3 / DINE-IN) "
    );
    let o = paid_order(None, OrderStatus::TakingOrder);
    assert_eq!(
        dinein_takeout_billing::app::billing::bill_heading(&o),
        " [5] Bill #42 \u{2014} MH-T3 / DINE-IN "
    );
}
