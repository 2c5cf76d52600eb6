use dinein_takeout_billing::models::{CartLine, Order, OrderStatus, Service};
use dinein_takeout_billing::receipts::{center, render_kot, render_kot_items, KotDocument};

fn patio_order() -> Order<f64> {
    Order {
        id: 202,
        label: "T-5".into(),
        service: Service::DineIn,
        table_number: Some(5),
        area: Some("Patio".into()),
        is_ac: false,
        ac_rate: 0.0,
        discount_percent: 0.0,
        cart: vec![{
            let mut line = CartLine::new("Masala Dosa", 90.0, 2);
            line.note = Some("Crispy".into());
            line
        }],
        cart_index: 0,
        status: OrderStatus::TakingOrder,
        customer_mobile: None,
        payment_mode: None,
        kot_sent_count: 0,
    }
}

#[test]
fn test_render_kot_variations() {
    let order = patio_order();

    let kot1 = render_kot(&order, false, "SOUTH INDIAN CAFE");
    assert!(kot1.contains("SOUTH INDIAN CAFE"));
    assert!(kot1.contains("*** KITCHEN ORDER TICKET (KOT) ***"));
    assert!(kot1.contains("Area         : Patio"));
    assert!(kot1.contains("Masala Dosa"));
    assert!(kot1.contains("↳ Crispy"));

    let kot2 = render_kot(&order, true, "");
    assert!(kot2.contains("*** KITCHEN ORDER TICKET [REPRINT] ***"));
    assert!(kot2.contains("SHREE KRISHNA RESTAURANT"));

    let kot_delta = render_kot_items(&order, &order.cart, false, true, "TEST");
    assert!(kot_delta.contains("*** KITCHEN ORDER TICKET (ADD-ON / DELTA) ***"));
}

#[test]
fn kot_document_with_fixed_stamp_renders_exact_lines() {
    let order = patio_order();
    let doc = KotDocument::build(&order, &order.cart, false, false, "  Cafe  ", "01-02-2026 10:20:30".to_string());
    let text = doc.render_ascii();
    let lines: Vec<&str> = text.lines().collect();
    assert_eq!(lines[0], format!("{}Cafe", " ".repeat(19)));
    assert_eq!(lines[1], format!("{}*** KITCHEN ORDER TICKET (KOT) ***", " ".repeat(4)));
    assert_eq!(lines[2], "-".repeat(42));
    assert_eq!(lines[3], "Table / Order: T-5");
    assert_eq!(lines[4], "Area         : Patio");
    assert_eq!(lines[5], "Order ID     : #202");
    assert_eq!(lines[6], "Time         : 01-02-2026 10:20:30");
    assert_eq!(lines[8], format!("{:<32}{:>10}", "ITEM", "QTY"));
    assert_eq!(lines[10], format!("{:<32}{:>10}", "Masala Dosa", 2));
    assert_eq!(lines[11], "  ↳ Crispy");
}

#[test]
fn center_pads_on_the_left_only() {
    assert_eq!(center("HELLO", 11), "   HELLO");
    assert_eq!(center("EXACT", 5), "EXACT");
    assert_eq!(center("LONGSTRING", 4), "LONGSTRING");
    assert_eq!(center("ab", 7), "  ab");
    assert_eq!(center("", 3), " ");
}

#[test]
fn test_generate_upi_qr_blocks() {
    let uri = "upi://pay?pa=test@upi&pn=Rest&am=100.00&cu=INR";
    let blocks = dinein_takeout_billing::receipts::generate_upi_qr_blocks(uri).unwrap();
    assert!(!blocks.is_empty());
    assert!(blocks
        .iter()
        .any(|line| line.contains('█') || line.contains('▀') || line.contains('▄')));
}

#[test]
fn upi_qr_blocks_have_quiet_zone_and_half_height() {
    let uri = "upi://pay?pa=a@upi&am=1.00";
    let blocks = dinein_takeout_billing::receipts::generate_upi_qr_blocks(uri).unwrap();
    // Version 4 is 33 modules wide: 35 columns with the quiet zone, 17 text
    // rows for 33 module rows, plus a blank row above and below.
    assert_eq!(blocks.len(), 19);
    assert_eq!(blocks[0], " ".repeat(35));
    assert_eq!(blocks[18], " ".repeat(35));
    for row in &blocks[1..18] {
        assert_eq!(row.chars().count(), 35);
        assert!(row.starts_with(' ') && row.ends_with(' '));
    }
    // The finder pattern's first two module rows: a dark row over a row
    // that is dark only at its ends.
    assert!(blocks[1].starts_with(" █▀▀▀▀▀█"));
}

#[test]
fn every_ticket_kind_fits_a_42_column_slip_but_the_add_on_title() {
    let order = patio_order();
    for (is_reprint, is_delta) in [(false, false), (true, false), (false, true), (true, true)] {
        let doc = KotDocument::build(&order, &order.cart, is_reprint, is_delta, "SOUTH INDIAN CAFE", "01-02-2026 10:20:30".to_string());
        let text = doc.render_ascii();
        let width = if is_delta && !is_reprint { 45 } else { 42 };
        for line in text.lines() {
            assert!(line.chars().count() <= width, "line too wide: {line}");
        }
    }
    let delta = KotDocument::build(&order, &order.cart, false, true, "Cafe", "t".to_string()).render_ascii();
    assert_eq!(delta.lines().nth(1).unwrap(), "*** KITCHEN ORDER TICKET (ADD-ON / DELTA) ***");
}
