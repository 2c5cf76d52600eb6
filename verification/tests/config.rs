use dinein_takeout_billing::config::{
    export_areas_csv, export_config_csv, export_menu_csv, export_offers_csv, export_table_csv, load_areas_csv, load_config_csv, load_menu_rows,
    load_offer_rows, load_table_csv, parse_table_count, ConfigMap,
};
use dinein_takeout_billing::models::Area;
use dinein_takeout_billing::printer::{push_command, EscCommand, PrinterConfig, PrinterMode};
use dinein_takeout_billing::text::{parse_u32, parse_usize, trim};

fn area(name: &str, is_ac: bool, table_count: usize) -> Area {
    Area { name: name.to_string(), is_ac, table_count }
}

#[test]
fn table_csv_roundtrip() {
    let input = vec![area("Main Hall", false, 8), area("AC Dining", true, 6)];
    let (bytes, n) = export_table_csv(&input).unwrap();
    assert_eq!(n, 2);
    assert_eq!(
        String::from_utf8(bytes.clone()).unwrap(),
        "Table Type,Count,IsAC\nMain Hall,8,no\nAC Dining,6,yes\n"
    );
    let loaded = load_table_csv(&bytes).unwrap();
    assert_eq!(loaded.len(), 2);
    assert_eq!(loaded[0].name, "Main Hall");
    assert_eq!(loaded[0].table_count, 8);
    assert!(!loaded[0].is_ac);
    assert_eq!(loaded[1].name, "AC Dining");
    assert_eq!(loaded[1].table_count, 6);
    assert!(loaded[1].is_ac);
}

#[test]
fn areas_csv_roundtrip() {
    let input = vec![area("Rooftop", false, 5), area("VIP Lounge", true, 3)];
    let (bytes, n) = export_areas_csv(&input).unwrap();
    assert_eq!(n, 2);
    let loaded = load_areas_csv(&bytes).unwrap();
    assert_eq!(loaded.len(), 2);
    assert_eq!(loaded[0].name, "Rooftop");
    assert!(!loaded[0].is_ac);
    assert_eq!(loaded[0].table_count, 5);
    assert_eq!(loaded[1].name, "VIP Lounge");
    assert!(loaded[1].is_ac);
    assert_eq!(loaded[1].table_count, 3);
}

#[test]
fn table_csv_accepts_other_header_names_and_skips_blank_names() {
    let data = b"Area,TableCount,AC\nTerrace, 4 ,yes\n,3,no\nLobby,2,no\n";
    let loaded = load_table_csv(data).unwrap();
    assert_eq!(loaded.len(), 2);
    assert_eq!(loaded[0].name, "Terrace");
    assert_eq!(loaded[0].table_count, 4);
    assert!(loaded[0].is_ac);
    assert_eq!(loaded[1].name, "Lobby");
    assert!(!loaded[1].is_ac);
}

#[test]
fn malformed_csv_is_an_error() {
    // A record with more fields than the header is refused by the reader.
    let data = b"Table Type,Count\nMain Hall,8,yes,extra\n";
    assert!(load_table_csv(data).is_err());
    assert!(load_config_csv(b"Key,Value\na,b,c\n").is_err());
}

#[test]
fn config_csv_keys_and_trimmed_values() {
    let data = b"Key,Value\nRestaurantName, SHREE KRISHNA RESTAURANT \nAcRate,6.50\n , ignored\nUpiId,a@upi\nUpiId,krishna@upi\n";
    let map = load_config_csv(data).unwrap();
    assert_eq!(map.get("RestaurantName").unwrap(), "SHREE KRISHNA RESTAURANT");
    assert_eq!(map.get("AcRate").unwrap(), "6.50");
    assert_eq!(map.get("UpiId").unwrap(), "krishna@upi");
    assert!(map.get("").is_none());
    assert!(map.get("Contact").is_none());
}

#[test]
fn menu_rows_keep_availability_flags_and_skip_nameless_rows() {
    let data = b"Category,Item Name,Unit,Price,Available\n\
                 Drinks,Mango Lassi,glass,50,no\n\
                 Drinks,Cold Coffee,glass,60,false\n\
                 Drinks,Sweet Lime,glass,40,out\n\
                 Food,,plate,100,yes\n\
                 Food,Invalid Price,plate,-10,yes\n\
                 Food,Veg Pulao,plate,110,yes\n";
    let rows = load_menu_rows(data).unwrap();
    assert_eq!(rows.len(), 5);
    assert_eq!(rows[0].name, "Mango Lassi");
    assert!(!rows[0].is_available);
    assert!(!rows[1].is_available);
    assert!(!rows[2].is_available);
    assert_eq!(rows[3].name, "Invalid Price");
    assert_eq!(rows[3].price_text, "-10");
    assert_eq!(rows[4].name, "Veg Pulao");
    assert!(rows[4].is_available);
}

#[test]
fn offer_rows_are_named_records() {
    let data = b"Name,DiscountPercent\nFestive Discount,15\n,20\nHappy Hour, 20 \n";
    let rows = load_offer_rows(data).unwrap();
    assert_eq!(rows.len(), 2);
    assert_eq!(rows[0], ("Festive Discount".to_string(), "15".to_string()));
    assert_eq!(rows[1], ("Happy Hour".to_string(), "20".to_string()));
}

#[test]
fn table_counts_parse_leniently() {
    assert_eq!(parse_table_count("12"), 12);
    assert_eq!(parse_table_count("0"), 1);
    assert_eq!(parse_table_count("many"), 1);
    assert_eq!(parse_usize("42"), Some(42));
    assert_eq!(parse_usize("4x"), None);
    assert_eq!(parse_u32("4294967295"), Some(u32::MAX));
    assert_eq!(parse_u32("4294967296"), None);
    assert_eq!(trim("  a b \t"), "a b");
}

fn config(pairs: &[(&str, &str)]) -> ConfigMap {
    let mut m = ConfigMap::new();
    for (k, v) in pairs {
        m.insert(k.to_string(), v.to_string());
    }
    m
}

#[test]
fn printer_config_reads_mode_printers_and_drawer() {
    let c = PrinterConfig::from_map(&ConfigMap::new());
    assert!(matches!(c.mode, PrinterMode::Lpr));
    assert_eq!(c.bill_printer, "");
    assert!(c.cash_drawer_enabled);

    let c = PrinterConfig::from_map(&config(&[("PrinterMode", " USB "), ("CashDrawerEnabled", "no")]));
    assert!(matches!(c.mode, PrinterMode::Device(ref d) if d == "/dev/usb/lp0"));
    assert!(!c.cash_drawer_enabled);

    let c = PrinterConfig::from_map(&config(&[("PrinterMode", "tcp"), ("BillPrinter", "10.0.0.5:9100")]));
    assert!(matches!(c.mode, PrinterMode::Network(ref a) if a == "10.0.0.5:9100"));
    assert_eq!(c.bill_printer, "10.0.0.5:9100");

    let c = PrinterConfig::from_map(&config(&[("PrinterMode", "file"), ("KotPrinter", "kitchen")]));
    assert!(matches!(c.mode, PrinterMode::Simulated));
    assert_eq!(c.kot_printer, "kitchen");
}

#[test]
fn escpos_commands_append_their_bytes() {
    let mut buf = vec![0x41u8];
    push_command(&mut buf, EscCommand::Init);
    push_command(&mut buf, EscCommand::AlignRight);
    push_command(&mut buf, EscCommand::CutPaper);
    assert_eq!(&buf[..6], &[0x41, 0x1B, 0x40, 0x1B, 0x61, 0x02]);
    assert!(buf.len() > 6);
}

#[test]
fn config_csv_roundtrip() {
    let bytes = export_config_csv(
        "SHREE KRISHNA RESTAURANT",
        "Station Road, Near Main Market",
        "+91 98765 43210",
        "27AAPFU0939F1ZV",
        "6.50",
        "krishna@upi",
    )
    .unwrap();
    let map = load_config_csv(&bytes).unwrap();
    assert_eq!(map.get("RestaurantName").unwrap(), "SHREE KRISHNA RESTAURANT");
    assert_eq!(map.get("Address").unwrap(), "Station Road, Near Main Market");
    assert_eq!(map.get("Contact").unwrap(), "+91 98765 43210");
    assert_eq!(map.get("GSTNumber").unwrap(), "27AAPFU0939F1ZV");
    assert_eq!(map.get("AcRate").unwrap(), "6.50");
    assert_eq!(map.get("UpiId").unwrap(), "krishna@upi");
}

#[test]
fn menu_and_offer_csv_written_then_read_give_the_rows_back() {
    let rows = vec![
        ("Starters".to_string(), "Paneer Tikka".to_string(), "plate".to_string(), "180.00".to_string()),
        ("Mains".to_string(), "Dal Tadka".to_string(), "bowl".to_string(), "120.00".to_string()),
    ];
    let (bytes, n) = export_menu_csv(&rows).unwrap();
    assert_eq!(n, 2);
    assert_eq!(
        String::from_utf8(bytes.clone()).unwrap(),
        "Category,Item Name,Unit,Price\nStarters,Paneer Tikka,plate,180.00\nMains,Dal Tadka,bowl,120.00\n"
    );
    let loaded = load_menu_rows(&bytes).unwrap();
    assert_eq!(loaded.len(), 2);
    assert_eq!(loaded[0].name, "Paneer Tikka");
    assert!(loaded[0].is_available);
    assert_eq!(loaded[1].price_text, "120.00");

    let offers = vec![("Festive Discount".to_string(), "15".to_string()), ("Happy Hour".to_string(), "20".to_string())];
    let (bytes, n) = export_offers_csv(&offers).unwrap();
    assert_eq!(n, 2);
    let loaded = load_offer_rows(&bytes).unwrap();
    assert_eq!(loaded, offers);
}

#[test]
fn config_csv_read_back_holds_exactly_six_settings() {
    let bytes = export_config_csv(" Cafe ", "Road", "123", "GST1", "5.00", "cafe@upi").unwrap();
    let map = load_config_csv(&bytes).unwrap();
    assert_eq!(map.entries.len(), 6);
    assert_eq!(map.get("RestaurantName").unwrap(), "Cafe");
    assert!(map.get("Key").is_none());
}
