use dinein_takeout_billing::models::{
    Area, OrderStatus, PaymentMode, Service, TableStatus, CLEANING_MINUTES, CLEANING_SECONDS,
};

#[test]
fn default_areas_keep_expected_capacity() {
    let total: usize = Area::defaults().iter().map(|a| a.table_count).sum();
    assert_eq!(total, 24);
    let ac = Area::defaults()
        .into_iter()
        .find(|a| a.name == "AC Dining")
        .unwrap();
    assert_eq!(ac.table_count, 6);
    assert!(ac.is_ac);
}

#[test]
fn lifecycle_advances_then_stops_at_paid() {
    assert_eq!(OrderStatus::TakingOrder.advance(), Some(OrderStatus::Serving));
    assert_eq!(OrderStatus::Serving.advance(), Some(OrderStatus::BillRequested));
    assert_eq!(OrderStatus::BillRequested.advance(), None);
    assert_eq!(OrderStatus::Paid.advance(), None);
}

#[test]
fn cleaning_window_constant_matches_requirement() {
    assert_eq!(CLEANING_MINUTES, 10);
}

#[test]
fn payment_modes_roundtrip_through_labels() {
    for mode in PaymentMode::all() {
        assert_eq!(PaymentMode::parse(mode.label()), Some(mode));
    }
    assert_eq!(PaymentMode::all().len(), 5);
    assert_eq!(PaymentMode::Upi.display(), "UPI");
}

#[test]
fn cleaning_window_is_ten_minutes_in_seconds() {
    assert_eq!(CLEANING_SECONDS, CLEANING_MINUTES * 60);
}

#[test]
fn service_labels_read_back() {
    for s in [Service::DineIn, Service::TakeOut] {
        assert_eq!(Service::parse(s.label()), Some(s));
    }
    assert_eq!(Service::parse("nonsense"), None);
}

#[test]
fn order_status_labels_read_back_and_table_states_follow() {
    for s in [
        OrderStatus::TakingOrder,
        OrderStatus::Serving,
        OrderStatus::BillRequested,
        OrderStatus::Paid,
    ] {
        assert_eq!(OrderStatus::parse(s.label()), Some(s));
        assert_eq!(s.table_status().label(), s.label());
    }
    assert_eq!(OrderStatus::TakingOrder.table_status(), TableStatus::TakingOrder);
    assert_eq!(OrderStatus::Paid.table_status(), TableStatus::Paid);
}

#[test]
fn table_status_labels_read_back() {
    for s in [
        TableStatus::Ready,
        TableStatus::TakingOrder,
        TableStatus::Serving,
        TableStatus::BillRequested,
        TableStatus::Paid,
        TableStatus::Dirty,
    ] {
        assert_eq!(TableStatus::parse(s.label()), Some(s));
    }
    assert_eq!(TableStatus::Dirty.label(), "CLEANING");
    assert_eq!(TableStatus::BillRequested.title(), "Ready for bill");
    assert_eq!(TableStatus::parse("ready"), None);
}

#[test]
fn payment_mode_labels_are_distinct_and_indexed() {
    let all = PaymentMode::all();
    for (i, a) in all.iter().enumerate() {
        assert_eq!(a.index(), i);
        for b in all.iter().skip(i + 1) {
            assert_ne!(a.label(), b.label());
        }
    }
    assert_eq!(PaymentMode::parse("CASH"), Some(PaymentMode::Cash));
    assert_eq!(PaymentMode::parse("bitcoin"), None);
}
