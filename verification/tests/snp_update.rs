use snp_crawler::snp_update::{
    format_all_updates, get_all_updates, get_all_updates_unformatted, SnpTicker,
    SnpUpdateUnformatted,
};

#[test]
fn call_all_updates_unformatted() {
    let _ = get_all_updates_unformatted();
}

#[test]
fn call_format_all_updates() {
    match format_all_updates(get_all_updates_unformatted()) {
        Ok(_updates) => (),
        Err(e) => {
            panic!("error {:?}", e);
        }
    }
}

#[test]
fn call_all_updates() {
    let _ = get_all_updates();
}

#[test]
fn formatted_updates_carry_parsed_dates() {
    let updates = get_all_updates();
    assert_eq!(updates.len(), 6);
    assert_eq!(updates[0].date.year, 2024);
    assert_eq!(updates[0].date.month, 3);
    assert_eq!(updates[0].date.day, 18);
    assert_eq!(updates[5].date.year, 2023);
    assert_eq!(updates[5].date.month, 10);
    assert_eq!(updates[5].date.day, 18);
}

#[test]
fn format_rejects_bad_date_text() {
    let rows = vec![SnpUpdateUnformatted {
        date: String::from("not a date"),
        removed_ticker: SnpTicker::NotAvailable,
        added_ticker: SnpTicker::NotAvailable,
    }];
    match format_all_updates(rows) {
        Ok(_) => panic!("a malformed date text must be rejected"),
        Err(snp_crawler::snp::Error::ParseError(t)) => assert_eq!(t, "not a date"),
        Err(e) => panic!("unexpected error {:?}", e),
    }
}
