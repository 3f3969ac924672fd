use snp_crawler::date::Date;
use snp_crawler::snp::SnP;
use snp_crawler::snp_by_date::get_snp_by_date;
use snp_crawler::snp_update::{get_all_updates, SnpTicker, SnpUpdate};

fn date(y: u32, m: u32, d: u32) -> Date {
    Date::from_ymd(y, m, d).unwrap()
}

fn sorted_symbols(mut v: Vec<SnP>) -> Vec<SnP> {
    v.sort();
    v
}

#[test]
fn call_get_snp_by_date() {
    let roster = vec![SnP::AAPL, SnP::MSFT, SnP::UBER, SnP::JBL, SnP::BLDR, SnP::LULU];
    let _ = get_snp_by_date(&roster, &get_all_updates(), &date(1999, 12, 7));
}

#[test]
fn resolve_before_changes_restores_old_members() {
    // Roster as of 2024; the change log swapped in UBER/JBL/BLDR (Dec 2023)
    // and LULU (Oct 2023) for SEDG/ALK/WHR and ATVI.
    let roster = vec![SnP::AAPL, SnP::UBER, SnP::JBL, SnP::BLDR, SnP::LULU];
    let events = get_all_updates();

    // A date before all changes: the swapped-out members are back.
    let old = sorted_symbols(get_snp_by_date(&roster, &events, &date(2023, 6, 1)));
    assert_eq!(
        old,
        sorted_symbols(vec![
            SnP::AAPL,
            SnP::SEDG,
            SnP::ALK,
            SnP::WHR,
            SnP::ATVI,
            SnP::ZION,
            SnP::VFC,
        ])
    );

    // A date after every change: the roster as handed in.
    let recent = sorted_symbols(get_snp_by_date(&roster, &events, &date(2024, 4, 1)));
    assert_eq!(
        recent,
        sorted_symbols(vec![SnP::AAPL, SnP::UBER, SnP::JBL, SnP::BLDR, SnP::LULU])
    );
}

#[test]
fn resolve_treats_effective_date_as_already_changed() {
    let roster = vec![SnP::AAPL, SnP::LULU];
    let events = get_all_updates();
    // On the effective date itself the change is already in force: LULU is
    // a member; only the later changes are undone.
    let on_date = sorted_symbols(get_snp_by_date(&roster, &events, &date(2023, 10, 18)));
    assert_eq!(
        on_date,
        sorted_symbols(vec![
            SnP::AAPL,
            SnP::LULU,
            SnP::ZION,
            SnP::VFC,
            SnP::SEDG,
            SnP::ALK,
            SnP::WHR,
        ])
    );
    // One day earlier it is not: ATVI is back in LULU's place.
    let day_before = sorted_symbols(get_snp_by_date(&roster, &events, &date(2023, 10, 17)));
    assert_eq!(
        day_before,
        sorted_symbols(vec![
            SnP::AAPL,
            SnP::ATVI,
            SnP::ZION,
            SnP::VFC,
            SnP::SEDG,
            SnP::ALK,
            SnP::WHR,
        ])
    );
}

#[test]
fn resolve_is_invariant_to_event_order() {
    let roster = vec![SnP::AAPL, SnP::UBER, SnP::JBL, SnP::BLDR, SnP::LULU];
    let events = get_all_updates();
    let expected = sorted_symbols(get_snp_by_date(&roster, &events, &date(2023, 6, 1)));

    // Reversed order.
    let mut reversed = events.clone();
    reversed.reverse();
    assert_eq!(
        sorted_symbols(get_snp_by_date(&roster, &reversed, &date(2023, 6, 1))),
        expected
    );

    // A few hand-shuffled orders.
    for &(a, b) in &[(0usize, 5usize), (1, 3), (2, 4)] {
        let mut shuffled = events.clone();
        shuffled.swap(a, b);
        assert_eq!(
            sorted_symbols(get_snp_by_date(&roster, &shuffled, &date(2023, 6, 1))),
            expected
        );
    }
}

#[test]
fn resolve_ignores_unavailable_tickers() {
    let roster = vec![SnP::AAPL];
    let events = vec![SnpUpdate {
        date: date(2024, 3, 18),
        removed_ticker: SnpTicker::NotAvailable,
        added_ticker: SnpTicker::NotAvailable,
    }];
    let r = get_snp_by_date(&roster, &events, &date(2024, 1, 1));
    assert_eq!(r, vec![SnP::AAPL]);
}
