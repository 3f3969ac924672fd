//! The roster change log: the static table of index changes and its
//! conversion from recorded rows (dates as text) into typed updates.

use vstd::prelude::*;

verus! {

use crate::date::Date;
use crate::date::parse_iso_date;
use crate::date::parse_iso_date_spec;
use crate::snp::Error;
use crate::snp::SnP;
use vstd::string::StringExecFns;

/// A change-log ticker slot.  Historic tickers that lie outside the closed
/// enumeration are carried as `NotAvailable` and never touch a roster.
#[derive(Debug, PartialEq, Eq, Structural, Clone, Copy)]
pub enum SnpTicker {
    Available(SnP),
    NotAvailable,
}

/// One roster change, effective starting on `date`: `removed_ticker` left the
/// index that day and `added_ticker` entered it.
#[derive(Debug, PartialEq, Eq, Structural, Clone, Copy)]
pub struct SnpUpdate {
    pub date: Date,
    pub removed_ticker: SnpTicker,
    pub added_ticker: SnpTicker,
}

/// One roster change as the static table records it, the date still text.
pub struct SnpUpdateUnformatted {
    pub date: String,
    pub removed_ticker: SnpTicker,
    pub added_ticker: SnpTicker,
}

/// Whether every row's date text parses.
pub open spec fn all_rows_parse(s: Seq<SnpUpdateUnformatted>) -> bool {
    forall|i: int| 0 <= i < s.len() ==> parse_iso_date_spec(#[trigger] s[i].date@) is Some
}

/// The typed updates that a fully parsing table denotes.
pub open spec fn formatted_rows(s: Seq<SnpUpdateUnformatted>) -> Seq<SnpUpdate> {
    Seq::new(
        s.len(),
        |i: int|
            SnpUpdate {
                date: parse_iso_date_spec(s[i].date@)->0,
                removed_ticker: s[i].removed_ticker,
                added_ticker: s[i].added_ticker,
            },
    )
}

/// Parses every row's date.  Returns the typed change log, or the date text
/// of the first row that does not parse.
pub fn format_all_updates(updates: Vec<SnpUpdateUnformatted>) -> (r: Result<
    Vec<SnpUpdate>,
    Error,
>)
    ensures
        r is Ok <==> all_rows_parse(updates@),
        match r {
            Ok(v) => v@ == formatted_rows(updates@),
            Err(e) => match e {
                Error::ParseError(t) => exists|i: int|
                    {
                        &&& 0 <= i < updates@.len()
                        &&& parse_iso_date_spec(#[trigger] updates@[i].date@) is None
                        &&& t@ == updates@[i].date@
                        &&& forall|j: int|
                            0 <= j < i ==> parse_iso_date_spec(#[trigger] updates@[j].date@) is Some
                    },
                _ => false,
            },
        },
{
    let mut out: Vec<SnpUpdate> = Vec::new();
    let mut idx: usize = 0;
    while idx < updates.len()
        invariant
            0 <= idx <= updates@.len(),
            out@.len() == idx,
            forall|j: int| 0 <= j < idx ==> parse_iso_date_spec(#[trigger] updates@[j].date@) is Some,
            forall|j: int| 0 <= j < idx ==> out@[j] == formatted_rows(updates@)[j],
        decreases updates@.len() - idx,
    {
        let row = &updates[idx];
        match parse_iso_date(row.date.as_str()) {
            Some(d) => {
                out.push(
                    SnpUpdate {
                        date: d,
                        removed_ticker: row.removed_ticker,
                        added_ticker: row.added_ticker,
                    },
                );
            },
            None => {
                return Err(Error::ParseError(row.date.clone()));
            },
        }
        idx = idx + 1;
    }
    proof {
        assert(out@ =~= formatted_rows(updates@));
    }
    Ok(out)
}

/// The typed change log, one value per row of the static table, newest first.
pub open spec fn all_updates_spec() -> Seq<SnpUpdate> {
    seq![
        SnpUpdate {
            date: Date { year: 2024, month: 3, day: 18 },
            removed_ticker: SnpTicker::Available(SnP::ZION),
            added_ticker: SnpTicker::NotAvailable,
        },
        SnpUpdate {
            date: Date { year: 2024, month: 3, day: 18 },
            removed_ticker: SnpTicker::Available(SnP::VFC),
            added_ticker: SnpTicker::NotAvailable,
        },
        SnpUpdate {
            date: Date { year: 2023, month: 12, day: 18 },
            removed_ticker: SnpTicker::Available(SnP::SEDG),
            added_ticker: SnpTicker::Available(SnP::UBER),
        },
        SnpUpdate {
            date: Date { year: 2023, month: 12, day: 18 },
            removed_ticker: SnpTicker::Available(SnP::ALK),
            added_ticker: SnpTicker::Available(SnP::JBL),
        },
        SnpUpdate {
            date: Date { year: 2023, month: 12, day: 18 },
            removed_ticker: SnpTicker::Available(SnP::WHR),
            added_ticker: SnpTicker::Available(SnP::BLDR),
        },
        SnpUpdate {
            date: Date { year: 2023, month: 10, day: 18 },
            removed_ticker: SnpTicker::Available(SnP::ATVI),
            added_ticker: SnpTicker::Available(SnP::LULU),
        },
    ]
}

/// The static change-log table, dates as recorded text, newest first.
pub fn get_all_updates_unformatted() -> (r: Vec<SnpUpdateUnformatted>)
    ensures
        r@.len() == all_updates_spec().len(),
        all_rows_parse(r@),
        formatted_rows(r@) == all_updates_spec(),
{
    let mut v: Vec<SnpUpdateUnformatted> = Vec::new();
    v.push(
        SnpUpdateUnformatted {
            date: String::from_str("2024-03-18"),
            removed_ticker: SnpTicker::Available(SnP::ZION),
            added_ticker: SnpTicker::NotAvailable,
        },
    );
    v.push(
        SnpUpdateUnformatted {
            date: String::from_str("2024-03-18"),
            removed_ticker: SnpTicker::Available(SnP::VFC),
            added_ticker: SnpTicker::NotAvailable,
        },
    );
    v.push(
        SnpUpdateUnformatted {
            date: String::from_str("2023-12-18"),
            removed_ticker: SnpTicker::Available(SnP::SEDG),
            added_ticker: SnpTicker::Available(SnP::UBER),
        },
    );
    v.push(
        SnpUpdateUnformatted {
            date: String::from_str("2023-12-18"),
            removed_ticker: SnpTicker::Available(SnP::ALK),
            added_ticker: SnpTicker::Available(SnP::JBL),
        },
    );
    v.push(
        SnpUpdateUnformatted {
            date: String::from_str("2023-12-18"),
            removed_ticker: SnpTicker::Available(SnP::WHR),
            added_ticker: SnpTicker::Available(SnP::BLDR),
        },
    );
    v.push(
        SnpUpdateUnformatted {
            date: String::from_str("2023-10-18"),
            removed_ticker: SnpTicker::Available(SnP::ATVI),
            added_ticker: SnpTicker::Available(SnP::LULU),
        },
    );
    proof {
        reveal_strlit("2024-03-18");
        reveal_strlit("2023-12-18");
        reveal_strlit("2023-10-18");
        assert forall|i: int| 0 <= i < v@.len() implies parse_iso_date_spec(
            #[trigger] v@[i].date@,
        ) is Some by {
            assert(parse_iso_date_spec(v@[0].date@) is Some);
            assert(parse_iso_date_spec(v@[2].date@) is Some);
            assert(parse_iso_date_spec(v@[5].date@) is Some);
        }
        assert(formatted_rows(v@) =~= all_updates_spec());
    }
    v
}

/// The typed change log: the static table with its dates parsed.
pub fn get_all_updates() -> (r: Vec<SnpUpdate>)
    ensures
        r@ == all_updates_spec(),
{
    let raw = get_all_updates_unformatted();
    let ghost raw_view = raw@;
    match format_all_updates(raw) {
        Ok(v) => v,
        Err(_) => {
            proof {
                assert(all_rows_parse(raw_view));
                assert(false);
            }
            Vec::new()
        },
    }
}

} // verus!
