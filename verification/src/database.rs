//! The persistent store of per-(date, symbol) reference-data records.
//!
//! The store itself is a collaborator (a relational database in the running
//! system); this module states what any implementation promises: lookups
//! answer from the held records, and saves insert exactly the handed record.

use vstd::prelude::*;

verus! {

use crate::date::Date;
use crate::snp::SnP;

/// One persisted reference-data record.  Unique key: `(date, snp)`; created
/// once on first successful fetch, never updated, never deleted.
#[derive(Debug, Clone, Copy, PartialEq, Eq, Structural)]
pub struct Details {
    pub active: bool,
    pub date: Date,
    pub snp: SnP,
    pub share_class_shares_outstanding: i64,
    pub total_employees: i32,
    pub weighted_shares_outstanding: i64,
}

/// All possible errors of the store modules.  `NotFound` is no failure: it
/// is the signal that a record has not been fetched yet.
#[derive(Debug)]
pub enum Error {
    Db(String),
    NotFound,
}

/// The API of the persistent store.
///
/// `records` is the implementation's model of what it holds; `obeys_store`
/// says whether saves really persist (a canned test double discards them);
/// `obeys_find` says whether lookups are reliable — they answer from the
/// records without spurious engine failures.  Where either flag is off,
/// errors other than `NotFound` may come at any time — a broken downstream
/// store is an environmental failure — but they never change the records.
pub trait Api: Sized {
    open spec fn records(&self) -> Map<(Date, SnP), Details> {
        Map::empty()
    }

    open spec fn obeys_store(&self) -> bool {
        false
    }

    open spec fn obeys_find(&self) -> bool {
        false
    }

    fn save_ticker_details(&mut self, details: &Details) -> (r: Result<(), Error>)
        ensures
            final(self).obeys_store() == old(self).obeys_store(),
            final(self).obeys_find() == old(self).obeys_find(),
            r is Ok && old(self).obeys_store() ==> final(self).records() == old(
                self,
            ).records().insert((details.date, details.snp), *details),
            r is Ok ==> final(self).records() == old(self).records() || final(self).records()
                == old(self).records().insert((details.date, details.snp), *details),
            r is Err ==> final(self).records() == old(self).records(),
    ;

    fn find_ticker_details(&self, date: &Date, snp: &SnP) -> (r: Result<Details, Error>)
        ensures
            r matches Ok(d) ==> self.records().contains_pair((*date, *snp), d),
            r matches Err(Error::NotFound) ==> !self.records().dom().contains((*date, *snp)),
            self.obeys_find() ==> !(r matches Err(Error::Db(_))),
    ;
}

} // verus!
