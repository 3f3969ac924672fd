//! Test doubles for the persistent store: a canned double that answers every
//! lookup with one fixed record, and a real in-memory store.

use vstd::prelude::*;

verus! {

use crate::database::Api;
use crate::database::Details;
use crate::database::Error;
use crate::date::Date;
use crate::snp::SnP;

/// A canned store double: every lookup finds the same record, saves are
/// accepted and discarded.
pub struct ServiceFake;

/// The one record [`ServiceFake`] hands back for every lookup.
pub open spec fn canned_details() -> Details {
    Details {
        active: true,
        date: Date { year: 2024, month: 4, day: 17 },
        snp: SnP::AAPL,
        share_class_shares_outstanding: 33535433,
        total_employees: 4354,
        weighted_shares_outstanding: 533354,
    }
}

impl Api for ServiceFake {
    open spec fn records(&self) -> Map<(Date, SnP), Details> {
        Map::total(|k: (Date, SnP)| canned_details())
    }

    open spec fn obeys_store(&self) -> bool {
        false
    }

    open spec fn obeys_find(&self) -> bool {
        true
    }

    fn save_ticker_details(&mut self, details: &Details) -> (r: Result<(), Error>)
        ensures
            r is Ok,
    {
        Ok(())
    }

    fn find_ticker_details(&self, date: &Date, snp: &SnP) -> (r: Result<Details, Error>)
        ensures
            r matches Ok(d) && d == canned_details(),
    {
        Ok(
            Details {
                active: true,
                date: Date { year: 2024, month: 4, day: 17 },
                snp: SnP::AAPL,
                share_class_shares_outstanding: 33535433,
                total_employees: 4354,
                weighted_shares_outstanding: 533354,
            },
        )
    }
}

/// The record row `i` contributes to the store's map.
pub open spec fn row_key(d: Details) -> (Date, SnP) {
    (d.date, d.snp)
}

/// The map a row list denotes; on duplicate keys the later row wins.
pub open spec fn map_of_rows(s: Seq<Details>) -> Map<(Date, SnP), Details>
    decreases s.len(),
{
    if s.len() == 0 {
        Map::empty()
    } else {
        map_of_rows(s.drop_last()).insert(row_key(s.last()), s.last())
    }
}

proof fn lemma_map_of_rows_dom(s: Seq<Details>)
    ensures
        forall|k: (Date, SnP)|
            map_of_rows(s).dom().contains(k) <==> exists|i: int|
                0 <= i < s.len() && row_key(#[trigger] s[i]) == k,
        forall|i: int|
            0 <= i < s.len() && (forall|j: int|
                i < j < s.len() ==> row_key(#[trigger] s[j]) != row_key(s[i]))
                ==> map_of_rows(s).contains_pair(row_key(#[trigger] s[i]), s[i]),
    decreases s.len(),
{
    if s.len() > 0 {
        lemma_map_of_rows_dom(s.drop_last());
        assert(s[s.len() - 1] == s.last());
        assert(forall|i: int| 0 <= i < s.len() - 1 ==> #[trigger] s.drop_last()[i] == s[i]);
        assert forall|k: (Date, SnP)| map_of_rows(s).dom().contains(k) implies exists|i: int|
            0 <= i < s.len() && row_key(#[trigger] s[i]) == k by {
            if k != row_key(s.last()) {
                assert(map_of_rows(s.drop_last()).dom().contains(k));
                let i = choose|i: int|
                    0 <= i < s.drop_last().len() && row_key(#[trigger] s.drop_last()[i]) == k;
                assert(row_key(s[i]) == k);
            } else {
                assert(row_key(s[s.len() - 1]) == k);
            }
        }
        assert forall|k: (Date, SnP)|
            (exists|i: int| 0 <= i < s.len() && row_key(#[trigger] s[i]) == k) implies map_of_rows(
            s,
        ).dom().contains(k) by {
            let i = choose|i: int| 0 <= i < s.len() && row_key(#[trigger] s[i]) == k;
            if i < s.len() - 1 {
                assert(row_key(s.drop_last()[i]) == k);
                assert(map_of_rows(s.drop_last()).dom().contains(k));
            }
        }
        assert forall|i: int|
            0 <= i < s.len() && (forall|j: int|
                i < j < s.len() ==> row_key(#[trigger] s[j]) != row_key(s[i])) implies map_of_rows(
            s,
        ).contains_pair(row_key(#[trigger] s[i]), s[i]) by {
            if i < s.len() - 1 {
                assert(forall|j: int|
                    i < j < s.drop_last().len() ==> row_key(#[trigger] s.drop_last()[j])
                        != row_key(s.drop_last()[i]));
                assert(row_key(s.drop_last()[i]) == row_key(s[i]));
                assert(map_of_rows(s.drop_last()).contains_pair(row_key(s[i]), s[i]));
                assert(row_key(s[s.len() - 1]) != row_key(s[i]));
            }
        }
    }
}

/// A real in-memory store: saves persist, lookups answer from what was
/// saved.  Rows are appended; the later row for a key is the one that
/// counts, and lookups answer from the back.
pub struct ServiceMemory {
    rows: Vec<Details>,
}

impl ServiceMemory {
    pub fn new() -> (r: Self)
        ensures
            r.records() == Map::<(Date, SnP), Details>::empty(),
            r.obeys_store(),
            r.row_count() == 0,
    {
        ServiceMemory { rows: Vec::new() }
    }

    /// How many rows saves have appended.
    pub closed spec fn row_count(&self) -> nat {
        self.rows@.len()
    }

    /// How many rows the store holds; each accepted save added exactly one.
    pub fn len(&self) -> (n: usize)
        ensures
            n == self.row_count(),
    {
        self.rows.len()
    }

    /// The index of the row that counts for this key: the last one.
    fn row_index(&self, date: &Date, snp: &SnP) -> (r: Option<usize>)
        ensures
            match r {
                Some(i) => {
                    &&& i < self.rows@.len()
                    &&& row_key(self.rows@[i as int]) == (*date, *snp)
                    &&& forall|j: int|
                        i < j < self.rows@.len() ==> row_key(#[trigger] self.rows@[j]) != (
                        *date,
                        *snp,
                        )
                },
                None => forall|i: int|
                    0 <= i < self.rows@.len() ==> row_key(#[trigger] self.rows@[i]) != (
                    *date,
                    *snp,
                    ),
            },
    {
        let mut i: usize = self.rows.len();
        while i > 0
            invariant
                0 <= i <= self.rows@.len(),
                forall|j: int| i <= j < self.rows@.len() ==> row_key(#[trigger] self.rows@[j]) != (
                *date,
                *snp,
                ),
            decreases i,
        {
            i = i - 1;
            let row = &self.rows[i];
            if row.date == *date && row.snp == *snp {
                return Some(i);
            }
        }
        None
    }
}

impl Api for ServiceMemory {
    closed spec fn records(&self) -> Map<(Date, SnP), Details> {
        map_of_rows(self.rows@)
    }

    open spec fn obeys_store(&self) -> bool {
        true
    }

    open spec fn obeys_find(&self) -> bool {
        true
    }

    fn save_ticker_details(&mut self, details: &Details) -> (r: Result<(), Error>)
        ensures
            r is Ok,
            final(self).records() == old(self).records().insert(
                (details.date, details.snp),
                *details,
            ),
            final(self).row_count() == old(self).row_count() + 1,
    {
        let ghost rows0 = self.rows@;
        self.rows.push(*details);
        proof {
            assert(self.rows@.drop_last() =~= rows0);
            assert(self.rows@.last() == *details);
        }
        Ok(())
    }

    fn find_ticker_details(&self, date: &Date, snp: &SnP) -> (r: Result<Details, Error>) {
        proof {
            lemma_map_of_rows_dom(self.rows@);
        }
        match self.row_index(date, snp) {
            Some(i) => Ok(self.rows[i]),
            None => Err(Error::NotFound),
        }
    }
}

} // verus!
