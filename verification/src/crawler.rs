//! The crawl orchestrator: cache-first lookup, conditional fetch,
//! conditional persist, and admission control, composed into one idempotent
//! per-(date, symbol) task, plus the schedule that drives it.
//!
//! Per task: a record already stored completes the task at once, with no
//! network activity and no admission consumed.  A lookup miss triggers a
//! fetch; any provider failure is absorbed (the task still completes, one
//! admission is consumed, nothing is stored).  A fetched payload is mapped
//! and saved, then one admission is consumed.  Store failures, and failures
//! of the admission policy itself, are fatal and abort the run.

use vstd::prelude::*;

verus! {

use crate::database;
use crate::date::Date;
use crate::date::is_weekend_index;
use crate::date::lemma_idx_positive;
use crate::network;
use crate::policy;
use crate::snp::SnP;
use crate::snp_by_date::get_snp_by_date;
use crate::snp_by_date::replay;
use crate::snp_update::SnpUpdate;
use vstd::map_lib::lemma_submap_of_trans;

/// One crawl task: fetch-and-persist for this symbol on this date.
#[derive(Debug, Clone, Copy, PartialEq, Eq, Structural)]
pub struct Data {
    pub ticker: SnP,
    pub date: Date,
}

/// All possible errors of the orchestrator, each wrapping the collaborator
/// that failed.  Provider failures are soft and absorbed: no `Net` error
/// ever surfaces from a task.
#[derive(Debug)]
pub enum Error {
    Db(database::Error),
    Net(network::Error),
    Policy(policy::Error),
    SnP(crate::snp::Error),
}

/// Maps a fetched payload into the record persisted for a task.
pub fn to_details(data: &Data, payload: &network::Data) -> (r: database::Details)
    ensures
        r == (database::Details {
            active: payload.active,
            date: data.date,
            snp: data.ticker,
            share_class_shares_outstanding: payload.share_class_shares_outstanding,
            total_employees: payload.total_employees,
            weighted_shares_outstanding: payload.weighted_shares_outstanding,
        }),
{
    database::Details {
        active: payload.active,
        date: data.date,
        snp: data.ticker,
        share_class_shares_outstanding: payload.share_class_shares_outstanding,
        total_employees: payload.total_employees,
        weighted_shares_outstanding: payload.weighted_shares_outstanding,
    }
}

/// The service that implements the orchestrator.
#[derive(Debug)]
pub struct Service;

impl Service {
    pub fn new() -> (r: Self) {
        Self {}
    }

    /// One task, idempotent per (date, symbol):
    /// - a record already stored short-circuits the task: nothing changes,
    ///   no admission is consumed, and with a reliable store the task is
    ///   owed success;
    /// - on a lookup miss, at most one record (for this very task) can be
    ///   added, and a task that completes consumes exactly one admission;
    /// - provider failures never surface; store and policy failures do, and
    ///   a store failure consumes no admission and leaves the records as
    ///   they were.
    pub fn crawl_ticker_details<S: database::Api, N: network::Api, P: policy::Api>(
        &self,
        database_service: &mut S,
        network_service: &N,
        policy_service: &P,
        data: &Data,
        policy_data: &mut policy::Data,
    ) -> (r: Result<(), Error>)
        ensures
            ({
                let key = (data.date, data.ticker);
                &&& old(database_service).records().dom().contains(key) ==> {
                    &&& final(database_service).records() == old(database_service).records()
                    &&& final(policy_data).last_requests_time@ == old(policy_data).last_requests_time@
                }
                &&& final(database_service).records() == old(database_service).records() || (
                exists|d: database::Details|
                    d.date == data.date && d.snp == data.ticker && final(database_service).records() == old(database_service).records().insert(key, d))
                &&& final(database_service).obeys_store() == old(database_service).obeys_store()
                &&& r is Ok && !old(database_service).records().dom().contains(key)
                    ==> policy_service.admit_rel(*old(policy_data), *final(policy_data))
                &&& !(r matches Err(Error::Net(_)))
                &&& !(r matches Err(Error::SnP(_)))
                &&& old(database_service).records().dom().contains(key) && old(
                    database_service,
                ).obeys_find() ==> r is Ok
                &&& r matches Err(Error::Db(_)) ==> final(database_service).records() == old(
                    database_service,
                ).records()
                &&& r matches Err(Error::Db(_)) ==> final(policy_data).last_requests_time@ == old(policy_data).last_requests_time@
                &&& r matches Err(Error::Policy(_)) ==> final(policy_data).last_requests_time@
                    == old(policy_data).last_requests_time@
            }),
    {
        match database_service.find_ticker_details(&data.date, &data.ticker) {
            Ok(_) => {
                return Ok(());
            },
            Err(database::Error::NotFound) => (),
            Err(e) => {
                return Err(Error::Db(e));
            },
        }

        let fetched = network_service.get_ticker_details(&data.ticker, &data.date);
        let payload = match fetched {
            Ok(p) => p,
            Err(_) => {
                return match policy_service.handle_request_rate(policy_data) {
                    Ok(()) => Ok(()),
                    Err(pe) => Err(Error::Policy(pe)),
                };
            },
        };

        let details = to_details(data, &payload);
        match database_service.save_ticker_details(&details) {
            Ok(()) => (),
            Err(e) => {
                return Err(Error::Db(e));
            },
        }

        match policy_service.handle_request_rate(policy_data) {
            Ok(()) => Ok(()),
            Err(pe) => Err(Error::Policy(pe)),
        }
    }
}

/// The dates one run visits: every weekday strictly after `start_date`, up
/// to and including `end_date`, most recent first — exactly the weekday day
/// numbers of that range, in descending order.
pub fn build_schedule(start_date: &Date, end_date: &Date) -> (r: Vec<Date>)
    requires
        start_date.wf(),
        end_date.wf(),
        start_date.idx() <= end_date.idx(),
    ensures
        forall|i: int|
            0 <= i < r@.len() ==> (#[trigger] r@[i]).wf() && !r@[i].spec_is_weekend()
                && start_date.idx() < r@[i].idx() <= end_date.idx(),
        forall|i: int, j: int| 0 <= i < j < r@.len() ==> r@[i].idx() > r@[j].idx(),
        forall|n: int|
            #![trigger is_weekend_index(n)]
            start_date.idx() < n <= end_date.idx() && !is_weekend_index(n) ==> exists|i: int|
                0 <= i < r@.len() && (#[trigger] r@[i]).idx() == n,
{
    let mut r: Vec<Date> = Vec::new();
    let mut cur: Date = *end_date;
    let start_num = start_date.day_number();
    while cur.day_number() > start_num
        invariant
            start_date.wf(),
            end_date.wf(),
            cur.wf(),
            start_num == start_date.idx(),
            start_date.idx() <= cur.idx() <= end_date.idx(),
            forall|i: int|
                0 <= i < r@.len() ==> (#[trigger] r@[i]).wf() && !r@[i].spec_is_weekend()
                    && cur.idx() < r@[i].idx() <= end_date.idx(),
            forall|i: int, j: int| 0 <= i < j < r@.len() ==> r@[i].idx() > r@[j].idx(),
            forall|n: int|
                #![trigger is_weekend_index(n)]
                cur.idx() < n <= end_date.idx() && !is_weekend_index(n) ==> exists|i: int|
                    0 <= i < r@.len() && (#[trigger] r@[i]).idx() == n,
        decreases cur.idx(),
    {
        let ghost r0 = r@;
        if !cur.is_weekend() {
            r.push(cur);
        }
        proof {
            assert(forall|i: int| 0 <= i < r0.len() ==> #[trigger] r@[i] == r0[i]);
            lemma_idx_positive(*start_date);
            assert forall|n: int|
                #![trigger is_weekend_index(n)]
                cur.idx() - 1 < n <= end_date.idx() && !is_weekend_index(n) implies exists|i: int|
                0 <= i < r@.len() && (#[trigger] r@[i]).idx() == n by {
                if n == cur.idx() {
                    assert(r@[r@.len() - 1].idx() == n);
                } else {
                    let i = choose|i: int| 0 <= i < r0.len() && (#[trigger] r0[i]).idx() == n;
                    assert(r@[i].idx() == n);
                }
            }
        }
        cur = cur.prev_day();
    }
    r
}

/// A task the run may persist a record for: a weekday inside the range,
/// and a symbol that the change log makes a member on that day.
pub open spec fn task_scheduled(
    roster: Seq<SnP>,
    events: Seq<SnpUpdate>,
    start_date: Date,
    end_date: Date,
    k: (Date, SnP),
) -> bool {
    &&& k.0.wf()
    &&& !k.0.spec_is_weekend()
    &&& start_date.idx() < k.0.idx() <= end_date.idx()
    &&& replay(roster.to_set(), events, k.0).contains(k.1)
}

impl Service {
    /// The whole run: for each scheduled date, most recent first, one task
    /// per member symbol of that date, in membership order; the first fatal
    /// error aborts the remaining schedule.  Whatever happens, the store
    /// only ever grows, and every record it gains is one the schedule asked
    /// for: a scheduled weekday, and a symbol that was a member that day.
    /// A run with no tasks — a range of weekends only, or no roster and no
    /// change log — cannot fail.
    pub fn crawl_schedule<S: database::Api, N: network::Api, P: policy::Api>(
        &self,
        database_service: &mut S,
        network_service: &N,
        policy_service: &P,
        roster: &Vec<SnP>,
        events: &Vec<SnpUpdate>,
        start_date: &Date,
        end_date: &Date,
        policy_data: &mut policy::Data,
    ) -> (r: Result<(), Error>)
        requires
            start_date.wf(),
            end_date.wf(),
            start_date.idx() <= end_date.idx(),
            forall|i: int| 0 <= i < events@.len() ==> (#[trigger] events@[i]).date.wf(),
        ensures
            old(database_service).records().submap_of(final(database_service).records()),
            final(database_service).obeys_store() == old(database_service).obeys_store(),
            forall|k: (Date, SnP)|
                final(database_service).records().dom().contains(k) && !old(
                    database_service,
                ).records().dom().contains(k) ==> #[trigger] task_scheduled(
                    roster@,
                    events@,
                    *start_date,
                    *end_date,
                    k,
                ),
            (forall|n: int|
                #![trigger is_weekend_index(n)]
                start_date.idx() < n <= end_date.idx() ==> is_weekend_index(n)) ==> r is Ok,
            roster@.len() == 0 && events@.len() == 0 ==> r is Ok,
    {
        let schedule = build_schedule(start_date, end_date);
        let mut di: usize = 0;
        while di < schedule.len()
            invariant
                0 <= di <= schedule@.len(),
                forall|i: int|
                    0 <= i < schedule@.len() ==> (#[trigger] schedule@[i]).wf()
                        && !schedule@[i].spec_is_weekend() && start_date.idx() < schedule@[i].idx()
                        <= end_date.idx(),
                forall|i: int| 0 <= i < events@.len() ==> (#[trigger] events@[i]).date.wf(),
                old(database_service).records().submap_of(database_service.records()),
                database_service.obeys_store() == old(database_service).obeys_store(),
                forall|k: (Date, SnP)|
                    database_service.records().dom().contains(k) && !old(
                        database_service,
                    ).records().dom().contains(k) ==> #[trigger] task_scheduled(
                        roster@,
                        events@,
                        *start_date,
                        *end_date,
                        k,
                    ),
            decreases schedule@.len() - di,
        {
            let date = schedule[di];
            let symbols = get_snp_by_date(roster, events, &date);
            let mut si: usize = 0;
            while si < symbols.len()
                invariant
                    0 <= si <= symbols@.len(),
                    date.wf(),
                    !date.spec_is_weekend(),
                    start_date.idx() < date.idx() <= end_date.idx(),
                    symbols@.to_set() == replay(roster@.to_set(), events@, date),
                    old(database_service).records().submap_of(database_service.records()),
                    database_service.obeys_store() == old(database_service).obeys_store(),
                    forall|k: (Date, SnP)|
                        database_service.records().dom().contains(k) && !old(
                            database_service,
                        ).records().dom().contains(k) ==> #[trigger] task_scheduled(
                            roster@,
                            events@,
                            *start_date,
                            *end_date,
                            k,
                        ),
                decreases symbols@.len() - si,
            {
                let task = Data { ticker: symbols[si], date };
                let ghost before = database_service.records();
                let outcome = self.crawl_ticker_details(
                    database_service,
                    network_service,
                    policy_service,
                    &task,
                    policy_data,
                );
                proof {
                    let after = database_service.records();
                    if after != before {
                        let key = (task.date, task.ticker);
                        assert(!before.dom().contains(key));
                        assert(before.submap_of(after));
                        assert(symbols@.to_set().contains(task.ticker)) by {
                            assert(symbols@[si as int] == task.ticker);
                        }
                        assert(task_scheduled(roster@, events@, *start_date, *end_date, key));
                        assert(forall|k: (Date, SnP)|
                            after.dom().contains(k) && !before.dom().contains(k) ==> k == key);
                    }
                    lemma_submap_of_trans(old(database_service).records(), before, after);
                }
                match outcome {
                    Ok(()) => (),
                    Err(e) => {
                        proof {
                            // a task exists, so the range holds a weekday
                            assert(is_weekend_index(date.idx()) == date.spec_is_weekend());
                            // and with no roster and no change log there is
                            // no symbol to have made a task from
                            if roster@.len() == 0 && events@.len() == 0 {
                                assert(symbols@.to_set().contains(symbols@[si as int]));
                                assert(events@ =~= Seq::<SnpUpdate>::empty());
                                assert(roster@.to_set().contains(symbols@[si as int]));
                                assert(roster@.contains(symbols@[si as int]));
                            }
                        }
                        return Err(e);
                    },
                }
                si = si + 1;
            }
            di = di + 1;
        }
        Ok(())
    }
}

} // verus!
