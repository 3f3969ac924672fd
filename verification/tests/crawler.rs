use std::cell::Cell;

use snp_crawler::crawler::{build_schedule, Data, Service};
use snp_crawler::database;
use snp_crawler::database::Api as StoreApi;
use snp_crawler::database_fixture::{ServiceFake as DbServiceFake, ServiceMemory};
use snp_crawler::date::Date;
use snp_crawler::network;
use snp_crawler::network_fixture::ServiceFake as NetServiceFake;
use snp_crawler::policy;
use snp_crawler::policy_fixture::ServiceFake as PolicyServiceFake;
use snp_crawler::snp::SnP;

fn date(y: u32, m: u32, d: u32) -> Date {
    Date::from_ymd(y, m, d).unwrap()
}

/// A provider double that counts calls and can be told to fail.
struct CountingNetwork {
    calls: Cell<u32>,
    fail: bool,
}

impl network::Api for CountingNetwork {
    fn get_ticker_details(&self, _ticker: &SnP, _date: &Date) -> Result<network::Data, network::Error> {
        self.calls.set(self.calls.get() + 1);
        if self.fail {
            Err(network::Error::Request(String::from("connection reset")))
        } else {
            Ok(network::Data {
                active: true,
                share_class_shares_outstanding: 453,
                total_employees: 5345,
                weighted_shares_outstanding: 7465,
            })
        }
    }
}

/// A policy double that counts admissions.
struct CountingPolicy {
    admits: Cell<u32>,
}

impl policy::Api for CountingPolicy {
    fn handle_request_rate(&self, _data: &mut policy::Data) -> Result<(), policy::Error> {
        self.admits.set(self.admits.get() + 1);
        Ok(())
    }
}

#[test]
fn call_crawl_ticker_details() {
    let service = Service::new();
    let data = Data { ticker: SnP::AAPL, date: date(2024, 4, 17) };
    let mut db = DbServiceFake;
    let net = NetServiceFake;
    let pol = PolicyServiceFake;
    let mut policy_data = policy::Data::default();

    let r = service.crawl_ticker_details(&mut db, &net, &pol, &data, &mut policy_data);
    assert!(r.is_ok());
}

#[test]
fn cache_hit_skips_provider_and_policy() {
    // The canned store finds a record for every lookup, so the task
    // completes without touching the provider or the policy.
    let service = Service::new();
    let data = Data { ticker: SnP::AAPL, date: date(2024, 4, 17) };
    let mut db = DbServiceFake;
    let net = CountingNetwork { calls: Cell::new(0), fail: false };
    let pol = CountingPolicy { admits: Cell::new(0) };
    let mut policy_data = policy::Data::default();

    let r = service.crawl_ticker_details(&mut db, &net, &pol, &data, &mut policy_data);
    assert!(r.is_ok());
    assert_eq!(net.calls.get(), 0);
    assert_eq!(pol.admits.get(), 0);
}

#[test]
fn failed_fetch_is_absorbed_and_admits_once() {
    // A transport failure: the task still succeeds, one admission is
    // consumed, nothing is saved.
    let service = Service::new();
    let data = Data { ticker: SnP::AAPL, date: date(2024, 4, 18) };
    let mut db = ServiceMemory::new();
    let net = CountingNetwork { calls: Cell::new(0), fail: true };
    let pol = CountingPolicy { admits: Cell::new(0) };
    let mut policy_data = policy::Data::default();

    let r = service.crawl_ticker_details(&mut db, &net, &pol, &data, &mut policy_data);
    assert!(r.is_ok());
    assert_eq!(net.calls.get(), 1);
    assert_eq!(pol.admits.get(), 1);
    assert_eq!(db.len(), 0);
}

#[test]
fn process_twice_saves_once() {
    // Idempotence against a real store: the second call short-circuits at
    // the lookup, without invoking the provider again.
    let service = Service::new();
    let data = Data { ticker: SnP::AAPL, date: date(2024, 4, 17) };
    let mut db = ServiceMemory::new();
    let net = CountingNetwork { calls: Cell::new(0), fail: false };
    let pol = CountingPolicy { admits: Cell::new(0) };
    let mut policy_data = policy::Data::default();

    let first = service.crawl_ticker_details(&mut db, &net, &pol, &data, &mut policy_data);
    assert!(first.is_ok());
    assert_eq!(db.len(), 1);
    assert_eq!(net.calls.get(), 1);
    assert_eq!(pol.admits.get(), 1);

    let second = service.crawl_ticker_details(&mut db, &net, &pol, &data, &mut policy_data);
    assert!(second.is_ok());
    assert_eq!(db.len(), 1);
    assert_eq!(net.calls.get(), 1);
    assert_eq!(pol.admits.get(), 1);

    let found = db.find_ticker_details(&data.date, &data.ticker).unwrap();
    assert_eq!(found.snp, SnP::AAPL);
    assert_eq!(found.date, data.date);
    assert_eq!(found.share_class_shares_outstanding, 453);
    assert_eq!(found.total_employees, 5345);
    assert_eq!(found.weighted_shares_outstanding, 7465);
    assert!(found.active);
}

/// A store whose lookups miss and whose saves fail.
struct BrokenStore;

impl database::Api for BrokenStore {
    fn save_ticker_details(&mut self, _details: &database::Details) -> Result<(), database::Error> {
        Err(database::Error::Db(String::from("connection closed")))
    }
    fn find_ticker_details(
        &self,
        _date: &Date,
        _snp: &SnP,
    ) -> Result<database::Details, database::Error> {
        Err(database::Error::NotFound)
    }
}

#[test]
fn memory_store_misses_until_saved() {
    let db = ServiceMemory::new();
    let r = db.find_ticker_details(&date(2024, 4, 17), &SnP::AAPL);
    assert!(matches!(r, Err(database::Error::NotFound)));
}

#[test]
fn store_error_on_save_is_fatal() {
    let service = Service::new();
    let data = Data { ticker: SnP::AAPL, date: date(2024, 4, 18) };
    let mut db = BrokenStore;
    let net = CountingNetwork { calls: Cell::new(0), fail: false };
    let pol = CountingPolicy { admits: Cell::new(0) };
    let mut policy_data = policy::Data::default();

    let r = service.crawl_ticker_details(&mut db, &net, &pol, &data, &mut policy_data);
    assert!(matches!(r, Err(snp_crawler::crawler::Error::Db(_))));
    // a fatal store failure consumes no admission slot
    assert_eq!(pol.admits.get(), 0);
}

#[test]
fn schedule_for_three_weekdays() {
    // start 2024-04-16, end 2024-04-18: the 17th is a Wednesday, nothing is
    // skipped; dates come most recent first.
    let r = build_schedule(&date(2024, 4, 16), &date(2024, 4, 18));
    assert_eq!(r, vec![date(2024, 4, 18), date(2024, 4, 17)]);
}

#[test]
fn schedule_skips_weekends() {
    // 2024-04-12 is a Friday; the 13th and 14th fall on a weekend.
    let r = build_schedule(&date(2024, 4, 11), &date(2024, 4, 15));
    assert_eq!(r, vec![date(2024, 4, 15), date(2024, 4, 12)]);
}

#[test]
fn crawl_schedule_fills_the_store() {
    let service = Service::new();
    let roster = vec![SnP::AAPL, SnP::MSFT];
    let events = snp_crawler::snp_update::get_all_updates();
    let mut db = ServiceMemory::new();
    let net = CountingNetwork { calls: Cell::new(0), fail: false };
    let pol = CountingPolicy { admits: Cell::new(0) };
    let mut policy_data = policy::Data::default();

    let r = service.crawl_schedule(
        &mut db,
        &net,
        &pol,
        &roster,
        &events,
        &date(2024, 4, 16),
        &date(2024, 4, 18),
        &mut policy_data,
    );
    assert!(r.is_ok());
    // two weekdays, two symbols each
    assert_eq!(db.len(), 4);
    assert_eq!(net.calls.get(), 4);
    assert_eq!(pol.admits.get(), 4);

    // a second run converges: everything is already stored
    let r2 = service.crawl_schedule(
        &mut db,
        &net,
        &pol,
        &roster,
        &events,
        &date(2024, 4, 16),
        &date(2024, 4, 18),
        &mut policy_data,
    );
    assert!(r2.is_ok());
    assert_eq!(db.len(), 4);
    assert_eq!(net.calls.get(), 4);
}
