use snp_crawler::policy::{Data, Service};

/// Runs one admission at `wall` milliseconds, sleeps out the returned delay
/// by advancing the simulated wall clock, and hands the delay back.
fn one_request(policy: &Service, data: &mut Data, wall: &mut u64) -> u64 {
    let delay = policy.handle_request_rate(data, *wall).unwrap_or(0);
    *wall += delay;
    delay
}

#[test]
fn handle_request_rate_success() {
    // Five admissions allowed per two-second window: four quick calls pass
    // without any delay.
    let policy = Service::new(2000, 5);
    let mut data = Data::default();
    let mut wall: u64 = 10_000;
    let start = wall;

    for _ in 0..4 {
        let _ = one_request(&policy, &mut data, &mut wall);
        wall += 1;
    }

    let duration = wall - start;
    assert!(duration < 2000, "duration {:?}", duration);
}

#[test]
fn handle_request_rate_block_success() {
    // Six admissions against an allowance of five: the sixth must wait out
    // the remainder of the window.
    let policy = Service::new(2000, 5);
    let mut data = Data::default();
    let mut wall: u64 = 10_000;
    let start = wall;

    for _ in 0..6 {
        let _ = one_request(&policy, &mut data, &mut wall);
        wall += 1;
    }

    let duration = wall - start;
    assert!(duration >= 2000, "duration  {:?}", duration);
}

#[test]
fn third_and_fourth_calls_are_delayed() {
    // Two admissions allowed per two-second window; four back-to-back calls
    // with negligible processing time: the third and fourth are each held
    // back, and the four calls together span at least the window.
    let policy = Service::new(2000, 2);
    let mut data = Data::default();
    let mut wall: u64 = 10_000;
    let start = wall;

    let d1 = one_request(&policy, &mut data, &mut wall);
    wall += 10;
    let d2 = one_request(&policy, &mut data, &mut wall);
    wall += 10;
    let d3 = one_request(&policy, &mut data, &mut wall);
    wall += 1;
    let d4 = one_request(&policy, &mut data, &mut wall);

    assert_eq!(d1, 0);
    assert_eq!(d2, 0);
    // the third call pops the first capture time: 2000 - (10020 - 10000)
    assert_eq!(d3, 1980);
    // the fourth pops the second: 2000 - (12001 - 10010)
    assert_eq!(d4, 9);
    assert!(wall - start >= 2000);
}

#[test]
fn window_never_exceeds_allowance() {
    let policy = Service::new(1000, 3);
    let mut data = Data::default();
    let mut wall: u64 = 5_000;
    for _ in 0..10 {
        let _ = one_request(&policy, &mut data, &mut wall);
        wall += 5;
    }
    assert!(data.last_requests_time.len() <= 3);
}

#[test]
fn pruning_forgets_aged_out_entries() {
    // After a long pause the window is empty again: a new admission passes
    // without delay.
    let policy = Service::new(1000, 1);
    let mut data = Data::default();
    let mut wall: u64 = 5_000;
    let first = one_request(&policy, &mut data, &mut wall);
    assert_eq!(first, 0);
    wall += 5_000;
    let second = one_request(&policy, &mut data, &mut wall);
    assert_eq!(second, 0);
    assert_eq!(data.last_requests_time.len(), 1);
}
