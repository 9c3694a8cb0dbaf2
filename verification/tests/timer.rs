use dex_analytics::timer::{millis_since_epoch, mmssms, unixtime_ms, Timer};

#[test]
fn mmssms_splits_a_duration() {
    assert_eq!(mmssms(0), "0m 0s 0ms");
    assert_eq!(mmssms(999), "0m 0s 999ms");
    assert_eq!(mmssms(1000), "0m 1s 0ms");
    assert_eq!(mmssms(125_030), "2m 5s 30ms");
    assert_eq!(mmssms(3_600_000), "60m 0s 0ms");
    assert_eq!(mmssms(u64::MAX), "307445734561825m 51s 615ms");
}

#[test]
fn millis_since_epoch_of_a_reading() {
    assert_eq!(millis_since_epoch(Some(1_700_000_000_123)), 1_700_000_000_123);
    assert_eq!(millis_since_epoch(Some(0)), 0);
    assert_eq!(millis_since_epoch(Some(u128::MAX)), u128::MAX);
    assert_eq!(millis_since_epoch(None), 0);
}

#[test]
fn unixtime_ms_is_after_the_year_2020() {
    assert!(unixtime_ms() > 1_577_836_800_000);
}

#[test]
fn timer_measures_from_the_request() {
    let mut timer = Timer::new();
    assert_eq!(timer.start_ms(), 0);
    timer.on_request(1_700_000_000_000);
    assert_eq!(timer.start_ms(), 1_700_000_000_000);
    assert_eq!(timer.on_response(1_700_000_000_000), "0m 0s 0ms");
    assert_eq!(timer.on_response(1_700_000_061_250), "1m 1s 250ms");
    assert_eq!(timer.start_ms(), 1_700_000_000_000);
}
