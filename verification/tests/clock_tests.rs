use event_ledger::utils::{millis_since_epoch, now_as_millis};
use std::time::{Duration, UNIX_EPOCH};

#[test]
fn the_clock_reads_a_time_after_the_epoch() {
    let now = now_as_millis().unwrap();
    assert!(now > 1_600_000_000_000);
}

#[test]
fn the_epoch_is_zero_milliseconds() {
    assert_eq!(millis_since_epoch(&UNIX_EPOCH), Some(0));
}

#[test]
fn milliseconds_count_from_the_epoch() {
    let time = UNIX_EPOCH + Duration::from_millis(1500);
    assert_eq!(millis_since_epoch(&time), Some(1500));
    let time = UNIX_EPOCH + Duration::from_secs(1_700_000_000);
    assert_eq!(millis_since_epoch(&time), Some(1_700_000_000_000));
}

#[test]
fn a_part_of_a_millisecond_is_dropped() {
    let time = UNIX_EPOCH + Duration::new(2, 999_999_999);
    assert_eq!(millis_since_epoch(&time), Some(2999));
    let time = UNIX_EPOCH + Duration::new(0, 999_999);
    assert_eq!(millis_since_epoch(&time), Some(0));
}

#[test]
fn a_time_before_the_epoch_has_no_milliseconds() {
    let time = UNIX_EPOCH - Duration::from_millis(1);
    assert_eq!(millis_since_epoch(&time), None);
    let time = UNIX_EPOCH - Duration::from_secs(86_400);
    assert_eq!(millis_since_epoch(&time), None);
}

#[test]
fn the_clock_agrees_with_a_reading_taken_beside_it() {
    let before = millis_since_epoch(&std::time::SystemTime::now()).unwrap();
    let now = now_as_millis().unwrap();
    assert!(now + 60_000 > before);
    assert!(now < before + 60_000);
}
