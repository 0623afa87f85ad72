use minghe_sip::clock::{epoch_second_at, seconds_between, unix_seconds_at};
use std::time::{Duration, Instant, SystemTime};

#[test]
fn wall_clock_counts_from_the_epoch() {
    let epoch = SystemTime::UNIX_EPOCH;
    assert_eq!(unix_seconds_at(epoch), 0);
    assert_eq!(unix_seconds_at(epoch + Duration::from_millis(1_700_000_000_999)), 1_700_000_000);
    assert_eq!(unix_seconds_at(epoch - Duration::from_secs(5)), 0);
}

#[test]
fn monotonic_clock_counts_whole_seconds() {
    let earlier = Instant::now();
    let later = earlier + Duration::from_millis(32_999);
    assert_eq!(seconds_between(&earlier, &later), 32);
    assert_eq!(seconds_between(&earlier, &earlier), 0);
    assert_eq!(seconds_between(&later, &earlier), 0);
}

#[test]
fn wall_clock_before_the_epoch() {
    let epoch = SystemTime::UNIX_EPOCH;
    assert_eq!(epoch_second_at(epoch), 0);
    assert_eq!(epoch_second_at(epoch + Duration::from_millis(1_999)), 1);
    assert_eq!(epoch_second_at(epoch - Duration::from_secs(5)), -5);
    assert_eq!(epoch_second_at(epoch - Duration::from_millis(5_001)), -6);
    assert_eq!(epoch_second_at(epoch - Duration::from_nanos(1)), -1);
}
