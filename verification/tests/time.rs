use telebots::time::Time;

#[test]
fn clock_readings_are_clamped_to_zero_before_the_epoch() {
    assert_eq!(Time::secs_or_zero(None), 0);
    assert_eq!(Time::secs_or_zero(Some(1_700_000_000)), 1_700_000_000);
    assert_eq!(Time::secs_or_zero(Some(u64::MAX)), -1);
    assert!(Time::now_secs() > 1_600_000_000);
}
