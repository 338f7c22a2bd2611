use timtambler::format_time;

#[test]
fn zero_seconds_is_never_empty() {
    assert_eq!(format_time(0), "0 seconds");
}

#[test]
fn single_second_is_singular() {
    assert_eq!(format_time(1), "1 second");
    assert_eq!(format_time(59), "59 seconds");
}

#[test]
fn sign_is_dropped() {
    assert_eq!(format_time(-61), "1 minute & 1 second");
    assert_eq!(format_time(-3599), "59 minutes & 59 seconds");
}

#[test]
fn whole_units() {
    assert_eq!(format_time(3600), "1 hour");
    assert_eq!(format_time(86400), "1 day");
    assert_eq!(format_time(604800), "1 week");
    assert_eq!(format_time(2 * 604800), "2 weeks");
}

#[test]
fn at_most_two_units_truncated_not_rounded() {
    // 1 week, 2 days, 3 hours: the hours are dropped, not rounded up.
    assert_eq!(format_time(604800 + 2 * 86400 + 3 * 3600), "1 week & 2 days");
    // 1 hour and 1 second: zero minutes are skipped, not shown.
    assert_eq!(format_time(3600 + 1), "1 hour & 1 second");
    // 1 day, 59 minutes, 59 seconds: only the two most significant shown.
    assert_eq!(format_time(86400 + 59 * 60 + 59), "1 day & 59 minutes");
}
