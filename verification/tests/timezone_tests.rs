use notifier::timezone::calculate_recipient_time;
use notifier::timezone::delivery_allowed;
use notifier::timezone::offset_hours;
use notifier::timezone::offset_to_int;
use notifier::timezone::utc_hour_of;

#[test]
fn offset_to_int_parses_positive_offsets() {
    assert_eq!(offset_to_int("+05:30"), 5 * 3600 + 30 * 60);
    assert_eq!(offset_to_int("05:30"), 5 * 3600 + 30 * 60);
    assert_eq!(offset_to_int("+00:00"), 0);
    assert_eq!(offset_to_int("5:3"), 5 * 3600 + 3 * 60);
}

#[test]
fn offset_to_int_keeps_sign_on_hours_only() {
    assert_eq!(offset_to_int("-10:00"), -10 * 3600);
    assert_eq!(offset_to_int("-10:30"), -10 * 3600 + 30 * 60);
    assert_eq!(offset_to_int("-0:45"), 45 * 60);
}

#[test]
fn offset_to_int_treats_malformed_as_zero() {
    assert_eq!(offset_to_int(""), 0);
    assert_eq!(offset_to_int("abc"), 0);
    assert_eq!(offset_to_int("+5"), 0);
    assert_eq!(offset_to_int("1:2:3"), 0);
    assert_eq!(offset_to_int("+055:30"), 0);
    assert_eq!(offset_to_int("05:"), 0);
    assert_eq!(offset_to_int(":30"), 0);
    assert_eq!(offset_to_int("+-5:30"), 0);
}

#[test]
fn offset_hours_takes_the_signed_hour_part() {
    assert_eq!(offset_hours("+05:30"), 5);
    assert_eq!(offset_hours("-10:00"), -10);
    assert_eq!(offset_hours("00:00"), 0);
    assert_eq!(offset_hours("bogus"), 0);
}

#[test]
fn recipient_time_shifts_by_the_offset() {
    assert_eq!(calculate_recipient_time(1000, "+01:00"), 1000 + 3600);
    assert_eq!(calculate_recipient_time(1000, "-01:00"), 1000 - 3600);
    assert_eq!(calculate_recipient_time(1000, "junk"), 1000);
}

#[test]
fn utc_hour_of_epoch_day() {
    assert_eq!(utc_hour_of(0), 0);
    assert_eq!(utc_hour_of(86399), 23);
    assert_eq!(utc_hour_of(12 * 3600), 12);
    assert_eq!(utc_hour_of(1_700_000_000), 22);
}

#[test]
fn utc_hour_of_before_epoch() {
    assert_eq!(utc_hour_of(-1), 23);
    assert_eq!(utc_hour_of(-86400), 0);
    assert_eq!(utc_hour_of(-3600), 23);
}

#[test]
fn delivery_allowed_inside_waking_window() {
    // recipient-local noon
    assert!(delivery_allowed(12 * 3600, "+00:00"));
    // recipient-local hour 2: suppressed
    assert!(!delivery_allowed(12 * 3600, "-10:00"));
    // boundaries of [08:00, 22:00)
    assert!(delivery_allowed(8 * 3600, "+00:00"));
    assert!(!delivery_allowed(7 * 3600, "+00:00"));
    assert!(delivery_allowed(21 * 3600, "+00:00"));
    assert!(!delivery_allowed(22 * 3600, "+00:00"));
}

#[test]
fn delivery_allowed_wraps_around_midnight() {
    // UTC hour 23 with +10 is recipient-local hour 9
    assert!(delivery_allowed(23 * 3600, "+10:00"));
    // UTC hour 1 with -05 wraps to recipient-local hour 20
    assert!(delivery_allowed(3600, "-05:00"));
    // a malformed offset counts as zero: UTC hour 1 stays quiet
    assert!(!delivery_allowed(3600, "so-so"));
}
