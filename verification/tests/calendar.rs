use pwdv::calendar::{civil_from_days, format_timestamp};

#[test]
fn days_count_from_the_unix_epoch() {
    assert_eq!(civil_from_days(0), (1970, 1, 1));
    assert_eq!(civil_from_days(59), (1970, 3, 1));
    assert_eq!(civil_from_days(19_723), (2024, 1, 1));
    assert_eq!(civil_from_days(19_782), (2024, 2, 29));
}

#[test]
fn days_before_the_epoch_are_negative() {
    assert_eq!(civil_from_days(-1), (1969, 12, 31));
    assert_eq!(civil_from_days(-719_468), (0, 3, 1));
    assert_eq!(civil_from_days(-719_469), (0, 2, 29));
    let (_, month, day) = civil_from_days(i64::MIN);
    assert!((1..=12).contains(&month) && (1..=31).contains(&day));
}

#[test]
fn timestamps_are_printed_in_utc() {
    assert_eq!(format_timestamp(0), "1970-01-01 00:00 UTC");
    assert_eq!(format_timestamp(1_709_210_096), "2024-02-29 12:34 UTC");
}
