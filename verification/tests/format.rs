use hours::time::fmt;

#[test]
fn format_one_and_a_half_hours() {
    assert_eq!(fmt(5400), "01:30:00");
}

#[test]
fn format_zero() {
    assert_eq!(fmt(0), "00:00:00");
}

#[test]
fn format_hundred_hours() {
    assert_eq!(fmt(360000), "100:00:00");
}

#[test]
fn format_truncates_into_fields() {
    assert_eq!(fmt(59), "00:00:59");
    assert_eq!(fmt(61), "00:01:01");
    assert_eq!(fmt(3599), "00:59:59");
    assert_eq!(fmt(86399), "23:59:59");
}

#[test]
fn format_large_hours_not_clipped() {
    assert_eq!(fmt(3600 * 1234 + 5 * 60 + 6), "1234:05:06");
}
