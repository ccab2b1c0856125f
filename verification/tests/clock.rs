use svnpush_core::clock::iso8601;

#[test]
fn the_epoch_is_the_first_second_of_1970() {
    assert_eq!(iso8601(0), "1970-01-01T00:00:00Z");
}

#[test]
fn a_run_time_is_written_to_the_second_in_utc() {
    assert_eq!(iso8601(1_789_646_460), "2026-09-17T12:01:00Z");
}

#[test]
fn leap_days_and_year_ends_fall_where_the_calendar_puts_them() {
    assert_eq!(iso8601(1_709_251_199), "2024-02-29T23:59:59Z");
    assert_eq!(iso8601(978_307_199), "2000-12-31T23:59:59Z");
    assert_eq!(iso8601(4_107_542_400), "2100-03-01T00:00:00Z");
}
