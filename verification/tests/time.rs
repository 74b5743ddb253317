use bitplane::time::{ago, rfc3339};

#[test]
fn a_moment_is_written_as_rfc3339_in_utc() {
    assert_eq!(rfc3339(0), "1970-01-01T00:00:00Z");
    assert_eq!(rfc3339(951_782_400), "2000-02-29T00:00:00Z");
    assert_eq!(rfc3339(1_700_000_000), "2023-11-14T22:13:20Z");
    assert_eq!(rfc3339(1_709_251_199), "2024-02-29T23:59:59Z");
}

#[test]
fn how_long_ago_is_the_largest_unit_that_fits() {
    assert_eq!(ago(0), "0 seconds");
    assert_eq!(ago(1), "1 second");
    assert_eq!(ago(59), "59 seconds");
    assert_eq!(ago(60), "1 minute");
    assert_eq!(ago(7_200), "2 hours");
    assert_eq!(ago(86_400 * 3 + 5), "3 days");
}
