use antigravity_client::timefmt::{format_timestamp_rfc3339, MAX_RFC3339_TIMESTAMP};

#[test]
fn epoch_start() {
    assert_eq!(format_timestamp_rfc3339(0), "1970-01-01T00:00:00Z");
}

#[test]
fn managed_session_expiry_is_start_of_2099() {
    assert_eq!(format_timestamp_rfc3339(4070908800), "2099-01-01T00:00:00Z");
}

#[test]
fn leap_day_2000() {
    assert_eq!(format_timestamp_rfc3339(951782400), "2000-02-29T00:00:00Z");
    assert_eq!(format_timestamp_rfc3339(951868799), "2000-02-29T23:59:59Z");
    assert_eq!(format_timestamp_rfc3339(951868800), "2000-03-01T00:00:00Z");
}

#[test]
fn century_non_leap_2100() {
    // 2100-02-28T23:59:59Z and the following second, which is March 1st.
    assert_eq!(format_timestamp_rfc3339(4107542399), "2100-02-28T23:59:59Z");
    assert_eq!(format_timestamp_rfc3339(4107542400), "2100-03-01T00:00:00Z");
}

#[test]
fn ordinary_instant() {
    assert_eq!(format_timestamp_rfc3339(1700000000), "2023-11-14T22:13:20Z");
    assert_eq!(format_timestamp_rfc3339(1709251199), "2024-02-29T23:59:59Z");
    assert_eq!(format_timestamp_rfc3339(1735689599), "2024-12-31T23:59:59Z");
}

#[test]
fn five_digit_year() {
    // 10000-01-01T00:00:00Z
    assert_eq!(format_timestamp_rfc3339(253402300800), "10000-01-01T00:00:00Z");
}

#[test]
fn largest_timestamp_constant() {
    assert_eq!(MAX_RFC3339_TIMESTAMP, 67767976233532799);
}

#[test]
fn later_instants_sort_later() {
    let stamps = [0i64, 59, 60, 3599, 3600, 86399, 86400, 951868799, 951868800, 1709251199, 4107542400, 253402300799];
    for w in stamps.windows(2) {
        assert!(format_timestamp_rfc3339(w[0]) < format_timestamp_rfc3339(w[1]));
    }
}

#[test]
fn five_digit_years_break_text_order() {
    assert!(format_timestamp_rfc3339(253402300800) < format_timestamp_rfc3339(253402300799));
}
