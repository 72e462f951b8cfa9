use docker_direct::timestamp::parse_timestamp;

#[test]
fn timestamps_count_seconds_from_1970() {
    assert_eq!(parse_timestamp("1970-01-01T00:00:00Z"), Some(0));
    assert_eq!(parse_timestamp("1970-01-01T00:00:01Z"), Some(1));
    assert_eq!(parse_timestamp("1970-01-12T13:46:40Z"), Some(1_000_000));
    assert_eq!(parse_timestamp("2001-09-09T01:46:40Z"), Some(1_000_000_000));
    assert_eq!(parse_timestamp("2024-02-29T12:00:00Z"), Some(1_709_208_000));
    assert_eq!(parse_timestamp("2024-03-01T00:00:00Z"), Some(1_709_251_200));
    assert_eq!(parse_timestamp("2038-01-19T03:14:08Z"), Some(2_147_483_648));
    assert_eq!(parse_timestamp("9999-12-31T23:59:59Z"), Some(253_402_300_799));
}

#[test]
fn timestamps_before_1970_are_negative() {
    assert_eq!(parse_timestamp("1969-12-31T23:59:59Z"), Some(-1));
    assert_eq!(parse_timestamp("1900-01-01T00:00:00Z"), Some(-2_208_988_800));
    assert_eq!(parse_timestamp("0001-01-01T00:00:00Z"), Some(-62_135_596_800));
    assert_eq!(parse_timestamp("0000-01-01T00:00:00Z"), Some(-62_167_219_200));
}

#[test]
fn timestamps_drop_the_fraction() {
    assert_eq!(parse_timestamp("1970-01-12T13:46:40.9Z"), Some(1_000_000));
    assert_eq!(parse_timestamp("1970-01-12T13:46:40.123456789Z"), Some(1_000_000));
    assert_eq!(parse_timestamp("1970-01-12T13:46:40.Z"), None);
    assert_eq!(parse_timestamp("1970-01-12T13:46:40.12"), None);
}

#[test]
fn timestamps_heed_the_zone() {
    assert_eq!(parse_timestamp("1970-01-01T01:00:00+01:00"), Some(0));
    assert_eq!(parse_timestamp("1969-12-31T19:00:00-05:00"), Some(0));
    assert_eq!(parse_timestamp("1970-01-01T00:00:00.5+05:30"), Some(-19_800));
    assert_eq!(parse_timestamp("1970-01-01T00:00:00-23:59"), Some(86_340));
    assert_eq!(parse_timestamp("1970-01-01 00:00:00z"), Some(0));
    assert_eq!(parse_timestamp("1970-01-01t00:00:00Z"), Some(0));
    assert_eq!(parse_timestamp("1970-01-01T00:00:00+24:00"), None);
    assert_eq!(parse_timestamp("1970-01-01T00:00:00+01:60"), None);
    assert_eq!(parse_timestamp("1970-01-01T00:00:00+0100"), None);
    assert_eq!(parse_timestamp("1970-01-01T00:00:00"), None);
    assert_eq!(parse_timestamp("1970-01-01T00:00:00ZZ"), None);
}

#[test]
fn timestamps_name_days_of_the_calendar() {
    assert_eq!(parse_timestamp("2023-02-29T00:00:00Z"), None);
    assert_eq!(parse_timestamp("1900-02-29T00:00:00Z"), None);
    assert_eq!(parse_timestamp("2000-02-29T00:00:00Z"), Some(951_782_400));
    assert_eq!(parse_timestamp("2023-04-31T00:00:00Z"), None);
    assert_eq!(parse_timestamp("2023-00-10T00:00:00Z"), None);
    assert_eq!(parse_timestamp("2023-13-10T00:00:00Z"), None);
    assert_eq!(parse_timestamp("2023-01-00T00:00:00Z"), None);
    assert_eq!(parse_timestamp("2023-01-32T00:00:00Z"), None);
    assert_eq!(parse_timestamp("2023-01-01T24:00:00Z"), None);
    assert_eq!(parse_timestamp("2023-01-01T00:60:00Z"), None);
    assert_eq!(parse_timestamp("2023-01-01T00:00:60Z"), None);
}

#[test]
fn other_texts_are_no_timestamps() {
    assert_eq!(parse_timestamp(""), None);
    assert_eq!(parse_timestamp("yesterday"), None);
    assert_eq!(parse_timestamp("2023-01-01"), None);
    assert_eq!(parse_timestamp("2023/01/01T00:00:00Z"), None);
    assert_eq!(parse_timestamp("2023-01-01X00:00:00Z"), None);
    assert_eq!(parse_timestamp("2023-01-01T00-00-00Z"), None);
    assert_eq!(parse_timestamp("2023-1-01T00:00:00Z"), None);
    assert_eq!(parse_timestamp("+023-01-01T00:00:00Z"), None);
    assert_eq!(parse_timestamp(" 2023-01-01T00:00:00Z"), None);
}
