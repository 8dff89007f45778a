use metrics_one::gmt_offset::{self, OffsetError};
use metrics_one::query_preparer::UtcTimestamp;
use metrics_one::timestamp::{self, TimestampError};
use metrics_one::utils::{deserialize_gmt_offset, get_year};

#[test]
fn offsets_are_written_with_two_digit_parts() {
    assert_eq!(gmt_offset::serialize(&3600), "01:00:00");
    assert_eq!(gmt_offset::serialize(&-19800), "-05:30:00");
    assert_eq!(gmt_offset::serialize(&0), "00:00:00");
    assert_eq!(gmt_offset::serialize(&45296), "12:34:56");
    assert_eq!(gmt_offset::serialize(&360000), "100:00:00");
    assert_eq!(gmt_offset::serialize(&i64::MIN), "-2562047788015215:30:08");
}

#[test]
fn offsets_are_read_back() {
    assert_eq!(gmt_offset::deserialize("-05:30:00"), Ok(-19800));
    assert_eq!(gmt_offset::deserialize("01:00:00"), Ok(3600));
    assert_eq!(gmt_offset::deserialize("+05:30:00"), Ok(19800));
    assert_eq!(gmt_offset::deserialize("--01:00:00"), Ok(-3600));
    assert_eq!(gmt_offset::deserialize(&gmt_offset::serialize(&-45296)), Ok(-45296));
}

#[test]
fn malformed_offsets_are_refused() {
    assert_eq!(gmt_offset::deserialize("01:00"), Err(OffsetError::Format));
    assert_eq!(gmt_offset::deserialize(""), Err(OffsetError::Format));
    assert_eq!(gmt_offset::deserialize("aa:00:00"), Err(OffsetError::Hours));
    assert_eq!(gmt_offset::deserialize(":00:00"), Err(OffsetError::Hours));
    assert_eq!(gmt_offset::deserialize("00:x:00"), Err(OffsetError::Minutes));
    assert_eq!(gmt_offset::deserialize("00:00:1s"), Err(OffsetError::Seconds));
    assert_eq!(
        gmt_offset::deserialize("9223372036854775807:00:00"),
        Err(OffsetError::OutOfRange)
    );
    assert_eq!(gmt_offset::deserialize("99999999999999999999:00:00"), Err(OffsetError::Hours));
    assert_eq!(OffsetError::Format.message(), "Invalid time format, expected -hh:mm:ss");
}

#[test]
fn integers_are_read_as_i64_from_str_reads_them() {
    for s in ["0", "42", "-42", "+7", "9223372036854775807", "-9223372036854775808", "007"] {
        assert_eq!(gmt_offset::parse_i64(s), s.parse::<i64>().ok(), "{}", s);
    }
    for s in ["", "-", "+", "9223372036854775808", "-9223372036854775809", "1 ", "--1", "1_000"] {
        assert_eq!(gmt_offset::parse_i64(s), None, "{}", s);
    }
}

#[test]
fn dates_without_zone_are_read_as_utc() {
    let expected = Some(UtcTimestamp { seconds: 1709391600, nanos: 0 });
    assert_eq!(timestamp::deserialize("2024-03-02T15:00:00"), expected);
    assert_eq!(timestamp::deserialize("2024-03-02T15:00:00Z"), expected);
    assert_eq!(
        timestamp::deserialize("2024-03-02T15:00:00.250"),
        Some(UtcTimestamp { seconds: 1709391600, nanos: 250_000_000 })
    );
    assert_eq!(timestamp::deserialize("2024-03-02 nonsense"), None);
}

#[test]
fn dates_are_written_to_the_millisecond() {
    let at = Some(UtcTimestamp { seconds: 1709391600, nanos: 0 });
    assert_eq!(timestamp::serialize(&at), Ok("2024-03-02T15:00:00+00:00".to_string()));
    let frac = Some(UtcTimestamp { seconds: 1709391600, nanos: 500_999_999 });
    assert_eq!(timestamp::serialize(&frac), Ok("2024-03-02T15:00:00.500+00:00".to_string()));
    let huge = Some(UtcTimestamp { seconds: 10_000_000_000_000_000, nanos: 0 });
    assert_eq!(timestamp::serialize(&huge), Err(TimestampError::Components));
    let far = Some(UtcTimestamp { seconds: 9_000_000_000_000, nanos: 0 });
    assert_eq!(timestamp::serialize(&far), Err(TimestampError::Range));
}

#[test]
fn explicit_year_wins_over_the_clock() {
    assert_eq!(get_year(Some(1999)), 1999);
    assert!(get_year(None) >= 2024);
}

#[test]
fn fixed_offsets_stay_within_a_day() {
    assert_eq!(deserialize_gmt_offset("+05:30:00"), Ok(19800));
    assert_eq!(deserialize_gmt_offset("-05:30:00"), Ok(-19800));
    assert_eq!(deserialize_gmt_offset("23:59:59"), Ok(86399));
    assert_eq!(deserialize_gmt_offset("-23:59:59"), Ok(-86399));
    assert_eq!(deserialize_gmt_offset("+-01:00:00"), Ok(3600));
    assert_eq!(deserialize_gmt_offset("24:00:00"), Err(OffsetError::OutOfRange));
    assert_eq!(deserialize_gmt_offset("-24:00:00"), Err(OffsetError::OutOfRange));
    assert_eq!(deserialize_gmt_offset("01:00"), Err(OffsetError::Format));
    assert_eq!(deserialize_gmt_offset("x:00:00"), Err(OffsetError::Hours));
    assert_eq!(deserialize_gmt_offset("3000000000:00:00"), Err(OffsetError::Hours));
    assert_eq!(deserialize_gmt_offset("00:00:"), Err(OffsetError::Seconds));
}
