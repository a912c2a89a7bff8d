use pjp_exporter::timestamp::{deserialize, format_stamp, parse_stamp, serialize, TimestampError};

#[test]
fn round_trip_summer_time() {
    let t = deserialize("2023-05-01 10:00:00").unwrap();
    assert_eq!(t, 1682928000);
    assert_eq!(serialize(t).unwrap(), "2023-05-01 10:00:00");
}

#[test]
fn round_trip_winter_time() {
    let t = deserialize("2023-01-15 00:30:05").unwrap();
    assert_eq!(t, 1673739005);
    assert_eq!(serialize(t).unwrap(), "2023-01-15 00:30:05");
}

#[test]
fn serialize_epoch() {
    assert_eq!(serialize(0).unwrap(), "1970-01-01 01:00:00");
}

#[test]
fn malformed_stamps_are_rejected() {
    assert_eq!(deserialize("2023-5-01 10:00:00"), Err(TimestampError::Malformed));
    assert_eq!(deserialize("2023-05-01T10:00:00"), Err(TimestampError::Malformed));
    assert_eq!(deserialize(""), Err(TimestampError::Malformed));
    assert_eq!(deserialize("2023-05-01 10:00:00 "), Err(TimestampError::Malformed));
}

#[test]
fn impossible_local_times_are_rejected() {
    assert_eq!(deserialize("2023-02-30 10:00:00"), Err(TimestampError::NoSuchLocalTime));
    assert_eq!(deserialize("2023-03-26 02:30:00"), Err(TimestampError::NoSuchLocalTime));
    assert_eq!(deserialize("2023-10-29 02:30:00"), Err(TimestampError::NoSuchLocalTime));
    assert_eq!(deserialize("2023-05-01 24:00:00"), Err(TimestampError::NoSuchLocalTime));
}

#[test]
fn parse_and_format_fields() {
    assert_eq!(parse_stamp("0099-12-31 23:59:58"), Some((99, 12, 31, 23, 59, 58)));
    assert_eq!(format_stamp((99, 12, 31, 23, 59, 58)).unwrap(), "0099-12-31 23:59:58");
    assert_eq!(format_stamp((10000, 1, 1, 0, 0, 0)), None);
    assert_eq!(format_stamp((-1, 1, 1, 0, 0, 0)), None);
    assert_eq!(serialize(i64::MAX), Err(TimestampError::OutOfRange));
}

#[test]
fn out_of_calendar_fields_are_rejected() {
    assert_eq!(deserialize("2023-13-01 10:00:00"), Err(TimestampError::NoSuchLocalTime));
    assert_eq!(deserialize("2023-05-00 10:00:00"), Err(TimestampError::NoSuchLocalTime));
    assert_eq!(deserialize("2023-05-01 10:60:00"), Err(TimestampError::NoSuchLocalTime));
}

#[test]
fn written_text_reads_back() {
    for t in [0i64, 1682928000, 1673739005, 1698546600] {
        let s = serialize(t).unwrap();
        assert_eq!(deserialize(&s), Ok(t));
    }
}
