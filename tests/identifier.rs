use ulid_rs_py::calendar::{datetime_to_timestamp, from_datetime, CalendarError, DateTimeParts};
use ulid_rs_py::codec::{from_string, DecodeError};
use ulid_rs_py::generator::{from_timestamp_ms, from_uuid_str, new, InvalidUuidError};
use ulid_rs_py::layout::{from_parts, from_uuid, PyUlid};

const MAX_RANDOM: u128 = (1u128 << 80) - 1;

fn parts(year: i32, month: u32, day: u32, hour: u32, minute: u32, second: u32, microsecond: u32) -> DateTimeParts {
    DateTimeParts { year, month, day, hour, minute, second, microsecond }
}

#[test]
fn text_round_trip() {
    for v in [0u128, 1, 12345, 1u128 << 80, u128::MAX, 0x0123_4567_89ab_cdef_0123_4567_89ab_cdef] {
        let u = PyUlid::new(v);
        let back = from_string(&u.str()).unwrap();
        assert_eq!(back, u);
    }
}

#[test]
fn bytes_round_trip() {
    for v in [0u128, 1, 255, 256, u128::MAX, 0x0123_4567_89ab_cdef_0123_4567_89ab_cdef] {
        let u = PyUlid::new(v);
        assert_eq!(PyUlid::from_bytes(u.bytes()), u);
    }
}

#[test]
fn bytes_are_big_endian() {
    let u = PyUlid::new(0x0102_0304_0506_0708_090a_0b0c_0d0e_0f10);
    assert_eq!(u.bytes(), [1, 2, 3, 4, 5, 6, 7, 8, 9, 10, 11, 12, 13, 14, 15, 16]);
    assert_eq!(PyUlid::new(u128::MAX).bytes(), [0xff; 16]);
}

#[test]
fn known_text_forms() {
    assert_eq!(PyUlid::new(0).str(), "00000000000000000000000000");
    assert_eq!(PyUlid::new(u128::MAX).str(), "7ZZZZZZZZZZZZZZZZZZZZZZZZZ");
    assert_eq!(from_parts(1, 5).str(), "00000000010000000000000005");
    let text = "01D39ZY06FGSCTVN4T2V9PKHFZ";
    assert_eq!(from_string(text).unwrap().str(), text);
}

#[test]
fn order_follows_timestamp() {
    let a = from_parts(1000, MAX_RANDOM);
    let b = from_parts(1001, 0);
    assert!(a.str() < b.str());
    assert!(a.bytes() < b.bytes());
    let c = from_parts(1001, 1);
    assert!(b.str() < c.str());
    assert!(b.bytes() < c.bytes());
}

#[test]
fn fixed_width() {
    for v in [0u128, 7, u128::MAX] {
        let u = PyUlid::new(v);
        assert_eq!(u.str().len(), 26);
        assert_eq!(u.bytes().len(), 16);
    }
}

#[test]
fn sub_millisecond_precision_is_cut() {
    let a = from_timestamp_ms(1234);
    assert_eq!(a.timestamp_ms(), 1234);
    let d = datetime_to_timestamp(&parts(1970, 1, 1, 0, 0, 1, 234_567)).unwrap();
    let e = datetime_to_timestamp(&parts(1970, 1, 1, 0, 0, 1, 234_000)).unwrap();
    assert_eq!(d, 1234);
    assert_eq!(e, 1234);
}

#[test]
fn increment_at_the_top_is_none() {
    let u = from_parts(1609459200000, MAX_RANDOM);
    assert_eq!(u.increment(), None);
}

#[test]
fn increment_from_zero() {
    let u = from_parts(1609459200000, 0);
    let n = u.increment().unwrap();
    assert_eq!(n.randomness(), 1);
    assert_eq!(n.timestamp_ms(), 1609459200000);
    assert!(u.str() < n.str());
}

#[test]
fn increment_carries() {
    let u = from_parts(7, 0xffff);
    let n = u.increment().unwrap();
    assert_eq!(n.randomness(), 0x1_0000);
    assert_eq!(n.timestamp_ms(), 7);
}

#[test]
fn decode_rejects_short_text() {
    assert_eq!(from_string("short"), Err(DecodeError::InvalidLength));
    assert_eq!(from_string(""), Err(DecodeError::InvalidLength));
    assert_eq!(from_string("01D39ZY06FGSCTVN4T2V9PKHFZZ"), Err(DecodeError::InvalidLength));
}

#[test]
fn decode_rejects_letter_u() {
    assert_eq!(from_string("01D39ZY06FGSCTVN4T2V9PKHFU"), Err(DecodeError::InvalidChar));
    assert_eq!(from_string("01D39ZY06FGSCTVN4T2V9PKHF!"), Err(DecodeError::InvalidChar));
}

#[test]
fn decode_accepts_lower_case() {
    let upper = from_string("01D39ZY06FGSCTVN4T2V9PKHFZ").unwrap();
    let lower = from_string("01d39zy06fgsctvn4t2v9pkhfz").unwrap();
    assert_eq!(upper, lower);
}

#[test]
fn decode_masks_bits_above_128() {
    let high = from_string("8ZZZZZZZZZZZZZZZZZZZZZZZZZ").unwrap();
    let low = from_string("0ZZZZZZZZZZZZZZZZZZZZZZZZZ").unwrap();
    assert_eq!(high, low);
}

#[test]
fn decode_error_messages() {
    assert_eq!(DecodeError::InvalidLength.message(), "invalid length");
    assert_eq!(DecodeError::InvalidChar.message(), "invalid character");
}

#[test]
fn uuid_bit_identity() {
    for v in [0u128, 1, u128::MAX, 0x67e5_5044_10b1_426f_9247_bb68_0e5f_e0c8] {
        assert_eq!(from_uuid(v).to_uuid(), v);
    }
}

#[test]
fn uuid_from_text() {
    let u = from_uuid_str("67e55044-10b1-426f-9247-bb680e5fe0c8").unwrap();
    assert_eq!(u.to_uuid(), 0x67e5_5044_10b1_426f_9247_bb68_0e5f_e0c8);
    assert_eq!(from_uuid_str("not a uuid"), Err(InvalidUuidError));
}

#[test]
fn scenario_new_year_2021() {
    let u = from_parts(1609459200000, 0);
    let text = u.str();
    assert!(text.starts_with("01ETXKWW00"));
    let back = from_string(&text).unwrap();
    assert_eq!(back.timestamp_ms(), 1609459200000);
    assert_eq!(back.randomness(), 0);
}

#[test]
fn from_parts_masks_high_bits() {
    let u = from_parts((1u64 << 48) + 5, u128::MAX);
    assert_eq!(u.timestamp_ms(), 5);
    assert_eq!(u.randomness(), MAX_RANDOM);
}

#[test]
fn timestamp_keeps_low_48_bits() {
    let u = from_timestamp_ms((1u64 << 48) + 9);
    assert_eq!(u.timestamp_ms(), 9);
}

#[test]
fn fresh_identifier_is_recent() {
    let u = new();
    assert!(u.timestamp_ms() > 1609459200000);
    assert_eq!(u.str().len(), 26);
}

#[test]
fn datetime_fields() {
    let u = from_parts(1609459200123, 0);
    assert_eq!(u.datetime(), parts(2021, 1, 1, 0, 0, 0, 123_000));
    assert_eq!(from_parts(0, 0).datetime(), parts(1970, 1, 1, 0, 0, 0, 0));
}

#[test]
fn datetime_to_timestamp_values() {
    assert_eq!(datetime_to_timestamp(&parts(2021, 1, 1, 0, 0, 0, 999_999)), Ok(1609459200999));
    assert_eq!(datetime_to_timestamp(&parts(1969, 12, 31, 23, 59, 59, 0)), Ok(0));
}

#[test]
fn calendar_errors() {
    assert_eq!(datetime_to_timestamp(&parts(2021, 13, 1, 0, 0, 0, 0)), Err(CalendarError));
    assert_eq!(datetime_to_timestamp(&parts(2021, 1, 32, 0, 0, 0, 0)), Err(CalendarError));
    assert_eq!(datetime_to_timestamp(&parts(2021, 1, 1, 0, 0, 0, 1_000_000)), Err(CalendarError));
    assert_eq!(from_datetime(&parts(2021, 2, 29, 0, 0, 0, 0)), Err(CalendarError));
}

#[test]
fn from_datetime_sets_timestamp() {
    let u = from_datetime(&parts(2021, 1, 1, 0, 0, 0, 5_999)).unwrap();
    assert_eq!(u.timestamp_ms(), 1609459200005);
    assert_eq!(u.datetime(), parts(2021, 1, 1, 0, 0, 0, 5_000));
}
