//! Calendar date and time in UTC, and its link to a timestamp in milliseconds.
use vstd::prelude::*;
use crate::generator::value_at_ms;
use crate::layout::{time_modulus, time_of, PyUlid};

verus! {

/// A date and time in UTC, field by field.
#[derive(Clone, Copy, Debug, PartialEq, Eq, Hash)]
pub struct DateTimeParts {
    pub year: i32,
    pub month: u32,
    pub day: u32,
    pub hour: u32,
    pub minute: u32,
    pub second: u32,
    pub microsecond: u32,
}

/// The calendar fields do not name a time.
#[derive(Clone, Copy, Debug, PartialEq, Eq, Hash)]
pub struct CalendarError;

/// Seconds since the Unix epoch of a UTC date and time, as chrono computes
/// them, if the fields name one.
pub uninterp spec fn utc_seconds_of(date_time: (int, int, int, int, int, int)) -> Option<int>;

/// Year, month, day, hour, minute and second in UTC of a time given in
/// milliseconds since the Unix epoch, as chrono computes them.
pub uninterp spec fn civil_of(ms: nat) -> (int, int, int, int, int, int);

/// Relies on `chrono::TimeZone::with_ymd_and_hms` on `Utc` and
/// `DateTime::timestamp`: the seconds since the epoch, or `None` where the
/// fields name no date and time.
#[verifier::external_body]
fn utc_seconds(year: i32, month: u32, day: u32, hour: u32, minute: u32, second: u32) -> (r: Option<i64>)
    ensures
        r matches Some(s) ==> utc_seconds_of((year as int, month as int, day as int, hour as int, minute as int, second as int)) == Some(s as int),
        r is None ==> utc_seconds_of((year as int, month as int, day as int, hour as int, minute as int, second as int)) is None,
{
    match chrono::TimeZone::with_ymd_and_hms(&chrono::Utc, year, month, day, hour, minute, second).single() {
        Some(t) => Some(t.timestamp()),
        None => None,
    }
}

/// Relies on chrono's `From<SystemTime> for DateTime<Utc>` and its field
/// accessors: the calendar fields of a time, whose sub-second part is the
/// milliseconds left over, in microseconds.
#[verifier::external_body]
fn civil_from_ms(ms: u64) -> (r: DateTimeParts)
    requires
        ms < time_modulus(),
    ensures
        (r.year as int, r.month as int, r.day as int, r.hour as int, r.minute as int, r.second as int) == civil_of(ms as nat),
        r.microsecond == (ms % 1000) * 1000,
{
    let t: chrono::DateTime<chrono::Utc> = (std::time::SystemTime::UNIX_EPOCH + std::time::Duration::from_millis(ms)).into();
    DateTimeParts {
        year: chrono::Datelike::year(&t),
        month: chrono::Datelike::month(&t),
        day: chrono::Datelike::day(&t),
        hour: chrono::Timelike::hour(&t),
        minute: chrono::Timelike::minute(&t),
        second: chrono::Timelike::second(&t),
        microsecond: t.timestamp_subsec_micros(),
    }
}

/// The date and time fields of `d`, as one value.
pub open spec fn fields_of(d: DateTimeParts) -> (int, int, int, int, int, int) {
    (d.year as int, d.month as int, d.day as int, d.hour as int, d.minute as int, d.second as int)
}

/// The timestamp field that a time in milliseconds since the epoch gets:
/// times before the epoch become zero, later ones keep their low 48 bits.
pub open spec fn timestamp_field_of(ms: int) -> nat {
    if ms < 0 {
        0
    } else {
        (ms % time_modulus() as int) as nat
    }
}

/// The calendar fields name a time, with a sub-second part below one second.
pub open spec fn names_time(d: DateTimeParts) -> bool {
    d.microsecond < 1_000_000 && utc_seconds_of(fields_of(d)) is Some
}

/// Milliseconds since the epoch of a named time: the microseconds are cut
/// down to whole milliseconds.
pub open spec fn epoch_ms_of(d: DateTimeParts) -> int {
    utc_seconds_of(fields_of(d))->0 * 1000 + d.microsecond / 1000
}

/// The timestamp field of an identifier made at the given calendar time.
pub fn datetime_to_timestamp(value: &DateTimeParts) -> (r: Result<u64, CalendarError>)
    ensures
        r is Ok <==> names_time(*value),
        r matches Ok(t) ==> t as nat == timestamp_field_of(epoch_ms_of(*value)),
{
    if value.microsecond >= 1_000_000 {
        return Err(CalendarError);
    }
    match utc_seconds(value.year, value.month, value.day, value.hour, value.minute, value.second) {
        None => Err(CalendarError),
        Some(secs) => {
            let ms: i128 = secs as i128 * 1000 + (value.microsecond / 1000) as i128;
            if ms < 0 {
                Ok(0)
            } else {
                Ok((ms % 0x1_0000_0000_0000i128) as u64)
            }
        },
    }
}

/// A fresh identifier at the given calendar time in UTC: the timestamp field
/// as `datetime_to_timestamp` gives it, the randomness drawn fresh.
pub fn from_datetime(value: &DateTimeParts) -> (r: Result<PyUlid, CalendarError>)
    ensures
        r is Ok <==> names_time(*value),
        r matches Ok(u) ==> time_of(u.value) == timestamp_field_of(epoch_ms_of(*value)),
{
    match datetime_to_timestamp(value) {
        Ok(t) => Ok(PyUlid::new(value_at_ms(t))),
        Err(e) => Err(e),
    }
}

impl PyUlid {
    /// The timestamp field as a UTC date and time.
    pub fn datetime(&self) -> (r: DateTimeParts)
        ensures
            fields_of(r) == civil_of(time_of(self.value)),
            r.microsecond as nat == (time_of(self.value) % 1000) * 1000,
    {
        civil_from_ms(self.timestamp_ms())
    }
}

} // verus!
