//! Identifiers made from the clock, from a chosen time, or from a UUID's text.
use vstd::prelude::*;
use crate::layout::{time_modulus, time_of, PyUlid};

verus! {

/// Relies on `ulid::Ulid::new`: the current time and fresh random bits. Nothing
/// is known of the result.
#[verifier::external_body]
fn fresh_value() -> (r: u128) {
    ulid::Ulid::new().0
}

/// Relies on `ulid::Ulid::from_datetime`: the timestamp field is the given
/// time in milliseconds (kept to its low 48 bits); the randomness is drawn
/// fresh.
#[verifier::external_body]
pub(crate) fn value_at_ms(ms: u64) -> (r: u128)
    requires
        ms < time_modulus(),
    ensures
        time_of(r) == ms,
{
    ulid::Ulid::from_datetime(std::time::SystemTime::UNIX_EPOCH + std::time::Duration::from_millis(ms)).0
}

/// A fresh identifier: the current time and random bits.
pub fn new() -> (r: PyUlid) {
    PyUlid::new(fresh_value())
}

/// A fresh identifier at the given time in milliseconds since the Unix
/// epoch: the timestamp field is its low 48 bits, the randomness is drawn
/// fresh.
pub fn from_timestamp_ms(ms: u64) -> (r: PyUlid)
    ensures
        time_of(r.value) == ms as nat % time_modulus(),
{
    let t: u64 = ms % 0x1_0000_0000_0000u64;
    PyUlid::new(value_at_ms(t))
}

/// The 128-bit value that `uuid::Uuid::parse_str` reads from a text, if it
/// reads one.
pub uninterp spec fn uuid_of(s: Seq<char>) -> Option<u128>;

/// Relies on `uuid::Uuid::parse_str`: the UUID that the text spells, if any
/// (as `Uuid::as_u128`).
#[verifier::external_body]
fn parse_uuid(s: &str) -> (r: Option<u128>)
    ensures
        r == uuid_of(s@),
{
    match uuid::Uuid::parse_str(s) {
        Ok(u) => Some(u.as_u128()),
        Err(_) => None,
    }
}

/// A text that is not a UUID.
#[derive(Clone, Copy, Debug, PartialEq, Eq, Hash)]
pub struct InvalidUuidError;

/// The identifier whose value is the UUID that a text spells.
pub fn from_uuid_str(value: &str) -> (r: Result<PyUlid, InvalidUuidError>)
    ensures
        r is Ok <==> uuid_of(value@) is Some,
        r matches Ok(u) ==> Some(u.value) == uuid_of(value@),
{
    match parse_uuid(value) {
        Some(v) => Ok(PyUlid::new(v)),
        None => Err(InvalidUuidError),
    }
}

} // verus!
