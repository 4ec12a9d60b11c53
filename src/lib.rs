//! Universally unique lexicographically sortable identifiers: a 48-bit
//! millisecond timestamp above 80 bits of randomness in one 128-bit value.

pub mod calendar;
pub mod codec;
pub mod digits;
pub mod generator;
pub mod laws;
pub mod layout;
