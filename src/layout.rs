//! The 128-bit value and its split into a timestamp and a randomness field.
use vstd::prelude::*;

verus! {

/// 2^80: one more than the largest randomness field.
pub open spec fn rand_modulus() -> nat {
    0x1_0000_0000_0000_0000_0000nat
}

/// 2^48: one more than the largest timestamp field.
pub open spec fn time_modulus() -> nat {
    0x1_0000_0000_0000nat
}

/// The timestamp field of a 128-bit value: its high 48 bits.
pub open spec fn time_of(v: u128) -> nat {
    v as nat / rand_modulus()
}

/// The randomness field of a 128-bit value: its low 80 bits.
pub open spec fn rand_of(v: u128) -> nat {
    v as nat % rand_modulus()
}

/// The 128-bit value with the given fields.
pub open spec fn compose(time: nat, rand: nat) -> nat {
    time * rand_modulus() + rand
}

/// An identifier: an immutable 128-bit value.
#[derive(Clone, Copy, Debug, PartialEq, Eq, Hash, PartialOrd, Ord)]
pub struct PyUlid {
    pub value: u128,
}

impl PyUlid {
    /// Wraps a 128-bit value.
    pub fn new(value: u128) -> (r: PyUlid)
        ensures
            r.value == value,
    {
        PyUlid { value }
    }

    /// The timestamp field, in milliseconds since the Unix epoch.
    pub fn timestamp_ms(&self) -> (r: u64)
        ensures
            r as nat == time_of(self.value),
            r < time_modulus(),
    {
        let v: u128 = self.value;
        let r: u64 = (v >> 80u32) as u64;
        assert(v >> 80u32 == v / 0x1_0000_0000_0000_0000_0000u128) by (bit_vector);
        assert(v >> 80u32 < 0x1_0000_0000_0000u128) by (bit_vector);
        r
    }

    /// The randomness field.
    pub fn randomness(&self) -> (r: u128)
        ensures
            r as nat == rand_of(self.value),
    {
        let v: u128 = self.value;
        assert(v & 0xffff_ffff_ffff_ffff_ffffu128 == v % 0x1_0000_0000_0000_0000_0000u128)
            by (bit_vector);
        v & 0xffff_ffff_ffff_ffff_ffffu128
    }

    /// The identifier whose randomness field is one more than this one's, with
    /// the same timestamp; `None` where the randomness field is already at its
    /// largest value, 2^80 - 1.
    pub fn increment(&self) -> (r: Option<PyUlid>)
        ensures
            rand_of(self.value) + 1 == rand_modulus() <==> r is None,
            r matches Some(n) ==> time_of(n.value) == time_of(self.value) && rand_of(n.value)
                == rand_of(self.value) + 1,
            r matches Some(n) ==> n.value == self.value + 1,
    {
        let v: u128 = self.value;
        let max: u128 = 0xffff_ffff_ffff_ffff_ffffu128;
        assert(v & max == v % 0x1_0000_0000_0000_0000_0000u128) by (bit_vector)
            requires max == 0xffff_ffff_ffff_ffff_ffffu128;
        if v & max == max {
            None
        } else {
            assert(v < 0xffff_ffff_ffff_ffff_ffff_ffff_ffff_ffffu128) by (bit_vector)
                requires v & max != max, max == 0xffff_ffff_ffff_ffff_ffffu128;
            let n: u128 = v + 1;
            proof {
                let m: int = rand_modulus() as int;
                assert(v as int % m + 1 < m);
                vstd::arithmetic::div_mod::lemma_fundamental_div_mod(v as int, m);
                vstd::arithmetic::div_mod::lemma_fundamental_div_mod_converse(
                    n as int, m, v as int / m, v as int % m + 1);
            }
            Some(PyUlid { value: n })
        }
    }
}

/// Composes an identifier from a timestamp in milliseconds and a
/// randomness value: the timestamp keeps its low 48 bits and the
/// randomness its low 80 bits; higher bits are dropped.
pub fn from_parts(timestamp: u64, randomness: u128) -> (r: PyUlid)
    ensures
        time_of(r.value) == timestamp as nat % time_modulus(),
        rand_of(r.value) == randomness as nat % rand_modulus(),
        r.value as nat == compose(timestamp as nat % time_modulus(), randomness as nat % rand_modulus()),
{
    let t: u128 = (timestamp & 0xffff_ffff_ffffu64) as u128;
    let rp: u128 = randomness & 0xffff_ffff_ffff_ffff_ffffu128;
    let v: u128 = (t << 80u32) | rp;
    assert(timestamp & 0xffff_ffff_ffffu64 == timestamp % 0x1_0000_0000_0000u64)
        by (bit_vector);
    assert(randomness & 0xffff_ffff_ffff_ffff_ffffu128 == randomness % 0x1_0000_0000_0000_0000_0000u128)
        by (bit_vector);
    assert(t < 0x1_0000_0000_0000u128 && rp < 0x1_0000_0000_0000_0000_0000u128 ==> (t << 80u32) | rp
        == t * 0x1_0000_0000_0000_0000_0000u128 + rp) by (bit_vector);
    proof {
        let m: int = rand_modulus() as int;
        vstd::arithmetic::div_mod::lemma_fundamental_div_mod_converse(
            v as int, m, t as int, rp as int);
    }
    PyUlid { value: v }
}

/// The identifier whose 128-bit value is that of a UUID, bit for bit.
pub fn from_uuid(value: u128) -> (r: PyUlid)
    ensures
        r.value == value,
{
    PyUlid { value }
}

impl PyUlid {
    /// The 128-bit value as a UUID, bit for bit.
    pub fn to_uuid(&self) -> (r: u128)
        ensures
            r == self.value,
    {
        self.value
    }
}

} // verus!
