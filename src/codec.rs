//! The two canonical external forms of an identifier: 16 big-endian bytes, and
//! 26 symbols of the Crockford base-32 alphabet.
use vstd::prelude::*;
use crate::digits::{digits, value_of, power, lemma_digit_at, lemma_digits_len, lemma_power_mono,
    lemma_value_of_bound, lemma_power_positive};
use crate::layout::PyUlid;
use vstd::arithmetic::div_mod::lemma_div_denominator;

verus! {

/// The bytes of a sequence, as numbers.
pub open spec fn byte_values(s: Seq<u8>) -> Seq<nat> {
    s.map_values(|x: u8| x as nat)
}

/// The binary form of a 128-bit value: its 16 base-256 digits, most
/// significant first.
pub open spec fn bytes_of(v: nat) -> Seq<nat> {
    digits(v, 256, 16)
}

/// The code point of the base-32 symbol for digit `d` (below 32): the
/// alphabet `0123456789ABCDEFGHJKMNPQRSTVWXYZ`, which leaves out I, L, O and U.
pub open spec fn symbol(d: nat) -> nat {
    if d < 10 {
        48 + d
    } else if d < 18 {
        55 + d
    } else if d < 20 {
        56 + d
    } else if d < 22 {
        57 + d
    } else if d < 27 {
        58 + d
    } else {
        59 + d
    }
}

/// The digit that an upper-case symbol stands for, if it is one.
pub open spec fn upper_value(c: nat) -> Option<nat> {
    if 48 <= c <= 57 {
        Some((c - 48) as nat)
    } else if 65 <= c <= 72 {
        Some((c - 55) as nat)
    } else if c == 74 || c == 75 {
        Some((c - 56) as nat)
    } else if c == 77 || c == 78 {
        Some((c - 57) as nat)
    } else if 80 <= c <= 84 {
        Some((c - 58) as nat)
    } else if 86 <= c <= 90 {
        Some((c - 59) as nat)
    } else {
        None
    }
}

/// The digit that a symbol stands for, if it is one; lower-case letters
/// stand for the same digit as their upper-case forms.
pub open spec fn symbol_value(c: nat) -> Option<nat> {
    if 97 <= c <= 122 {
        upper_value((c - 32) as nat)
    } else {
        upper_value(c)
    }
}

/// The code points of a string.
pub open spec fn codes(s: Seq<char>) -> Seq<nat> {
    s.map_values(|c: char| c as nat)
}

/// The text form of a 128-bit value: 26 symbols of five bits each, most
/// significant first, as code points.
pub open spec fn text_of(v: nat) -> Seq<nat> {
    digits(v, 32, 26).map_values(|d: nat| symbol(d))
}

/// `s` is 26 symbols of the alphabet, in either case.
pub open spec fn is_text(s: Seq<char>) -> bool {
    s.len() == 26 && forall|i: int| 0 <= i < s.len() ==> (#[trigger] symbol_value(s[i] as nat)) is Some
}

/// The number that a string of symbols denotes in base 32.
pub open spec fn text_value(s: Seq<char>) -> nat {
    value_of(s.map_values(|c: char| symbol_value(c as nat)->0), 32)
}

/// 2^128.
pub open spec fn value_modulus() -> nat {
    0x1_0000_0000_0000_0000_0000_0000_0000_0000nat
}

/// Every character is below 128.
pub open spec fn is_ascii(s: Seq<char>) -> bool {
    forall|i: int| 0 <= i < s.len() ==> (s[i] as nat) < 128
}

/// Why a text form was refused.
#[derive(Clone, Copy, Debug, PartialEq, Eq, Hash)]
pub enum DecodeError {
    /// The text is not 26 bytes long.
    InvalidLength,
    /// A character is not a symbol of the alphabet.
    InvalidChar,
}

impl DecodeError {
    /// A human-readable description of the error.
    pub fn message(&self) -> (r: &'static str)
        ensures
            *self == DecodeError::InvalidLength ==> r@ == "invalid length"@,
            *self == DecodeError::InvalidChar ==> r@ == "invalid character"@,
    {
        match self {
            DecodeError::InvalidLength => {
                proof { reveal_strlit("invalid length"); }
                "invalid length"
            }
            DecodeError::InvalidChar => {
                proof { reveal_strlit("invalid character"); }
                "invalid character"
            }
        }
    }
}

/// Relies on `ulid::Ulid::to_string` (`ulid::base32::encode`): 26 symbols,
/// each the alphabet's entry for the next five bits, most significant first.
#[verifier::external_body]
fn encode_base32(v: u128) -> (r: String)
    ensures
        codes(r@) == text_of(v as nat),
{
    ulid::Ulid(v).to_string()
}

/// Relies on `ulid::Ulid::from_string` (`ulid::base32::decode`): a text of
/// other than 26 bytes is `InvalidLength`; a byte outside the alphabet (either
/// case) is `InvalidChar`; else the symbols are shifted in five bits at a
/// time, the bits above 128 falling off.
#[verifier::external_body]
fn decode_base32(s: &str) -> (r: Result<u128, DecodeError>)
    ensures
        r is Ok <==> is_text(s@),
        r matches Ok(v) ==> v as nat == text_value(s@) % value_modulus(),
        r matches Err(e) ==> (is_ascii(s@) ==> (e == DecodeError::InvalidLength <==> s@.len() != 26)),
{
    match ulid::Ulid::from_string(s) {
        Ok(u) => Ok(u.0),
        Err(ulid::DecodeError::InvalidLength) => Err(DecodeError::InvalidLength),
        Err(ulid::DecodeError::InvalidChar) => Err(DecodeError::InvalidChar),
    }
}

/// The identifier that a text form denotes. Either case is accepted; the
/// first symbol's two bits above 128 are dropped.
pub fn from_string(value: &str) -> (r: Result<PyUlid, DecodeError>)
    ensures
        r is Ok <==> is_text(value@),
        r matches Ok(u) ==> u.value as nat == text_value(value@) % value_modulus(),
        r matches Err(e) ==> (is_ascii(value@) ==> (e == DecodeError::InvalidLength <==> value@.len()
            != 26)),
{
    match decode_base32(value) {
        Ok(v) => Ok(PyUlid { value: v }),
        Err(e) => Err(e),
    }
}

impl PyUlid {
    /// The text form: 26 upper-case symbols, most significant first.
    pub fn str(&self) -> (r: String)
        ensures
            codes(r@) == text_of(self.value as nat),
    {
        encode_base32(self.value)
    }

    /// The binary form: the 128-bit value as 16 bytes, most significant first.
    pub fn bytes(&self) -> (r: [u8; 16])
        ensures
            byte_values(r@) == bytes_of(self.value as nat),
    {
        let ghost v: nat = self.value as nat;
        let mut out: [u8; 16] = [0u8; 16];
        let mut x: u128 = self.value;
        let mut i: usize = 0;
        proof {
            assert(power(256, 0) == 1);
        }
        while i < 16
            invariant
                0 <= i <= 16,
                v == self.value as nat,
                x as nat == v / power(256, i as nat),
                forall|j: int|
                    16 - i <= j < 16 ==> out[j] as nat == (v / power(256, (15 - j) as nat)) % 256,
            decreases 16 - i,
        {
            out[15 - i] = (x % 256) as u8;
            proof {
                lemma_power_positive(256, i as nat);
                lemma_div_denominator(v as int, power(256, i as nat) as int, 256);
                assert(power(256, (i + 1) as nat) == 256 * power(256, i as nat));
                assert(power(256, i as nat) * 256 == 256 * power(256, i as nat)) by (nonlinear_arith);
            }
            x = x / 256;
            i = i + 1;
        }
        proof {
            lemma_digits_len(v, 256, 16);
            assert forall|j: int| 0 <= j < 16 implies byte_values(out@)[j] == bytes_of(v)[j] by {
                lemma_digit_at(v, 256, 16, j);
            }
            assert(byte_values(out@) =~= bytes_of(v));
        }
        out
    }

    /// The identifier whose binary form is `bytes`; every 16 bytes are one.
    pub fn from_bytes(bytes: [u8; 16]) -> (r: PyUlid)
        ensures
            r.value as nat == value_of(byte_values(bytes@), 256),
    {
        let ghost s: Seq<nat> = byte_values(bytes@);
        let mut acc: u128 = 0;
        let mut i: usize = 0;
        proof {
            assert(s.subrange(0, 0) =~= Seq::<nat>::empty());
        }
        while i < 16
            invariant
                0 <= i <= 16,
                s == byte_values(bytes@),
                acc as nat == value_of(s.subrange(0, i as int), 256),
            decreases 16 - i,
        {
            proof {
                let p: Seq<nat> = s.subrange(0, i as int);
                lemma_value_of_bound(p, 256);
                lemma_power_mono(256, i as nat, 15);
                reveal_with_fuel(power, 16);
                assert(power(256, 15) == 0x100_0000_0000_0000_0000_0000_0000_0000u128);
                assert(s.subrange(0, i + 1).drop_last() =~= p);
            }
            acc = acc * 256 + bytes[i] as u128;
            i = i + 1;
        }
        proof {
            assert(s.subrange(0, 16) =~= s);
        }
        PyUlid { value: acc }
    }
}

} // verus!
