//! Properties that relate several operations, proved over their contracts.
use vstd::prelude::*;
use crate::codec::{byte_values, bytes_of, codes, is_text, symbol, symbol_value, text_of, text_value,
    value_modulus};
use crate::digits::{digits, lex_less, power, value_of, lemma_digits_bounded, lemma_digits_len,
    lemma_digits_order, lemma_value_of_digits};
use crate::layout::{compose, rand_modulus, rand_of, time_modulus, time_of, PyUlid};

verus! {

proof fn lemma_power_32_26()
    ensures
        power(32, 26) == 4 * value_modulus(),
{
    reveal_with_fuel(power, 27);
}

proof fn lemma_power_256_16()
    ensures
        power(256, 16) == value_modulus(),
{
    reveal_with_fuel(power, 17);
}

/// Reading back the symbols of a digit gives the digit.
pub proof fn lemma_symbol_value(d: nat)
    requires
        d < 32,
    ensures
        symbol_value(symbol(d)) == Some(d),
{
}

/// The two fields split the 128 bits exactly: the timestamp field fits in 48
/// bits, the randomness field in 80, and composing them gives the value back.
pub proof fn law_fields_partition(u: PyUlid)
    ensures
        time_of(u.value) < time_modulus(),
        rand_of(u.value) < rand_modulus(),
        compose(time_of(u.value), rand_of(u.value)) == u.value,
{
    let v: u128 = u.value;
    vstd::arithmetic::div_mod::lemma_fundamental_div_mod(v as int, rand_modulus() as int);
    assert(v as nat / rand_modulus() < time_modulus());
}

/// Decoding the text form of an identifier gives the identifier back: the
/// text form is 26 valid symbols that denote the identifier's value.
pub proof fn law_text_round_trip(u: PyUlid, s: Seq<char>)
    requires
        codes(s) == text_of(u.value as nat),
    ensures
        is_text(s),
        text_value(s) % value_modulus() == u.value,
{
    let v: nat = u.value as nat;
    let d: Seq<nat> = digits(v, 32, 26);
    lemma_digits_len(v, 32, 26);
    lemma_digits_bounded(v, 32, 26);
    assert(s.len() == 26) by {
        assert(codes(s).len() == s.len());
    }
    assert forall|i: int| 0 <= i < 26 implies (s[i] as nat) == symbol(d[i]) by {
        assert(codes(s)[i] == s[i] as nat);
        assert(text_of(v)[i] == symbol(d[i]));
    }
    assert forall|i: int| 0 <= i < s.len() implies (#[trigger] symbol_value(s[i] as nat)) is Some by {
        lemma_symbol_value(d[i]);
    }
    let m: Seq<nat> = s.map_values(|c: char| symbol_value(c as nat)->0);
    assert forall|i: int| 0 <= i < 26 implies m[i] == d[i] by {
        lemma_symbol_value(d[i]);
    }
    assert(m =~= d);
    lemma_value_of_digits(v, 32, 26);
    lemma_power_32_26();
    assert(v < value_modulus());
    vstd::arithmetic::div_mod::lemma_small_mod(v, power(32, 26));
    vstd::arithmetic::div_mod::lemma_small_mod(v, value_modulus());
}

/// Reading back the binary form of an identifier gives the identifier.
pub proof fn law_bytes_round_trip(u: PyUlid, b: [u8; 16])
    requires
        byte_values(b@) == bytes_of(u.value as nat),
    ensures
        value_of(byte_values(b@), 256) == u.value,
{
    lemma_value_of_digits(u.value as nat, 256, 16);
    lemma_power_256_16();
    vstd::arithmetic::div_mod::lemma_small_mod(u.value as nat, value_modulus());
}

/// The text form is always 26 symbols and the binary form 16 bytes.
pub proof fn law_fixed_width(u: PyUlid)
    ensures
        text_of(u.value as nat).len() == 26,
        bytes_of(u.value as nat).len() == 16,
{
    lemma_digits_len(u.value as nat, 32, 26);
    lemma_digits_len(u.value as nat, 256, 16);
}

/// A smaller value has a lexicographically smaller text form and binary form.
pub proof fn law_order_by_value(a: PyUlid, b: PyUlid)
    requires
        a.value < b.value,
    ensures
        lex_less(text_of(a.value as nat), text_of(b.value as nat)),
        lex_less(bytes_of(a.value as nat), bytes_of(b.value as nat)),
{
    let v: nat = a.value as nat;
    let w: nat = b.value as nat;
    lemma_power_256_16();
    lemma_power_32_26();
    lemma_digits_order(v, w, 256, 16);
    lemma_digits_order(v, w, 32, 26);
    let dv: Seq<nat> = digits(v, 32, 26);
    let dw: Seq<nat> = digits(w, 32, 26);
    lemma_digits_len(v, 32, 26);
    lemma_digits_len(w, 32, 26);
    lemma_digits_bounded(v, 32, 26);
    lemma_digits_bounded(w, 32, 26);
    let i: int = choose|i: int|
        0 <= i < dv.len() && i < dw.len() && dv.subrange(0, i) == dw.subrange(0, i) && dv[i] < dw[i];
    let tv: Seq<nat> = text_of(v);
    let tw: Seq<nat> = text_of(w);
    assert(tv.subrange(0, i) =~= dv.subrange(0, i).map_values(|x: nat| symbol(x)));
    assert(tw.subrange(0, i) =~= dw.subrange(0, i).map_values(|x: nat| symbol(x)));
    assert(tv[i] < tw[i]);
}

/// An identifier with an earlier timestamp has a lexicographically smaller
/// text form and binary form.
pub proof fn law_order_by_timestamp(a: PyUlid, b: PyUlid)
    requires
        time_of(a.value) < time_of(b.value),
    ensures
        lex_less(text_of(a.value as nat), text_of(b.value as nat)),
        lex_less(bytes_of(a.value as nat), bytes_of(b.value as nat)),
{
    if a.value >= b.value {
        vstd::arithmetic::div_mod::lemma_div_is_ordered(
            b.value as int, a.value as int, rand_modulus() as int);
    }
    law_order_by_value(a, b);
}

} // verus!
