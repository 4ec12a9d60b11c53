//! Positional digit sequences: the mathematics shared by the text and the
//! byte forms.
use vstd::prelude::*;
use vstd::arithmetic::div_mod::{lemma_div_denominator, lemma_mod_breakdown, lemma_mod_pos_bound,
    lemma_fundamental_div_mod};
use vstd::arithmetic::mul::{lemma_mul_strictly_positive, lemma_mul_inequality, lemma_mul_is_distributive_add};

verus! {

/// `b` to the power `n`.
pub open spec fn power(b: nat, n: nat) -> nat
    decreases n,
{
    if n == 0 {
        1
    } else {
        b * power(b, (n - 1) as nat)
    }
}

/// The `n` lowest digits of `v` in base `b`, most significant first.
pub open spec fn digits(v: nat, b: nat, n: nat) -> Seq<nat>
    decreases n,
{
    if n == 0 || b == 0 {
        Seq::<nat>::empty()
    } else {
        digits(v / b, b, (n - 1) as nat).push(v % b)
    }
}

/// The number that a digit sequence in base `b` denotes, most significant first.
pub open spec fn value_of(s: Seq<nat>, b: nat) -> nat
    decreases s.len(),
{
    if s.len() == 0 {
        0
    } else {
        value_of(s.drop_last(), b) * b + s.last()
    }
}

/// `a` comes strictly before `c` in lexicographic order.
pub open spec fn lex_less(a: Seq<nat>, c: Seq<nat>) -> bool {
    (exists|i: int|
        0 <= i < a.len() && i < c.len() && a.subrange(0, i) == c.subrange(0, i) && a[i] < c[i])
        || (a.len() < c.len() && a == c.subrange(0, a.len() as int))
}

pub proof fn lemma_power_positive(b: nat, n: nat)
    requires
        b > 0,
    ensures
        power(b, n) > 0,
    decreases n,
{
    if n > 0 {
        lemma_power_positive(b, (n - 1) as nat);
        lemma_mul_strictly_positive(b as int, power(b, (n - 1) as nat) as int);
    }
}

/// `b` to the power `n` never falls as `n` grows.
pub proof fn lemma_power_mono(b: nat, m: nat, n: nat)
    requires
        b > 0,
        m <= n,
    ensures
        power(b, m) <= power(b, n),
    decreases n,
{
    if m < n {
        lemma_power_mono(b, m, (n - 1) as nat);
        lemma_power_positive(b, (n - 1) as nat);
        assert(power(b, (n - 1) as nat) <= b * power(b, (n - 1) as nat)) by (nonlinear_arith)
            requires b > 0;
    }
}

pub proof fn lemma_digits_len(v: nat, b: nat, n: nat)
    requires
        b > 0,
    ensures
        digits(v, b, n).len() == n,
    decreases n,
{
    if n > 0 {
        lemma_digits_len(v / b, b, (n - 1) as nat);
    }
}

/// Digit `j` of the `n`-digit form of `v`.
pub proof fn lemma_digit_at(v: nat, b: nat, n: nat, j: int)
    requires
        b > 0,
        0 <= j < n,
    ensures
        digits(v, b, n)[j] == (v / power(b, (n - 1 - j) as nat)) % b,
    decreases n,
{
    lemma_digits_len(v / b, b, (n - 1) as nat);
    if j == n - 1 {
        assert(power(b, 0) == 1);
        assert(v / 1 == v);
        assert(digits(v, b, n)[j] == v % b);
    } else {
        assert(digits(v, b, n)[j] == digits(v / b, b, (n - 1) as nat)[j]);
        lemma_digit_at(v / b, b, (n - 1) as nat, j);
        lemma_power_positive(b, (n - 2 - j) as nat);
        assert(power(b, (n - 1 - j) as nat) == b * power(b, (n - 2 - j) as nat));
        lemma_div_denominator(v as int, b as int, power(b, (n - 2 - j) as nat) as int);
    }
}

pub proof fn lemma_digits_bounded(v: nat, b: nat, n: nat)
    requires
        b > 0,
    ensures
        forall|j: int| 0 <= j < n ==> #[trigger] digits(v, b, n)[j] < b,
    decreases n,
{
    lemma_digits_len(v / b, b, (n - 1) as nat);
    if n > 0 {
        lemma_digits_bounded(v / b, b, (n - 1) as nat);
        lemma_mod_pos_bound(v as int, b as int);
    }
}

/// Reading the digits back gives the number modulo `b^n`.
pub proof fn lemma_value_of_digits(v: nat, b: nat, n: nat)
    requires
        b > 0,
    ensures
        value_of(digits(v, b, n), b) == v % power(b, n),
    decreases n,
{
    if n == 0 {
        assert(v % 1 == 0);
    } else {
        let d: Seq<nat> = digits(v, b, n);
        assert(d.drop_last() == digits(v / b, b, (n - 1) as nat));
        lemma_value_of_digits(v / b, b, (n - 1) as nat);
        lemma_power_positive(b, (n - 1) as nat);
        let p: nat = power(b, (n - 1) as nat);
        lemma_mod_breakdown(v as int, b as int, p as int);
        assert(power(b, n) == b * p);
        assert(d.last() == v % b);
        assert(value_of(d, b) == value_of(d.drop_last(), b) * b + d.last());
        assert((v / b) % p * b == b * ((v / b) % p)) by (nonlinear_arith);
    }
}

/// A sequence of digits below `b` denotes a number below `b^len`.
pub proof fn lemma_value_of_bound(s: Seq<nat>, b: nat)
    requires
        b > 0,
        forall|j: int| 0 <= j < s.len() ==> s[j] < b,
    ensures
        value_of(s, b) < power(b, s.len()),
    decreases s.len(),
{
    if s.len() > 0 {
        let p: Seq<nat> = s.drop_last();
        lemma_value_of_bound(p, b);
        let q: nat = power(b, p.len());
        // value_of(p) * b + last <= (q - 1) * b + (b - 1) < q * b
        lemma_mul_inequality(value_of(p, b) as int, q - 1, b as int);
        lemma_mul_is_distributive_add(b as int, q - 1, 1);
        assert(power(b, s.len()) == b * q);
    }
}

/// Smaller numbers have lexicographically smaller digit sequences.
pub proof fn lemma_digits_order(v: nat, w: nat, b: nat, n: nat)
    requires
        b > 0,
        v < w < power(b, n),
    ensures
        lex_less(digits(v, b, n), digits(w, b, n)),
    decreases n,
{
    lemma_digits_len(v, b, n);
    lemma_digits_len(w, b, n);
    if n == 0 {
        assert(power(b, 0) == 1);
    } else {
        let m: nat = (n - 1) as nat;
        let dv: Seq<nat> = digits(v, b, n);
        let dw: Seq<nat> = digits(w, b, n);
        lemma_digits_len(v / b, b, m);
        lemma_digits_len(w / b, b, m);
        lemma_fundamental_div_mod(v as int, b as int);
        lemma_fundamental_div_mod(w as int, b as int);
        lemma_mod_pos_bound(v as int, b as int);
        lemma_mod_pos_bound(w as int, b as int);
        lemma_power_positive(b, m);
        vstd::arithmetic::div_mod::lemma_div_is_ordered(v as int, w as int, b as int);
        if v / b == w / b {
            assert(dv.subrange(0, m as int) == dw.subrange(0, m as int));
            assert(dv[m as int] < dw[m as int]);
        } else {
            let p: nat = power(b, m);
            assert(power(b, n) == b * p);
            assert(w / b < p) by {
                let q: int = w as int / b as int;
                assert(w as int == b * q + w as int % b as int);
                if q >= p {
                    lemma_mul_inequality(p as int, q, b as int);
                    assert(p * b == b * p) by (nonlinear_arith);
                    assert(q * b == b * q) by (nonlinear_arith);
                }
            }
            lemma_digits_order(v / b, w / b, b, m);
            let pv: Seq<nat> = digits(v / b, b, m);
            let pw: Seq<nat> = digits(w / b, b, m);
            assert(!(pv.len() < pw.len()));
            let i: int = choose|i: int|
                0 <= i < pv.len() && i < pw.len() && pv.subrange(0, i) == pw.subrange(0, i) && pv[i]
                    < pw[i];
            assert(dv.subrange(0, i) == pv.subrange(0, i));
            assert(dw.subrange(0, i) == pw.subrange(0, i));
            assert(dv[i] == pv[i] && dw[i] == pw[i]);
        }
    }
}

} // verus!
