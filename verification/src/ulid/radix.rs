//! Numbers written as a fixed number of digits in some base, most
//! significant digit first.
use vstd::arithmetic::div_mod::*;
use vstd::arithmetic::power::*;
use vstd::prelude::*;

verus! {

/// The number that the digit string `ds` denotes in base `base`.
pub open spec fn value_of(base: nat, ds: Seq<u8>) -> nat
    decreases ds.len(),
{
    if ds.len() == 0 {
        0
    } else {
        value_of(base, ds.drop_last()) * base + ds.last() as nat
    }
}

/// The digit of `v` at place `i` of `width` places.
pub open spec fn digit_at(base: nat, width: nat, v: nat, i: int) -> int
    recommends
        0 <= i < width,
{
    (v as int / pow(base as int, (width - 1 - i) as nat)) % (base as int)
}

/// Every element of `ds` is a digit of base `base`.
pub open spec fn is_digits(base: nat, ds: Seq<u8>) -> bool {
    forall|i: int| 0 <= i < ds.len() ==> (#[trigger] ds[i]) < base
}

/// The first `n` of the `width` digits of `v`.
pub open spec fn leading_digits(base: nat, width: nat, v: nat, n: nat) -> Seq<u8> {
    Seq::new(n, |i: int| digit_at(base, width, v, i) as u8)
}

/// Appending a digit multiplies the value by the base and adds the digit.
pub proof fn lemma_value_of_push(base: nat, ds: Seq<u8>, d: u8)
    ensures
        value_of(base, ds.push(d)) == value_of(base, ds) * base + d as nat,
{
    assert(ds.push(d).drop_last() =~= ds);
}

/// Each digit of a number is below the base.
pub proof fn lemma_digit_at_range(base: nat, width: nat, v: nat, i: int)
    requires
        base > 0,
    ensures
        0 <= digit_at(base, width, v, i) < base,
{
    let q = v as int / pow(base as int, (width - 1 - i) as nat);
    lemma_mod_bound(q, base as int);
}

/// Dropping one more low digit divides by the base.
pub proof fn lemma_div_pow_step(base: nat, v: nat, n: nat)
    requires
        base > 0,
    ensures
        pow(base as int, n) > 0,
        pow(base as int, n + 1) == pow(base as int, n) * base,
        v as int / pow(base as int, n + 1) == (v as int / pow(base as int, n)) / (base as int),
        v as int / pow(base as int, n) == (v as int / pow(base as int, n + 1)) * base + (v as int
            / pow(base as int, n)) % (base as int),
{
    let b = base as int;
    lemma_pow_positive(b, n);
    lemma_div_denominator(v as int, pow(b, n), b);
    assert(pow(b, n + 1) == pow(b, n) * b) by {
        reveal(pow);
        assert(b * pow(b, n) == pow(b, n) * b) by (nonlinear_arith);
    }
    let q = v as int / pow(b, n);
    lemma_fundamental_div_mod(q, b);
    assert(b * (q / b) == (q / b) * b) by (nonlinear_arith);
}

/// The first `n` digits of `v` denote `v` without its low `width - n` digits.
pub proof fn lemma_leading_digits_value(base: nat, width: nat, v: nat, n: nat)
    requires
        0 < base <= 256,
        v < pow(base as int, width),
        n <= width,
    ensures
        value_of(base, leading_digits(base, width, v, n)) == v as int / pow(
            base as int,
            (width - n) as nat,
        ),
    decreases n,
{
    if n == 0 {
        lemma_basic_div(v as int, pow(base as int, width));
    } else {
        let m = (n - 1) as nat;
        lemma_leading_digits_value(base, width, v, m);
        lemma_digit_at_range(base, width, v, m as int);
        assert(leading_digits(base, width, v, n).drop_last() =~= leading_digits(base, width, v, m));
        assert(leading_digits(base, width, v, n).last() == digit_at(base, width, v, m as int));
        lemma_div_pow_step(base, v, (width - n) as nat);
    }
}

/// The first `n` digits of a digit string denote its value without the low
/// digits that follow them.
pub proof fn lemma_value_of_prefix(base: nat, ds: Seq<u8>, n: nat)
    requires
        base > 0,
        is_digits(base, ds),
        n <= ds.len(),
    ensures
        value_of(base, ds) as int / pow(base as int, (ds.len() - n) as nat) == value_of(
            base,
            ds.take(n as int),
        ),
    decreases ds.len() - n,
{
    if n == ds.len() {
        lemma_pow0(base as int);
        assert(ds.take(n as int) =~= ds);
    } else {
        lemma_value_of_prefix(base, ds, n + 1);
        let longer = ds.take(n as int + 1);
        assert(longer.drop_last() =~= ds.take(n as int));
        assert(longer.last() == ds[n as int]);
        lemma_div_pow_step(base, value_of(base, ds), (ds.len() - n - 1) as nat);
        let shorter = value_of(base, ds.take(n as int)) as int;
        lemma_div_multiples_vanish_fancy(shorter, ds[n as int] as int, base as int);
        assert(shorter * base == base * shorter) by (nonlinear_arith);
    }
}

/// A number holds, at each place, the digit it was built from.
pub proof fn lemma_digit_at_value_of(base: nat, ds: Seq<u8>, i: int)
    requires
        base > 0,
        is_digits(base, ds),
        0 <= i < ds.len(),
    ensures
        digit_at(base, ds.len(), value_of(base, ds), i) == ds[i],
{
    lemma_value_of_prefix(base, ds, (i + 1) as nat);
    let longer = ds.take(i + 1);
    assert(longer.last() == ds[i]);
    let shorter = value_of(base, longer.drop_last()) as int;
    lemma_mod_multiples_vanish(shorter, ds[i] as int, base as int);
    lemma_small_mod(ds[i] as nat, base);
    assert(shorter * base == base * shorter) by (nonlinear_arith);
}

/// A string of digits denotes a number below the base to the power of its
/// length.
pub proof fn lemma_value_of_bound(base: nat, ds: Seq<u8>)
    requires
        base > 0,
        is_digits(base, ds),
    ensures
        value_of(base, ds) < pow(base as int, ds.len()),
    decreases ds.len(),
{
    if ds.len() == 0 {
        lemma_pow0(base as int);
    } else {
        let shorter = ds.drop_last();
        lemma_value_of_bound(base, shorter);
        let b = base as int;
        let p = pow(b, shorter.len());
        assert(pow(b, ds.len()) == p * b) by {
            reveal(pow);
            assert(b * p == p * b) by (nonlinear_arith);
        }
        assert((value_of(base, shorter) + 1) * b <= p * b) by (nonlinear_arith)
            requires
                value_of(base, shorter) + 1 <= p,
                b > 0,
        ;
        assert((value_of(base, shorter) + 1) * b == value_of(base, shorter) * b + b)
            by (nonlinear_arith);
    }
}

} // verus!
