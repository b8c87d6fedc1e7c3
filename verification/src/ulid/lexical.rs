//! Values and their canonical texts are ordered alike.
use crate::ulid::base32::{digit_at, encode_spec, lemma_pow32_top, symbol};
use crate::ulid::radix::{lemma_digit_at_range, lemma_div_pow_step};
use vstd::arithmetic::div_mod::*;
use vstd::arithmetic::power::*;
use vstd::prelude::*;

verus! {

/// `a` and `b` agree on their first `k` bytes, and there `a` ends or holds
/// the smaller byte.
pub open spec fn precedes_at(a: Seq<u8>, b: Seq<u8>, k: int) -> bool {
    &&& 0 <= k <= a.len()
    &&& k < b.len()
    &&& forall|j: int| 0 <= j < k ==> a[j] == b[j]
    &&& k < a.len() ==> a[k] < b[k]
}

/// `a` comes before `b` when the two are compared byte by byte.
pub open spec fn lex_lt(a: Seq<u8>, b: Seq<u8>) -> bool {
    exists|k: int| precedes_at(a, b, k)
}

/// A symbol of lower rank is a smaller byte.
pub proof fn lemma_symbol_order(c: int, d: int)
    requires
        0 <= c < d < 32,
    ensures
        symbol(c) < symbol(d),
{
}

/// The digit at place `j` can be read from the first `n` digits alone.
proof fn lemma_digit_of_prefix(v: nat, n: nat, j: int)
    requires
        0 <= j < n <= 26,
    ensures
        digit_at(v, j) == ((v as int / pow(32, (26 - n) as nat)) / pow(32, (n - 1 - j) as nat)) % 32,
{
    let low = (26 - n) as nat;
    let mid = (n - 1 - j) as nat;
    lemma_pow_positive(32, low);
    lemma_pow_positive(32, mid);
    lemma_pow_adds(32, low, mid);
    lemma_div_denominator(v as int, pow(32, low), pow(32, mid));
}

/// Where the first `n` digits of `a` denote less than those of `b`, there is
/// a first place among them at which the two differ, and there `a` holds the
/// smaller digit.
proof fn lemma_first_difference(a: nat, b: nat, n: nat) -> (k: int)
    requires
        a <= b < pow(32, 26),
        n <= 26,
        a as int / pow(32, (26 - n) as nat) < b as int / pow(32, (26 - n) as nat),
    ensures
        0 <= k < n,
        forall|j: int| 0 <= j < k ==> digit_at(a, j) == digit_at(b, j),
        digit_at(a, k) < digit_at(b, k),
    decreases n,
{
    if n == 0 {
        lemma_basic_div(a as int, pow(32, 26));
        lemma_basic_div(b as int, pow(32, 26));
        0
    } else {
        let low = (26 - n) as nat;
        lemma_div_pow_step(32, a, low);
        lemma_div_pow_step(32, b, low);
        lemma_div_is_ordered(a as int, b as int, pow(32, low + 1));
        if a as int / pow(32, low + 1) == b as int / pow(32, low + 1) {
            assert forall|j: int| 0 <= j < n - 1 implies digit_at(a, j) == digit_at(b, j) by {
                lemma_digit_of_prefix(a, (n - 1) as nat, j);
                lemma_digit_of_prefix(b, (n - 1) as nat, j);
            }
            n - 1
        } else {
            lemma_first_difference(a, b, (n - 1) as nat)
        }
    }
}

/// The text of the smaller of two values comes first.
proof fn lemma_encode_increasing(a: u128, b: u128) -> (k: int)
    requires
        a < b,
    ensures
        precedes_at(encode_spec(a), encode_spec(b), k),
        0 <= k < 26,
        encode_spec(a)[k] < encode_spec(b)[k],
{
    lemma_pow32_top();
    lemma_pow0(32);
    let k = lemma_first_difference(a as nat, b as nat, 26);
    lemma_digit_at_range(32, 26, a as nat, k);
    lemma_digit_at_range(32, 26, b as nat, k);
    lemma_symbol_order(digit_at(a as nat, k), digit_at(b as nat, k));
    k
}

/// One value is below another exactly when its canonical text comes before
/// the other's, byte by byte.
pub proof fn lemma_encode_order(a: u128, b: u128)
    ensures
        a < b <==> lex_lt(encode_spec(a), encode_spec(b)),
{
    let ta = encode_spec(a);
    let tb = encode_spec(b);
    if a < b {
        let k = lemma_encode_increasing(a, b);
    }
    if lex_lt(ta, tb) {
        let k = choose|k: int| precedes_at(ta, tb, k);
        if b < a {
            let m = lemma_encode_increasing(b, a);
            if m < k {
                assert(ta[m] == tb[m]);
            } else if k < m {
                assert(tb[k] == ta[k]);
            }
        }
    }
}

} // verus!
