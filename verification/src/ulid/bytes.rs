//! The binary form of an identifier: 16 bytes, most significant first.
use crate::ulid::base32::modulus;
use crate::ulid::radix::{
    digit_at, leading_digits, lemma_digit_at_range, lemma_digit_at_value_of, lemma_div_pow_step,
    lemma_leading_digits_value, lemma_value_of_bound, lemma_value_of_push, value_of,
};
use vstd::arithmetic::power::*;
use vstd::prelude::*;

verus! {

/// The number that `bytes` denote, the first byte being the most significant.
pub open spec fn be_value(bytes: Seq<u8>) -> nat {
    value_of(256, bytes)
}

/// The 16 bytes of `v`, the most significant first.
pub open spec fn be_bytes(v: u128) -> Seq<u8> {
    leading_digits(256, 16, v as nat, 16)
}

/// 256 to the power 16 is two to the power 128.
pub proof fn lemma_pow256_top()
    ensures
        pow(256, 16) == modulus(),
{
    assert(pow(256, 4) == 0x1_0000_0000) by {
        reveal_with_fuel(pow, 5);
    }
    lemma_pow_adds(256, 4, 4);
    assert(pow(256, 8) == 0x1_0000_0000_0000_0000);
    lemma_pow_adds(256, 8, 8);
}

/// 16 bytes denote a 128-bit value.
pub proof fn lemma_be_value_fits(bytes: Seq<u8>)
    requires
        bytes.len() == 16,
    ensures
        be_value(bytes) < modulus(),
{
    lemma_value_of_bound(256, bytes);
    lemma_pow256_top();
}

/// The bytes of a value denote that value.
pub proof fn lemma_be_value_of_bytes(v: u128)
    ensures
        be_value(be_bytes(v)) == v,
{
    lemma_pow256_top();
    lemma_pow0(256);
    lemma_leading_digits_value(256, 16, v as nat, 16);
}

/// The value that 16 bytes denote has these bytes.
pub proof fn lemma_be_bytes_of_value(bytes: Seq<u8>)
    requires
        bytes.len() == 16,
    ensures
        be_value(bytes) < modulus(),
        be_bytes(be_value(bytes) as u128) == bytes,
{
    lemma_be_value_fits(bytes);
    assert forall|i: int| 0 <= i < 16 implies be_bytes(be_value(bytes) as u128)[i] == bytes[i] by {
        lemma_digit_at_value_of(256, bytes, i);
    }
    assert(be_bytes(be_value(bytes) as u128) =~= bytes);
}

/// The first byte holds the most significant 8 bits, the last byte the least
/// significant 8 bits.
pub proof fn lemma_be_bytes_ends(v: u128)
    ensures
        be_bytes(v)[0] == v / 0x100_0000_0000_0000_0000_0000_0000_0000,
        be_bytes(v)[15] == v % 256,
{
    assert(pow(256, 5) == 0x100_0000_0000) by {
        reveal_with_fuel(pow, 6);
    }
    lemma_pow_adds(256, 5, 5);
    assert(pow(256, 10) == 0x1_0000_0000_0000_0000_0000);
    lemma_pow_adds(256, 10, 5);
    lemma_pow0(256);
}

/// One more byte has been read into `value`.
pub proof fn lemma_read_step(bytes: Seq<u8>, i: int, value: u128, next: u128)
    requires
        0 <= i < bytes.len(),
        value == be_value(bytes.take(i)) as int % modulus(),
        next == (value << 8) | bytes[i] as u128,
    ensures
        next == be_value(bytes.take(i + 1)) as int % modulus(),
{
    let b = bytes[i];
    assert(bytes.take(i + 1) =~= bytes.take(i).push(b));
    lemma_value_of_push(256, bytes.take(i), b);
    assert(next == (value as int * 256 + b as int) % modulus()) by (bit_vector)
        requires
            next == (value << 8) | b as u128,
    ;
}

/// The low `n` bytes of `v` have been written, `rest` is what is left of it.
pub proof fn lemma_write_step(v: u128, n: nat, rest: u128)
    requires
        n < 16,
        rest == v as int / pow(256, n),
    ensures
        (rest & 0xff) == digit_at(256, 16, v as nat, 15 - n),
        (rest & 0xff) < 256,
        (rest >> 8) == v as int / pow(256, n + 1),
{
    assert((rest & 0xff) == rest % 256 && (rest >> 8) == rest / 256) by (bit_vector);
    lemma_div_pow_step(256, v as nat, n);
    lemma_digit_at_range(256, 16, v as nat, 15 - n);
}

} // verus!
