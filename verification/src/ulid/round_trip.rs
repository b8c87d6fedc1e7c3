//! The text codec loses nothing: value to text to value, and text to value
//! to text.
use crate::ulid::base32::{
    all_symbols, decode_spec, digit_at, digit_of, digits_of, digits_value, encode_spec, is_symbol,
    lemma_pow32_top, lookup_entry, modulus, symbol, upper, DecodeError,
};
use crate::ulid::radix::{
    is_digits, leading_digits, lemma_digit_at_range, lemma_digit_at_value_of,
    lemma_leading_digits_value, lemma_value_of_prefix,
};
use vstd::arithmetic::div_mod::*;
use vstd::arithmetic::power::*;
use vstd::prelude::*;

verus! {

/// The bytes of `s`, each in its ASCII upper-case form.
pub open spec fn upper_all(s: Seq<u8>) -> Seq<u8> {
    Seq::new(s.len(), |i: int| upper(s[i]))
}

/// The symbol of rank `d` is read back as `d`; it is an ASCII byte and its
/// own upper-case form.
pub proof fn lemma_symbol_digit(d: int)
    requires
        0 <= d < 32,
    ensures
        digit_of(symbol(d)) == Some(d as u8),
        upper(symbol(d)) == symbol(d),
        symbol(d) < 128,
{
}

/// A byte that is read as a digit is, in upper case, the symbol of that digit.
pub proof fn lemma_digit_symbol(b: u8)
    requires
        digit_of(b) is Some,
    ensures
        digit_of(b).unwrap() < 32,
        symbol(digit_of(b).unwrap() as int) == upper(b),
{
}

/// The bytes that decoding accepts are the 32 symbols and the lower-case
/// forms of the letters among them.
pub proof fn lemma_digit_of_iff_symbol(b: u8)
    ensures
        digit_of(b) is Some <==> is_symbol(upper(b)),
{
    if digit_of(b) is Some {
        lemma_digit_symbol(b);
        assert(upper(b) == symbol(digit_of(b).unwrap() as int));
    }
    if is_symbol(upper(b)) {
        let d = choose|d: int| 0 <= d < 32 && upper(b) == #[trigger] symbol(d);
        lemma_symbol_digit(d);
    }
}

/// The letters `I`, `L`, `O` and `U` are no symbols, in either case, and
/// neither is any byte that is no ASCII letter or digit.
pub proof fn lemma_excluded_bytes(b: u8)
    requires
        upper(b) == 73 || upper(b) == 76 || upper(b) == 79 || upper(b) == 85 || !((48 <= b <= 57)
            || (65 <= b <= 90) || (97 <= b <= 122)),
    ensures
        digit_of(b) is None,
{
}

/// A text of 26 bytes with one that is no symbol is refused for that byte.
pub proof fn lemma_decode_refuses(s: Seq<u8>, i: int)
    requires
        s.len() == 26,
        0 <= i < 26,
        digit_of(s[i]) is None,
    ensures
        decode_spec(s) == Err::<u128, DecodeError>(DecodeError::InvalidChar),
{
}

/// The first symbol of a canonical text is one of `0` to `7`: 26 digits
/// hold 130 bits, and the two highest are never set.
pub proof fn lemma_first_symbol(v: u128)
    ensures
        0 <= digit_at(v as nat, 0) <= 7,
        48 <= encode_spec(v)[0] <= 55,
{
    lemma_pow32_top();
    lemma_fundamental_div_mod(v as int, pow(32, 25));
    lemma_symbol_digit(digit_at(v as nat, 0));
}

/// A value below 32 to the power `k` has a canonical text that begins with
/// `26 - k` times the symbol `0`.
pub proof fn lemma_leading_zeros(v: u128, k: nat, i: int)
    requires
        k <= 26,
        v < pow(32, k),
        0 <= i < 26 - k,
    ensures
        encode_spec(v)[i] == 48,
{
    let low = (25 - i) as nat;
    lemma_pow_increases(32, k, low);
    lemma_basic_div(v as int, pow(32, low));
}

/// Two values with the same canonical text are the same value.
pub proof fn lemma_encode_injective(a: u128, b: u128)
    requires
        encode_spec(a) == encode_spec(b),
    ensures
        a == b,
{
    lemma_decode_encode(a);
    lemma_decode_encode(b);
}

/// 26 digits of which the first is below 8 denote a number below two to the
/// power 128.
pub proof fn lemma_digits_value_fits(ds: Seq<u8>)
    requires
        is_digits(32, ds),
        ds.len() == 26,
        ds[0] < 8,
    ensures
        digits_value(ds) < modulus(),
{
    lemma_value_of_prefix(32, ds, 1);
    let first = ds.take(1);
    assert(first.drop_last() =~= Seq::<u8>::empty());
    assert(digits_value(first.drop_last()) == 0);
    assert(digits_value(first) == ds[0]);
    lemma_pow32_top();
    lemma_fundamental_div_mod(digits_value(ds) as int, pow(32, 25));
}

/// Decoding the canonical text of a value gives the value back.
pub proof fn lemma_decode_encode(v: u128)
    ensures
        decode_spec(encode_spec(v)) == Ok::<u128, DecodeError>(v),
{
    let s = encode_spec(v);
    assert forall|i: int| 0 <= i < 26 implies lookup_entry(s[i]) == digit_at(v as nat, i) && (
    #[trigger] digit_of(s[i])) is Some by {
        lemma_digit_at_range(32, 26, v as nat, i);
        lemma_symbol_digit(digit_at(v as nat, i));
    }
    assert(all_symbols(s));
    assert(digits_of(s) =~= leading_digits(32, 26, v as nat, 26));
    lemma_pow32_top();
    lemma_leading_digits_value(32, 26, v as nat, 26);
    lemma_pow0(32);
}

/// Encoding what a text decodes to gives the text back in upper case, for
/// every text of 26 symbols whose first stands for a digit below 8.
pub proof fn lemma_encode_decode(s: Seq<u8>)
    requires
        s.len() == 26,
        all_symbols(s),
        digit_of(s[0]).unwrap() < 8,
    ensures
        decode_spec(s) is Ok,
        encode_spec(decode_spec(s).unwrap()) == upper_all(s),
{
    let ds = digits_of(s);
    assert forall|i: int| 0 <= i < 26 implies (#[trigger] ds[i]) < 32 by {
        assert(digit_of(s[i]) is Some);
    }
    assert(is_digits(32, ds));
    assert(digit_of(s[0]) is Some);
    lemma_digits_value_fits(ds);
    let v = decode_spec(s).unwrap();
    assert(v == digits_value(ds));
    assert forall|i: int| 0 <= i < 26 implies encode_spec(v)[i] == upper_all(s)[i] by {
        lemma_digit_at_value_of(32, ds, i);
        assert(digit_of(s[i]) is Some);
        lemma_digit_symbol(s[i]);
    }
    assert(encode_spec(v) =~= upper_all(s));
}

/// Decoding does not tell a letter from its upper-case form.
pub proof fn lemma_decode_ignores_case(s: Seq<u8>)
    ensures
        decode_spec(upper_all(s)) == decode_spec(s),
{
    let u = upper_all(s);
    if s.len() == 26 {
        assert forall|i: int| 0 <= i < 26 implies digit_of(#[trigger] u[i]) == digit_of(s[i]) by {}
        if all_symbols(s) {
            assert forall|i: int| 0 <= i < 26 implies (#[trigger] digit_of(u[i])) is Some by {
                assert(digit_of(s[i]) is Some);
            }
            assert(digits_of(u) =~= digits_of(s));
        } else {
            let i = choose|i: int| 0 <= i < s.len() && !((#[trigger] digit_of(s[i])) is Some);
            assert(digit_of(u[i]) is None);
        }
    }
}

} // verus!
