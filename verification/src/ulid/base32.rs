//! Crockford's Base32 for 128-bit values: 26 symbols, most significant
//! digit first.
use crate::text::{lemma_ascii_text, text_of};
use crate::ulid::radix;
use vstd::arithmetic::power::*;
use vstd::prelude::*;
use vstd::slice::slice_to_vec;
use vstd::string::StringSliceAdditionalSpecFns;
use vstd::utf8::encode_utf8;

verus! {

/// Why a text could not be read as an identifier.
#[derive(Debug, PartialEq, Eq, Structural, Hash, Copy, Clone)]
pub enum DecodeError {
    /// The text is not exactly [`ULID_LEN`] bytes long.
    InvalidLength,
    /// The text holds a byte that is no symbol of the alphabet.
    InvalidChar,
}

/// Why a value could not be written into a buffer.
#[derive(Debug, PartialEq, Eq, Structural, Hash, Copy, Clone)]
pub enum EncodeError {
    /// The buffer holds fewer than [`ULID_LEN`] bytes.
    BufferTooSmall,
}

impl DecodeError {
    /// A short description of the error.
    pub open spec fn description(&self) -> Seq<char> {
        match self {
            DecodeError::InvalidLength => "invalid length"@,
            DecodeError::InvalidChar => "invalid character"@,
        }
    }

    /// A short description of the error.
    pub fn to_string(&self) -> (s: String)
        ensures
            s@ == self.description(),
    {
        let text = match self {
            DecodeError::InvalidLength => "invalid length",
            DecodeError::InvalidChar => "invalid character",
        };
        text.to_owned()
    }
}

impl EncodeError {
    /// A short description of the error.
    pub open spec fn description(&self) -> Seq<char> {
        match self {
            EncodeError::BufferTooSmall => "buffer too small"@,
        }
    }

    /// A short description of the error.
    pub fn to_string(&self) -> (s: String)
        ensures
            s@ == self.description(),
    {
        let text = match self {
            EncodeError::BufferTooSmall => "buffer too small",
        };
        text.to_owned()
    }
}

/// Number of characters in the text form of an identifier.
pub const ULID_LEN: usize = 26;

/// The 32 symbols of Crockford's Base32, in order of their numeric rank.
pub const ALPHABET: [u8; 32] = [
    48, 49, 50, 51, 52, 53, 54, 55, 56, 57, 65, 66, 67, 68, 69, 70, 71, 72, 74, 75, 77, 78, 80, 81,
    82, 83, 84, 86, 87, 88, 89, 90,
];

/// Marker in [`LOOKUP`] for a byte that is no symbol of the alphabet.
pub const NO_VALUE: u8 = 255;

/// The rank of the symbol `b`, or `None` where `b` is no symbol. Letters
/// count in either case; `I`, `L`, `O` and `U` are no symbols.
pub open spec fn digit_of(b: u8) -> Option<u8> {
    if 48 <= b <= 57 {
        Some((b - 48) as u8)
    } else {
        let u = upper(b);
        if 65 <= u <= 72 {
            Some((u - 55) as u8)
        } else if 74 <= u <= 75 {
            Some((u - 56) as u8)
        } else if 77 <= u <= 78 {
            Some((u - 57) as u8)
        } else if 80 <= u <= 84 {
            Some((u - 58) as u8)
        } else if 86 <= u <= 90 {
            Some((u - 59) as u8)
        } else {
            None
        }
    }
}

/// The ASCII upper-case form of a byte.
pub open spec fn upper(b: u8) -> u8 {
    if 97 <= b <= 122 {
        (b - 32) as u8
    } else {
        b
    }
}

/// For every byte, the rank of the symbol it stands for, or [`NO_VALUE`].
pub const LOOKUP: [u8; 256] = [
    255, 255, 255, 255, 255, 255, 255, 255, 255, 255, 255, 255, 255, 255, 255, 255, 255, 255, 255,
    255, 255, 255, 255, 255, 255, 255, 255, 255, 255, 255, 255, 255, 255, 255, 255, 255, 255, 255,
    255, 255, 255, 255, 255, 255, 255, 255, 255, 255, 0, 1, 2, 3, 4, 5, 6, 7, 8, 9, 255, 255, 255,
    255, 255, 255, 255, 10, 11, 12, 13, 14, 15, 16, 17, 255, 18, 19, 255, 20, 21, 255, 22, 23, 24,
    25, 26, 255, 27, 28, 29, 30, 31, 255, 255, 255, 255, 255, 255, 10, 11, 12, 13, 14, 15, 16, 17,
    255, 18, 19, 255, 20, 21, 255, 22, 23, 24, 25, 26, 255, 27, 28, 29, 30, 31, 255, 255, 255, 255,
    255, 255, 255, 255, 255, 255, 255, 255, 255, 255, 255, 255, 255, 255, 255, 255, 255, 255, 255,
    255, 255, 255, 255, 255, 255, 255, 255, 255, 255, 255, 255, 255, 255, 255, 255, 255, 255, 255,
    255, 255, 255, 255, 255, 255, 255, 255, 255, 255, 255, 255, 255, 255, 255, 255, 255, 255, 255,
    255, 255, 255, 255, 255, 255, 255, 255, 255, 255, 255, 255, 255, 255, 255, 255, 255, 255, 255,
    255, 255, 255, 255, 255, 255, 255, 255, 255, 255, 255, 255, 255, 255, 255, 255, 255, 255, 255,
    255, 255, 255, 255, 255, 255, 255, 255, 255, 255, 255, 255, 255, 255, 255, 255, 255, 255, 255,
    255, 255, 255, 255, 255, 255, 255, 255, 255, 255, 255, 255, 255, 255, 255,
];

/// What [`LOOKUP`] holds for the byte `b`.
pub open spec fn lookup_entry(b: u8) -> u8 {
    match digit_of(b) {
        Some(d) => d,
        None => NO_VALUE,
    }
}

/// Two to the power 128: one more than the largest identifier value.
pub open spec fn modulus() -> int {
    0x1_0000_0000_0000_0000_0000_0000_0000_0000int
}

/// The symbol of rank `d`.
pub open spec fn symbol(d: int) -> u8
    recommends
        0 <= d < 32,
{
    ALPHABET[d]
}

/// The base-32 digit of `v` at place `i`, counted from the most significant
/// of [`ULID_LEN`] places.
pub open spec fn digit_at(v: nat, i: int) -> int
    recommends
        0 <= i < 26,
{
    radix::digit_at(32, 26, v, i)
}

/// The canonical text of `v`, as bytes: its 26 base-32 digits, most
/// significant first, each written as its symbol.
pub open spec fn encode_spec(v: u128) -> Seq<u8> {
    Seq::new(26, |i: int| symbol(digit_at(v as nat, i)))
}

/// The number that a string of base-32 digits denotes, most significant
/// digit first.
pub open spec fn digits_value(ds: Seq<u8>) -> nat {
    radix::value_of(32, ds)
}

/// Every byte of `s` is a symbol of the alphabet, in either case.
pub open spec fn all_symbols(s: Seq<u8>) -> bool {
    forall|i: int| 0 <= i < s.len() ==> (#[trigger] digit_of(s[i])) is Some
}

/// The ranks of the symbols of `s`.
pub open spec fn digits_of(s: Seq<u8>) -> Seq<u8> {
    Seq::new(s.len(), |i: int| lookup_entry(s[i]))
}

/// What decoding the bytes `s` gives. The length is judged first, then the
/// symbols; 26 digits hold 130 bits, of which the value keeps the low 128.
pub open spec fn decode_spec(s: Seq<u8>) -> Result<u128, DecodeError> {
    if s.len() != 26 {
        Err(DecodeError::InvalidLength)
    } else if !all_symbols(s) {
        Err(DecodeError::InvalidChar)
    } else {
        Ok((digits_value(digits_of(s)) as int % modulus()) as u128)
    }
}

/// [`LOOKUP`] holds, for every byte, the rank of its symbol or [`NO_VALUE`].
pub proof fn lemma_lookup_table(b: u8)
    ensures
        LOOKUP[b as int] == lookup_entry(b),
{
}

/// 32 to the power 25 and to the power 26, written out: 26 digits hold
/// every 128-bit value with two bits to spare.
pub proof fn lemma_pow32_top()
    ensures
        pow(32, 25) == 0x2000_0000_0000_0000_0000_0000_0000_0000int,
        pow(32, 26) == 4 * modulus(),
{
    assert(pow(32, 5) == 0x200_0000) by {
        reveal_with_fuel(pow, 6);
    }
    lemma_pow_adds(32, 5, 5);
    assert(pow(32, 10) == 0x4_0000_0000_0000);
    lemma_pow_adds(32, 10, 10);
    assert(pow(32, 20) == 0x10_0000_0000_0000_0000_0000_0000);
    lemma_pow_adds(32, 20, 5);
    assert(pow(32, 25) == 0x2000_0000_0000_0000_0000_0000_0000_0000int);
    lemma_pow1(32);
    lemma_pow_adds(32, 25, 1);
}

/// One more byte of the text has been read as the digit `d`.
proof fn lemma_decode_step(s: Seq<u8>, i: int, value: u128, d: u8, next: u128)
    requires
        0 <= i < s.len(),
        all_symbols(s.take(i)),
        value == digits_value(digits_of(s.take(i))) as int % modulus(),
        d == lookup_entry(s[i]),
        d != NO_VALUE,
        next == (value << 5) | d as u128,
    ensures
        all_symbols(s.take(i + 1)),
        next == digits_value(digits_of(s.take(i + 1))) as int % modulus(),
{
    let before = digits_of(s.take(i));
    let after = digits_of(s.take(i + 1));
    assert(d < 32);
    assert(after =~= before.push(d));
    radix::lemma_value_of_push(32, before, d);
    assert(next == (value as int * 32 + d as int) % modulus()) by (bit_vector)
        requires
            d < 32,
            next == (value << 5) | d as u128,
    ;
    assert forall|j: int| 0 <= j < i + 1 implies (#[trigger] digit_of(s.take(i + 1)[j])) is Some by {
        if j < i {
            assert(s.take(i)[j] == s[j]);
        }
    }
}

/// Reads `encoded` as the canonical text of an identifier value. The
/// length is judged first, in bytes; letters count in either case. A text
/// whose first digit is above 7 denotes a number of more than 128 bits: it
/// is not refused, and the value keeps the low 128 bits of that number.
pub fn decode(encoded: &str) -> (r: Result<u128, DecodeError>)
    ensures
        r == decode_spec(encoded.spec_bytes()),
        encoded.spec_bytes().len() != 26 ==> r == Err::<u128, DecodeError>(
            DecodeError::InvalidLength,
        ),
        encoded.spec_bytes().len() == 26 && !all_symbols(encoded.spec_bytes()) ==> r == Err::<
            u128,
            DecodeError,
        >(DecodeError::InvalidChar),
        r is Ok <==> encoded.spec_bytes().len() == 26 && all_symbols(encoded.spec_bytes()),
{
    let bytes = encoded.as_bytes();
    if bytes.len() != ULID_LEN {
        return Err(DecodeError::InvalidLength);
    }
    let mut value: u128 = 0;
    let mut i: usize = 0;
    while i < ULID_LEN
        invariant
            bytes@ == encoded.spec_bytes(),
            bytes@.len() == 26,
            i <= 26,
            all_symbols(bytes@.take(i as int)),
            value == digits_value(digits_of(bytes@.take(i as int))) as int % modulus(),
        decreases 26 - i,
    {
        let val = LOOKUP[bytes[i] as usize];
        if val != NO_VALUE {
            proof {
                lemma_lookup_table(bytes[i as int]);
                lemma_decode_step(bytes@, i as int, value, val, (value << 5) | val as u128);
            }
            value = (value << 5) | val as u128;
        } else {
            proof {
                lemma_lookup_table(bytes[i as int]);
                assert(digit_of(bytes@[i as int]) is None);
            }
            return Err(DecodeError::InvalidChar);
        }
        i += 1;
    }
    proof {
        assert(bytes@.take(26) =~= bytes@);
    }
    Ok(value)
}

/// The low `n` digits of `v` have been written, `rest` is what is left of it.
proof fn lemma_encode_step(v: u128, n: nat, rest: u128)
    requires
        n < 26,
        rest == v as int / pow(32, n),
    ensures
        0 <= rest & 0x1f < 32,
        (rest & 0x1f) == digit_at(v as nat, 25 - n),
        (rest >> 5) == v as int / pow(32, n + 1),
{
    assert(0 <= rest & 0x1f < 32 && (rest & 0x1f) == rest % 32 && (rest >> 5) == rest / 32)
        by (bit_vector);
    radix::lemma_div_pow_step(32, v as nat, n);
}

/// Writes the canonical text of `value` into `buffer`.
pub fn encode_to_array(value: u128, buffer: &mut [u8; ULID_LEN])
    ensures
        final(buffer)@ == encode_spec(value),
{
    let mut rest = value;
    let mut i: usize = 0;
    proof {
        lemma_pow0(32);
    }
    while i < ULID_LEN
        invariant
            i <= 26,
            rest == value as int / pow(32, i as nat),
            forall|j: int| 26 - i <= j < 26 ==> buffer@[j] == symbol(digit_at(value as nat, j)),
        decreases 26 - i,
    {
        proof {
            lemma_encode_step(value, i as nat, rest);
        }
        buffer[ULID_LEN - 1 - i] = ALPHABET[(rest & 0x1f) as usize];
        rest >>= 5;
        i += 1;
    }
    assert(buffer@ =~= encode_spec(value));
}

/// Writes the canonical text of `value` into the first [`ULID_LEN`] bytes
/// of `buffer` and returns their number, or leaves a shorter buffer as it is.
pub fn encode_to(value: u128, buffer: &mut [u8]) -> (r: Result<usize, EncodeError>)
    ensures
        old(buffer)@.len() < 26 ==> r == Err::<usize, EncodeError>(EncodeError::BufferTooSmall)
            && final(buffer)@ == old(buffer)@,
        old(buffer)@.len() >= 26 ==> r == Ok::<usize, EncodeError>(26) && final(buffer)@
            == encode_spec(value) + old(buffer)@.skip(26),
{
    if buffer.len() < ULID_LEN {
        return Err(EncodeError::BufferTooSmall);
    }
    let mut rest = value;
    let mut i: usize = 0;
    proof {
        lemma_pow0(32);
    }
    while i < ULID_LEN
        invariant
            i <= 26,
            buffer@.len() == old(buffer)@.len(),
            buffer@.len() >= 26,
            rest == value as int / pow(32, i as nat),
            forall|j: int| 26 - i <= j < 26 ==> buffer@[j] == symbol(digit_at(value as nat, j)),
            forall|j: int| 26 <= j < buffer@.len() ==> buffer@[j] == old(buffer)@[j],
        decreases 26 - i,
    {
        proof {
            lemma_encode_step(value, i as nat, rest);
        }
        buffer[ULID_LEN - 1 - i] = ALPHABET[(rest & 0x1f) as usize];
        rest >>= 5;
        i += 1;
    }
    assert(buffer@ =~= encode_spec(value) + old(buffer)@.skip(26));
    Ok(ULID_LEN)
}

/// The canonical text of `v`: 26 characters of the alphabet.
pub open spec fn encode_text(v: u128) -> Seq<char> {
    text_of(encode_spec(v))
}

/// `b` is one of the 32 symbols that encoding writes.
pub open spec fn is_symbol(b: u8) -> bool {
    exists|d: int| 0 <= d < 32 && b == #[trigger] symbol(d)
}

/// Every byte of a canonical text is a symbol of the alphabet, and so below 128.
pub proof fn lemma_encode_spec_symbols(v: u128)
    ensures
        encode_spec(v).len() == 26,
        forall|i: int| 0 <= i < 26 ==> is_symbol(#[trigger] encode_spec(v)[i]),
        forall|i: int| 0 <= i < 26 ==> (#[trigger] encode_spec(v)[i]) < 128,
{
    assert forall|i: int| 0 <= i < 26 implies is_symbol(#[trigger] encode_spec(v)[i])
        && encode_spec(v)[i] < 128 by {
        let d = digit_at(v as nat, i);
        radix::lemma_digit_at_range(32, 26, v as nat, i);
        assert(encode_spec(v)[i] == symbol(d));
    }
}

/// The canonical text of `value`: 26 symbols of the alphabet, which take
/// one byte each.
pub fn encode(value: u128) -> (s: String)
    ensures
        s@ == encode_text(value),
        s@.len() == 26,
        forall|i: int| 0 <= i < 26 ==> is_symbol(#[trigger] s@[i] as u8),
        encode_utf8(s@) == encode_spec(value),
{
    let mut buffer: [u8; ULID_LEN] = [0;ULID_LEN];
    encode_to_array(value, &mut buffer);
    proof {
        lemma_encode_spec_symbols(value);
        lemma_ascii_text(buffer@);
        assert forall|i: int| 0 <= i < 26 implies is_symbol(
            #[trigger] encode_text(value)[i] as u8,
        ) by {
            assert(encode_spec(value)[i] < 128);
            assert(encode_text(value)[i] as u8 == encode_spec(value)[i]);
        }
    }
    String::from_utf8(slice_to_vec(buffer.as_slice())).unwrap()
}

} // verus!
