//! A 128-bit identifier that sorts by the time it was made: 48 bits of
//! milliseconds since the Unix epoch above 80 random bits. Its canonical text
//! is 26 characters of Crockford's Base32.
pub mod base32;
pub mod bytes;
pub mod convert;
pub mod lexical;
pub mod order;
pub mod radix;
pub mod round_trip;

use crate::ulid::base32::{decode, decode_spec, encode, encode_spec, encode_text, is_symbol, DecodeError};
use crate::ulid::bytes::{be_bytes, be_value, lemma_be_value_fits, lemma_read_step, lemma_write_step};
use crate::ulid::radix::digit_at;
use vstd::arithmetic::power::*;
use vstd::prelude::*;
use vstd::string::StringSliceAdditionalSpecFns;
use vstd::utf8::encode_utf8;

verus! {

/// A unique, lexicographically sortable 128-bit identifier. The high 48 bits
/// are a Unix timestamp in milliseconds, the low 80 bits are random.
#[derive(Debug, Ord, PartialEq, Eq, Structural, Hash, Clone, Copy)]
pub struct ULID(pub u128);

/// Two to the power 80: the number of values of the random field.
pub open spec fn random_span() -> int {
    0x1_0000_0000_0000_0000_0000
}

/// Two to the power 48: the number of values of the time field.
pub open spec fn time_span() -> int {
    0x1_0000_0000_0000
}

/// A time field and a random field, both within their widths, put together.
proof fn lemma_compose(time: u64, random: u128)
    ensures
        (time & 0xFFFF_FFFF_FFFF) == time % 0x1_0000_0000_0000,
        (random & 0xFFFF_FFFF_FFFF_FFFF_FFFF) == random % 0x1_0000_0000_0000_0000_0000,
        (((time & 0xFFFF_FFFF_FFFF) as u128) << 80) | (random & 0xFFFF_FFFF_FFFF_FFFF_FFFF) == (time
            % 0x1_0000_0000_0000) * 0x1_0000_0000_0000_0000_0000 + (random
            % 0x1_0000_0000_0000_0000_0000),
{
    assert((time & 0xFFFF_FFFF_FFFF) == time % 0x1_0000_0000_0000) by (bit_vector);
    assert((random & 0xFFFF_FFFF_FFFF_FFFF_FFFF) == random % 0x1_0000_0000_0000_0000_0000)
        by (bit_vector);
    let t = (time & 0xFFFF_FFFF_FFFF) as u128;
    let r = random & 0xFFFF_FFFF_FFFF_FFFF_FFFF;
    assert((t << 80) | r == t * 0x1_0000_0000_0000_0000_0000 + r) by (bit_vector)
        requires
            t < 0x1_0000_0000_0000,
            r < 0x1_0000_0000_0000_0000_0000,
    ;
}

impl ULID {
    /// The number of bits in the time field.
    pub const TIME_BITS: u8 = 48;

    /// The number of bits in the random field.
    pub const RAND_BITS: u8 = 80;

    /// The time field: milliseconds since the Unix epoch.
    pub open spec fn spec_time(&self) -> int {
        self.0 as int / random_span()
    }

    /// The random field.
    pub open spec fn spec_random(&self) -> int {
        self.0 as int % random_span()
    }

    /// The identifier with the low 48 bits of `timestamp_ms` as its time
    /// field and the low 80 bits of `random` as its random field.
    pub open spec fn spec_from_parts(timestamp_ms: u64, random: u128) -> ULID {
        ULID(
            ((timestamp_ms as int % time_span()) * random_span() + random as int
                % random_span()) as u128,
        )
    }

    /// The identifier that follows `self` within the same millisecond, if
    /// the random field has room for it.
    pub open spec fn spec_increment(&self) -> Option<ULID> {
        if self.spec_random() == random_span() - 1 {
            None
        } else {
            Some(ULID((self.0 + 1) as u128))
        }
    }

    /// Puts an identifier together from its two fields. Bits of
    /// `timestamp_ms` above the 48th and of `random` above the 80th are
    /// dropped.
    pub fn from_parts(timestamp_ms: u64, random: u128) -> (r: ULID)
        ensures
            r == Self::spec_from_parts(timestamp_ms, random),
            r.spec_time() == timestamp_ms as int % time_span(),
            r.spec_random() == random as int % random_span(),
    {
        proof {
            lemma_compose(timestamp_ms, random);
            assert((1u64 << 48u8) == 0x1_0000_0000_0000) by (bit_vector);
            assert((1u128 << 80u8) == 0x1_0000_0000_0000_0000_0000) by (bit_vector);
        }
        let time_part = (timestamp_ms & ((1 << Self::TIME_BITS) - 1)) as u128;
        let rand_part = random & ((1 << Self::RAND_BITS) - 1);
        ULID((time_part << Self::RAND_BITS) | rand_part)
    }

    /// The identifier that the bytes `s` are the canonical text of, or why
    /// they are none.
    pub open spec fn spec_from_string(s: Seq<u8>) -> Result<ULID, DecodeError> {
        match decode_spec(s) {
            Ok(v) => Ok(ULID(v)),
            Err(e) => Err(e),
        }
    }

    /// Reads an identifier from its canonical text, in either case.
    pub fn from_string(encoded: &str) -> (r: Result<ULID, DecodeError>)
        ensures
            r == Self::spec_from_string(encoded.spec_bytes()),
    {
        match decode(encoded) {
            Ok(int_val) => Ok(ULID(int_val)),
            Err(err) => Err(err),
        }
    }

    /// The nil identifier: all 128 bits are zero.
    pub fn nil() -> (r: ULID)
        ensures
            r == ULID(0),
    {
        ULID(0)
    }

    /// The random field of this identifier.
    pub fn random(&self) -> (r: u128)
        ensures
            r == self.spec_random(),
    {
        proof {
            lemma_compose(0, self.0);
            assert((1u128 << 80u8) == 0x1_0000_0000_0000_0000_0000) by (bit_vector);
        }
        self.0 & ((1 << Self::RAND_BITS) - 1)
    }

    /// The canonical text of this identifier.
    pub fn to_string(&self) -> (s: String)
        ensures
            s@ == encode_text(self.0),
            s@.len() == 26,
            forall|i: int| 0 <= i < 26 ==> is_symbol(#[trigger] s@[i] as u8),
            encode_utf8(s@) == encode_spec(self.0),
    {
        encode(self.0)
    }

    /// Whether this is the nil identifier.
    pub fn is_nil(&self) -> (r: bool)
        ensures
            r == (self.0 == 0),
    {
        self.0 == 0u128
    }

    /// The next identifier of the same millisecond: the random field grows
    /// by one and the time field stays. There is none where the random field
    /// is at its largest value.
    pub fn increment(&self) -> (r: Option<ULID>)
        ensures
            r == self.spec_increment(),
            r is None <==> self.spec_random() == random_span() - 1,
            r is Some ==> r.unwrap().spec_time() == self.spec_time() && r.unwrap().spec_random()
                == self.spec_random() + 1,
    {
        proof {
            lemma_compose(0, self.0);
            assert((1u128 << 80u8) == 0x1_0000_0000_0000_0000_0000) by (bit_vector);
        }
        let max_random: u128 = (1 << Self::RAND_BITS) - 1;
        if (self.0 & max_random) == max_random {
            None
        } else {
            Some(ULID(self.0 + 1))
        }
    }

    /// The identifier whose value the 16 bytes denote, the first byte being
    /// the most significant.
    pub fn from_bytes(bytes: [u8; 16]) -> (r: ULID)
        ensures
            r.0 == be_value(bytes@),
    {
        let mut value: u128 = 0;
        let mut i: usize = 0;
        while i < 16
            invariant
                i <= 16,
                value == be_value(bytes@.take(i as int)) as int % base32::modulus(),
            decreases 16 - i,
        {
            proof {
                lemma_read_step(bytes@, i as int, value, (value << 8) | bytes[i as int] as u128);
            }
            value = (value << 8) | bytes[i] as u128;
            i += 1;
        }
        proof {
            assert(bytes@.take(16) =~= bytes@);
            lemma_be_value_fits(bytes@);
        }
        ULID(value)
    }

    /// The 16 bytes of this identifier's value, the most significant first.
    pub fn to_bytes(&self) -> (r: [u8; 16])
        ensures
            r@ == be_bytes(self.0),
    {
        let mut bytes: [u8; 16] = [0;16];
        let mut rest = self.0;
        let mut i: usize = 0;
        proof {
            lemma_pow0(256);
        }
        while i < 16
            invariant
                i <= 16,
                rest == self.0 as int / pow(256, i as nat),
                forall|j: int| 16 - i <= j < 16 ==> bytes@[j] == digit_at(256, 16, self.0 as nat, j),
            decreases 16 - i,
        {
            proof {
                lemma_write_step(self.0, i as nat, rest);
            }
            bytes[15 - i] = (rest & 0xff) as u8;
            rest >>= 8;
            i += 1;
        }
        assert(bytes@ =~= be_bytes(self.0));
        bytes
    }
}

/// Incrementing the identifier made of a time and a random part gives the
/// identifier made of the same time and the next random part, as long as
/// that part still fits in 80 bits.
pub proof fn lemma_increment_from_parts(timestamp_ms: u64, random: u128)
    requires
        random + 1 < random_span(),
    ensures
        ULID::spec_from_parts(timestamp_ms, random).spec_increment() == Some(
            ULID::spec_from_parts(timestamp_ms, (random + 1) as u128),
        ),
{
}

/// An identifier whose random part is all ones has no successor, whatever
/// its time is.
pub proof fn lemma_increment_exhausted(timestamp_ms: u64, random: u128)
    requires
        random as int % random_span() == random_span() - 1,
    ensures
        ULID::spec_from_parts(timestamp_ms, random).spec_increment() is None,
{
}

/// Every identifier is made of its own two fields.
pub proof fn lemma_fields_make_identifier(id: ULID)
    ensures
        0 <= id.spec_time() < time_span(),
        0 <= id.spec_random() < random_span(),
        id.0 == id.spec_time() * random_span() + id.spec_random(),
        id == ULID::spec_from_parts(id.spec_time() as u64, id.spec_random() as u128),
{
}

/// The canonical text of the nil identifier is 26 times the symbol `0`.
pub proof fn lemma_nil_text()
    ensures
        encode_spec(0) == Seq::new(26, |i: int| 48u8),
        encode_text(0) == Seq::new(26, |i: int| '0'),
{
    assert forall|i: int| 0 <= i < 26 implies digit_at(32, 26, 0, i) == 0 by {
        lemma_pow_positive(32, (25 - i) as nat);
    }
    assert(encode_spec(0) =~= Seq::new(26, |i: int| 48u8));
    assert(encode_text(0) =~= Seq::new(26, |i: int| '0'));
}

} // verus!
