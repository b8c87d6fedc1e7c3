//! Conversions between identifiers and their other forms: the plain value,
//! two 64-bit halves, 16 bytes and the canonical text.
use crate::ulid::base32::{encode_text, DecodeError};
use crate::ulid::bytes::{be_bytes, be_value};
use crate::ulid::ULID;
use std::str::FromStr;
use vstd::prelude::*;
use vstd::std_specs::convert::FromSpec;
use vstd::string::StringSliceAdditionalSpecFns;

verus! {

/// Two to the power 64: the number of values of one half.
pub open spec fn half_span() -> int {
    0x1_0000_0000_0000_0000
}

impl Default for ULID {
    /// The nil identifier.
    fn default() -> (r: Self)
        ensures
            r == ULID(0),
    {
        ULID::nil()
    }
}

impl From<u128> for ULID {
    fn from(value: u128) -> (r: ULID) {
        ULID(value)
    }
}

impl vstd::std_specs::convert::FromSpecImpl<u128> for ULID {
    open spec fn obeys_from_spec() -> bool {
        true
    }

    open spec fn from_spec(value: u128) -> ULID {
        ULID(value)
    }
}

impl From<ULID> for u128 {
    fn from(ulid: ULID) -> (r: u128) {
        ulid.0
    }
}

impl vstd::std_specs::convert::FromSpecImpl<ULID> for u128 {
    open spec fn obeys_from_spec() -> bool {
        true
    }

    open spec fn from_spec(ulid: ULID) -> u128 {
        ulid.0
    }
}

impl From<(u64, u64)> for ULID {
    /// The first half holds the high 64 bits, the second the low 64 bits.
    fn from(halves: (u64, u64)) -> (r: ULID) {
        let (msb, lsb) = halves;
        let high = msb as u128;
        let low = lsb as u128;
        assert((high << 64) | low == high * 0x1_0000_0000_0000_0000 + low) by (bit_vector)
            requires
                high < 0x1_0000_0000_0000_0000,
                low < 0x1_0000_0000_0000_0000,
        ;
        ULID((high << 64) | low)
    }
}

impl vstd::std_specs::convert::FromSpecImpl<(u64, u64)> for ULID {
    open spec fn obeys_from_spec() -> bool {
        true
    }

    open spec fn from_spec(halves: (u64, u64)) -> ULID {
        ULID((halves.0 as int * half_span() + halves.1 as int) as u128)
    }
}

impl From<ULID> for (u64, u64) {
    fn from(ulid: ULID) -> (r: (u64, u64)) {
        let v = ulid.0;
        assert((v >> 64) == v / 0x1_0000_0000_0000_0000 && (v & 0xFFFF_FFFF_FFFF_FFFF) == v
            % 0x1_0000_0000_0000_0000) by (bit_vector);
        ((v >> 64) as u64, (v & 0xFFFF_FFFF_FFFF_FFFF) as u64)
    }
}

impl vstd::std_specs::convert::FromSpecImpl<ULID> for (u64, u64) {
    open spec fn obeys_from_spec() -> bool {
        true
    }

    open spec fn from_spec(ulid: ULID) -> (u64, u64) {
        ((ulid.0 as int / half_span()) as u64, (ulid.0 as int % half_span()) as u64)
    }
}

/// Two halves put together and taken apart again are the same halves, and an
/// identifier taken apart and put together again is the same identifier.
pub proof fn lemma_halves_round_trip(halves: (u64, u64), ulid: ULID)
    ensures
        <(u64, u64)>::from_spec(ULID::from_spec(halves)) == halves,
        ULID::from_spec(<(u64, u64)>::from_spec(ulid)) == ulid,
{
}

impl From<ULID> for String {
    /// The canonical text of the identifier.
    fn from(ulid: ULID) -> (r: String)
        ensures
            r@ == encode_text(ulid.0),
    {
        ulid.to_string()
    }
}

impl vstd::std_specs::convert::FromSpecImpl<ULID> for String {
    /// Two texts of the same characters need not be the same value, so the
    /// conversion is stated by the `ensures` of `from` alone.
    open spec fn obeys_from_spec() -> bool {
        false
    }

    open spec fn from_spec(ulid: ULID) -> String {
        arbitrary()
    }
}

impl From<[u8; 16]> for ULID {
    /// The identifier whose value the bytes denote, most significant first.
    fn from(bytes: [u8; 16]) -> (r: ULID) {
        ULID::from_bytes(bytes)
    }
}

impl vstd::std_specs::convert::FromSpecImpl<[u8; 16]> for ULID {
    open spec fn obeys_from_spec() -> bool {
        true
    }

    open spec fn from_spec(bytes: [u8; 16]) -> ULID {
        ULID(be_value(bytes@) as u128)
    }
}

impl From<ULID> for [u8; 16] {
    /// The bytes of the identifier's value, most significant first.
    fn from(ulid: ULID) -> (r: [u8; 16])
        ensures
            r@ == be_bytes(ulid.0),
    {
        ulid.to_bytes()
    }
}

impl vstd::std_specs::convert::FromSpecImpl<ULID> for [u8; 16] {
    /// The conversion is stated by the `ensures` of `from`, over the view
    /// of the array.
    open spec fn obeys_from_spec() -> bool {
        false
    }

    open spec fn from_spec(ulid: ULID) -> [u8; 16] {
        arbitrary()
    }
}

impl FromStr for ULID {
    type Err = DecodeError;

    /// Reads an identifier from its canonical text, as `from_string` does.
    fn from_str(s: &str) -> (r: Result<Self, DecodeError>)
        ensures
            r == ULID::spec_from_string(s.spec_bytes()),
    {
        ULID::from_string(s)
    }
}

impl TryFrom<&str> for ULID {
    type Error = DecodeError;

    /// Reads an identifier from its canonical text, as `from_string` does.
    fn try_from(value: &str) -> (r: Result<Self, DecodeError>) {
        ULID::from_string(value)
    }
}

impl vstd::std_specs::convert::TryFromSpecImpl<&str> for ULID {
    open spec fn obeys_try_from_spec() -> bool {
        true
    }

    open spec fn try_from_spec(value: &str) -> Result<Self, DecodeError> {
        ULID::spec_from_string(value.spec_bytes())
    }
}

} // verus!
