//! A moment in time, held as nanoseconds since the Unix epoch.
use crate::error::{Audience, Error, Kind};
use vstd::prelude::*;

verus! {

/// Nanoseconds in one millisecond.
pub const NANOS_PER_MILLI: u128 = 1_000_000;

/// Nanoseconds in one second.
pub const NANOS_PER_SEC: u128 = 1_000_000_000;

/// The message of the error for a builder that was given no value.
pub open spec fn missing_value_message() -> Seq<char> {
    "A value was not provided for the UTCTimestamp, please provide a valid UTCTimestamp value."@
}

/// A moment in time: nanoseconds since the Unix epoch.
#[derive(Debug, Clone, Copy, PartialEq, Eq, PartialOrd, Ord)]
pub struct UTCTimestamp {
    timestamp: u128,
}

impl View for UTCTimestamp {
    type V = u128;

    /// The nanoseconds since the Unix epoch.
    closed spec fn view(&self) -> u128 {
        self.timestamp
    }
}

impl UTCTimestamp {
    /// A builder that holds no value yet.
    pub fn builder() -> (r: UTCTimestampBuilder)
        ensures
            r@ is None,
    {
        UTCTimestampBuilder { timestamp: None }
    }

    /// The moment in nanoseconds, as it was given.
    pub fn as_nano(&self) -> (r: u128)
        ensures
            r == self@,
    {
        self.timestamp
    }

    /// The moment in whole milliseconds, rounded down, and capped at
    /// `u64::MAX` where it is later than that.
    pub fn as_milli(&self) -> (r: u64)
        ensures
            r == if self@ / NANOS_PER_MILLI > u64::MAX {
                u64::MAX as int
            } else {
                self@ as int / NANOS_PER_MILLI as int
            },
    {
        let millis = self.timestamp / 1_000_000;
        if millis > u64::MAX as u128 {
            u64::MAX
        } else {
            millis as u64
        }
    }

    /// The moment in whole seconds, rounded down; of a number of seconds
    /// beyond `u64::MAX` the low 64 bits.
    pub fn as_sec(&self) -> (r: u64)
        ensures
            r == (self@ as int / NANOS_PER_SEC as int) % 0x1_0000_0000_0000_0000,
    {
        let secs = self.timestamp / 1_000_000_000;
        assert(secs as u64 == secs % 0x1_0000_0000_0000_0000) by (bit_vector);
        #[verifier::truncate]
        (secs as u64)
    }
}

/// Builds a [`UTCTimestamp`] from the value that was set last.
#[derive(Debug, Clone, Default)]
pub struct UTCTimestampBuilder {
    timestamp: Option<u128>,
}

impl View for UTCTimestampBuilder {
    type V = Option<u128>;

    /// The nanoseconds that were set, if any were.
    closed spec fn view(&self) -> Option<u128> {
        self.timestamp
    }
}

impl UTCTimestampBuilder {
    /// Sets the moment from milliseconds since the Unix epoch.
    pub fn use_ms(self, timestamp: u64) -> (r: Self)
        ensures
            r@ is Some,
            r@.unwrap() as int == timestamp as int * NANOS_PER_MILLI as int,
    {
        let nanos = (timestamp as u128) * 1_000_000u128;
        UTCTimestampBuilder { timestamp: Some(nanos) }
    }

    /// Sets the moment from nanoseconds since the Unix epoch.
    pub fn use_ns(self, timestamp: u128) -> (r: Self)
        ensures
            r@ == Some(timestamp),
    {
        UTCTimestampBuilder { timestamp: Some(timestamp) }
    }

    /// The moment that was set, or an error where none was.
    pub fn build(self) -> (r: Result<UTCTimestamp, Error>)
        ensures
            match self@ {
                Some(nanos) => r is Ok && r.unwrap()@ == nanos,
                None => r is Err && r.unwrap_err().is(
                    Audience::System,
                    Kind::InvalidInput,
                    missing_value_message(),
                ),
            },
    {
        validate_value(self.timestamp)
    }
}

/// The moment of `value`, or an error where there is none.
fn validate_value(value: Option<u128>) -> (r: Result<UTCTimestamp, Error>)
    ensures
        match value {
            Some(nanos) => r is Ok && r.unwrap()@ == nanos,
            None => r is Err && r.unwrap_err().is(
                Audience::System,
                Kind::InvalidInput,
                missing_value_message(),
            ),
        },
{
    match value {
        Some(valid_value) => Ok(UTCTimestamp { timestamp: valid_value }),
        None => Err(
            Error::for_system(
                Kind::InvalidInput,
                "A value was not provided for the UTCTimestamp, please provide a valid UTCTimestamp value.",
            ),
        ),
    }
}

} // verus!
