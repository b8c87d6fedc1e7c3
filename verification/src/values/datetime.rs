//! A date and time, held as milliseconds since the Unix epoch.
pub mod utc_timestamp;

use crate::error::{Audience, Error, Kind};
use std::time::{SystemTime, UNIX_EPOCH};
use vstd::prelude::*;
use vstd::string::StringExecFns;

verus! {

/// The message of the error for a builder that was given neither a value
/// nor the order to read the clock.
pub open spec fn missing_value_message() -> Seq<char> {
    "A value was not provided for the DateTime, please provide a valid DateTime value."@
}

/// The message of the error for a clock that could not be read, where
/// `reason` is what the clock said.
pub open spec fn clock_failure_message(reason: Seq<char>) -> Seq<char> {
    "Failed to generate the DateTime for now. "@ + reason
}

/// A date and time: milliseconds since the Unix epoch.
#[derive(Debug, Clone, Copy, PartialEq, Eq, PartialOrd, Ord)]
pub struct DateTime {
    value: u64,
}

impl View for DateTime {
    type V = u64;

    /// The milliseconds since the Unix epoch.
    closed spec fn view(&self) -> u64 {
        self.value
    }
}

impl DateTime {
    /// A builder that holds no value and will not read the clock.
    pub fn builder() -> (r: DateTimeBuilder)
        ensures
            r.given() is None,
            !r.reads_clock(),
    {
        DateTimeBuilder { value: None, now: false }
    }

    /// The milliseconds since the Unix epoch.
    pub fn value(&self) -> (r: &u64)
        ensures
            *r == self@,
    {
        &self.value
    }
}

/// Builds a [`DateTime`] from a given value or from the clock.
#[derive(Debug, Clone, Default)]
pub struct DateTimeBuilder {
    value: Option<u64>,
    now: bool,
}

impl DateTimeBuilder {
    /// The value that was set, if any was.
    pub closed spec fn given(&self) -> Option<u64> {
        self.value
    }

    /// Whether building reads the clock.
    pub closed spec fn reads_clock(&self) -> bool {
        self.now
    }

    /// Has building read the clock, whatever value is or will be set.
    pub fn now(self) -> (r: Self)
        ensures
            r.reads_clock(),
            r.given() == self.given(),
    {
        DateTimeBuilder { value: self.value, now: true }
    }

    /// Sets the value, in milliseconds since the Unix epoch.
    pub fn set_at(self, millis: u64) -> (r: Self)
        ensures
            r.given() == Some(millis),
            r.reads_clock() == self.reads_clock(),
    {
        DateTimeBuilder { value: Some(millis), now: self.now }
    }

    /// The date and time of the clock where the builder reads it, else of
    /// the value that was set. Without either there is an error, and there
    /// is one where the clock cannot be read.
    pub fn build(self) -> (r: Result<DateTime, Error>)
        ensures
            !self.reads_clock() ==> match self.given() {
                Some(millis) => r is Ok && r.unwrap()@ == millis,
                None => r is Err && r.unwrap_err().is(
                    Audience::System,
                    Kind::InvalidInput,
                    missing_value_message(),
                ),
            },
            self.reads_clock() ==> r is Ok || exists|reason: Seq<char>|
                r.unwrap_err().is(
                    Audience::System,
                    Kind::Unexpected,
                    #[trigger] clock_failure_message(reason),
                ),
    {
        let valid_time = if self.now {
            generate_now()
        } else {
            validate_value(self.value)
        };
        match valid_time {
            Ok(value) => Ok(DateTime { value }),
            Err(error) => Err(error),
        }
    }
}

/// `SystemTime::now` and `SystemTime::duration_since`: the milliseconds from
/// the Unix epoch to the present moment of the system clock, or what the
/// clock says of itself where it stands before the epoch. Nothing is claimed
/// of what comes back.
#[verifier::external_body]
fn millis_since_epoch() -> (r: Result<u128, String>) {
    match SystemTime::now().duration_since(UNIX_EPOCH) {
        Ok(duration) => Ok(duration.as_millis()),
        Err(error) => Err(format!("{}", error)),
    }
}

/// What a reading of the clock makes of the present moment: the low 64
/// bits of the milliseconds, or the error for a clock that said `reason`.
pub fn now_from(reading: Result<u128, String>) -> (r: Result<u64, Error>)
    ensures
        match reading {
            Ok(millis) => r == Ok::<u64, Error>((millis as int % 0x1_0000_0000_0000_0000) as u64),
            Err(reason) => r is Err && r.unwrap_err().is(
                Audience::System,
                Kind::Unexpected,
                clock_failure_message(reason@),
            ),
        },
{
    match reading {
        Ok(millis) => {
            assert(millis as u64 == millis % 0x1_0000_0000_0000_0000) by (bit_vector);
            Ok(
                #[verifier::truncate]
                (millis as u64),
            )
        },
        Err(reason) => {
            let message = "Failed to generate the DateTime for now. ".to_owned().concat(
                reason.as_str(),
            );
            Err(Error::for_system(Kind::Unexpected, message.as_str()))
        },
    }
}

/// The present moment in milliseconds since the Unix epoch.
fn generate_now() -> (r: Result<u64, Error>)
    ensures
        r is Ok || exists|reason: Seq<char>|
            r.unwrap_err().is(
                Audience::System,
                Kind::Unexpected,
                #[trigger] clock_failure_message(reason),
            ),
{
    let reading = millis_since_epoch();
    let ghost reason = if reading is Err {
        reading.unwrap_err()@
    } else {
        Seq::<char>::empty()
    };
    let r = now_from(reading);
    assert(r is Err ==> r.unwrap_err().is(
        Audience::System,
        Kind::Unexpected,
        clock_failure_message(reason),
    ));
    r
}

/// The value that was set, or the error for a builder without one.
fn validate_value(value: Option<u64>) -> (r: Result<u64, Error>)
    ensures
        match value {
            Some(millis) => r == Ok::<u64, Error>(millis),
            None => r is Err && r.unwrap_err().is(
                Audience::System,
                Kind::InvalidInput,
                missing_value_message(),
            ),
        },
{
    match value {
        Some(value) => Ok(value),
        None => Err(
            Error::for_system(
                Kind::InvalidInput,
                "A value was not provided for the DateTime, please provide a valid DateTime value.",
            ),
        ),
    }
}

} // verus!
