use crate::error::Error;
use crate::values::datetime::utc_timestamp::UTCTimestamp;
use vstd::prelude::*;

verus! {

/// A clock.
pub trait UTCTimestampGateway: Sync + Send {
    /// The present moment.
    fn now(&self) -> Result<UTCTimestamp, Error>;
}

} // verus!
