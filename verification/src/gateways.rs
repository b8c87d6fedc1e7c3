//! What the kernel asks of its surroundings: identifiers, the time, a log.
pub mod identity;
pub mod logger;
pub mod utc_timestamp;
