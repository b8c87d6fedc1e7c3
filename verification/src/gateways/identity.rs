use crate::error::Error;
use crate::ulid::ULID;
use vstd::prelude::*;

verus! {

/// A source of new, unique identifiers for entities that are kept. It owns
/// the clock and the randomness, and whatever keeps two identifiers of one
/// millisecond apart.
pub trait IdentityGateway: Sync + Send {
    /// A new identifier, unlike any handed out before.
    fn generate(&self) -> Result<ULID, Error>;
}

} // verus!
