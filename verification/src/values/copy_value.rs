use crate::error::Error;
use vstd::prelude::*;

verus! {

/// A value that can be copied, where copying may fail.
pub trait CopyValue {
    /// A copy of this value.
    fn copy(&self) -> Result<Self, Error> where Self: Sized;
}

} // verus!
