//! Small conversions shared across the bridge.

use vstd::prelude::*;

use crate::error::BridgeError;

verus! {

/// Turns an optional value into a result, reporting a missing value as an
/// argument error.
pub trait IntoResult<T>: Sized {
    fn into_result(self) -> (r: Result<T, BridgeError>);
}

impl<T> IntoResult<T> for Option<T> {
    fn into_result(self) -> (r: Result<T, BridgeError>)
        ensures
            self matches Some(v) ==> r == Ok::<T, BridgeError>(v),
            self is None ==> r == Err::<T, BridgeError>(BridgeError::ArgumentError),
    {
        match self {
            Some(v) => Ok(v),
            None => Err(BridgeError::ArgumentError),
        }
    }
}

} // verus!
