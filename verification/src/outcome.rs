//! What a fallible function returns, as mathematical values.

use vstd::prelude::*;

verus! {

/// The content of a result, on success and on failure.
pub open spec fn shown<T: DeepView, E: DeepView>(result: Result<T, E>) -> Result<T::V, E::V> {
    match result {
        Ok(value) => Ok(value.deep_view()),
        Err(error) => Err(error.deep_view()),
    }
}

} // verus!
