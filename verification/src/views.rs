//! The mathematical content of optional values and of results.

use crate::error::{ConvertError, ErrorModel};
use vstd::prelude::*;

verus! {

/// The content of an optional value.
pub open spec fn option_view<T: View>(option: Option<T>) -> Option<T::V> {
    match option {
        Some(value) => Some(value@),
        None => None,
    }
}

/// The content of a result that may be a [`ConvertError`].
pub open spec fn result_view<T: View>(result: Result<T, ConvertError>) -> Result<T::V, ErrorModel> {
    match result {
        Ok(value) => Ok(value@),
        Err(error) => Err(error@),
    }
}

} // verus!
