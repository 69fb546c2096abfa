//! Views of optional and fallible values.

use vstd::prelude::*;

verus! {

/// The view of what an optional value holds.
pub open spec fn option_view<T: View>(value: Option<T>) -> Option<T::V> {
    match value {
        Some(v) => Some(v@),
        None => None,
    }
}

/// The view of what a fallible value holds; an error stands for itself.
pub open spec fn result_view<T: View, E>(value: Result<T, E>) -> Result<T::V, E> {
    match value {
        Ok(v) => Ok(v@),
        Err(e) => Err(e),
    }
}

/// The view of what a fallible, optional value holds.
pub open spec fn outcome_view<T: View, E>(value: Result<Option<T>, E>) -> Result<Option<T::V>, E> {
    match value {
        Ok(v) => Ok(option_view(v)),
        Err(e) => Err(e),
    }
}

} // verus!
