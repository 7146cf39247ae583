//! Vocabulary of the read path, which this library does not implement yet.

use vstd::prelude::*;

verus! {

/// A comparison of a column with a value.
#[derive(Debug, PartialEq, Eq)]
pub enum Where<T> {
    Equal(T),
    NotEqual(T),
    LessThan(T),
    GreaterThan(T),
}

} // verus!
