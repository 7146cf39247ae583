//! Values stored in a column.

use vstd::prelude::*;

verus! {

/// A value supplied for one column of a record.
#[derive(Debug, PartialEq, Eq)]
pub enum Value {
    /// SQL `NULL`.
    Null,
    /// A signed 64-bit integer.
    Integer(i64),
    /// A text string.
    Text(String),
}

} // verus!
