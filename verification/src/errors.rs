//! The error taxonomy: a single umbrella kind wrapping any underlying
//! filesystem failure.  The first failure aborts the operation in progress
//! and surfaces to the caller unchanged.

use vstd::prelude::*;

verus! {

/// Any filesystem failure, carried as a rendered message naming the
/// failing path and the underlying cause.
#[derive(Clone, Debug, PartialEq)]
pub enum BookwormError {
    IOError(String),
}

impl BookwormError {
    /// The display text of the error.
    pub fn message(&self) -> (r: String)
        ensures
            match *self {
                BookwormError::IOError(c) => r@ == "IO error: "@ + c@,
            },
    {
        match self {
            BookwormError::IOError(cause) => {
                let mut m = String::from_str("IO error: ");
                m.append(cause.as_str());
                m
            },
        }
    }
}

} // verus!
