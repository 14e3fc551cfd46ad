//! The library's errors.

use vstd::prelude::*;

verus! {

/// What can go wrong in the library itself.
pub enum Error {
    /// A required environment variable is unset or blank.
    MissingEnv(&'static str),
    /// Anything else, described.
    Other(String),
}

} // verus!
