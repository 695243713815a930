//! The error the library's own decisions raise.

use vstd::prelude::*;

verus! {

/// Failure of a daemon operation, as surfaced to the D-Bus caller.
#[derive(Debug)]
pub enum Error {
    /// A module/package/plugin transaction or an authorization check failed;
    /// holds the message the caller receives verbatim.
    CoreUtils(String),
}

} // verus!
