//! What can go wrong.

use vstd::prelude::*;

verus! {

/// Why a request was refused.
#[derive(Clone, Copy, Debug, PartialEq, Eq, Structural)]
pub enum VmError {
    /// An argument is out of range.
    InvalidInput,
    /// A configuration, or what was made from it, cannot be used.
    InvalidData,
    /// There is already a VM with that number.
    AlreadyExists,
    /// The host has no such access or interrupt.
    Unsupported,
    /// The host reported an error, given by its number.
    Host { code: i32 },
}

} // verus!
