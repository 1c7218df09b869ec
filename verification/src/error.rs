//! Failures reported by the hypervisor core.

use vstd::prelude::*;

verus! {

/// Every way an operation of this crate can fail.
#[derive(Clone, Copy, Debug, PartialEq, Eq, Structural)]
pub enum HypervisorError {
    /// The code bytes do not decode to a well-formed instruction.
    InvalidBytes,
    /// An instruction depends on the address it executes from.
    RelativeInstruction,
    /// An instruction transfers control in a way that cannot be relocated.
    UnsupportedInstruction,
    /// The code ran out before the required number of bytes was covered.
    NotEnoughBytes,
    /// No instruction was relocated.
    NoInstructions,
    /// The relocated instructions could not be encoded at their new address.
    EncodingFailed,
    /// A hook could not be built or its page could not be locked.
    HookError,
}

} // verus!
