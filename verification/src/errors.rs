use vstd::prelude::*;

verus! {

/// The failure taxonomy of the poll program. Every fallible entry point
/// reports exactly one of these, and a failing call leaves the account
/// list unchanged.
#[derive(Clone, Copy, Debug, PartialEq, Eq, Structural)]
pub enum VoteError {
    /// Instruction or record bytes do not parse.
    DecodeError,
    /// The supplied poll account is not the address derived for the caller.
    AddressMismatchError,
    /// A required signer did not sign the call.
    MissingAuthorizationError,
    /// The allocation of the poll account was refused: it is already in
    /// use, or the payer cannot fund it.
    AllocationError,
    /// Fewer accounts were supplied than the instruction needs.
    AccountShapeError,
    /// The encoded record does not fit the fixed account capacity.
    BufferTooSmallError,
    /// The voted tally is already at the counter's maximum, so one more
    /// vote cannot be recorded.
    TallyOverflowError,
}

} // verus!
