use vstd::prelude::*;

verus! {

/// Every way an invocation can fail. A failed invocation is terminal: the
/// host reports the kind to the caller and discards any tentative change.
#[derive(Debug, Clone, Copy, PartialEq, Eq, Structural)]
pub enum DispatchError {
    /// The payload is not the encoding of any instruction.
    MalformedInstruction,
    /// Fewer accounts were supplied than the instruction requires.
    NotEnoughAccounts,
    /// An account that must sign the invocation did not.
    MissingRequiredSignature,
    /// An account that must be writable is read-only.
    AccountNotWritable,
    /// An account that must belong to this program is owned by another one.
    IncorrectProgramOwner,
    /// The same account was supplied twice where distinct accounts are expected.
    DuplicateAccount,
    /// An account's data buffer is too short to hold the stored counter.
    AccountDataTooSmall,
    /// The source counter holds less than the amount to move.
    InsufficientFunds,
    /// The destination counter would exceed its maximum.
    ArithmeticOverflow,
}

} // verus!
