use vstd::prelude::*;

verus! {

/// Everything that can go wrong in the betting engine.
///
/// Every operation reports failure through exactly one of these variants;
/// the contracts on the engine's methods say precisely which inputs produce
/// which variant.
#[derive(Clone, Copy, Debug, PartialEq, Eq, Structural)]
pub enum EngineError {
    /// A privileged operation was attempted by someone other than the operator.
    NotAuthorized,
    /// `init` was called after the operator had already been set.
    AlreadyInitialized,
    /// `start_betting_window` was called while a window was open.
    WindowAlreadyActive,
    /// A wager or closure was attempted with no open window.
    NoActiveWindow,
    /// A wager named a candidate outside the current roster.
    InvalidCandidate,
    /// A per-candidate query used an index past the roster's end.
    InvalidCandidateIndex,
    /// The bettor has not pre-authorized enough balance for the wager.
    InsufficientAllowance,
    /// A signed authorization's deadline lies before the current time.
    SignatureExpired,
    /// A signed authorization carried a nonce other than the stored one.
    InvalidNonce,
    /// Signer recovery failed on malformed signature bytes.
    InvalidSignature,
    /// The recovered signer is not the claimed bettor.
    SignerMismatch,
    /// The winners list's length differs from the roster's.
    LengthMismatch,
    /// A bet was requested by an index past the ledger's end.
    IndexOutOfBounds,
    /// The value-transfer collaborator refused a transfer.
    TransferFailed,
}

} // verus!
