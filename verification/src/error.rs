use vstd::prelude::*;

verus! {

/// The errors a treasury call can fail with. A failed call emits no
/// instructions: the host applies a batch only when the whole call succeeds.
#[derive(Clone, Copy, Debug, PartialEq, Eq, Structural)]
pub enum ContractError {
    /// The caller is not allowed to perform the operation.
    Unauthorized,
    /// A distribution was requested for more than the treasury holds.
    ExceedContractBalance,
    /// The target table is malformed (empty, or zero total weight).
    InvalidConfiguration,
    /// The exchange service could not deliver the required minimum output.
    SlippageExceeded,
    /// The ledger rejected a transfer or a callback delivery.
    TransferFailed,
}

} // verus!
