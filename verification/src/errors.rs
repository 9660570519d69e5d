use vstd::prelude::*;

verus! {

/// The reasons an operation is refused. Every failure is typed, and no
/// operation mutates the issuance record when it returns an error.
#[derive(Clone, Copy, Debug, PartialEq, Eq, Structural)]
pub enum ErrorCode {
    /// An arithmetic step would leave the integer domain.
    MathOverflow,
    /// A buy would push the issued supply past the cap.
    MaxSupplyExceeded,
    /// A sell or a withdrawal would take more currency than the reserve holds.
    InsufficientReserve,
    /// A withdrawal was requested by an identity other than the controller.
    Unauthorized,
    /// An issuance record for the asset already exists.
    AlreadyInitialized,
    /// The conversion came out as a zero-sized trade.
    ZeroQuantity,
}

} // verus!
