use vstd::prelude::*;

verus! {

/// Why a transition was rejected. Every error is terminal for the request that
/// raised it: no partial effect survives a failing call.
#[derive(Clone, Copy, Debug, PartialEq, Eq, Structural)]
pub enum Error {
    /// A referenced asset does not exist.
    InvalidId,
    /// The caller does not currently own the referenced asset.
    NotOwner,
    /// Breeding was requested with identical parent ids.
    SameId,
    /// The allocator is at the maximum representable identifier.
    KittiesOverflow,
    /// The owner's bounded inventory is already full.
    ExceedMaxOwnerKitties,
    /// The balance ledger refused the stake reservation.
    StakeNotEnough,
}

} // verus!
