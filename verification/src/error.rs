//! The ways in which a call can fail. A call that fails changes nothing.

use vstd::prelude::*;

verus! {

/// Why a call was refused.
#[derive(Clone, Copy, Debug, PartialEq, Eq, Structural)]
pub enum ContractError {
    /// A contribution or a refund was asked for after the deadline.
    DeadlinePassed,
    /// A contribution did not come with exactly one coin of the threshold's denomination.
    InvalidDeposit,
    /// A refund was asked for by a participant with nothing recorded.
    NothingToRefund,
    /// The host did not accept the participant's address.
    IdentityInvalid,
}

} // verus!
