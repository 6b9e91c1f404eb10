//! The queries: what a participant has contributed, what has been contributed
//! in all, and when the escrow closes. None of them changes anything.

use vstd::prelude::*;
use crate::entries::amount_of;
use crate::entries::total;
use crate::error::ContractError;
use crate::state::Config;
use crate::state::Ledger;
use crate::types::Env;
use crate::types::Timestamp;

verus! {

/// An amount that has been contributed.
#[derive(Clone, Copy, Debug, PartialEq, Eq, Structural)]
pub struct ContributionResponse {
    pub amount: u128,
}

/// The escrow's deadline.
#[derive(Clone, Copy, Debug, PartialEq, Eq, Structural)]
pub struct DeadlineResponse {
    pub timestamp: Timestamp,
}

/// What the participant `addr` has contributed: zero where nothing is recorded
/// for them. `addr` is the address as the host validated it, `None` where the
/// host refused it, and then the query fails.
pub fn usercontribution(ledger: &Ledger, env: &Env, addr: Option<&str>) -> (r: Result<
    ContributionResponse,
    ContractError,
>)
    requires
        ledger.wf(),
    ensures
        r == match addr {
            Some(who) => Ok::<ContributionResponse, ContractError>(
                ContributionResponse { amount: amount_of(ledger@, who@) as u128 },
            ),
            None => Err::<ContributionResponse, ContractError>(ContractError::IdentityInvalid),
        },
{
    match addr {
        Some(who) => Ok(ContributionResponse { amount: ledger.amount_for(who) }),
        None => Err(ContractError::IdentityInvalid),
    }
}

/// The sum of all recorded contributions.
pub fn totalcontribution(ledger: &Ledger, env: &Env) -> (r: Result<
    ContributionResponse,
    ContractError,
>)
    requires
        ledger.wf(),
    ensures
        r == Ok::<ContributionResponse, ContractError>(
            ContributionResponse { amount: total(ledger@) as u128 },
        ),
{
    Ok(ContributionResponse { amount: ledger.total() })
}

/// The time after which contributions and refunds are refused.
pub fn deadline(config: &Config, env: &Env) -> (r: Result<DeadlineResponse, ContractError>)
    ensures
        r == Ok::<DeadlineResponse, ContractError>(
            DeadlineResponse { timestamp: config.deadline },
        ),
{
    Ok(DeadlineResponse { timestamp: config.deadline })
}

} // verus!
