//! The escrow's entry points: creation, the dispatch of the calls that change
//! it, and the dispatch of the queries.

pub mod execute;
pub mod query;

use vstd::prelude::*;
use crate::contract::query::ContributionResponse;
use crate::contract::query::DeadlineResponse;
use crate::entries::amount_of;
use crate::entries::total;
use crate::error::ContractError;
use crate::msg::ExecuteMsg;
use crate::msg::InstantiateMsg;
use crate::msg::QueryMsg;
use crate::response::Response;
use crate::rules::Outcome;
use crate::rules::deposit_fits;
use crate::rules::execute_outcome;
use crate::rules::instantiate_config;
use crate::rules::instantiate_response;
use crate::state::Config;
use crate::state::Ledger;
use crate::text::decimal_string;
use crate::types::Env;
use crate::types::MessageInfo;
use crate::types::validated;

verus! {

/// Creates an escrow: fixes its configuration from `msg`, with the caller as
/// the receiver where `msg` names none. The escrow starts with an empty ledger.
pub fn instantiate(env: &Env, info: &MessageInfo, msg: InstantiateMsg) -> (r: Result<
    (Config, Response),
    ContractError,
>)
    ensures
        r matches Ok(created) && created.0@ == instantiate_config(info.sender@, msg@)
            && created.1@ == instantiate_response(info.sender@, msg@),
{
    let seconds = decimal_string(msg.deadline.seconds() as u128);
    let amount = decimal_string(msg.coin_threshold.amount);
    let response = Response::new().add_attribute("method", "instantiate").add_attribute(
        "owner",
        info.sender.as_str(),
    ).add_attribute("deadline-seconds", seconds.as_str()).add_attribute(
        "threshold-amount",
        amount.as_str(),
    ).add_attribute("threshold-denom", msg.coin_threshold.denom.as_str());
    assert(response@.attributes =~= instantiate_response(info.sender@, msg@).attributes);
    let receiver = match msg.receiver {
        Some(receiver) => receiver,
        None => info.sender.clone(),
    };
    let config = Config { threshold_coin: msg.coin_threshold, deadline: msg.deadline, receiver };
    Ok((config, response))
}

/// Routes a call that changes the escrow to the one operation that `msg`
/// names. `user` is the caller's address as the host validated it, `None`
/// where the host refused it. A call that fails leaves the ledger as it was.
///
/// A contribution has to keep the ledger's total within `u128`:
/// `execute::contribution_fits` tells a caller whether it does.
pub fn execute(
    config: &Config,
    ledger: &mut Ledger,
    env: &Env,
    info: &MessageInfo,
    user: Option<&str>,
    msg: ExecuteMsg,
) -> (r: Result<Response, ContractError>)
    requires
        old(ledger).wf(),
        msg is ContributionMsg ==> deposit_fits(
            config@,
            old(ledger)@,
            env.time.nanos as nat,
            info@,
            validated(user),
        ),
    ensures
        final(ledger).wf(),
        match r {
            Ok(response) => execute_outcome(
                config@,
                old(ledger)@,
                env.time.nanos as nat,
                info@,
                validated(user),
                msg,
            ) == Ok::<Outcome, ContractError>(
                Outcome { entries: final(ledger)@, response: response@ },
            ),
            Err(e) => execute_outcome(
                config@,
                old(ledger)@,
                env.time.nanos as nat,
                info@,
                validated(user),
                msg,
            ) == Err::<Outcome, ContractError>(e) && final(ledger)@ == old(ledger)@,
        },
{
    match msg {
        ExecuteMsg::ContributionMsg { coin } => execute::contribution(
            config,
            ledger,
            env,
            info,
            user,
        ),
        ExecuteMsg::RefundMsg {  } => execute::refund(config, ledger, env, info, user),
        ExecuteMsg::ResolveMsg {  } => execute::resolve(config, ledger, env, info),
    }
}

/// The answer to a query.
#[derive(Clone, Copy, Debug, PartialEq, Eq, Structural)]
pub enum QueryResponse {
    /// An amount: a participant's contribution, or the sum of all of them.
    Contribution(ContributionResponse),
    /// The deadline.
    Deadline(DeadlineResponse),
}

/// Routes a query to the one projection that `msg` names. `addr` is the
/// address in a `GetUserContribution` as the host validated it, `None` where
/// the host refused it; the other queries do not look at it.
pub fn query(
    config: &Config,
    ledger: &Ledger,
    env: &Env,
    addr: Option<&str>,
    msg: QueryMsg,
) -> (r: Result<QueryResponse, ContractError>)
    requires
        ledger.wf(),
    ensures
        r == match msg {
            QueryMsg::GetUserContribution { addr: asked } => match addr {
                Some(who) => Ok::<QueryResponse, ContractError>(
                    QueryResponse::Contribution(
                        ContributionResponse { amount: amount_of(ledger@, who@) as u128 },
                    ),
                ),
                None => Err::<QueryResponse, ContractError>(ContractError::IdentityInvalid),
            },
            QueryMsg::GetTotalContribution {  } => Ok::<QueryResponse, ContractError>(
                QueryResponse::Contribution(
                    ContributionResponse { amount: total(ledger@) as u128 },
                ),
            ),
            QueryMsg::GetDeadline {  } => Ok::<QueryResponse, ContractError>(
                QueryResponse::Deadline(DeadlineResponse { timestamp: config.deadline }),
            ),
        },
{
    match msg {
        QueryMsg::GetUserContribution { addr: asked } => match query::usercontribution(
            ledger,
            env,
            addr,
        ) {
            Ok(response) => Ok(QueryResponse::Contribution(response)),
            Err(e) => Err(e),
        },
        QueryMsg::GetTotalContribution {  } => match query::totalcontribution(ledger, env) {
            Ok(response) => Ok(QueryResponse::Contribution(response)),
            Err(e) => Err(e),
        },
        QueryMsg::GetDeadline {  } => match query::deadline(config, env) {
            Ok(response) => Ok(QueryResponse::Deadline(response)),
            Err(e) => Err(e),
        },
    }
}

} // verus!
