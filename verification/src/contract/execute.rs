//! The calls that change the ledger: contribution, refund and settlement.

use vstd::prelude::*;
use crate::entries::total;
use crate::error::ContractError;
use crate::response::Response;
use crate::response::Transfer;
use crate::rules::Outcome;
use crate::rules::contribution_outcome;
use crate::rules::deposit_fits;
use crate::rules::refund_outcome;
use crate::rules::refunds;
use crate::rules::resolve_outcome;
use crate::state::Config;
use crate::state::Ledger;
use crate::text::decimal_string;
use crate::types::Env;
use crate::types::MessageInfo;
use crate::types::validated;

verus! {

/// Whether a contribution with these inputs keeps the ledger's total within
/// `u128`. A contribution that would be refused does.
pub fn contribution_fits(
    config: &Config,
    ledger: &Ledger,
    env: &Env,
    info: &MessageInfo,
    user: Option<&str>,
) -> (r: bool)
    requires
        ledger.wf(),
    ensures
        r == deposit_fits(config@, ledger@, env.time.nanos as nat, info@, validated(user)),
{
    if env.time.is_after(&config.deadline) || user.is_none() {
        return true;
    }
    if info.funds.len() != 1 || !(info.funds[0].denom == config.threshold_coin.denom) {
        return true;
    }
    ledger.total().checked_add(info.funds[0].amount).is_some()
}

/// Records the coin that came with the call for the participant `user`, the
/// caller's address as the host validated it (`None` where the host refused
/// it). The call is refused after the deadline, without a valid address, and
/// unless exactly one coin of the threshold's denomination came with it, in
/// this order. No transfer is asked for.
///
/// The deposit need not be of any particular size: deposits add up, per
/// participant and in all. A deposit of zero is accepted and records nothing.
/// A contribution is taken after a settlement too, and starts the ledger anew.
///
/// The ledger's total has to stay within `u128`: `contribution_fits` tells a
/// caller whether it does.
pub fn contribution(
    config: &Config,
    ledger: &mut Ledger,
    env: &Env,
    info: &MessageInfo,
    user: Option<&str>,
) -> (r: Result<Response, ContractError>)
    requires
        old(ledger).wf(),
        deposit_fits(config@, old(ledger)@, env.time.nanos as nat, info@, validated(user)),
    ensures
        final(ledger).wf(),
        match r {
            Ok(response) => contribution_outcome(
                config@,
                old(ledger)@,
                env.time.nanos as nat,
                info@,
                validated(user),
            ) == Ok::<Outcome, ContractError>(
                Outcome { entries: final(ledger)@, response: response@ },
            ),
            Err(e) => contribution_outcome(
                config@,
                old(ledger)@,
                env.time.nanos as nat,
                info@,
                validated(user),
            ) == Err::<Outcome, ContractError>(e) && final(ledger)@ == old(ledger)@,
        },
{
    if env.time.is_after(&config.deadline) {
        return Err(ContractError::DeadlinePassed);
    }
    let who = match user {
        Some(who) => who,
        None => {
            return Err(ContractError::IdentityInvalid);
        },
    };
    if info.funds.len() != 1 || !(info.funds[0].denom == config.threshold_coin.denom) {
        return Err(ContractError::InvalidDeposit);
    }
    let amount = info.funds[0].amount;
    ledger.credit(who, amount);
    let text = decimal_string(amount);
    let response = Response::new().add_attribute("method", "contribution").add_attribute(
        "contributor",
        info.sender.as_str(),
    ).add_attribute("amount", text.as_str());
    assert(response@.attributes =~= contribution_outcome(
        config@,
        old(ledger)@,
        env.time.nanos as nat,
        info@,
        validated(user),
    )->Ok_0.response.attributes);
    Ok(response)
}

/// Pays the participant `user` back before the deadline: deletes their record
/// and asks for one transfer of what it held, to them. `user` is the caller's
/// address as the host validated it (`None` where the host refused it). The
/// call is refused after the deadline, without a valid address, and where
/// nothing is recorded for the participant, in this order.
pub fn refund(
    config: &Config,
    ledger: &mut Ledger,
    env: &Env,
    info: &MessageInfo,
    user: Option<&str>,
) -> (r: Result<Response, ContractError>)
    requires
        old(ledger).wf(),
    ensures
        final(ledger).wf(),
        match r {
            Ok(response) => refund_outcome(
                config@,
                old(ledger)@,
                env.time.nanos as nat,
                info@,
                validated(user),
            ) == Ok::<Outcome, ContractError>(
                Outcome { entries: final(ledger)@, response: response@ },
            ),
            Err(e) => refund_outcome(
                config@,
                old(ledger)@,
                env.time.nanos as nat,
                info@,
                validated(user),
            ) == Err::<Outcome, ContractError>(e) && final(ledger)@ == old(ledger)@,
        },
{
    if env.time.is_after(&config.deadline) {
        return Err(ContractError::DeadlinePassed);
    }
    let who = match user {
        Some(who) => who,
        None => {
            return Err(ContractError::IdentityInvalid);
        },
    };
    let amount = ledger.withdraw(who);
    if amount == 0 {
        proof {
            crate::entries::lemma_nothing_recorded(old(ledger)@, who@);
        }
        return Err(ContractError::NothingToRefund);
    }
    let text = decimal_string(amount);
    let response = Response::new().add_attribute("method", "refund").add_attribute(
        "contributor",
        info.sender.as_str(),
    ).add_attribute("amount", text.as_str()).add_message(
        Transfer {
            to_address: who.to_owned(),
            denom: config.threshold_coin.denom.clone(),
            amount,
        },
    );
    proof {
        let outcome = refund_outcome(
            config@,
            old(ledger)@,
            env.time.nanos as nat,
            info@,
            validated(user),
        )->Ok_0;
        assert(response@.attributes =~= outcome.response.attributes);
        assert(response@.messages =~= outcome.response.messages);
    }
    Ok(response)
}

/// Settles the escrow, whoever asks and whenever: neither the time nor the
/// caller matters. Below the threshold every participant is paid back, one
/// transfer per record in ascending order of the participants. Otherwise the
/// total goes to the receiver in one transfer. The ledger is empty afterwards,
/// so that a second settlement asks for no transfer while the threshold is
/// positive.
pub fn resolve(config: &Config, ledger: &mut Ledger, env: &Env, info: &MessageInfo) -> (r: Result<
    Response,
    ContractError,
>)
    requires
        old(ledger).wf(),
    ensures
        final(ledger).wf(),
        r matches Ok(response) && resolve_outcome(config@, old(ledger)@) == (Outcome {
            entries: final(ledger)@,
            response: response@,
        }),
{
    let ghost es = ledger@;
    let ghost denom = config.threshold_coin.denom@;
    let sum = ledger.total();
    let response = if sum < config.threshold_coin.amount {
        let mut response = Response::new().add_attribute("method", "resolve").add_attribute(
            "status",
            "refund",
        );
        let records = ledger.records();
        let mut i: usize = 0;
        while i < records.len()
            invariant
                0 <= i <= records.len(),
                records.deep_view() == es,
                denom == config.threshold_coin.denom@,
                response@.attributes == resolve_outcome(config@, es).response.attributes,
                response@.messages == refunds(es, denom).take(i as int),
            decreases records.len() - i,
        {
            let record = &records[i];
            response = response.add_message(
                Transfer {
                    to_address: record.participant.clone(),
                    denom: config.threshold_coin.denom.clone(),
                    amount: record.amount,
                },
            );
            i = i + 1;
            assert(response@.messages =~= refunds(es, denom).take(i as int));
        }
        assert(refunds(es, denom).take(i as int) =~= refunds(es, denom));
        response
    } else {
        let response = Response::new().add_attribute("method", "resolve").add_attribute(
            "status",
            "send",
        ).add_message(
            Transfer {
                to_address: config.receiver.clone(),
                denom: config.threshold_coin.denom.clone(),
                amount: sum,
            },
        );
        assert(response@.attributes =~= resolve_outcome(config@, es).response.attributes);
        assert(response@.messages =~= resolve_outcome(config@, es).response.messages);
        response
    };
    ledger.clear();
    Ok(response)
}

} // verus!
