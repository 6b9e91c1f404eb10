//! The escrow's rules, as mathematical functions: what each call answers and
//! what it leaves in the ledger, for every state and every input.

use vstd::prelude::*;
use crate::entries::Entry;
use crate::entries::amount_of;
use crate::entries::credited;
use crate::entries::total;
use crate::entries::without;
use crate::error::ContractError;
use crate::msg::ExecuteMsg;
use crate::msg::InstantiateMsgView;
use crate::response::AttributeView;
use crate::response::ResponseView;
use crate::response::TransferView;
use crate::response::transferred;
use crate::state::ConfigView;
use crate::text::decimal_text;
use crate::types::CoinView;
use crate::types::MessageInfoView;
use crate::types::NANOS_PER_SECOND;

verus! {

/// What a successful call leaves behind: the ledger's entries after it, and
/// the response it hands back.
pub struct Outcome {
    pub entries: Seq<Entry>,
    pub response: ResponseView,
}

/// The attribute with this key and this value.
pub open spec fn attribute(key: Seq<char>, value: Seq<char>) -> AttributeView {
    AttributeView { key, value }
}

/// The deadline has passed at `now`: the deadline itself is still in time.
pub open spec fn deadline_passed(config: ConfigView, now: nat) -> bool {
    now > config.deadline
}

/// The coins that came with a contribution are acceptable: exactly one coin,
/// of the threshold's denomination.
pub open spec fn acceptable(config: ConfigView, funds: Seq<CoinView>) -> bool {
    funds.len() == 1 && funds[0].denom == config.threshold_coin.denom
}

/// One transfer per entry, in the order of the entries, that pays the entry's
/// amount back to its participant.
pub open spec fn refunds(es: Seq<Entry>, denom: Seq<char>) -> Seq<TransferView> {
    Seq::new(
        es.len(),
        |i: int| TransferView { to_address: es[i].who, denom, amount: es[i].amount },
    )
}

/// The configuration that an escrow is created with by `creator`.
pub open spec fn instantiate_config(creator: Seq<char>, msg: InstantiateMsgView) -> ConfigView {
    ConfigView {
        threshold_coin: msg.coin_threshold,
        deadline: msg.deadline,
        receiver: match msg.receiver {
            Some(r) => r,
            None => creator,
        },
    }
}

/// The response to the creation of an escrow.
pub open spec fn instantiate_response(creator: Seq<char>, msg: InstantiateMsgView) -> ResponseView {
    ResponseView {
        attributes: seq![
            attribute("method"@, "instantiate"@),
            attribute("owner"@, creator),
            attribute("deadline-seconds"@, decimal_text(msg.deadline / (NANOS_PER_SECOND as nat))),
            attribute("threshold-amount"@, decimal_text(msg.coin_threshold.amount)),
            attribute("threshold-denom"@, msg.coin_threshold.denom),
        ],
        messages: Seq::empty(),
    }
}

/// A contribution at time `now`, with `info` from the host, by the participant
/// `user`: the address that the host validated, `None` where it refused to.
pub open spec fn contribution_outcome(
    config: ConfigView,
    es: Seq<Entry>,
    now: nat,
    info: MessageInfoView,
    user: Option<Seq<char>>,
) -> Result<Outcome, ContractError> {
    if deadline_passed(config, now) {
        Err(ContractError::DeadlinePassed)
    } else if user is None {
        Err(ContractError::IdentityInvalid)
    } else if !acceptable(config, info.funds) {
        Err(ContractError::InvalidDeposit)
    } else {
        Ok(
            Outcome {
                entries: credited(es, user->0, info.funds[0].amount),
                response: ResponseView {
                    attributes: seq![
                        attribute("method"@, "contribution"@),
                        attribute("contributor"@, info.sender),
                        attribute("amount"@, decimal_text(info.funds[0].amount)),
                    ],
                    messages: Seq::empty(),
                },
            },
        )
    }
}

/// A contribution with these inputs keeps the ledger's total within `u128`:
/// true of every contribution that is refused, since it records nothing.
pub open spec fn deposit_fits(
    config: ConfigView,
    es: Seq<Entry>,
    now: nat,
    info: MessageInfoView,
    user: Option<Seq<char>>,
) -> bool {
    contribution_outcome(config, es, now, info, user) is Ok ==> total(es) + info.funds[0].amount
        <= u128::MAX
}

/// A refund at time `now`, with `info` from the host, to the participant
/// `user`: the address that the host validated, `None` where it refused to.
pub open spec fn refund_outcome(
    config: ConfigView,
    es: Seq<Entry>,
    now: nat,
    info: MessageInfoView,
    user: Option<Seq<char>>,
) -> Result<Outcome, ContractError> {
    if deadline_passed(config, now) {
        Err(ContractError::DeadlinePassed)
    } else if user is None {
        Err(ContractError::IdentityInvalid)
    } else if amount_of(es, user->0) == 0 {
        Err(ContractError::NothingToRefund)
    } else {
        Ok(
            Outcome {
                entries: without(es, user->0),
                response: ResponseView {
                    attributes: seq![
                        attribute("method"@, "refund"@),
                        attribute("contributor"@, info.sender),
                        attribute("amount"@, decimal_text(amount_of(es, user->0))),
                    ],
                    messages: seq![
                        TransferView {
                            to_address: user->0,
                            denom: config.threshold_coin.denom,
                            amount: amount_of(es, user->0),
                        },
                    ],
                },
            },
        )
    }
}

/// The threshold is reached: the total is at least the threshold's amount.
pub open spec fn threshold_reached(config: ConfigView, es: Seq<Entry>) -> bool {
    total(es) >= config.threshold_coin.amount
}

/// The settlement, whenever and by whomever it is asked for. Below the
/// threshold everybody is paid back, in the order of the entries. Otherwise
/// the total goes to the receiver in one transfer. Either way the ledger is
/// empty afterwards.
pub open spec fn resolve_outcome(config: ConfigView, es: Seq<Entry>) -> Outcome {
    if threshold_reached(config, es) {
        Outcome {
            entries: Seq::empty(),
            response: ResponseView {
                attributes: seq![attribute("method"@, "resolve"@), attribute("status"@, "send"@)],
                messages: seq![
                    TransferView {
                        to_address: config.receiver,
                        denom: config.threshold_coin.denom,
                        amount: total(es),
                    },
                ],
            },
        }
    } else {
        Outcome {
            entries: Seq::empty(),
            response: ResponseView {
                attributes: seq![attribute("method"@, "resolve"@), attribute("status"@, "refund"@)],
                messages: refunds(es, config.threshold_coin.denom),
            },
        }
    }
}

/// What a call that changes the escrow answers and leaves in the ledger.
pub open spec fn execute_outcome(
    config: ConfigView,
    es: Seq<Entry>,
    now: nat,
    info: MessageInfoView,
    user: Option<Seq<char>>,
    msg: ExecuteMsg,
) -> Result<Outcome, ContractError> {
    match msg {
        ExecuteMsg::ContributionMsg { coin } => contribution_outcome(config, es, now, info, user),
        ExecuteMsg::RefundMsg {  } => refund_outcome(config, es, now, info, user),
        ExecuteMsg::ResolveMsg {  } => Ok(resolve_outcome(config, es)),
    }
}

/// Paying everybody back pays out the total.
pub proof fn lemma_refunds_total(es: Seq<Entry>, denom: Seq<char>)
    ensures
        transferred(refunds(es, denom)) == total(es),
    decreases es.len(),
{
    if es.len() > 0 {
        assert(refunds(es, denom).drop_last() =~= refunds(es.drop_last(), denom));
        lemma_refunds_total(es.drop_last(), denom);
    }
}

} // verus!
