//! What holds of the escrow whatever is asked of it, in whatever order: funds
//! are neither lost nor made, nobody is paid twice, a second settlement pays
//! nothing, and both the threshold and the deadline are inclusive.

use vstd::prelude::*;
use crate::entries::Entry;
use crate::entries::amount_of;
use crate::entries::lemma_credited;
use crate::entries::lemma_without;
use crate::entries::total;
use crate::entries::well_formed;
use crate::error::ContractError;
use crate::msg::ExecuteMsg;
use crate::response::TransferView;
use crate::response::transferred;
use crate::rules::Outcome;
use crate::rules::acceptable;
use crate::rules::contribution_outcome;
use crate::rules::deadline_passed;
use crate::rules::execute_outcome;
use crate::rules::lemma_refunds_total;
use crate::rules::refund_outcome;
use crate::rules::refunds;
use crate::rules::resolve_outcome;
use crate::state::ConfigView;
use crate::types::MessageInfoView;

verus! {

/// One call that asks for a change of the escrow: when it is made, what the
/// host tells about the caller, the caller's address as the host validated it,
/// and what is asked.
pub struct Call {
    pub now: nat,
    pub info: MessageInfoView,
    pub user: Option<Seq<char>>,
    pub msg: ExecuteMsg,
}

/// What `call` answers when the ledger holds `es`.
pub open spec fn answer(config: ConfigView, es: Seq<Entry>, call: Call) -> Result<
    Outcome,
    ContractError,
> {
    execute_outcome(config, es, call.now, call.info, call.user, call.msg)
}

/// The entries after `call`: a call that fails leaves them as they are.
pub open spec fn entries_after(config: ConfigView, es: Seq<Entry>, call: Call) -> Seq<Entry> {
    match answer(config, es, call) {
        Ok(outcome) => outcome.entries,
        Err(_) => es,
    }
}

/// What `call` pays in: the deposit of a contribution that succeeds.
pub open spec fn paid_in(config: ConfigView, es: Seq<Entry>, call: Call) -> nat {
    if call.msg is ContributionMsg && answer(config, es, call) is Ok {
        call.info.funds[0].amount
    } else {
        0
    }
}

/// What `call` pays out: the sum of the transfers that it asks for.
pub open spec fn paid_out(config: ConfigView, es: Seq<Entry>, call: Call) -> nat {
    match answer(config, es, call) {
        Ok(outcome) => transferred(outcome.response.messages),
        Err(_) => 0,
    }
}

/// The entries after `calls`, made one after another.
pub open spec fn entries_after_all(config: ConfigView, es: Seq<Entry>, calls: Seq<Call>) -> Seq<
    Entry,
>
    decreases calls.len(),
{
    if calls.len() == 0 {
        es
    } else {
        entries_after(config, entries_after_all(config, es, calls.drop_last()), calls.last())
    }
}

/// What `calls`, made one after another, pay in.
pub open spec fn paid_in_all(config: ConfigView, es: Seq<Entry>, calls: Seq<Call>) -> nat
    decreases calls.len(),
{
    if calls.len() == 0 {
        0
    } else {
        paid_in_all(config, es, calls.drop_last()) + paid_in(
            config,
            entries_after_all(config, es, calls.drop_last()),
            calls.last(),
        )
    }
}

/// What `calls`, made one after another, pay out.
pub open spec fn paid_out_all(config: ConfigView, es: Seq<Entry>, calls: Seq<Call>) -> nat
    decreases calls.len(),
{
    if calls.len() == 0 {
        0
    } else {
        paid_out_all(config, es, calls.drop_last()) + paid_out(
            config,
            entries_after_all(config, es, calls.drop_last()),
            calls.last(),
        )
    }
}

/// A list of one transfer transfers that transfer's amount.
proof fn lemma_transferred_one(t: TransferView)
    ensures
        transferred(seq![t]) == t.amount,
{
    assert(seq![t].drop_last() =~= Seq::<TransferView>::empty());
    assert(transferred(Seq::<TransferView>::empty()) == 0);
    assert(seq![t].last() == t);
}

/// A settlement pays out the ledger's total, whichever way it goes, and
/// leaves nothing in the ledger.
pub proof fn law_resolve_pays_total(config: ConfigView, es: Seq<Entry>)
    ensures
        transferred(resolve_outcome(config, es).response.messages) == total(es),
        total(resolve_outcome(config, es).entries) == 0,
{
    lemma_refunds_total(es, config.threshold_coin.denom);
    lemma_transferred_one(
        TransferView {
            to_address: config.receiver,
            denom: config.threshold_coin.denom,
            amount: total(es),
        },
    );
}

/// No call loses or makes funds: what the ledger holds after a call, plus what
/// the call pays out, is what the ledger held before, plus what the call pays
/// in. The ledger stays well formed.
pub proof fn law_call_conserves(config: ConfigView, es: Seq<Entry>, call: Call)
    requires
        well_formed(es),
    ensures
        well_formed(entries_after(config, es, call)),
        total(entries_after(config, es, call)) + paid_out(config, es, call) == total(es)
            + paid_in(config, es, call),
{
    match call.msg {
        ExecuteMsg::ContributionMsg { coin } => {
            if answer(config, es, call) is Ok {
                lemma_credited(es, call.user->0, call.info.funds[0].amount);
            }
        },
        ExecuteMsg::RefundMsg {  } => {
            if answer(config, es, call) is Ok {
                lemma_without(es, call.user->0);
                lemma_transferred_one(
                    TransferView {
                        to_address: call.user->0,
                        denom: config.threshold_coin.denom,
                        amount: amount_of(es, call.user->0),
                    },
                );
            }
        },
        ExecuteMsg::ResolveMsg {  } => {
            law_resolve_pays_total(config, es);
        },
    }
}

/// Conservation over any history: after any calls, made one after another,
/// what the ledger holds plus what was paid out is what it held at first plus
/// what was paid in.
pub proof fn law_history_conserves(config: ConfigView, es: Seq<Entry>, calls: Seq<Call>)
    requires
        well_formed(es),
    ensures
        well_formed(entries_after_all(config, es, calls)),
        total(entries_after_all(config, es, calls)) + paid_out_all(config, es, calls) == total(es)
            + paid_in_all(config, es, calls),
    decreases calls.len(),
{
    if calls.len() > 0 {
        law_history_conserves(config, es, calls.drop_last());
        law_call_conserves(
            config,
            entries_after_all(config, es, calls.drop_last()),
            calls.last(),
        );
    }
}

/// Conservation at the settlement: after any calls on an escrow that started
/// empty, a settlement pays out exactly what was contributed and has not been
/// paid back since.
pub proof fn law_settlement_pays_what_is_left(config: ConfigView, calls: Seq<Call>)
    ensures
        transferred(
            resolve_outcome(
                config,
                entries_after_all(config, Seq::empty(), calls),
            ).response.messages,
        ) + paid_out_all(config, Seq::empty(), calls) == paid_in_all(config, Seq::empty(), calls),
{
    law_history_conserves(config, Seq::empty(), calls);
    law_resolve_pays_total(config, entries_after_all(config, Seq::empty(), calls));
}

/// Contributions pay nothing out.
proof fn lemma_contributions_pay_nothing(config: ConfigView, es: Seq<Entry>, calls: Seq<Call>)
    requires
        forall|i: int| 0 <= i < calls.len() ==> (#[trigger] calls[i]).msg is ContributionMsg,
    ensures
        paid_out_all(config, es, calls) == 0,
    decreases calls.len(),
{
    if calls.len() > 0 {
        let before = calls.drop_last();
        assert forall|i: int| 0 <= i < before.len() implies (#[trigger] before[i]).msg
            is ContributionMsg by {
            assert(before[i] == calls[i]);
        }
        lemma_contributions_pay_nothing(config, es, before);
        assert(calls.last() == calls[calls.len() - 1]);
        assert(transferred(Seq::<TransferView>::empty()) == 0);
    }
}

/// Conservation for contributions alone: after any contributions to an escrow
/// that started empty, a settlement pays out exactly the sum of the deposits
/// of those that succeeded.
pub proof fn law_settlement_pays_the_contributions(config: ConfigView, calls: Seq<Call>)
    requires
        forall|i: int| 0 <= i < calls.len() ==> (#[trigger] calls[i]).msg is ContributionMsg,
    ensures
        transferred(
            resolve_outcome(
                config,
                entries_after_all(config, Seq::empty(), calls),
            ).response.messages,
        ) == paid_in_all(config, Seq::empty(), calls),
{
    law_settlement_pays_what_is_left(config, calls);
    lemma_contributions_pay_nothing(config, Seq::empty(), calls);
}

/// No double payout: a refund that succeeds asks for exactly one transfer, of
/// what was recorded, to the participant; a second refund to the same
/// participant, made before the deadline has passed, finds nothing to refund.
pub proof fn law_refund_pays_once(
    config: ConfigView,
    es: Seq<Entry>,
    now: nat,
    info: MessageInfoView,
    again: nat,
    info_again: MessageInfoView,
    user: Option<Seq<char>>,
)
    requires
        well_formed(es),
        refund_outcome(config, es, now, info, user) is Ok,
        !deadline_passed(config, again),
    ensures
        refund_outcome(config, es, now, info, user)->Ok_0.response.messages == seq![
            TransferView {
                to_address: user->0,
                denom: config.threshold_coin.denom,
                amount: amount_of(es, user->0),
            },
        ],
        refund_outcome(
            config,
            refund_outcome(config, es, now, info, user)->Ok_0.entries,
            again,
            info_again,
            user,
        ) == Err::<Outcome, ContractError>(ContractError::NothingToRefund),
{
    lemma_without(es, user->0);
}

/// No double payout, whenever the second refund is asked for: after a refund
/// that succeeded, a second one to the same participant fails, so that it asks
/// for no transfer.
pub proof fn law_second_refund_fails(
    config: ConfigView,
    es: Seq<Entry>,
    now: nat,
    info: MessageInfoView,
    again: nat,
    info_again: MessageInfoView,
    user: Option<Seq<char>>,
)
    requires
        well_formed(es),
        refund_outcome(config, es, now, info, user) is Ok,
    ensures
        refund_outcome(
            config,
            refund_outcome(config, es, now, info, user)->Ok_0.entries,
            again,
            info_again,
            user,
        ) is Err,
{
    lemma_without(es, user->0);
}

/// A settlement is safe to repeat: while the threshold is positive, a second
/// settlement right after the first asks for no transfer and leaves the ledger
/// empty.
pub proof fn law_second_resolve_pays_nothing(config: ConfigView, es: Seq<Entry>)
    requires
        config.threshold_coin.amount > 0,
    ensures
        resolve_outcome(config, resolve_outcome(config, es).entries).response.messages
            == Seq::<TransferView>::empty(),
        resolve_outcome(config, resolve_outcome(config, es).entries).entries == Seq::<
            Entry,
        >::empty(),
{
    let left = resolve_outcome(config, es).entries;
    assert(left =~= Seq::<Entry>::empty());
    assert(refunds(left, config.threshold_coin.denom) =~= Seq::<TransferView>::empty());
}

/// The threshold is inclusive: a total that equals the threshold's amount, or
/// exceeds it, goes to the receiver in one transfer.
pub proof fn law_threshold_reached_pays_receiver(config: ConfigView, es: Seq<Entry>)
    requires
        total(es) >= config.threshold_coin.amount,
    ensures
        resolve_outcome(config, es).response.messages == seq![
            TransferView {
                to_address: config.receiver,
                denom: config.threshold_coin.denom,
                amount: total(es),
            },
        ],
{
}

/// Below the threshold the settlement pays every participant back: one
/// transfer per entry, in the order of the entries.
pub proof fn law_threshold_missed_pays_back(config: ConfigView, es: Seq<Entry>)
    requires
        total(es) < config.threshold_coin.amount,
    ensures
        resolve_outcome(config, es).response.messages == refunds(
            es,
            config.threshold_coin.denom,
        ),
{
}

/// The deadline is inclusive for contributions: at the deadline itself a
/// contribution is not refused for the time, and succeeds where the address is
/// valid and exactly one coin of the right denomination comes with it; one
/// nanosecond later it is refused for the time, whatever comes with it.
pub proof fn law_deadline_inclusive_for_contribution(
    config: ConfigView,
    es: Seq<Entry>,
    info: MessageInfoView,
    user: Option<Seq<char>>,
)
    ensures
        contribution_outcome(config, es, config.deadline, info, user) != Err::<
            Outcome,
            ContractError,
        >(ContractError::DeadlinePassed),
        user is Some && acceptable(config, info.funds) ==> contribution_outcome(
            config,
            es,
            config.deadline,
            info,
            user,
        ) is Ok,
        contribution_outcome(config, es, config.deadline + 1, info, user) == Err::<
            Outcome,
            ContractError,
        >(ContractError::DeadlinePassed),
{
}

/// The deadline is inclusive for refunds: at the deadline itself a refund is
/// not refused for the time, and succeeds where the address is valid and
/// something is recorded for the participant; one nanosecond later it is
/// refused for the time.
pub proof fn law_deadline_inclusive_for_refund(
    config: ConfigView,
    es: Seq<Entry>,
    info: MessageInfoView,
    user: Option<Seq<char>>,
)
    ensures
        refund_outcome(config, es, config.deadline, info, user) != Err::<Outcome, ContractError>(
            ContractError::DeadlinePassed,
        ),
        user is Some && amount_of(es, user->0) > 0 ==> refund_outcome(
            config,
            es,
            config.deadline,
            info,
            user,
        ) is Ok,
        refund_outcome(config, es, config.deadline + 1, info, user) == Err::<
            Outcome,
            ContractError,
        >(ContractError::DeadlinePassed),
{
}

} // verus!
