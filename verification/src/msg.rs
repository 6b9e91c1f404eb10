//! The messages that the escrow understands, and the answers to its queries.

use vstd::prelude::*;
use crate::types::Coin;
use crate::types::CoinView;
use crate::types::Timestamp;

verus! {

/// What an escrow is created from.
#[derive(Clone, Debug, PartialEq, Eq)]
pub struct InstantiateMsg {
    /// The denomination of all deposits, and the total that has to be reached.
    pub coin_threshold: Coin,
    /// The time after which contributions and refunds are refused.
    pub deadline: Timestamp,
    /// Who gets the funds once the threshold is reached: the creator if `None`.
    pub receiver: Option<String>,
}

/// What an `InstantiateMsg` stands for.
pub struct InstantiateMsgView {
    pub coin_threshold: CoinView,
    pub deadline: nat,
    pub receiver: Option<Seq<char>>,
}

impl View for InstantiateMsg {
    type V = InstantiateMsgView;

    open spec fn view(&self) -> InstantiateMsgView {
        InstantiateMsgView {
            coin_threshold: self.coin_threshold@,
            deadline: self.deadline.nanos as nat,
            receiver: match self.receiver {
                Some(r) => Some(r@),
                None => None,
            },
        }
    }
}

/// The calls that change the escrow.
#[derive(Clone, Debug, PartialEq, Eq)]
pub enum ExecuteMsg {
    /// The caller contributes the coin that comes with the call.
    ContributionMsg { coin: Coin },
    /// Settles the escrow: pays the receiver if the threshold is reached, and
    /// pays everybody back if it is not.
    ResolveMsg {  },
    /// The caller takes their contribution back.
    RefundMsg {  },
}

/// The calls that only read the escrow.
#[derive(Clone, Debug, PartialEq, Eq)]
pub enum QueryMsg {
    /// What has the participant at `addr` contributed?
    GetUserContribution { addr: String },
    /// What has been contributed in all?
    GetTotalContribution {  },
    /// When does the escrow close?
    GetDeadline {  },
}

/// A participant's contribution, as a coin.
#[derive(Clone, Debug, PartialEq, Eq)]
pub struct ContributionResponse {
    pub coin: Coin,
}

/// The sum of all contributions, as a coin.
#[derive(Clone, Debug, PartialEq, Eq)]
pub struct ContributionTotalResponse {
    pub cointotal: Coin,
}

/// The escrow's deadline.
#[derive(Clone, Copy, Debug, PartialEq, Eq, Structural)]
pub struct DeadlineResponse {
    pub timestamp: Timestamp,
}

/// The escrow's receiver.
#[derive(Clone, Debug, PartialEq, Eq)]
pub struct ReceiverResponse {
    pub receiver: String,
}

} // verus!
