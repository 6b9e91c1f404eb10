//! The plain values that calls carry: coins, points in time, and what the host
//! tells about a call.

use vstd::prelude::*;

verus! {

/// The number of nanoseconds in a second.
pub const NANOS_PER_SECOND: u64 = 1_000_000_000;

/// An amount of one denomination.
#[derive(Clone, Debug, PartialEq, Eq)]
pub struct Coin {
    pub denom: String,
    pub amount: u128,
}

/// What a `Coin` stands for.
pub struct CoinView {
    pub denom: Seq<char>,
    pub amount: nat,
}

impl View for Coin {
    type V = CoinView;

    open spec fn view(&self) -> CoinView {
        CoinView { denom: self.denom@, amount: self.amount as nat }
    }
}

impl DeepView for Coin {
    type V = CoinView;

    open spec fn deep_view(&self) -> CoinView {
        self@
    }
}

impl Coin {
    /// A coin of `amount` units of `denom`.
    pub fn new(amount: u128, denom: &str) -> (c: Coin)
        ensures
            c@ == (CoinView { denom: denom@, amount: amount as nat }),
    {
        Coin { denom: denom.to_owned(), amount }
    }

    /// A copy of this coin.
    pub fn duplicate(&self) -> (c: Coin)
        ensures
            c@ == self@,
    {
        Coin { denom: self.denom.clone(), amount: self.amount }
    }
}

/// A point in time, in nanoseconds since the epoch.
#[derive(Clone, Copy, Debug, PartialEq, Eq, Structural)]
pub struct Timestamp {
    pub nanos: u64,
}

impl Timestamp {
    /// The point in time that many nanoseconds after the epoch.
    pub fn from_nanos(nanos_since_epoch: u64) -> (t: Timestamp)
        ensures
            t.nanos == nanos_since_epoch,
    {
        Timestamp { nanos: nanos_since_epoch }
    }

    /// The point in time that many seconds after the epoch.
    pub fn from_seconds(seconds_since_epoch: u64) -> (t: Timestamp)
        requires
            seconds_since_epoch * NANOS_PER_SECOND <= u64::MAX,
        ensures
            t.nanos == seconds_since_epoch * NANOS_PER_SECOND,
    {
        Timestamp { nanos: seconds_since_epoch * NANOS_PER_SECOND }
    }

    /// The nanoseconds since the epoch.
    pub fn nanos(&self) -> (n: u64)
        ensures
            n == self.nanos,
    {
        self.nanos
    }

    /// The whole seconds since the epoch.
    pub fn seconds(&self) -> (s: u64)
        ensures
            s == self.nanos / NANOS_PER_SECOND,
    {
        self.nanos / NANOS_PER_SECOND
    }

    /// Whether this point in time lies strictly after `other`.
    pub fn is_after(&self, other: &Timestamp) -> (r: bool)
        ensures
            r == (self.nanos > other.nanos),
    {
        self.nanos > other.nanos
    }
}

/// What the host tells about the block in which a call runs.
#[derive(Clone, Copy, Debug, PartialEq, Eq, Structural)]
pub struct Env {
    /// The current time.
    pub time: Timestamp,
}

/// What the host tells about the caller of a call.
#[derive(Clone, Debug, PartialEq, Eq)]
pub struct MessageInfo {
    /// The caller's address.
    pub sender: String,
    /// The coins that came with the call.
    pub funds: Vec<Coin>,
}

/// What a `MessageInfo` stands for.
pub struct MessageInfoView {
    pub sender: Seq<char>,
    pub funds: Seq<CoinView>,
}

impl View for MessageInfo {
    type V = MessageInfoView;

    open spec fn view(&self) -> MessageInfoView {
        MessageInfoView { sender: self.sender@, funds: self.funds.deep_view() }
    }
}

/// What the host's validation of an address gave: the address where the host
/// accepts it, `None` where it does not.
pub open spec fn validated(user: Option<&str>) -> Option<Seq<char>> {
    match user {
        Some(u) => Some(u@),
        None => None,
    }
}

} // verus!
