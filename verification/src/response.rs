//! What a successful call hands back: attributes that describe what was done,
//! and the transfers that the host has to carry out afterwards.

use vstd::prelude::*;

verus! {

/// A key and a value that describe a call.
#[derive(Clone, Debug, PartialEq, Eq)]
pub struct Attribute {
    pub key: String,
    pub value: String,
}

/// What an `Attribute` stands for.
pub struct AttributeView {
    pub key: Seq<char>,
    pub value: Seq<char>,
}

impl View for Attribute {
    type V = AttributeView;

    open spec fn view(&self) -> AttributeView {
        AttributeView { key: self.key@, value: self.value@ }
    }
}

impl DeepView for Attribute {
    type V = AttributeView;

    open spec fn deep_view(&self) -> AttributeView {
        self@
    }
}

/// An instruction to the host: send `amount` units of `denom` to `to_address`.
#[derive(Clone, Debug, PartialEq, Eq)]
pub struct Transfer {
    pub to_address: String,
    pub denom: String,
    pub amount: u128,
}

/// What a `Transfer` stands for.
pub struct TransferView {
    pub to_address: Seq<char>,
    pub denom: Seq<char>,
    pub amount: nat,
}

impl View for Transfer {
    type V = TransferView;

    open spec fn view(&self) -> TransferView {
        TransferView {
            to_address: self.to_address@,
            denom: self.denom@,
            amount: self.amount as nat,
        }
    }
}

impl DeepView for Transfer {
    type V = TransferView;

    open spec fn deep_view(&self) -> TransferView {
        self@
    }
}

/// The sum of the amounts of a list of transfers.
pub open spec fn transferred(ts: Seq<TransferView>) -> nat
    decreases ts.len(),
{
    if ts.len() == 0 {
        0
    } else {
        transferred(ts.drop_last()) + ts.last().amount
    }
}

/// The result of a successful call.
#[derive(Clone, Debug, PartialEq, Eq)]
pub struct Response {
    pub attributes: Vec<Attribute>,
    pub messages: Vec<Transfer>,
}

/// What a `Response` stands for.
pub struct ResponseView {
    pub attributes: Seq<AttributeView>,
    pub messages: Seq<TransferView>,
}

impl View for Response {
    type V = ResponseView;

    open spec fn view(&self) -> ResponseView {
        ResponseView {
            attributes: self.attributes.deep_view(),
            messages: self.messages.deep_view(),
        }
    }
}

impl Response {
    /// A response without attributes and without transfers.
    pub fn new() -> (r: Response)
        ensures
            r@ == (ResponseView { attributes: Seq::empty(), messages: Seq::empty() }),
    {
        let r = Response { attributes: Vec::new(), messages: Vec::new() };
        assert(r.attributes.deep_view() =~= Seq::empty());
        assert(r.messages.deep_view() =~= Seq::empty());
        r
    }

    /// This response with one more attribute at the end.
    pub fn add_attribute(self, key: &str, value: &str) -> (r: Response)
        ensures
            r@ == (ResponseView {
                attributes: self@.attributes.push(AttributeView { key: key@, value: value@ }),
                messages: self@.messages,
            }),
    {
        let mut r = self;
        r.attributes.push(Attribute { key: key.to_owned(), value: value.to_owned() });
        assert(r.attributes.deep_view() =~= self.attributes.deep_view().push(
            AttributeView { key: key@, value: value@ },
        ));
        r
    }

    /// This response with one more transfer at the end.
    pub fn add_message(self, transfer: Transfer) -> (r: Response)
        ensures
            r@ == (ResponseView {
                attributes: self@.attributes,
                messages: self@.messages.push(transfer@),
            }),
    {
        let mut r = self;
        r.messages.push(transfer);
        assert(r.messages.deep_view() =~= self.messages.deep_view().push(transfer@));
        r
    }
}

} // verus!
