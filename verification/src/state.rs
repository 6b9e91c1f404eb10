//! The escrow's state: the configuration, fixed when the escrow is created,
//! and the ledger of contributions.

use vstd::prelude::*;
use crate::entries::Entry;
use crate::entries::all_positive;
use crate::entries::amount_of;
use crate::entries::ascending;
use crate::entries::credited;
use crate::entries::index_of;
use crate::entries::lemma_absent_at;
use crate::entries::lemma_amount_within_total;
use crate::entries::lemma_credited;
use crate::entries::lemma_found_at;
use crate::entries::lemma_rank_is;
use crate::entries::lemma_total_take;
use crate::entries::lemma_without;
use crate::entries::rank;
use crate::entries::recorded;
use crate::entries::total;
use crate::entries::well_formed;
use crate::entries::without;
use crate::order::comes_before;
use crate::order::key_lt;
use crate::order::lemma_key_lt_total;
use crate::order::lemma_key_lt_transitive;
use crate::types::Coin;
use crate::types::CoinView;
use crate::types::Timestamp;

verus! {

/// What the escrow is created with. Nothing changes it afterwards: every
/// operation takes it by shared reference.
#[derive(Clone, Debug, PartialEq, Eq)]
pub struct Config {
    /// The denomination of all deposits, and the total that has to be reached.
    pub threshold_coin: Coin,
    /// The time after which contributions and refunds are refused.
    pub deadline: Timestamp,
    /// Who gets the funds once the threshold is reached.
    pub receiver: String,
}

/// What a `Config` stands for.
pub struct ConfigView {
    pub threshold_coin: CoinView,
    pub deadline: nat,
    pub receiver: Seq<char>,
}

impl View for Config {
    type V = ConfigView;

    open spec fn view(&self) -> ConfigView {
        ConfigView {
            threshold_coin: self.threshold_coin@,
            deadline: self.deadline.nanos as nat,
            receiver: self.receiver@,
        }
    }
}

/// One line of the ledger: what a participant has contributed so far.
#[derive(Clone, Debug, PartialEq, Eq)]
pub struct Record {
    pub participant: String,
    pub amount: u128,
}

impl View for Record {
    type V = Entry;

    open spec fn view(&self) -> Entry {
        Entry { who: self.participant@, amount: self.amount as nat }
    }
}

impl DeepView for Record {
    type V = Entry;

    open spec fn deep_view(&self) -> Entry {
        self@
    }
}

/// The ledger of contributions: at most one record per participant, every
/// recorded amount positive, the records in ascending order of the
/// participants, and a total that fits the amounts' type.
#[derive(Clone, Debug, PartialEq, Eq)]
pub struct Ledger {
    records: Vec<Record>,
}

impl View for Ledger {
    type V = Seq<Entry>;

    closed spec fn view(&self) -> Seq<Entry> {
        self.records.deep_view()
    }
}

impl Ledger {
    /// The ledger's invariant.
    pub open spec fn wf(&self) -> bool {
        well_formed(self@) && total(self@) <= u128::MAX
    }

    /// A ledger without records.
    pub fn new() -> (ledger: Ledger)
        ensures
            ledger@ == Seq::<Entry>::empty(),
            ledger.wf(),
    {
        let ledger = Ledger { records: Vec::new() };
        assert(ledger@ =~= Seq::<Entry>::empty());
        ledger
    }

    /// The ledger that holds `records`, if they are in strictly ascending order
    /// of their participants, every amount is positive and the total fits.
    pub fn from_records(records: Vec<Record>) -> (r: Option<Ledger>)
        ensures
            r is Some <==> well_formed(records.deep_view()) && total(records.deep_view())
                <= u128::MAX,
            r matches Some(ledger) ==> ledger@ == records.deep_view(),
    {
        let ghost es = records.deep_view();
        let mut sum: u128 = 0;
        let mut i: usize = 0;
        while i < records.len()
            invariant
                es == records.deep_view(),
                0 <= i <= records.len(),
                well_formed(es.take(i as int)),
                sum == total(es.take(i as int)),
            decreases records.len() - i,
        {
            proof {
                lemma_total_take(es, i as int);
            }
            let ghost next = es.take(i + 1);
            if records[i].amount == 0 {
                assert(!all_positive(es)) by {
                    assert(es[i as int].amount == 0);
                }
                return None;
            }
            if i > 0 && !comes_before(
                records[i - 1].participant.as_str(),
                records[i].participant.as_str(),
            ) {
                assert(!ascending(es)) by {
                    assert(!key_lt(es[i - 1].who, es[i as int].who));
                }
                return None;
            }
            match sum.checked_add(records[i].amount) {
                Some(s) => {
                    sum = s;
                },
                None => {
                    return None;
                },
            }
            assert(well_formed(next)) by {
                assert forall|a: int, b: int| 0 <= a < b < next.len() implies key_lt(
                    next[a].who,
                    next[b].who,
                ) by {
                    if b < i {
                        assert(key_lt(es.take(i as int)[a].who, es.take(i as int)[b].who));
                    } else if a < i - 1 {
                        assert(key_lt(es.take(i as int)[a].who, es.take(i as int)[i - 1].who));
                        lemma_key_lt_transitive(es[a].who, es[i - 1].who, es[i as int].who);
                    }
                }
                assert forall|a: int| 0 <= a < next.len() implies (#[trigger] next[a]).amount
                    > 0 by {
                    if a < i {
                        assert(es.take(i as int)[a].amount > 0);
                    }
                }
            }
            i = i + 1;
        }
        assert(es.take(i as int) =~= es);
        Some(Ledger { records })
    }

    /// The records, in ascending order of the participants.
    pub fn records(&self) -> (r: &Vec<Record>)
        ensures
            r.deep_view() == self@,
    {
        &self.records
    }

    /// The number of records.
    pub fn len(&self) -> (n: usize)
        ensures
            n == self@.len(),
    {
        self.records.len()
    }

    /// The position at which the record of `who` stands or would be inserted,
    /// and whether it stands there.
    fn locate(&self, who: &str) -> (r: (usize, bool))
        requires
            ascending(self@),
        ensures
            r.0 == rank(self@, who@),
            r.0 <= self@.len(),
            r.1 == recorded(self@, who@),
            r.1 ==> r.0 < self@.len() && index_of(self@, who@) == r.0,
    {
        let ghost es = self@;
        let mut i: usize = 0;
        while i < self.records.len() && comes_before(self.records[i].participant.as_str(), who)
            invariant
                es == self@,
                0 <= i <= self.records.len(),
                forall|j: int| 0 <= j < i ==> key_lt((#[trigger] es[j]).who, who@),
            decreases self.records.len() - i,
        {
            i = i + 1;
        }
        proof {
            lemma_rank_is(es, who@, i as int);
        }
        let found = i < self.records.len() && !comes_before(
            who,
            self.records[i].participant.as_str(),
        );
        proof {
            if found {
                lemma_key_lt_total(who@, es[i as int].who);
                lemma_found_at(es, who@, i as int);
            } else {
                if i < es.len() {
                    crate::order::lemma_key_lt_asymmetric(who@, es[i as int].who);
                }
                lemma_absent_at(es, who@);
            }
        }
        (i, found)
    }

    /// What is recorded for `who`: zero where there is no record.
    pub fn amount_for(&self, who: &str) -> (amount: u128)
        requires
            self.wf(),
        ensures
            amount == amount_of(self@, who@),
    {
        let (i, found) = self.locate(who);
        if found {
            self.records[i].amount
        } else {
            0
        }
    }

    /// The sum of all recorded amounts.
    pub fn total(&self) -> (sum: u128)
        requires
            self.wf(),
        ensures
            sum == total(self@),
    {
        let ghost es = self@;
        let mut sum: u128 = 0;
        let mut i: usize = 0;
        while i < self.records.len()
            invariant
                es == self@,
                total(es) <= u128::MAX,
                0 <= i <= self.records.len(),
                sum == total(es.take(i as int)),
            decreases self.records.len() - i,
        {
            proof {
                lemma_total_take(es, i as int);
            }
            sum = sum + self.records[i].amount;
            i = i + 1;
        }
        assert(es.take(i as int) =~= es);
        sum
    }

    /// Adds `amount` to what is recorded for `who`.
    pub fn credit(&mut self, who: &str, amount: u128)
        requires
            old(self).wf(),
            total(old(self)@) + amount <= u128::MAX,
        ensures
            final(self)@ == credited(old(self)@, who@, amount as nat),
            final(self).wf(),
    {
        let ghost es = self@;
        proof {
            lemma_credited(es, who@, amount as nat);
        }
        if amount == 0 {
            return ;
        }
        let (i, found) = self.locate(who);
        if found {
            proof {
                lemma_found_at(es, who@, i as int);
                lemma_amount_within_total(es, i as int);
            }
            let sum = self.records[i].amount + amount;
            self.records.set(i, Record { participant: who.to_owned(), amount: sum });
            assert(self@ =~= es.update(i as int, Entry { who: who@, amount: sum as nat }));
        } else {
            self.records.insert(i, Record { participant: who.to_owned(), amount });
            assert(self@ =~= es.insert(i as int, Entry { who: who@, amount: amount as nat }));
        }
    }

    /// Deletes the record of `who` and returns what it held: zero where there
    /// was none.
    pub fn withdraw(&mut self, who: &str) -> (amount: u128)
        requires
            old(self).wf(),
        ensures
            amount == amount_of(old(self)@, who@),
            final(self)@ == without(old(self)@, who@),
            final(self).wf(),
    {
        let ghost es = self@;
        proof {
            lemma_without(es, who@);
        }
        let (i, found) = self.locate(who);
        if found {
            proof {
                lemma_found_at(es, who@, i as int);
            }
            let record = self.records.remove(i);
            assert(self@ =~= es.remove(i as int));
            record.amount
        } else {
            0
        }
    }

    /// Deletes all records.
    pub fn clear(&mut self)
        ensures
            final(self)@ == Seq::<Entry>::empty(),
            final(self).wf(),
    {
        self.records = Vec::new();
        assert(self@ =~= Seq::<Entry>::empty());
    }
}

} // verus!
