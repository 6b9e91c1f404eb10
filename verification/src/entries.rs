//! The mathematical model of the ledger: the list of recorded contributions,
//! one entry per participant, in ascending order of the participants.

use vstd::prelude::*;
use crate::order::key_lt;
use crate::order::lemma_key_lt_asymmetric;
use crate::order::lemma_key_lt_transitive;
use crate::order::lemma_key_lt_total;

verus! {

/// What the ledger records for one participant.
pub struct Entry {
    pub who: Seq<char>,
    pub amount: nat,
}

/// The entries are listed in strictly ascending order of their participants,
/// so no participant has two of them.
pub open spec fn ascending(es: Seq<Entry>) -> bool {
    forall|i: int, j: int|
        #![trigger es[i], es[j]]
        0 <= i < j < es.len() ==> key_lt(es[i].who, es[j].who)
}

/// Every entry holds a strictly positive amount.
pub open spec fn all_positive(es: Seq<Entry>) -> bool {
    forall|i: int| 0 <= i < es.len() ==> (#[trigger] es[i]).amount > 0
}

/// The invariant of the ledger's entries.
pub open spec fn well_formed(es: Seq<Entry>) -> bool {
    ascending(es) && all_positive(es)
}

/// The sum of all recorded amounts.
pub open spec fn total(es: Seq<Entry>) -> nat
    decreases es.len(),
{
    if es.len() == 0 {
        0
    } else {
        total(es.drop_last()) + es.last().amount
    }
}

/// Whether `who` has an entry.
pub open spec fn recorded(es: Seq<Entry>, who: Seq<char>) -> bool {
    exists|i: int| 0 <= i < es.len() && (#[trigger] es[i]).who == who
}

/// The position of the entry of `who`, where there is one.
pub open spec fn index_of(es: Seq<Entry>, who: Seq<char>) -> int {
    choose|i: int| 0 <= i < es.len() && (#[trigger] es[i]).who == who
}

/// The amount recorded for `who`: zero where there is no entry.
pub open spec fn amount_of(es: Seq<Entry>, who: Seq<char>) -> nat {
    if recorded(es, who) {
        es[index_of(es, who)].amount
    } else {
        0
    }
}

/// The number of entries whose participant comes before `who`: the position
/// at which an entry of `who` stands or would be inserted.
pub open spec fn rank(es: Seq<Entry>, who: Seq<char>) -> int
    decreases es.len(),
{
    if es.len() == 0 {
        0
    } else {
        rank(es.drop_last(), who) + if key_lt(es.last().who, who) {
            1int
        } else {
            0int
        }
    }
}

/// The entries after `who` has deposited `amount`: the entry of `who` grows by
/// `amount`, or a new one is inserted in order. A deposit of zero records nothing.
pub open spec fn credited(es: Seq<Entry>, who: Seq<char>, amount: nat) -> Seq<Entry> {
    if amount == 0 {
        es
    } else if recorded(es, who) {
        es.update(index_of(es, who), Entry { who, amount: amount_of(es, who) + amount })
    } else {
        es.insert(rank(es, who), Entry { who, amount })
    }
}

/// The entries after the entry of `who`, if any, has been deleted.
pub open spec fn without(es: Seq<Entry>, who: Seq<char>) -> Seq<Entry> {
    if recorded(es, who) {
        es.remove(index_of(es, who))
    } else {
        es
    }
}

/// The rank is a position in the list, or its length.
pub proof fn lemma_rank_bounds(es: Seq<Entry>, who: Seq<char>)
    ensures
        0 <= rank(es, who) <= es.len(),
    decreases es.len(),
{
    if es.len() > 0 {
        lemma_rank_bounds(es.drop_last(), who);
    }
}

/// In an ascending list the rank of `who` is the first position whose
/// participant does not come before `who`.
pub proof fn lemma_rank_is(es: Seq<Entry>, who: Seq<char>, i: int)
    requires
        ascending(es),
        0 <= i <= es.len(),
        forall|j: int| 0 <= j < i ==> key_lt((#[trigger] es[j]).who, who),
        i < es.len() ==> !key_lt(es[i].who, who),
    ensures
        rank(es, who) == i,
    decreases es.len(),
{
    if es.len() > 0 {
        let front = es.drop_last();
        let n = es.len() - 1;
        assert(ascending(front)) by {
            assert forall|a: int, b: int| 0 <= a < b < front.len() implies key_lt(
                front[a].who,
                front[b].who,
            ) by {
                assert(front[a] == es[a] && front[b] == es[b]);
            }
        }
        if i == es.len() {
            assert forall|j: int| 0 <= j < n implies key_lt((#[trigger] front[j]).who, who) by {
                assert(front[j] == es[j]);
            }
            lemma_rank_is(front, who, n);
            assert(key_lt(es[n].who, who));
        } else {
            assert forall|j: int| 0 <= j < i implies key_lt((#[trigger] front[j]).who, who) by {
                assert(front[j] == es[j]);
            }
            if i < n {
                assert(front[i] == es[i]);
                assert(key_lt(es[i].who, es[n].who));
                if key_lt(es[n].who, who) {
                    lemma_key_lt_transitive(es[i].who, es[n].who, who);
                }
            }
            lemma_rank_is(front, who, i);
            assert(!key_lt(es[n].who, who));
        }
    }
}

/// In an ascending list two entries of one participant are one entry.
pub proof fn lemma_entry_unique(es: Seq<Entry>, i: int, j: int)
    requires
        ascending(es),
        0 <= i < es.len(),
        0 <= j < es.len(),
        es[i].who == es[j].who,
    ensures
        i == j,
{
    if i < j {
        lemma_key_lt_asymmetric(es[i].who, es[j].who);
    } else if j < i {
        lemma_key_lt_asymmetric(es[j].who, es[i].who);
    }
}

/// Where `who` has the entry at position `i` of an ascending list, that is the
/// entry that `index_of` and `amount_of` speak of, and `i` is the rank of `who`.
pub proof fn lemma_found_at(es: Seq<Entry>, who: Seq<char>, i: int)
    requires
        ascending(es),
        0 <= i < es.len(),
        es[i].who == who,
    ensures
        recorded(es, who),
        index_of(es, who) == i,
        amount_of(es, who) == es[i].amount,
        rank(es, who) == i,
{
    lemma_entry_unique(es, i, index_of(es, who));
    assert forall|j: int| 0 <= j < i implies key_lt((#[trigger] es[j]).who, who) by {
        assert(key_lt(es[j].who, es[i].who));
    }
    assert(!key_lt(es[i].who, who)) by {
        if key_lt(es[i].who, who) {
            lemma_key_lt_asymmetric(es[i].who, who);
        }
    }
    lemma_rank_is(es, who, i);
}

/// Where the entry at the rank of `who` is not of `who`, no entry is.
pub proof fn lemma_absent_at(es: Seq<Entry>, who: Seq<char>)
    requires
        ascending(es),
        rank(es, who) == es.len() || es[rank(es, who)].who != who,
    ensures
        !recorded(es, who),
        amount_of(es, who) == 0,
{
    if recorded(es, who) {
        let k = index_of(es, who);
        lemma_found_at(es, who, k);
    }
}

/// Every participant listed before the rank of `who` comes before `who`, and
/// every one listed at or after it does not.
pub proof fn lemma_rank_splits(es: Seq<Entry>, who: Seq<char>)
    requires
        ascending(es),
    ensures
        0 <= rank(es, who) <= es.len(),
        forall|j: int| 0 <= j < rank(es, who) ==> key_lt((#[trigger] es[j]).who, who),
        forall|j: int| rank(es, who) <= j < es.len() ==> !key_lt((#[trigger] es[j]).who, who),
    decreases es.len(),
{
    lemma_rank_bounds(es, who);
    if es.len() > 0 {
        let front = es.drop_last();
        let n = es.len() - 1;
        assert(ascending(front)) by {
            assert forall|a: int, b: int| 0 <= a < b < front.len() implies key_lt(
                front[a].who,
                front[b].who,
            ) by {
                assert(front[a] == es[a] && front[b] == es[b]);
            }
        }
        lemma_rank_splits(front, who);
        let r = rank(front, who);
        assert forall|j: int| 0 <= j < rank(es, who) implies key_lt(
            (#[trigger] es[j]).who,
            who,
        ) by {
            if j < r {
                assert(front[j] == es[j]);
            } else {
                // then the last entry counts, and everything up to it comes before `who`
                assert(key_lt(es[n].who, who));
                if j < n {
                    assert(key_lt(es[j].who, es[n].who));
                    lemma_key_lt_transitive(es[j].who, es[n].who, who);
                }
            }
        }
        assert forall|j: int| rank(es, who) <= j < es.len() implies !key_lt(
            (#[trigger] es[j]).who,
            who,
        ) by {
            if j < n {
                assert(front[j] == es[j]);
            } else if key_lt(es[n].who, who) {
                // then every entry comes before `who`, so the rank is the length
                assert forall|k: int| 0 <= k < es.len() implies key_lt(
                    (#[trigger] es[k]).who,
                    who,
                ) by {
                    if k < n {
                        assert(key_lt(es[k].who, es[n].who));
                        lemma_key_lt_transitive(es[k].who, es[n].who, who);
                    }
                }
                lemma_rank_is(es, who, es.len() as int);
            }
        }
    }
}

/// An entry added at the end adds its amount to the total.
pub proof fn lemma_total_push(es: Seq<Entry>, e: Entry)
    ensures
        total(es.push(e)) == total(es) + e.amount,
{
    assert(es.push(e).drop_last() =~= es);
}

/// An entry inserted anywhere adds its amount to the total.
pub proof fn lemma_total_insert(es: Seq<Entry>, i: int, e: Entry)
    requires
        0 <= i <= es.len(),
    ensures
        total(es.insert(i, e)) == total(es) + e.amount,
    decreases es.len(),
{
    if i == es.len() {
        assert(es.insert(i, e) =~= es.push(e));
        lemma_total_push(es, e);
    } else {
        assert(es.insert(i, e).drop_last() =~= es.drop_last().insert(i, e));
        assert(es.insert(i, e).last() == es.last());
        lemma_total_insert(es.drop_last(), i, e);
    }
}

/// An entry put in the place of another changes the total by the difference
/// of their amounts.
pub proof fn lemma_total_update(es: Seq<Entry>, i: int, e: Entry)
    requires
        0 <= i < es.len(),
    ensures
        total(es.update(i, e)) + es[i].amount == total(es) + e.amount,
    decreases es.len(),
{
    if i == es.len() - 1 {
        assert(es.update(i, e).drop_last() =~= es.drop_last());
    } else {
        assert(es.update(i, e).drop_last() =~= es.drop_last().update(i, e));
        lemma_total_update(es.drop_last(), i, e);
    }
}

/// An entry that is deleted takes its amount from the total.
pub proof fn lemma_total_remove(es: Seq<Entry>, i: int)
    requires
        0 <= i < es.len(),
    ensures
        total(es.remove(i)) + es[i].amount == total(es),
    decreases es.len(),
{
    if i == es.len() - 1 {
        assert(es.remove(i) =~= es.drop_last());
    } else {
        assert(es.remove(i).drop_last() =~= es.drop_last().remove(i));
        assert(es.remove(i).last() == es.last());
        lemma_total_remove(es.drop_last(), i);
    }
}

/// No entry holds more than the total.
pub proof fn lemma_amount_within_total(es: Seq<Entry>, i: int)
    requires
        0 <= i < es.len(),
    ensures
        es[i].amount <= total(es),
{
    lemma_total_remove(es, i);
}

/// The total of the first `k` entries grows with `k`.
pub proof fn lemma_total_take(es: Seq<Entry>, k: int)
    requires
        0 <= k < es.len(),
    ensures
        total(es.take(k + 1)) == total(es.take(k)) + es[k].amount,
        total(es.take(k + 1)) <= total(es),
    decreases es.len() - k,
{
    assert(es.take(k + 1).drop_last() =~= es.take(k));
    if k + 1 < es.len() {
        lemma_total_take(es, k + 1);
    } else {
        assert(es.take(k + 1) =~= es);
    }
}

/// Raising the amount of the entry at position `i` keeps the entries well formed.
proof fn lemma_raise_well_formed(es: Seq<Entry>, i: int, amount: nat)
    requires
        well_formed(es),
        0 <= i < es.len(),
    ensures
        well_formed(es.update(i, Entry { who: es[i].who, amount: es[i].amount + amount })),
{
    let after = es.update(i, Entry { who: es[i].who, amount: es[i].amount + amount });
    assert forall|a: int, b: int| 0 <= a < b < after.len() implies key_lt(
        after[a].who,
        after[b].who,
    ) by {
        assert(after[a].who == es[a].who && after[b].who == es[b].who);
        assert(key_lt(es[a].who, es[b].who));
    }
    assert forall|a: int| 0 <= a < after.len() implies (#[trigger] after[a]).amount > 0 by {
        assert(es[a].amount > 0);
    }
}

/// After the amount of the entry at position `i` has been raised, its
/// participant has that much more, and every other participant has what they had.
proof fn lemma_raise_amount(es: Seq<Entry>, i: int, amount: nat, w: Seq<char>)
    requires
        well_formed(es),
        0 <= i < es.len(),
    ensures
        amount_of(es.update(i, Entry { who: es[i].who, amount: es[i].amount + amount }), w)
            == amount_of(es, w) + if w == es[i].who {
            amount
        } else {
            0
        },
{
    let after = es.update(i, Entry { who: es[i].who, amount: es[i].amount + amount });
    lemma_raise_well_formed(es, i, amount);
    if recorded(after, w) {
        let k = index_of(after, w);
        assert(after[k].who == es[k].who);
        lemma_found_at(after, w, k);
        lemma_found_at(es, w, k);
        if w == es[i].who {
            lemma_entry_unique(es, k, i);
        }
    } else if recorded(es, w) {
        let k = index_of(es, w);
        assert(after[k].who == es[k].who);
    }
}

/// Inserting a positive entry of a participant without one, at the rank of
/// that participant, keeps the entries well formed.
proof fn lemma_insert_well_formed(es: Seq<Entry>, e: Entry)
    requires
        well_formed(es),
        !recorded(es, e.who),
        e.amount > 0,
    ensures
        0 <= rank(es, e.who) <= es.len(),
        well_formed(es.insert(rank(es, e.who), e)),
{
    let r = rank(es, e.who);
    let after = es.insert(r, e);
    lemma_rank_splits(es, e.who);
    assert forall|j: int| r <= j < es.len() implies key_lt(e.who, (#[trigger] es[j]).who) by {
        lemma_key_lt_total(e.who, es[j].who);
    }
    assert forall|a: int, b: int| 0 <= a < b < after.len() implies key_lt(
        after[a].who,
        after[b].who,
    ) by {
        if b < r {
            assert(after[a] == es[a] && after[b] == es[b]);
            assert(key_lt(es[a].who, es[b].who));
        } else if b == r {
            assert(after[a] == es[a] && after[b] == e);
            assert(key_lt(es[a].who, e.who));
        } else if a < r {
            assert(after[a] == es[a] && after[b] == es[b - 1]);
            if a < b - 1 {
                assert(key_lt(es[a].who, es[b - 1].who));
            }
        } else if a == r {
            assert(after[a] == e && after[b] == es[b - 1]);
            assert(key_lt(e.who, es[b - 1].who));
        } else {
            assert(after[a] == es[a - 1] && after[b] == es[b - 1]);
            assert(key_lt(es[a - 1].who, es[b - 1].who));
        }
    }
    assert forall|a: int| 0 <= a < after.len() implies (#[trigger] after[a]).amount > 0 by {
        if a < r {
            assert(after[a] == es[a]);
        } else if a > r {
            assert(after[a] == es[a - 1]);
        }
    }
}

/// After a positive entry of a participant without one has been inserted at
/// the rank of that participant, that participant has the entry's amount, and
/// every other participant has what they had.
proof fn lemma_insert_amount(es: Seq<Entry>, e: Entry, w: Seq<char>)
    requires
        well_formed(es),
        !recorded(es, e.who),
        e.amount > 0,
    ensures
        amount_of(es.insert(rank(es, e.who), e), w) == amount_of(es, w) + if w == e.who {
            e.amount
        } else {
            0
        },
{
    let r = rank(es, e.who);
    let after = es.insert(r, e);
    lemma_insert_well_formed(es, e);
    if w == e.who {
        assert(after[r] == e);
        lemma_found_at(after, w, r);
    } else if recorded(after, w) {
        let k = index_of(after, w);
        let k0 = if k < r { k } else { k - 1 };
        assert(after[k] == es[k0]);
        lemma_found_at(after, w, k);
        lemma_found_at(es, w, k0);
    } else if recorded(es, w) {
        let k0 = index_of(es, w);
        let k = if k0 < r { k0 } else { k0 + 1 };
        assert(after[k] == es[k0]);
    }
}

/// What a deposit does to the entries: they stay well formed, the total grows
/// by the deposit, the amount recorded for `who` grows by it, and no other
/// participant's amount changes.
pub proof fn lemma_credited(es: Seq<Entry>, who: Seq<char>, amount: nat)
    requires
        well_formed(es),
    ensures
        well_formed(credited(es, who, amount)),
        total(credited(es, who, amount)) == total(es) + amount,
        forall|w: Seq<char>| #[trigger]
            amount_of(credited(es, who, amount), w) == amount_of(es, w) + if w == who {
                amount
            } else {
                0
            },
{
    if amount == 0 {
    } else if recorded(es, who) {
        let i = index_of(es, who);
        let e = Entry { who, amount: amount_of(es, who) + amount };
        lemma_found_at(es, who, i);
        lemma_raise_well_formed(es, i, amount);
        lemma_total_update(es, i, e);
        assert forall|w: Seq<char>| #[trigger]
            amount_of(credited(es, who, amount), w) == amount_of(es, w) + if w == who {
                amount
            } else {
                0
            } by {
            lemma_raise_amount(es, i, amount, w);
        }
    } else {
        let e = Entry { who, amount };
        lemma_insert_well_formed(es, e);
        lemma_total_insert(es, rank(es, who), e);
        assert forall|w: Seq<char>| #[trigger]
            amount_of(credited(es, who, amount), w) == amount_of(es, w) + if w == who {
                amount
            } else {
                0
            } by {
            lemma_insert_amount(es, e, w);
        }
    }
}

/// Deleting the entry at position `i` keeps the entries well formed.
proof fn lemma_remove_well_formed(es: Seq<Entry>, i: int)
    requires
        well_formed(es),
        0 <= i < es.len(),
    ensures
        well_formed(es.remove(i)),
{
    let after = es.remove(i);
    assert forall|a: int, b: int| 0 <= a < b < after.len() implies key_lt(
        after[a].who,
        after[b].who,
    ) by {
        let a0 = if a < i { a } else { a + 1 };
        let b0 = if b < i { b } else { b + 1 };
        assert(after[a] == es[a0] && after[b] == es[b0]);
        assert(key_lt(es[a0].who, es[b0].who));
    }
    assert forall|a: int| 0 <= a < after.len() implies (#[trigger] after[a]).amount > 0 by {
        let a0 = if a < i { a } else { a + 1 };
        assert(after[a] == es[a0]);
        assert(es[a0].amount > 0);
    }
}

/// After the entry at position `i` has been deleted, nothing is recorded for
/// its participant, and every other participant has what they had.
proof fn lemma_remove_amount(es: Seq<Entry>, i: int, w: Seq<char>)
    requires
        well_formed(es),
        0 <= i < es.len(),
    ensures
        amount_of(es.remove(i), w) == if w == es[i].who {
            0
        } else {
            amount_of(es, w)
        },
        w == es[i].who ==> !recorded(es.remove(i), w),
{
    let after = es.remove(i);
    lemma_remove_well_formed(es, i);
    if recorded(after, w) {
        let k = index_of(after, w);
        let k0 = if k < i { k } else { k + 1 };
        assert(after[k] == es[k0]);
        lemma_found_at(after, w, k);
        lemma_found_at(es, w, k0);
        if w == es[i].who {
            lemma_entry_unique(es, k0, i);
        }
    } else if w != es[i].who && recorded(es, w) {
        let k0 = index_of(es, w);
        let k = if k0 < i { k0 } else { k0 - 1 };
        assert(after[k] == es[k0]);
    }
}

/// What deleting the entry of `who` does to the entries: they stay well
/// formed, the total shrinks by what was recorded for `who`, nothing is
/// recorded for `who` any more, and no other participant's amount changes.
pub proof fn lemma_without(es: Seq<Entry>, who: Seq<char>)
    requires
        well_formed(es),
    ensures
        well_formed(without(es, who)),
        total(without(es, who)) + amount_of(es, who) == total(es),
        !recorded(without(es, who), who),
        forall|w: Seq<char>| #[trigger]
            amount_of(without(es, who), w) == if w == who {
                0
            } else {
                amount_of(es, w)
            },
{
    if recorded(es, who) {
        let i = index_of(es, who);
        lemma_found_at(es, who, i);
        lemma_remove_well_formed(es, i);
        lemma_total_remove(es, i);
        lemma_remove_amount(es, i, who);
        assert forall|w: Seq<char>| #[trigger]
            amount_of(without(es, who), w) == if w == who {
                0
            } else {
                amount_of(es, w)
            } by {
            lemma_remove_amount(es, i, w);
        }
    }
}

/// In a well-formed list a participant with an amount of zero has no entry.
pub proof fn lemma_nothing_recorded(es: Seq<Entry>, who: Seq<char>)
    requires
        well_formed(es),
        amount_of(es, who) == 0,
    ensures
        !recorded(es, who),
        without(es, who) == es,
{
    if recorded(es, who) {
        assert(es[index_of(es, who)].amount > 0);
    }
}

} // verus!
