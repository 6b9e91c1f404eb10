use threshold_funding::order::comes_before;
use threshold_funding::response::{Attribute, Response, Transfer};
use threshold_funding::state::{Ledger, Record};
use threshold_funding::text::decimal_string;
use threshold_funding::types::{Coin, Timestamp};

fn record(participant: &str, amount: u128) -> Record {
    Record { participant: participant.to_string(), amount }
}

#[test]
fn decimal_string_writes_decimal_notation() {
    assert_eq!(decimal_string(0), "0");
    assert_eq!(decimal_string(7), "7");
    assert_eq!(decimal_string(10), "10");
    assert_eq!(decimal_string(1_000_000), "1000000");
    assert_eq!(decimal_string(9_876_543_210), "9876543210");
    assert_eq!(decimal_string(u128::MAX), "340282366920938463463374607431768211455");
}

#[test]
fn decimal_string_agrees_with_the_standard_notation() {
    let mut n: u128 = 1;
    for _ in 0..38 {
        assert_eq!(decimal_string(n), n.to_string());
        assert_eq!(decimal_string(n - 1), (n - 1).to_string());
        n *= 10;
    }
}

#[test]
fn participants_are_ordered_by_their_bytes() {
    assert!(comes_before("a", "b"));
    assert!(!comes_before("b", "a"));
    assert!(!comes_before("a", "a"));
    assert!(comes_before("", "a"));
    assert!(!comes_before("", ""));
    assert!(comes_before("ab", "abc"));
    assert!(!comes_before("abc", "ab"));
    assert!(comes_before("Zed", "alice"));
    assert!(comes_before("abd", "b"));
    assert!(comes_before("z", "é"));
    assert!(comes_before("é", "€"));
}

#[test]
fn participants_are_ordered_as_strings_are() {
    let names = ["", "a", "A", "ab", "b", "osmo1xyz", "osmo1abc", "é", "z", "€", "ab\u{0}"];
    for a in names {
        for b in names {
            assert_eq!(comes_before(a, b), a < b);
        }
    }
}

#[test]
fn new_ledger_is_empty() {
    let ledger = Ledger::new();
    assert_eq!(ledger.len(), 0);
    assert_eq!(ledger.total(), 0);
    assert_eq!(ledger.amount_for("anyone"), 0);
    assert!(ledger.records().is_empty());
}

#[test]
fn credit_keeps_the_records_in_order() {
    let mut ledger = Ledger::new();
    ledger.credit("m", 5);
    ledger.credit("z", 1);
    ledger.credit("a", 2);
    ledger.credit("m", 10);
    ledger.credit("q", 0);
    assert_eq!(ledger.records(), &vec![record("a", 2), record("m", 15), record("z", 1)]);
    assert_eq!(ledger.total(), 18);
    assert_eq!(ledger.amount_for("m"), 15);
    assert_eq!(ledger.amount_for("q"), 0);
}

#[test]
fn withdraw_deletes_one_record() {
    let mut ledger = Ledger::new();
    ledger.credit("a", 2);
    ledger.credit("b", 3);
    ledger.credit("c", 4);
    assert_eq!(ledger.withdraw("b"), 3);
    assert_eq!(ledger.withdraw("b"), 0);
    assert_eq!(ledger.withdraw("x"), 0);
    assert_eq!(ledger.records(), &vec![record("a", 2), record("c", 4)]);
    assert_eq!(ledger.total(), 6);
}

#[test]
fn clear_deletes_all_records() {
    let mut ledger = Ledger::new();
    ledger.credit("a", 2);
    ledger.credit("b", 3);
    ledger.clear();
    assert_eq!(ledger.len(), 0);
    assert_eq!(ledger.total(), 0);
}

#[test]
fn credit_can_fill_the_whole_range() {
    let mut ledger = Ledger::new();
    ledger.credit("a", u128::MAX - 1);
    ledger.credit("b", 1);
    assert_eq!(ledger.total(), u128::MAX);
}

#[test]
fn from_records_takes_ordered_positive_records() {
    let ledger = Ledger::from_records(vec![record("a", 2), record("b", 3)]).unwrap();
    assert_eq!(ledger.records(), &vec![record("a", 2), record("b", 3)]);
    assert_eq!(ledger.total(), 5);
    assert_eq!(Ledger::from_records(vec![]), Some(Ledger::new()));
    assert!(Ledger::from_records(vec![record("a", u128::MAX - 1), record("b", 1)]).is_some());
}

#[test]
fn from_records_refuses_what_breaks_the_invariant() {
    assert_eq!(Ledger::from_records(vec![record("b", 2), record("a", 3)]), None);
    assert_eq!(Ledger::from_records(vec![record("a", 2), record("a", 3)]), None);
    assert_eq!(Ledger::from_records(vec![record("a", 2), record("b", 0)]), None);
    assert_eq!(Ledger::from_records(vec![record("a", u128::MAX), record("b", 1)]), None);
    assert_eq!(
        Ledger::from_records(vec![record("a", 1), record("c", 1), record("b", 1)]),
        None
    );
}

#[test]
fn timestamps_count_nanoseconds() {
    assert_eq!(Timestamp::from_seconds(10), Timestamp::from_nanos(10_000_000_000));
    assert_eq!(Timestamp::from_seconds(10).nanos(), 10_000_000_000);
    assert_eq!(Timestamp::from_nanos(10_999_999_999).seconds(), 10);
    assert_eq!(Timestamp::from_nanos(999_999_999).seconds(), 0);
    assert!(Timestamp::from_nanos(2).is_after(&Timestamp::from_nanos(1)));
    assert!(!Timestamp::from_nanos(1).is_after(&Timestamp::from_nanos(1)));
    assert!(!Timestamp::from_nanos(0).is_after(&Timestamp::from_nanos(1)));
}

#[test]
fn coins_are_built_and_copied() {
    let coin = Coin::new(5, "OSMO");
    assert_eq!(coin, Coin { denom: "OSMO".to_string(), amount: 5 });
    assert_eq!(coin.duplicate(), coin);
}

#[test]
fn responses_are_built_in_order() {
    let transfer = Transfer { to_address: "a".to_string(), denom: "OSMO".to_string(), amount: 1 };
    let res = Response::new()
        .add_attribute("k1", "v1")
        .add_message(transfer.clone())
        .add_attribute("k2", "v2");
    assert_eq!(
        res.attributes,
        vec![
            Attribute { key: "k1".to_string(), value: "v1".to_string() },
            Attribute { key: "k2".to_string(), value: "v2".to_string() },
        ]
    );
    assert_eq!(res.messages, vec![transfer]);
}
