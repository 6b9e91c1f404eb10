use cosmwasm_std::testing::MockStorage;
use cosmwasm_std::{Addr, Order, StdResult, Uint128};

use threshold_funding::contract::execute::{contribution, contribution_fits, resolve};
use threshold_funding::contract::instantiate;
use threshold_funding::msg::InstantiateMsg;
use threshold_funding::order::comes_before;
use threshold_funding::state::{Ledger, Record};
use threshold_funding::text::decimal_string;
use threshold_funding::types::{Coin, Env, MessageInfo, Timestamp};

const CONTRIBUTIONS: cw_storage_plus::Map<&Addr, Uint128> =
    cw_storage_plus::Map::new("contributions");

const NAMES: [&str; 12] = [
    "osmo1zzz", "osmo1abc", "Osmo1abc", "osmo1ab", "osmo1abcd", "a", "b", "ab", "é", "€", "z",
    "osmo1a\u{7f}",
];

fn stored(storage: &MockStorage) -> Vec<Record> {
    CONTRIBUTIONS
        .range(storage, None, None, Order::Ascending)
        .map(|item| {
            item.map(|(addr, amount)| Record {
                participant: addr.into_string(),
                amount: amount.u128(),
            })
        })
        .collect::<StdResult<Vec<Record>>>()
        .unwrap()
}

#[test]
fn amounts_are_written_as_the_host_writes_them() {
    for n in [0u128, 1, 9, 10, 99, 100, 1_000_000, 10_000_000, u64::MAX as u128, u128::MAX] {
        assert_eq!(decimal_string(n), Uint128::new(n).to_string());
    }
}

#[test]
fn time_is_counted_as_the_host_counts_it() {
    for s in [0u64, 1, 10, 1_700_000_000] {
        assert_eq!(
            Timestamp::from_seconds(s).nanos(),
            cosmwasm_std::Timestamp::from_seconds(s).nanos()
        );
    }
    for n in [0u64, 1, 999_999_999, 1_000_000_000, 10_999_999_999, u64::MAX] {
        assert_eq!(
            Timestamp::from_nanos(n).seconds(),
            cosmwasm_std::Timestamp::from_nanos(n).seconds()
        );
        assert_eq!(
            Timestamp::from_nanos(n).is_after(&Timestamp::from_nanos(10)),
            cosmwasm_std::Timestamp::from_nanos(n) > cosmwasm_std::Timestamp::from_nanos(10)
        );
    }
}

#[test]
fn ledger_lists_the_participants_in_the_order_of_the_store() {
    let mut storage = MockStorage::new();
    let mut ledger = Ledger::new();
    for (i, name) in NAMES.iter().enumerate() {
        let amount = (i + 1) as u128;
        CONTRIBUTIONS.save(&mut storage, &Addr::unchecked(*name), &Uint128::new(amount)).unwrap();
        ledger.credit(name, amount);
    }
    assert_eq!(ledger.records(), &stored(&storage));
    for a in NAMES {
        for b in NAMES {
            let in_store = stored(&storage);
            let position = |n: &str| in_store.iter().position(|r| r.participant == n).unwrap();
            assert_eq!(comes_before(a, b), position(a) < position(b));
        }
    }
}

#[test]
fn ledger_is_read_back_from_the_store() {
    let mut storage = MockStorage::new();
    let mut ledger = Ledger::new();
    for (i, name) in NAMES.iter().enumerate() {
        ledger.credit(name, (i + 1) as u128);
        ledger.credit(name, 5);
    }
    ledger.withdraw("ab");
    for record in ledger.records() {
        CONTRIBUTIONS
            .save(
                &mut storage,
                &Addr::unchecked(record.participant.as_str()),
                &Uint128::new(record.amount),
            )
            .unwrap();
    }
    assert_eq!(Ledger::from_records(stored(&storage)), Some(ledger));
}

#[test]
fn ledger_adds_up_as_the_store_does() {
    let mut storage = MockStorage::new();
    let mut ledger = Ledger::new();
    for (i, name) in NAMES.iter().enumerate() {
        let first = Uint128::new(1_000_000 * (i as u128 + 1));
        let second = Uint128::new(7);
        for amount in [first, second] {
            CONTRIBUTIONS
                .update(&mut storage, &Addr::unchecked(*name), |old| -> StdResult<Uint128> {
                    match old {
                        Some(old) => Ok(old + amount),
                        None => Ok(amount),
                    }
                })
                .unwrap();
            ledger.credit(name, amount.u128());
        }
    }
    let total = CONTRIBUTIONS
        .range(&storage, None, None, Order::Ascending)
        .map(|item| item.unwrap().1)
        .fold(Uint128::zero(), |acc, x| acc + x);
    assert_eq!(ledger.total(), total.u128());
    assert_eq!(ledger.records(), &stored(&storage));
    assert_eq!(
        ledger.amount_for("osmo1abc"),
        CONTRIBUTIONS.load(&storage, &Addr::unchecked("osmo1abc")).unwrap().u128()
    );
    assert_eq!(
        ledger.amount_for("nobody"),
        CONTRIBUTIONS
            .may_load(&storage, &Addr::unchecked("nobody"))
            .unwrap()
            .unwrap_or_default()
            .u128()
    );
}

#[test]
fn contribution_fits_tells_when_the_total_would_leave_the_range() {
    let msg = InstantiateMsg {
        coin_threshold: Coin::new(10, "OSMO"),
        deadline: Timestamp::from_seconds(10),
        receiver: None,
    };
    let creator = MessageInfo { sender: "creator".to_string(), funds: vec![] };
    let env = Env { time: Timestamp::from_seconds(1) };
    let late = Env { time: Timestamp::from_seconds(11) };
    let (config, _) = instantiate(&env, &creator, msg).unwrap();
    let mut ledger = Ledger::new();
    let most = MessageInfo { sender: "a".to_string(), funds: vec![Coin::new(u128::MAX - 1, "OSMO")] };
    let one = MessageInfo { sender: "b".to_string(), funds: vec![Coin::new(1, "OSMO")] };
    let two = MessageInfo { sender: "b".to_string(), funds: vec![Coin::new(2, "OSMO")] };
    let other = MessageInfo { sender: "b".to_string(), funds: vec![Coin::new(2, "ATOM")] };

    assert!(contribution_fits(&config, &ledger, &env, &most, Some("a")));
    contribution(&config, &mut ledger, &env, &most, Some("a")).unwrap();

    assert!(!contribution_fits(&config, &ledger, &env, &two, Some("b")));
    assert!(!contribution_fits(&config, &ledger, &env, &two, Some("a")));
    assert!(contribution_fits(&config, &ledger, &late, &two, Some("b")));
    assert!(contribution_fits(&config, &ledger, &env, &two, None));
    assert!(contribution_fits(&config, &ledger, &env, &other, Some("b")));
    assert!(contribution_fits(&config, &ledger, &env, &creator, Some("b")));

    assert!(contribution_fits(&config, &ledger, &env, &one, Some("b")));
    contribution(&config, &mut ledger, &env, &one, Some("b")).unwrap();
    assert_eq!(ledger.total(), u128::MAX);

    let res = resolve(&config, &mut ledger, &env, &creator).unwrap();
    assert_eq!(res.messages.len(), 1);
    assert_eq!(res.messages[0].amount, u128::MAX);
    assert_eq!(res.messages[0].to_address, "creator");
}
