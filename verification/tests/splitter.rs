use soroban_sdk::testutils::Address as _;
use soroban_sdk::testutils::EnvTestConfig;
use soroban_sdk::token::{StellarAssetClient, TokenClient};
use soroban_sdk::{Address, Env, IntoVal, Val};
use veritixpay::error::Error;
use veritixpay::ledger::Transfer;
use veritixpay::splitter::{payouts_for, share_of, weights_are_valid, PaymentSplit, PaymentSplitter};

struct Split {
    env: Env,
    payer: Address,
    token: Address,
    a: Address,
    b: Address,
    c: Address,
}

fn split_parties() -> Split {
    let env = Env::new_with_config(EnvTestConfig { capture_snapshot_at_drop: false });
    Split {
        payer: Address::generate(&env),
        token: Address::generate(&env),
        a: Address::generate(&env),
        b: Address::generate(&env),
        c: Address::generate(&env),
        env,
    }
}

fn funded_split_parties(payer_funds: i128) -> Split {
    let env = Env::new_with_config(EnvTestConfig { capture_snapshot_at_drop: false });
    env.mock_all_auths();
    let admin = Address::generate(&env);
    let token = env.register_stellar_asset_contract_v2(admin).address();
    let payer = Address::generate(&env);
    StellarAssetClient::new(&env, &token).mint(&payer, &payer_funds);
    Split {
        payer,
        token,
        a: Address::generate(&env),
        b: Address::generate(&env),
        c: Address::generate(&env),
        env,
    }
}

fn weights(env: &Env, entries: &[(&Address, i128)]) -> soroban_sdk::Map<Address, i128> {
    let mut map = soroban_sdk::Map::new(env);
    for (recipient, percent) in entries {
        map.set((*recipient).clone(), *percent);
    }
    map
}

fn send(env: &Env, transfer: &Transfer) {
    TokenClient::new(env, &transfer.token).transfer(&transfer.from, &transfer.to, &transfer.amount);
}

fn owned(env: &Env, token: &Address, owner: &Address) -> i128 {
    TokenClient::new(env, token).balance(owner)
}

fn amount_to(transfers: &[Transfer], recipient: &Address) -> i128 {
    let mut found = transfers.iter().filter(|t| &t.to == recipient);
    let amount = found.next().expect("one transfer to the recipient").amount;
    assert!(found.next().is_none());
    amount
}

fn create(
    s: &Split,
    splitter: &mut PaymentSplitter,
    recipients: soroban_sdk::Map<Address, i128>,
    total: i128,
) -> Result<u32, Error> {
    splitter.create_split(s.payer.clone(), recipients, total, s.token.clone(), total, true)
}

#[test]
fn create_split_stores_an_undistributed_split() {
    let s = split_parties();
    let mut splitter = PaymentSplitter::new();
    let recipients = weights(&s.env, &[(&s.a, 33), (&s.b, 33), (&s.c, 34)]);
    assert_eq!(create(&s, &mut splitter, recipients.clone(), 100), Ok(1));
    assert_eq!(
        splitter.get_split(1).unwrap(),
        PaymentSplit {
            payer: s.payer.clone(),
            recipients,
            total_amount: 100,
            distributed: false,
            token_address: s.token.clone(),
        }
    );
    assert_eq!(splitter.count(), 1);
    assert_eq!(splitter.get_split(2), Err(Error::NotFound));
    assert_eq!(splitter.get_split(0), Err(Error::NotFound));
}

#[test]
fn weights_that_do_not_sum_to_100_are_an_invariant_violation() {
    let s = split_parties();
    let mut splitter = PaymentSplitter::new();
    let cases: [&[(&Address, i128)]; 6] = [
        &[],
        &[(&s.a, 99)],
        &[(&s.a, 101)],
        &[(&s.a, 33), (&s.b, 33), (&s.c, 33)],
        &[(&s.a, 50), (&s.b, 51)],
        &[(&s.a, 0)],
    ];
    for entries in cases {
        let recipients = weights(&s.env, entries);
        assert_eq!(create(&s, &mut splitter, recipients, 100), Err(Error::InvariantViolation));
    }
    assert_eq!(splitter.count(), 0);
    assert_eq!(create(&s, &mut splitter, weights(&s.env, &[(&s.a, 100)]), 100), Ok(1));
    assert_eq!(create(&s, &mut splitter, weights(&s.env, &[(&s.a, 0), (&s.b, 100)]), 100), Ok(2));
}

#[test]
fn negative_weights_are_an_invariant_violation() {
    let s = split_parties();
    let mut splitter = PaymentSplitter::new();
    let recipients = weights(&s.env, &[(&s.a, 150), (&s.b, -50)]);
    assert_eq!(create(&s, &mut splitter, recipients, 100), Err(Error::InvariantViolation));
    let recipients = weights(&s.env, &[(&s.a, i128::MAX), (&s.b, i128::MAX), (&s.c, 100)]);
    assert_eq!(create(&s, &mut splitter, recipients, 100), Err(Error::InvariantViolation));
    let recipients = weights(&s.env, &[(&s.a, i128::MIN), (&s.b, i128::MAX), (&s.c, 101)]);
    assert_eq!(create(&s, &mut splitter, recipients, 100), Err(Error::InvariantViolation));
    assert_eq!(splitter.count(), 0);
}

#[test]
fn a_map_that_holds_other_values_is_an_invariant_violation() {
    let s = split_parties();
    let mut splitter = PaymentSplitter::new();
    let mut raw: soroban_sdk::Map<Val, Val> = soroban_sdk::Map::new(&s.env);
    raw.set(s.a.clone().into_val(&s.env), 100_i128.into_val(&s.env));
    let good: soroban_sdk::Map<Address, i128> = raw.to_val().into_val(&s.env);
    assert_eq!(create(&s, &mut splitter, good, 100), Ok(1));
    raw.set(s.b.clone().into_val(&s.env), true.into_val(&s.env));
    let bad: soroban_sdk::Map<Address, i128> = raw.to_val().into_val(&s.env);
    assert_eq!(create(&s, &mut splitter, bad, 100), Err(Error::InvariantViolation));
    assert_eq!(splitter.count(), 1);
}

#[test]
fn create_split_refusals_in_order() {
    let s = split_parties();
    let mut splitter = PaymentSplitter::new();
    let good = weights(&s.env, &[(&s.a, 40), (&s.b, 60)]);
    let bad = weights(&s.env, &[(&s.a, 40), (&s.b, 61)]);
    let attempt = |splitter: &mut PaymentSplitter, m: &soroban_sdk::Map<Address, i128>, balance, consent| {
        splitter.create_split(s.payer.clone(), m.clone(), 100, s.token.clone(), balance, consent)
    };
    assert_eq!(attempt(&mut splitter, &bad, 0, false), Err(Error::AuthorizationFailure));
    assert_eq!(attempt(&mut splitter, &good, 100, false), Err(Error::AuthorizationFailure));
    assert_eq!(attempt(&mut splitter, &bad, 0, true), Err(Error::InvariantViolation));
    assert_eq!(attempt(&mut splitter, &good, 99, true), Err(Error::InsufficientFunds));
    assert_eq!(splitter.count(), 0);
    assert_eq!(attempt(&mut splitter, &good, 100, true), Ok(1));
}

#[test]
fn split_of_100_by_33_33_34_leaves_no_dust() {
    let s = split_parties();
    let mut splitter = PaymentSplitter::new();
    let recipients = weights(&s.env, &[(&s.a, 33), (&s.b, 33), (&s.c, 34)]);
    let id = create(&s, &mut splitter, recipients, 100).unwrap();
    let transfers = splitter.distribute(id, 100, true).unwrap();
    assert_eq!(transfers.len(), 3);
    assert_eq!(amount_to(&transfers, &s.a), 33);
    assert_eq!(amount_to(&transfers, &s.b), 33);
    assert_eq!(amount_to(&transfers, &s.c), 34);
    assert_eq!(transfers.iter().map(|t| t.amount).sum::<i128>(), 100);
    for transfer in &transfers {
        assert_eq!(transfer.from, s.payer);
        assert_eq!(transfer.token, s.token);
    }
    assert!(splitter.get_split(id).unwrap().distributed);
}

#[test]
fn split_of_10_by_33_67_leaves_one_unit_of_dust() {
    let s = split_parties();
    let mut splitter = PaymentSplitter::new();
    let recipients = weights(&s.env, &[(&s.a, 33), (&s.b, 67)]);
    let id = create(&s, &mut splitter, recipients, 10).unwrap();
    let transfers = splitter.distribute(id, 9, true).unwrap();
    assert_eq!(transfers.len(), 2);
    assert_eq!(amount_to(&transfers, &s.a), 3);
    assert_eq!(amount_to(&transfers, &s.b), 6);
    assert_eq!(transfers.iter().map(|t| t.amount).sum::<i128>(), 9);
}

#[test]
fn dust_stays_with_the_payer() {
    let s = funded_split_parties(10);
    let mut splitter = PaymentSplitter::new();
    let recipients = weights(&s.env, &[(&s.a, 33), (&s.b, 67)]);
    let id = splitter
        .create_split(
            s.payer.clone(),
            recipients,
            10,
            s.token.clone(),
            owned(&s.env, &s.token, &s.payer),
            true,
        )
        .unwrap();
    assert_eq!(owned(&s.env, &s.token, &s.payer), 10);
    let transfers = splitter.distribute(id, owned(&s.env, &s.token, &s.payer), true).unwrap();
    for transfer in &transfers {
        send(&s.env, transfer);
    }
    assert_eq!(owned(&s.env, &s.token, &s.a), 3);
    assert_eq!(owned(&s.env, &s.token, &s.b), 6);
    assert_eq!(owned(&s.env, &s.token, &s.payer), 1);
}

#[test]
fn payouts_follow_the_order_of_the_map() {
    let s = split_parties();
    let mut splitter = PaymentSplitter::new();
    let recipients = weights(&s.env, &[(&s.c, 10), (&s.a, 20), (&s.b, 70)]);
    let order: Vec<(Address, i128)> = recipients.iter().collect();
    let id = create(&s, &mut splitter, recipients, 1_000).unwrap();
    let transfers = splitter.distribute(id, 1_000, true).unwrap();
    let paid: Vec<(Address, i128)> = transfers.iter().map(|t| (t.to.clone(), t.amount)).collect();
    let expected: Vec<(Address, i128)> =
        order.into_iter().map(|(recipient, percent)| (recipient, percent * 10)).collect();
    assert_eq!(paid, expected);
}

#[test]
fn distribute_twice_is_an_invalid_state() {
    let s = split_parties();
    let mut splitter = PaymentSplitter::new();
    let id = create(&s, &mut splitter, weights(&s.env, &[(&s.a, 50), (&s.b, 50)]), 100).unwrap();
    assert!(splitter.distribute(id, 100, true).is_ok());
    let after = splitter.get_split(id).unwrap();
    assert_eq!(splitter.distribute(id, 100, true), Err(Error::InvalidState));
    assert_eq!(splitter.distribute(id, 0, true), Err(Error::InvalidState));
    assert_eq!(splitter.get_split(id).unwrap(), after);
}

#[test]
fn distribute_refusals_change_nothing() {
    let s = split_parties();
    let mut splitter = PaymentSplitter::new();
    let id = create(&s, &mut splitter, weights(&s.env, &[(&s.a, 33), (&s.b, 67)]), 10).unwrap();
    let before = splitter.get_split(id).unwrap();
    assert_eq!(splitter.distribute(2, 10, true), Err(Error::NotFound));
    assert_eq!(splitter.distribute(0, 10, false), Err(Error::NotFound));
    assert_eq!(splitter.distribute(id, 10, false), Err(Error::AuthorizationFailure));
    assert_eq!(splitter.distribute(id, 8, true), Err(Error::InsufficientFunds));
    assert_eq!(splitter.get_split(id).unwrap(), before);
    assert!(splitter.distribute(id, 9, true).is_ok());
}

#[test]
fn shares_round_down() {
    assert_eq!(share_of(100, 33), 33);
    assert_eq!(share_of(100, 34), 34);
    assert_eq!(share_of(10, 33), 3);
    assert_eq!(share_of(10, 67), 6);
    assert_eq!(share_of(1, 99), 0);
    assert_eq!(share_of(1, 100), 1);
    assert_eq!(share_of(0, 50), 0);
    assert_eq!(share_of(199, 50), 99);
    assert_eq!(share_of(12345, 0), 0);
    assert_eq!(share_of(i128::MAX, 100), i128::MAX);
    assert_eq!(share_of(i128::MAX, 1), i128::MAX / 100);
    assert_eq!(
        share_of(i128::MAX, 99),
        i128::MAX / 100 * 99 + (i128::MAX % 100) * 99 / 100
    );
}

#[test]
fn weights_are_valid_exactly_when_they_are_percentages_of_one_whole() {
    let s = split_parties();
    let list = |entries: &[i128]| -> Vec<(Address, i128)> {
        entries.iter().map(|percent| (s.a.clone(), *percent)).collect()
    };
    assert!(weights_are_valid(&list(&[100])));
    assert!(weights_are_valid(&list(&[33, 33, 34])));
    assert!(weights_are_valid(&list(&[0, 100, 0])));
    assert!(weights_are_valid(&list(&[1; 100])));
    assert!(!weights_are_valid(&list(&[])));
    assert!(!weights_are_valid(&list(&[99])));
    assert!(!weights_are_valid(&list(&[101])));
    assert!(!weights_are_valid(&list(&[60, 60, -20])));
    assert!(!weights_are_valid(&list(&[-20, 60, 60])));
    assert!(!weights_are_valid(&list(&[100, 1])));
    assert!(!weights_are_valid(&list(&[i128::MAX, i128::MAX])));
    assert!(!weights_are_valid(&list(&[i128::MIN, 100])));
}

#[test]
fn payouts_for_a_list_of_recipients() {
    let s = split_parties();
    let entries = vec![(s.b.clone(), 67), (s.a.clone(), 33)];
    let (transfers, sum) = payouts_for(&s.payer, &s.token, 10, &entries);
    assert_eq!(
        transfers,
        vec![
            Transfer { token: s.token.clone(), from: s.payer.clone(), to: s.b.clone(), amount: 6 },
            Transfer { token: s.token.clone(), from: s.payer.clone(), to: s.a.clone(), amount: 3 },
        ]
    );
    assert_eq!(sum, 9);
    let (transfers, sum) = payouts_for(&s.payer, &s.token, 0, &entries);
    assert_eq!(transfers.iter().map(|t| t.amount).collect::<Vec<_>>(), vec![0, 0]);
    assert_eq!(sum, 0);
}

#[test]
fn splits_are_restored_from_their_records() {
    let s = split_parties();
    let mut splitter = PaymentSplitter::new();
    create(&s, &mut splitter, weights(&s.env, &[(&s.a, 50), (&s.b, 50)]), 100).unwrap();
    create(&s, &mut splitter, weights(&s.env, &[(&s.c, 100)]), 7).unwrap();
    splitter.distribute(1, 100, true).unwrap();
    let records = vec![splitter.get_split(1).unwrap(), splitter.get_split(2).unwrap()];
    let mut restored = PaymentSplitter::from_records(records).unwrap();
    assert_eq!(restored.get_split(1), splitter.get_split(1));
    assert_eq!(restored.distribute(1, 100, true), Err(Error::InvalidState));
    let transfers = restored.distribute(2, 7, true).unwrap();
    assert_eq!(amount_to(&transfers, &s.c), 7);
}

#[test]
fn ill_formed_split_records_are_not_restored() {
    let s = split_parties();
    let record = |entries: &[(&Address, i128)], total: i128| PaymentSplit {
        payer: s.payer.clone(),
        recipients: weights(&s.env, entries),
        total_amount: total,
        distributed: false,
        token_address: s.token.clone(),
    };
    assert!(record(&[(&s.a, 100)], 1).is_well_formed());
    assert!(!record(&[(&s.a, 100)], 0).is_well_formed());
    assert!(!record(&[(&s.a, 99)], 1).is_well_formed());
    assert!(!record(&[(&s.a, 120), (&s.b, -20)], 1).is_well_formed());
    assert!(PaymentSplitter::from_records(vec![record(&[(&s.a, 100)], 1), record(&[], 1)])
        .is_none());
    assert!(PaymentSplitter::from_records(vec![record(&[(&s.a, 100)], 1)]).is_some());
    let copy = record(&[(&s.a, 40), (&s.b, 60)], 5).clone();
    assert_eq!(copy.recipients, weights(&s.env, &[(&s.b, 60), (&s.a, 40)]));
    assert_eq!(copy.payer, s.payer);
}
