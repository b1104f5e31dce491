use soroban_sdk::testutils::Address as _;
use soroban_sdk::token::{StellarAssetClient, TokenClient};
use soroban_sdk::testutils::EnvTestConfig;
use soroban_sdk::{Address, Env, Symbol};
use veritixpay::error::Error;
use veritixpay::escrow::{EscrowContract, EscrowInfo};
use veritixpay::ledger::Transfer;

struct Parties {
    env: Env,
    sender: Address,
    receiver: Address,
    token: Address,
    holding: Address,
}

fn test_env() -> Env {
    Env::new_with_config(EnvTestConfig { capture_snapshot_at_drop: false })
}

fn parties() -> Parties {
    let env = test_env();
    Parties {
        sender: Address::generate(&env),
        receiver: Address::generate(&env),
        token: Address::generate(&env),
        holding: Address::generate(&env),
        env,
    }
}

fn funded_parties(sender_funds: i128) -> Parties {
    let env = test_env();
    env.mock_all_auths();
    let admin = Address::generate(&env);
    let token = env.register_stellar_asset_contract_v2(admin).address();
    let sender = Address::generate(&env);
    StellarAssetClient::new(&env, &token).mint(&sender, &sender_funds);
    Parties {
        sender,
        receiver: Address::generate(&env),
        token,
        holding: Address::generate(&env),
        env,
    }
}

fn perform(env: &Env, transfer: &Transfer) {
    TokenClient::new(env, &transfer.token).transfer(&transfer.from, &transfer.to, &transfer.amount);
}

fn balance(env: &Env, token: &Address, owner: &Address) -> i128 {
    TokenClient::new(env, token).balance(owner)
}

fn open(p: &Parties, escrows: &mut EscrowContract, amount: i128) -> (u32, Transfer) {
    escrows
        .create(
            p.sender.clone(),
            p.receiver.clone(),
            amount,
            Symbol::new(&p.env, "time"),
            p.token.clone(),
            p.holding.clone(),
            amount,
            true,
        )
        .unwrap()
}

#[test]
fn create_stores_an_open_escrow() {
    let p = parties();
    let mut escrows = EscrowContract::new();
    let (id, deposit) = open(&p, &mut escrows, 500);
    assert_eq!(id, 1);
    assert_eq!(
        deposit,
        Transfer { token: p.token.clone(), from: p.sender.clone(), to: p.holding.clone(), amount: 500 }
    );
    let info = escrows.get_escrow(1).unwrap();
    assert_eq!(
        info,
        EscrowInfo {
            sender: p.sender.clone(),
            receiver: p.receiver.clone(),
            amount: 500,
            condition: Symbol::new(&p.env, "time"),
            released: false,
            refunded: false,
        }
    );
    assert_eq!(escrows.count(), 1);
}

#[test]
fn escrow_identifiers_count_up_from_one() {
    let p = parties();
    let mut escrows = EscrowContract::new();
    assert_eq!(escrows.count(), 0);
    assert_eq!(open(&p, &mut escrows, 10).0, 1);
    assert_eq!(open(&p, &mut escrows, 20).0, 2);
    assert_eq!(open(&p, &mut escrows, 30).0, 3);
    assert_eq!(escrows.count(), 3);
    assert_eq!(escrows.get_escrow(2).unwrap().amount, 20);
}

#[test]
fn get_escrow_of_unknown_identifier_is_not_found() {
    let p = parties();
    let mut escrows = EscrowContract::new();
    assert_eq!(escrows.get_escrow(0), Err(Error::NotFound));
    assert_eq!(escrows.get_escrow(1), Err(Error::NotFound));
    open(&p, &mut escrows, 10);
    assert_eq!(escrows.get_escrow(0), Err(Error::NotFound));
    assert_eq!(escrows.get_escrow(2), Err(Error::NotFound));
    assert_eq!(escrows.get_escrow(u32::MAX), Err(Error::NotFound));
}

#[test]
fn create_without_consent_is_refused() {
    let p = parties();
    let mut escrows = EscrowContract::new();
    let result = escrows.create(
        p.sender.clone(),
        p.receiver.clone(),
        500,
        Symbol::new(&p.env, "time"),
        p.token.clone(),
        p.holding.clone(),
        1000,
        false,
    );
    assert_eq!(result, Err(Error::AuthorizationFailure));
    assert_eq!(escrows.count(), 0);
}

#[test]
fn create_beyond_the_sender_balance_is_refused() {
    let p = parties();
    let mut escrows = EscrowContract::new();
    let result = escrows.create(
        p.sender.clone(),
        p.receiver.clone(),
        500,
        Symbol::new(&p.env, "time"),
        p.token.clone(),
        p.holding.clone(),
        499,
        true,
    );
    assert_eq!(result, Err(Error::InsufficientFunds));
    assert_eq!(escrows.count(), 0);
}

#[test]
fn release_marks_released_and_pays_the_receiver() {
    let p = parties();
    let mut escrows = EscrowContract::new();
    let (id, _) = open(&p, &mut escrows, 500);
    let payout = escrows.release(id, p.token.clone(), p.holding.clone(), 500).unwrap();
    assert_eq!(
        payout,
        Transfer { token: p.token.clone(), from: p.holding.clone(), to: p.receiver.clone(), amount: 500 }
    );
    let info = escrows.get_escrow(id).unwrap();
    assert!(info.released);
    assert!(!info.refunded);
}

#[test]
fn refund_marks_refunded_and_pays_the_sender() {
    let p = parties();
    let mut escrows = EscrowContract::new();
    let (id, _) = open(&p, &mut escrows, 500);
    let payout = escrows.refund(id, p.token.clone(), p.holding.clone(), 500, true).unwrap();
    assert_eq!(
        payout,
        Transfer { token: p.token.clone(), from: p.holding.clone(), to: p.sender.clone(), amount: 500 }
    );
    let info = escrows.get_escrow(id).unwrap();
    assert!(info.refunded);
    assert!(!info.released);
}

#[test]
fn release_then_refund_is_an_invalid_state() {
    let p = parties();
    let mut escrows = EscrowContract::new();
    let (id, _) = open(&p, &mut escrows, 500);
    escrows.release(id, p.token.clone(), p.holding.clone(), 500).unwrap();
    assert_eq!(
        escrows.refund(id, p.token.clone(), p.holding.clone(), 500, true),
        Err(Error::InvalidState)
    );
    assert_eq!(
        escrows.release(id, p.token.clone(), p.holding.clone(), 500),
        Err(Error::InvalidState)
    );
    let info = escrows.get_escrow(id).unwrap();
    assert!(info.released && !info.refunded);
}

#[test]
fn refund_then_release_is_an_invalid_state() {
    let p = parties();
    let mut escrows = EscrowContract::new();
    let (id, _) = open(&p, &mut escrows, 500);
    escrows.refund(id, p.token.clone(), p.holding.clone(), 500, true).unwrap();
    assert_eq!(
        escrows.release(id, p.token.clone(), p.holding.clone(), 500),
        Err(Error::InvalidState)
    );
    assert_eq!(
        escrows.refund(id, p.token.clone(), p.holding.clone(), 500, true),
        Err(Error::InvalidState)
    );
    let info = escrows.get_escrow(id).unwrap();
    assert!(info.refunded && !info.released);
}

#[test]
fn refund_without_the_senders_consent_is_refused() {
    let p = parties();
    let mut escrows = EscrowContract::new();
    let (id, _) = open(&p, &mut escrows, 500);
    assert_eq!(
        escrows.refund(id, p.token.clone(), p.holding.clone(), 500, false),
        Err(Error::AuthorizationFailure)
    );
    assert!(!escrows.get_escrow(id).unwrap().refunded);
}

#[test]
fn release_and_refund_of_unknown_escrow_are_not_found() {
    let p = parties();
    let mut escrows = EscrowContract::new();
    open(&p, &mut escrows, 500);
    assert_eq!(escrows.release(2, p.token.clone(), p.holding.clone(), 500), Err(Error::NotFound));
    assert_eq!(
        escrows.refund(2, p.token.clone(), p.holding.clone(), 500, false),
        Err(Error::NotFound)
    );
    assert_eq!(escrows.release(0, p.token.clone(), p.holding.clone(), 500), Err(Error::NotFound));
}

#[test]
fn release_beyond_the_holding_balance_changes_nothing() {
    let p = parties();
    let mut escrows = EscrowContract::new();
    let (id, _) = open(&p, &mut escrows, 500);
    assert_eq!(
        escrows.release(id, p.token.clone(), p.holding.clone(), 499),
        Err(Error::InsufficientFunds)
    );
    assert_eq!(
        escrows.refund(id, p.token.clone(), p.holding.clone(), 0, true),
        Err(Error::InsufficientFunds)
    );
    let info = escrows.get_escrow(id).unwrap();
    assert!(!info.released && !info.refunded);
    assert!(escrows.release(id, p.token.clone(), p.holding.clone(), 500).is_ok());
}

#[test]
fn a_terminal_escrow_survives_operations_on_others() {
    let p = parties();
    let mut escrows = EscrowContract::new();
    let (first, _) = open(&p, &mut escrows, 100);
    escrows.release(first, p.token.clone(), p.holding.clone(), 100).unwrap();
    let released = escrows.get_escrow(first).unwrap();
    let (second, _) = open(&p, &mut escrows, 200);
    escrows.refund(second, p.token.clone(), p.holding.clone(), 200, true).unwrap();
    assert_eq!(escrows.get_escrow(first).unwrap(), released);
}

#[test]
fn escrow_of_500_released_to_the_receiver() {
    let p = funded_parties(1_000);
    let mut escrows = EscrowContract::new();
    let sender_balance = balance(&p.env, &p.token, &p.sender);
    let (id, deposit) = escrows
        .create(
            p.sender.clone(),
            p.receiver.clone(),
            500,
            Symbol::new(&p.env, "none"),
            p.token.clone(),
            p.holding.clone(),
            sender_balance,
            true,
        )
        .unwrap();
    perform(&p.env, &deposit);
    assert_eq!(balance(&p.env, &p.token, &p.sender), 500);
    assert_eq!(balance(&p.env, &p.token, &p.holding), 500);

    let receiver_before = balance(&p.env, &p.token, &p.receiver);
    let holding_before = balance(&p.env, &p.token, &p.holding);
    let payout = escrows.release(id, p.token.clone(), p.holding.clone(), holding_before).unwrap();
    perform(&p.env, &payout);
    assert_eq!(balance(&p.env, &p.token, &p.receiver), receiver_before + 500);
    assert_eq!(balance(&p.env, &p.token, &p.holding), holding_before - 500);

    let holding_now = balance(&p.env, &p.token, &p.holding);
    assert_eq!(
        escrows.release(id, p.token.clone(), p.holding.clone(), holding_now),
        Err(Error::InvalidState)
    );
    assert_eq!(balance(&p.env, &p.token, &p.receiver), receiver_before + 500);
}

#[test]
fn refund_restores_the_senders_balance() {
    let p = funded_parties(750);
    let mut escrows = EscrowContract::new();
    let (id, deposit) = escrows
        .create(
            p.sender.clone(),
            p.receiver.clone(),
            300,
            Symbol::new(&p.env, "none"),
            p.token.clone(),
            p.holding.clone(),
            balance(&p.env, &p.token, &p.sender),
            true,
        )
        .unwrap();
    perform(&p.env, &deposit);
    assert_eq!(balance(&p.env, &p.token, &p.sender), 450);
    let payout = escrows
        .refund(id, p.token.clone(), p.holding.clone(), balance(&p.env, &p.token, &p.holding), true)
        .unwrap();
    perform(&p.env, &payout);
    assert_eq!(balance(&p.env, &p.token, &p.sender), 750);
    assert_eq!(balance(&p.env, &p.token, &p.holding), 0);
    assert_eq!(balance(&p.env, &p.token, &p.receiver), 0);
}

#[test]
fn escrows_are_restored_from_their_records() {
    let p = parties();
    let mut escrows = EscrowContract::new();
    open(&p, &mut escrows, 100);
    let (second, _) = open(&p, &mut escrows, 200);
    escrows.release(second, p.token.clone(), p.holding.clone(), 200).unwrap();
    let records = vec![escrows.get_escrow(1).unwrap(), escrows.get_escrow(2).unwrap()];
    let mut restored = EscrowContract::from_records(records).expect("well-formed records");
    assert_eq!(restored.count(), 2);
    assert_eq!(restored.get_escrow(1), escrows.get_escrow(1));
    assert_eq!(restored.get_escrow(2), escrows.get_escrow(2));
    assert_eq!(
        restored.release(2, p.token.clone(), p.holding.clone(), 200),
        Err(Error::InvalidState)
    );
    assert_eq!(open(&p, &mut restored, 300).0, 3);
}

#[test]
fn ill_formed_escrow_records_are_not_restored() {
    let p = parties();
    let record = |amount: i128, released: bool, refunded: bool| EscrowInfo {
        sender: p.sender.clone(),
        receiver: p.receiver.clone(),
        amount,
        condition: Symbol::new(&p.env, "time"),
        released,
        refunded,
    };
    assert!(record(1, false, false).is_well_formed());
    assert!(record(1, true, false).is_well_formed());
    assert!(record(1, false, true).is_well_formed());
    assert!(!record(1, true, true).is_well_formed());
    assert!(!record(0, false, false).is_well_formed());
    assert!(!record(-5, false, false).is_well_formed());
    assert!(EscrowContract::from_records(vec![record(1, false, false), record(1, true, true)])
        .is_none());
    assert!(EscrowContract::from_records(vec![record(0, false, false)]).is_none());
    assert!(EscrowContract::from_records(vec![]).is_some());
}

#[test]
fn a_copy_of_a_transfer_or_an_escrow_equals_what_it_copies() {
    let p = parties();
    let mut escrows = EscrowContract::new();
    let (_, deposit) = open(&p, &mut escrows, 42);
    let copy = deposit.clone();
    assert_eq!(copy, deposit);
    assert_eq!(copy.from, p.sender);
    assert_eq!(copy.to, p.holding);
    assert_eq!(copy.token, p.token);
    let info = escrows.get_escrow(1).unwrap();
    let again = info.clone();
    assert_eq!(again, info);
    assert_eq!(again.condition, Symbol::new(&p.env, "time"));
    assert_eq!(again.receiver, p.receiver);
}
