use hapr::address::Address;
use hapr::custody::{TokenMint, TokenMove};
use hapr::error::{CustomError, Failure};
use hapr::policy::Policy;
use hapr::storage::{Account, StorageStep};
use hapr::ticketing::{
    purchase_tickets, purchase_tickets_with, redeem_tickets, redeem_tickets_with,
};
use hapr::tickets::{Ticket, TicketAccount};

fn key(byte: u8) -> Address {
    Address { bytes: [byte; 32] }
}

fn token_program() -> Address {
    Address { bytes: spl_token::id().to_bytes() }
}

fn ticketing_policy() -> Policy {
    Policy::standard(
        token_program(),
        Address { bytes: spl_associated_token_account::id().to_bytes() },
        Address { bytes: solana_program::sysvar::rent::id().to_bytes() },
    )
}

fn program_id() -> Address {
    key(42)
}

fn buyer() -> Address {
    key(3)
}

fn account(key: Address, owner: Address, data: Vec<u8>) -> Account {
    Account { key, owner, lamports: 1_000, data }
}

fn ticket(count: u64, deposit_time: i64, vesting_period: i64) -> Ticket {
    Ticket { number_of_tickets: count, deposit_time, vesting_period, claimed: false }
}

fn treasury() -> (Address, u8) {
    ticketing_policy().treasury_authority(&program_id()).unwrap()
}

fn ledger_address() -> (Address, u8) {
    ticketing_policy().ledger_address(&buyer(), &program_id()).unwrap()
}

/// buyer, buyer custody, treasury custody, treasury authority, ledger, custody
/// service, system program
fn purchase_accounts(ledger_data: Vec<u8>) -> Vec<Account> {
    vec![
        account(buyer(), key(0), vec![]),
        account(key(1), token_program(), vec![0; 165]),
        account(key(2), token_program(), vec![0; 165]),
        account(treasury().0, key(0), vec![]),
        account(ledger_address().0, program_id(), ledger_data),
        account(token_program(), key(0), vec![]),
        account(key(0), key(0), vec![]),
    ]
}

/// ledger, owner, mint, owner custody, treasury authority, custody service
fn redeem_accounts(ledger_data: Vec<u8>) -> Vec<Account> {
    vec![
        account(ledger_address().0, program_id(), ledger_data),
        account(buyer(), key(0), vec![]),
        account(key(6), token_program(), vec![0; 82]),
        account(key(1), token_program(), vec![0; 165]),
        account(treasury().0, key(0), vec![]),
        account(token_program(), key(0), vec![]),
    ]
}

fn three_tickets() -> Vec<u8> {
    let policy = ticketing_policy();
    let mut data = vec![];
    for vesting in [0i64, 100, 0] {
        let accounts = purchase_accounts(data);
        data = purchase_tickets(&accounts, 1_000_000, vesting, &program_id(), &policy, 0)
            .unwrap()
            .data;
    }
    data
}

#[test]
fn first_purchase_debits_the_price_and_creates_the_ledger() {
    let policy = ticketing_policy();
    let accounts = purchase_accounts(vec![]);
    let plan = purchase_tickets(&accounts, 2_500_000, 0, &program_id(), &policy, 77).unwrap();
    let (authority, bump) = treasury();
    assert_eq!(
        plan.transfer,
        TokenMove {
            source: key(1),
            destination: key(2),
            authority,
            amount: 2_000_000,
            bump: Some(bump)
        }
    );
    assert_eq!(
        plan.storage,
        StorageStep::Create { size: 69, owner: program_id(), funder: buyer() }
    );
    assert_eq!(plan.ledger_bump, ledger_address().1);
    assert_eq!(
        plan.ledger,
        TicketAccount { owner: buyer(), tickets: vec![ticket(2, 77, 0)], ticket_total: 2 }
    );
    assert_eq!(plan.data.len(), 69);
    assert_eq!(TicketAccount::from_bytes(&plan.data), Some(plan.ledger));
}

#[test]
fn later_purchase_grows_the_ledger_by_one_entry() {
    let policy = ticketing_policy();
    let first =
        purchase_tickets(&purchase_accounts(vec![]), 1_000_000, 10, &program_id(), &policy, 1)
            .unwrap();
    let accounts = purchase_accounts(first.data);
    let plan = purchase_tickets(&accounts, 3_000_000, 20, &program_id(), &policy, 2).unwrap();
    assert_eq!(
        plan.storage,
        StorageStep::Resize { new_size: 94, zero_tail: false, payer: buyer() }
    );
    assert_eq!(plan.transfer.amount, 3_000_000);
    assert_eq!(plan.ledger.tickets, vec![ticket(1, 1, 10), ticket(3, 2, 20)]);
    assert_eq!(plan.ledger.ticket_total, 4);
    assert_eq!(plan.data.len(), 94);
    assert_eq!(plan.data[..69][44..], accounts[4].data[44..]);
}

#[test]
fn purchase_checks_in_order() {
    let policy = ticketing_policy();
    let good = purchase_accounts(vec![]);
    assert_eq!(
        purchase_tickets(&good[..6], 1_000_000, 0, &program_id(), &policy, 0),
        Err(Failure::NotEnoughAccountKeys)
    );
    let mut accounts = good.clone();
    accounts[4].key = key(9);
    accounts[3].key = key(9);
    assert_eq!(
        purchase_tickets(&accounts, 1, 0, &program_id(), &policy, 0),
        Err(Failure::InvalidAuthority)
    );
    let mut accounts = good.clone();
    accounts[3].key = key(9);
    assert_eq!(
        purchase_tickets(&accounts, 1, 0, &program_id(), &policy, 0),
        Err(Failure::InvalidAuthority)
    );
    let found = Some(ledger_address());
    assert_eq!(
        purchase_tickets_with(&good, 1, 0, &program_id(), &None, &Some(treasury()), &policy, 0),
        Err(Failure::InvalidSeeds)
    );
    assert_eq!(
        purchase_tickets_with(&good, 1, 0, &program_id(), &found, &None, &policy, 0),
        Err(Failure::InvalidSeeds)
    );
    let mut accounts = purchase_accounts(vec![1, 2, 3]);
    accounts[4].owner = key(9);
    assert_eq!(
        purchase_tickets(&accounts, 999_999, 0, &program_id(), &policy, 0),
        Err(Failure::ZeroTickets)
    );
    assert_eq!(
        purchase_tickets(&accounts, 1_000_000, 0, &program_id(), &policy, 0),
        Err(Failure::IllegalOwner)
    );
    accounts[4].owner = program_id();
    assert_eq!(
        purchase_tickets(&accounts, 1_000_000, 0, &program_id(), &policy, 0),
        Err(Failure::InvalidAccountData)
    );
}

#[test]
fn purchase_into_a_full_ledger_is_refused() {
    let mut policy = ticketing_policy();
    policy.max_tickets = 2;
    let first =
        purchase_tickets(&purchase_accounts(vec![]), 1_000_000, 0, &program_id(), &policy, 0)
            .unwrap();
    let second =
        purchase_tickets(&purchase_accounts(first.data), 1_000_000, 0, &program_id(), &policy, 0)
            .unwrap();
    assert_eq!(
        purchase_tickets(&purchase_accounts(second.data), 1_000_000, 0, &program_id(), &policy, 0),
        Err(Failure::TicketQueueFull)
    );
}

#[test]
fn redeem_mints_once_and_shrinks_the_ledger() {
    let policy = ticketing_policy();
    let accounts = redeem_accounts(three_tickets());
    assert_eq!(accounts[0].data.len(), 44 + 3 * 25);
    let plan = redeem_tickets(&accounts, 2, &program_id(), &policy, 50).unwrap();
    let (authority, bump) = treasury();
    assert_eq!(
        plan.release,
        TokenMint { mint: key(6), recipient: key(1), authority, amount: 2_000_000, bump }
    );
    assert_eq!(
        plan.storage,
        StorageStep::Resize { new_size: 69, zero_tail: true, payer: buyer() }
    );
    assert_eq!(plan.ledger.tickets, vec![ticket(1, 0, 100)]);
    assert_eq!(plan.ledger.ticket_total, 1);
    assert_eq!(plan.data.len(), 69);
    assert_eq!(TicketAccount::from_bytes(&plan.data), Some(plan.ledger));
}

#[test]
fn redeem_that_cannot_be_met_mints_nothing() {
    let policy = ticketing_policy();
    let accounts = redeem_accounts(three_tickets());
    let kept = accounts.clone();
    assert_eq!(
        redeem_tickets(&accounts, 3, &program_id(), &policy, 50),
        Err(Failure::Custom(CustomError::InsufficientVestedTickets))
    );
    assert_eq!(accounts, kept);
}

#[test]
fn redeem_of_part_of_an_entry_keeps_the_storage() {
    let policy = ticketing_policy();
    let bought =
        purchase_tickets(&purchase_accounts(vec![]), 5_000_000, 0, &program_id(), &policy, 0)
            .unwrap();
    let accounts = redeem_accounts(bought.data);
    let plan = redeem_tickets(&accounts, 2, &program_id(), &policy, 31_536_000).unwrap();
    assert_eq!(plan.storage, StorageStep::Keep);
    assert_eq!(plan.release.amount, 2_100_000);
    assert_eq!(plan.ledger.tickets, vec![ticket(3, 0, 0)]);
}

#[test]
fn redeem_operation_by_a_stranger_is_refused() {
    let policy = ticketing_policy();
    let mut accounts = redeem_accounts(three_tickets());
    accounts[1].key = key(4);
    let kept = accounts.clone();
    assert_eq!(
        redeem_tickets(&accounts, 1, &program_id(), &policy, 50),
        Err(Failure::Custom(CustomError::UnauthorizedAccess))
    );
    assert_eq!(accounts, kept);
}

#[test]
fn redeem_checks_in_order() {
    let policy = ticketing_policy();
    let good = redeem_accounts(three_tickets());
    assert_eq!(
        redeem_tickets(&good[..5], 1, &program_id(), &policy, 50),
        Err(Failure::NotEnoughAccountKeys)
    );
    let mut accounts = good.clone();
    accounts[4].key = key(9);
    accounts[0].data = vec![];
    assert_eq!(
        redeem_tickets(&accounts, 1, &program_id(), &policy, 50),
        Err(Failure::InvalidAuthority)
    );
    assert_eq!(redeem_tickets_with(&good, 1, &None, 50), Err(Failure::InvalidSeeds));
    let mut accounts = good.clone();
    accounts[0].data = vec![];
    accounts[1].key = key(4);
    assert_eq!(
        redeem_tickets(&accounts, 1, &program_id(), &policy, 50),
        Err(Failure::UninitializedAccount)
    );
    accounts[0].data = vec![0; 43];
    assert_eq!(
        redeem_tickets(&accounts, 1, &program_id(), &policy, 50),
        Err(Failure::InvalidAccountData)
    );
    let empty = TicketAccount::new(buyer()).to_bytes();
    assert_eq!(
        redeem_tickets(&redeem_accounts(empty), 1, &program_id(), &policy, 50),
        Err(Failure::Custom(CustomError::InsufficientTickets))
    );
}

#[test]
fn redeem_of_everything_leaves_the_header() {
    let policy = ticketing_policy();
    let accounts = redeem_accounts(three_tickets());
    let plan = redeem_tickets(&accounts, 99, &program_id(), &policy, 100).unwrap();
    assert_eq!(plan.release.amount, 3_000_000);
    assert_eq!(
        plan.storage,
        StorageStep::Resize { new_size: 44, zero_tail: true, payer: buyer() }
    );
    assert_eq!(plan.ledger, TicketAccount::new(buyer()));
    assert_eq!(plan.data.len(), 44);
}
