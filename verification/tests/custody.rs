use hapr::address::Address;
use hapr::custody::{
    burn_tokens, burn_tokens_with, mint_is_well_formed, mint_tokens, mint_tokens_with,
    transfer_tokens, MintPlan, TokenBurn, TokenMint, TokenMove, MINT_ACCOUNT_SIZE,
};
use hapr::error::Failure;
use hapr::policy::Policy;
use hapr::storage::Account;
use solana_program::program_option::COption;
use solana_program::program_pack::Pack;
use solana_program::pubkey::Pubkey;
use spl_token::state::Mint;

fn key(byte: u8) -> Address {
    Address { bytes: [byte; 32] }
}

fn token_program() -> Address {
    Address { bytes: spl_token::id().to_bytes() }
}

fn rent_sysvar() -> Address {
    Address { bytes: solana_program::sysvar::rent::id().to_bytes() }
}

fn custody_policy() -> Policy {
    Policy::standard(
        token_program(),
        Address { bytes: spl_associated_token_account::id().to_bytes() },
        rent_sysvar(),
    )
}

fn program_id() -> Address {
    key(42)
}

fn account(key: Address, owner: Address, data: Vec<u8>) -> Account {
    Account { key, owner, lamports: 1_000, data }
}

fn mint_data(supply: u64) -> Vec<u8> {
    let mint = Mint {
        mint_authority: COption::Some(Pubkey::new_from_array([8; 32])),
        supply,
        decimals: 9,
        is_initialized: true,
        freeze_authority: COption::None,
    };
    let mut data = vec![0u8; Mint::LEN];
    Mint::pack(mint, &mut data).unwrap();
    data
}

fn treasury() -> (Address, u8) {
    custody_policy().treasury_authority(&program_id()).unwrap()
}

/// payer, mint, recipient, mint authority, system program, custody service
fn mint_accounts(supply: u64) -> Vec<Account> {
    vec![
        account(key(1), key(0), vec![]),
        account(key(2), token_program(), mint_data(supply)),
        account(key(3), token_program(), vec![0; 165]),
        account(treasury().0, key(0), vec![]),
        account(key(0), key(0), vec![]),
        account(token_program(), key(0), vec![]),
    ]
}

/// payer, burn account, mint, burn authority, system program, custody service,
/// funding-rate account
fn burn_accounts() -> Vec<Account> {
    vec![
        account(key(1), key(0), vec![]),
        account(key(3), token_program(), vec![0; 165]),
        account(key(2), token_program(), mint_data(500)),
        account(treasury().0, key(0), vec![]),
        account(key(0), key(0), vec![]),
        account(token_program(), key(0), vec![]),
        account(rent_sysvar(), key(0), vec![]),
    ]
}

/// sender, recipient, mint, sender's owner, system program, custody service
fn transfer_accounts() -> Vec<Account> {
    vec![
        account(key(3), token_program(), vec![0; 165]),
        account(key(4), token_program(), vec![0; 165]),
        account(key(2), token_program(), mint_data(500)),
        account(key(1), key(0), vec![]),
        account(key(0), key(0), vec![]),
        account(token_program(), key(0), vec![]),
    ]
}

#[test]
fn packed_mints_are_well_formed() {
    assert_eq!(MINT_ACCOUNT_SIZE, Mint::LEN);
    assert!(mint_is_well_formed(&mint_data(0)));
    assert!(mint_is_well_formed(&mint_data(u64::MAX)));
    assert!(mint_is_well_formed(&[0u8; 82]));
    let mut longer = mint_data(7);
    longer.extend_from_slice(&[9, 9, 9]);
    assert!(mint_is_well_formed(&longer));
}

#[test]
fn damaged_mints_are_not_well_formed() {
    assert!(!mint_is_well_formed(&[]));
    assert!(!mint_is_well_formed(&mint_data(0)[..81]));
    for (at, value) in [(0usize, 2u8), (1, 1), (2, 1), (3, 1), (45, 2), (46, 2), (47, 1), (49, 7)] {
        let mut data = mint_data(0);
        data[at] = value;
        assert!(!mint_is_well_formed(&data), "byte {} set to {}", at, value);
        assert!(Mint::unpack_from_slice(&data).is_err());
    }
    for at in [4usize, 36, 44, 50, 81] {
        let mut data = mint_data(0);
        data[at] = 0xff;
        assert!(mint_is_well_formed(&data), "byte {}", at);
    }
}

#[test]
fn mint_tells_custody_to_mint_under_the_treasury() {
    let policy = custody_policy();
    let accounts = mint_accounts(100);
    let (authority, bump) = treasury();
    assert_eq!(
        mint_tokens(&accounts, 250, &program_id(), &policy),
        Ok(MintPlan {
            create_recipient: false,
            payer: key(1),
            mint: TokenMint { mint: key(2), recipient: key(3), authority, amount: 250, bump },
        })
    );
}

#[test]
fn mint_creates_a_recipient_that_does_not_exist() {
    let policy = custody_policy();
    let mut accounts = mint_accounts(100);
    accounts[2].data = vec![];
    assert!(mint_tokens(&accounts, 1, &program_id(), &policy).unwrap().create_recipient);
    let mut accounts = mint_accounts(100);
    accounts[2].owner = key(0);
    assert!(mint_tokens(&accounts, 1, &program_id(), &policy).unwrap().create_recipient);
}

#[test]
fn mint_stops_at_the_maximum_supply() {
    let policy = custody_policy();
    let accounts = mint_accounts(999_999_000);
    assert!(mint_tokens(&accounts, 1_000, &program_id(), &policy).is_ok());
    assert_eq!(
        mint_tokens(&accounts, 1_001, &program_id(), &policy),
        Err(Failure::SupplyExceeded)
    );
    assert_eq!(
        mint_tokens(&accounts, u64::MAX, &program_id(), &policy),
        Err(Failure::SupplyExceeded)
    );
    let full = mint_accounts(1_000_000_000);
    assert!(mint_tokens(&full, 0, &program_id(), &policy).is_ok());
    assert_eq!(mint_tokens(&full, 1, &program_id(), &policy), Err(Failure::SupplyExceeded));
    let over = mint_accounts(u64::MAX);
    assert_eq!(mint_tokens(&over, 0, &program_id(), &policy), Err(Failure::SupplyExceeded));
}

#[test]
fn mint_checks_in_order() {
    let policy = custody_policy();
    let good = mint_accounts(100);
    assert_eq!(
        mint_tokens(&good[..5], 1, &program_id(), &policy),
        Err(Failure::NotEnoughAccountKeys)
    );
    let mut accounts = good.clone();
    accounts[3].key = key(9);
    accounts[1].owner = key(0);
    assert_eq!(
        mint_tokens(&accounts, 1, &program_id(), &policy),
        Err(Failure::InvalidAuthority)
    );
    assert_eq!(
        mint_tokens(&good, 1, &key(43), &policy),
        Err(Failure::InvalidAuthority)
    );
    assert_eq!(mint_tokens_with(&good, 1, &None, &policy), Err(Failure::InvalidSeeds));
    let mut accounts = good.clone();
    accounts[1].owner = key(0);
    accounts[1].data = vec![];
    assert_eq!(
        mint_tokens(&accounts, 1, &program_id(), &policy),
        Err(Failure::IncorrectProgramId)
    );
    let mut accounts = good.clone();
    accounts[1].data = vec![0; 81];
    assert_eq!(
        mint_tokens(&accounts, 1, &program_id(), &policy),
        Err(Failure::InvalidAccountData)
    );
    let mut accounts = mint_accounts(u64::MAX);
    accounts[1].data[45] = 3;
    assert_eq!(
        mint_tokens(&accounts, 1, &program_id(), &policy),
        Err(Failure::InvalidAccountData)
    );
}

#[test]
fn burn_tells_custody_to_burn_on_the_payers_signature() {
    let policy = custody_policy();
    assert_eq!(
        burn_tokens(&burn_accounts(), 40, &program_id(), &policy),
        Ok(TokenBurn { account: key(3), mint: key(2), authority: key(1), amount: 40 })
    );
}

#[test]
fn burn_checks_in_order() {
    let policy = custody_policy();
    let good = burn_accounts();
    assert_eq!(
        burn_tokens(&good[..6], 1, &program_id(), &policy),
        Err(Failure::NotEnoughAccountKeys)
    );
    let mut accounts = good.clone();
    accounts[2].owner = key(0);
    accounts[2].data = vec![];
    assert_eq!(
        burn_tokens(&accounts, 1, &program_id(), &policy),
        Err(Failure::IncorrectProgramId)
    );
    let mut accounts = good.clone();
    accounts[2].data[0] = 5;
    accounts[1].owner = key(0);
    assert_eq!(
        burn_tokens(&accounts, 1, &program_id(), &policy),
        Err(Failure::InvalidAccountData)
    );
    let mut accounts = good.clone();
    accounts[1].owner = key(0);
    accounts[3].key = key(9);
    assert_eq!(
        burn_tokens(&accounts, 1, &program_id(), &policy),
        Err(Failure::IncorrectProgramId)
    );
    let mut accounts = good.clone();
    accounts[3].key = key(9);
    accounts[6].key = key(9);
    assert_eq!(
        burn_tokens(&accounts, 1, &program_id(), &policy),
        Err(Failure::InvalidAuthority)
    );
    assert_eq!(burn_tokens_with(&good, 1, &None, &policy), Err(Failure::InvalidSeeds));
}

#[test]
fn burn_asks_nothing_of_the_seventh_account() {
    let policy = custody_policy();
    let mut accounts = burn_accounts();
    accounts[6].key = key(9);
    accounts[6].owner = key(9);
    assert_eq!(
        burn_tokens(&accounts, 40, &program_id(), &policy),
        Ok(TokenBurn { account: key(3), mint: key(2), authority: key(1), amount: 40 })
    );
}

#[test]
fn transfer_tells_custody_to_move_on_the_owners_signature() {
    let policy = custody_policy();
    assert_eq!(
        transfer_tokens(&transfer_accounts(), 5, &policy),
        Ok(TokenMove {
            source: key(3),
            destination: key(4),
            authority: key(1),
            amount: 5,
            bump: None
        })
    );
}

#[test]
fn transfer_needs_custody_accounts() {
    let policy = custody_policy();
    let good = transfer_accounts();
    assert_eq!(transfer_tokens(&good[..5], 5, &policy), Err(Failure::NotEnoughAccountKeys));
    let mut accounts = good.clone();
    accounts[0].owner = key(0);
    assert_eq!(transfer_tokens(&accounts, 5, &policy), Err(Failure::IncorrectProgramId));
}

#[test]
fn transfer_asks_only_for_the_senders_custody_account() {
    let policy = custody_policy();
    let mut accounts = transfer_accounts();
    accounts[1].owner = key(0);
    accounts[2].owner = key(0);
    assert_eq!(
        transfer_tokens(&accounts, 5, &policy),
        Ok(TokenMove {
            source: key(3),
            destination: key(4),
            authority: key(1),
            amount: 5,
            bump: None
        })
    );
}

#[test]
fn the_maximum_supply_is_the_policys() {
    let mut policy = custody_policy();
    policy.max_supply = 150;
    let accounts = mint_accounts(100);
    assert!(mint_tokens(&accounts, 50, &program_id(), &policy).is_ok());
    assert_eq!(mint_tokens(&accounts, 51, &program_id(), &policy), Err(Failure::SupplyExceeded));
    policy.max_supply = 99;
    assert_eq!(mint_tokens(&accounts, 0, &program_id(), &policy), Err(Failure::SupplyExceeded));
}
