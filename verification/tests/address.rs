use hapr::address::{authorize, verify, verify_derived, Address};
use hapr::error::Failure;
use hapr::policy::Policy;
use solana_program::pubkey::Pubkey;

fn address_of(key: &Pubkey) -> Address {
    Address { bytes: key.to_bytes() }
}

fn address_policy() -> Policy {
    Policy::standard(
        address_of(&spl_token::id()),
        address_of(&spl_associated_token_account::id()),
        address_of(&solana_program::sysvar::rent::id()),
    )
}

fn program() -> Pubkey {
    Pubkey::new_from_array([7u8; 32])
}

#[test]
fn derive_is_deterministic() {
    let program_id = address_of(&program());
    let seeds: [&[u8]; 1] = [b"treasurythissuperhyperAPRtoken"];
    let first = hapr::address::derive(&seeds, &program_id);
    let second = hapr::address::derive(&seeds, &program_id);
    assert!(first.is_some());
    assert_eq!(first, second);
}

#[test]
fn derive_agrees_with_the_ledger() {
    let seeds: [&[u8]; 2] = [b"ticket_seed", &[9u8; 32]];
    let (expected, expected_bump) = Pubkey::find_program_address(&seeds, &program());
    let found = hapr::address::derive(&seeds, &address_of(&program()));
    assert_eq!(found, Some((address_of(&expected), expected_bump)));
    assert_ne!(found.unwrap().0, address_of(&program()));
}

#[test]
fn derive_depends_on_seed_and_program() {
    let program_id = address_of(&program());
    let other_program = address_of(&Pubkey::new_from_array([8u8; 32]));
    let seeds: [&[u8]; 1] = [b"mintthissuperhyperAPRtoken"];
    let other_seeds: [&[u8]; 1] = [b"treasurythissuperhyperAPRtoken"];
    let base = hapr::address::derive(&seeds, &program_id).unwrap();
    assert_ne!(base.0, hapr::address::derive(&other_seeds, &program_id).unwrap().0);
    assert_ne!(base.0, hapr::address::derive(&seeds, &other_program).unwrap().0);
}

#[test]
fn derive_refuses_an_overlong_seed() {
    let long = [1u8; 33];
    let seeds: [&[u8]; 1] = [&long];
    assert_eq!(hapr::address::derive(&seeds, &address_of(&program())), None);
}

#[test]
fn verify_accepts_only_the_derived_address() {
    let program_id = address_of(&program());
    let seeds: [&[u8]; 1] = [b"treasurythissuperhyperAPRtoken"];
    let (derived, _) = hapr::address::derive(&seeds, &program_id).unwrap();
    assert!(verify(&derived, &seeds, &program_id));
    let mut other = derived;
    other.bytes[0] ^= 1;
    assert!(!verify(&other, &seeds, &program_id));
    assert!(!verify_derived(&derived, &None));
}

#[test]
fn authorize_gives_the_bump_or_the_reason() {
    let program_id = address_of(&program());
    let seeds: [&[u8]; 1] = [b"treasurythissuperhyperAPRtoken"];
    let found = hapr::address::derive(&seeds, &program_id);
    let (derived, bump) = found.unwrap();
    assert_eq!(authorize(&derived, &found), Ok(bump));
    assert_eq!(authorize(&program_id, &found), Err(Failure::InvalidAuthority));
    assert_eq!(authorize(&derived, &None), Err(Failure::InvalidSeeds));
}

#[test]
fn policy_derivations_use_the_fixed_seeds() {
    let policy = address_policy();
    let program_id = address_of(&program());
    let actor = Pubkey::new_from_array([3u8; 32]);
    let (treasury, treasury_bump) =
        Pubkey::find_program_address(&[b"treasurythissuperhyperAPRtoken"], &program());
    let (mint, mint_bump) =
        Pubkey::find_program_address(&[b"mintthissuperhyperAPRtoken"], &program());
    let (staker, staker_bump) =
        Pubkey::find_program_address(&[actor.as_ref(), b"staker"], &program());
    let (ledger, ledger_bump) =
        Pubkey::find_program_address(&[b"ticket_seed", actor.as_ref()], &program());
    assert_eq!(
        policy.treasury_authority(&program_id),
        Some((address_of(&treasury), treasury_bump))
    );
    assert_eq!(policy.mint_address(&program_id), Some((address_of(&mint), mint_bump)));
    assert_eq!(
        policy.staker_address(&address_of(&actor), &program_id),
        Some((address_of(&staker), staker_bump))
    );
    assert_eq!(
        policy.ledger_address(&address_of(&actor), &program_id),
        Some((address_of(&ledger), ledger_bump))
    );
}

#[test]
fn custody_address_is_the_associated_token_address() {
    let policy = address_policy();
    let wallet = Pubkey::new_from_array([4u8; 32]);
    let mint = Pubkey::new_from_array([5u8; 32]);
    let expected = spl_associated_token_account::get_associated_token_address(&wallet, &mint);
    let found = policy.custody_address(&address_of(&wallet), &address_of(&mint));
    assert_eq!(found.map(|pair| pair.0), Some(address_of(&expected)));
}

#[test]
fn standard_policy_holds_the_standard_values() {
    let policy = address_policy();
    assert_eq!(policy.treasury_seed, b"treasurythissuperhyperAPRtoken".to_vec());
    assert_eq!(policy.mint_seed, b"mintthissuperhyperAPRtoken".to_vec());
    assert_eq!(policy.staker_seed, b"staker".to_vec());
    assert_eq!(policy.ticket_seed, b"ticket_seed".to_vec());
    assert_eq!(policy.max_supply, 1_000_000_000);
    assert_eq!(policy.staking_duration, 86_400);
    assert_eq!(policy.max_tickets, 178);
    assert_eq!(policy.token_program, address_of(&spl_token::id()));
}
