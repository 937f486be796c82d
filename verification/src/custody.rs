//! The treasury and token-custody façade: what the custody service is told to
//! mint, burn and move, and the checks that come before.
//!
//! The custody service holds every balance and carries out every movement. This
//! module holds none and moves none: it checks authority, ownership and supply,
//! and states the one instruction to give. None of the three operations may be
//! replayed blindly; a caller that repeats one states the amount anew.

use crate::address::{authority_view, spec_authorize, Address};
use crate::error::Failure;
use crate::layout::{le_value, read_le};
use crate::policy::Policy;
use crate::storage::Account;
use vstd::prelude::*;

verus! {

/// Bytes of a mint descriptor.
pub const MINT_ACCOUNT_SIZE: usize = 82;

/// Bytes of a custody account.
pub const TOKEN_ACCOUNT_SIZE: usize = 165;

/// Decimal places of the token.
pub const MINT_DECIMALS: u8 = 9;

/// An instruction to mint `amount` to `recipient`, signed for the treasury
/// authority with `bump`.
#[derive(Clone, Copy, Debug, PartialEq, Eq)]
pub struct TokenMint {
    pub mint: Address,
    pub recipient: Address,
    pub authority: Address,
    pub amount: u64,
    pub bump: u8,
}

/// An instruction to burn `amount` from `account`, on `authority`'s signature.
#[derive(Clone, Copy, Debug, PartialEq, Eq)]
pub struct TokenBurn {
    pub account: Address,
    pub mint: Address,
    pub authority: Address,
    pub amount: u64,
}

/// An instruction to move `amount` from `source` to `destination`. With a bump
/// it is signed for the treasury authority, without one `authority` has signed
/// itself.
#[derive(Clone, Copy, Debug, PartialEq, Eq)]
pub struct TokenMove {
    pub source: Address,
    pub destination: Address,
    pub authority: Address,
    pub amount: u64,
    pub bump: Option<u8>,
}

/// What a mint operation comes to.
#[derive(Clone, Copy, Debug, PartialEq, Eq)]
pub struct MintPlan {
    /// Whether the recipient's custody account has to be created first, at
    /// `payer`'s cost.
    pub create_recipient: bool,
    pub payer: Address,
    /// The minting itself.
    pub mint: TokenMint,
}

/// Whether the four bytes at `at` say "absent" or "present": 0 or 1 as a
/// little-endian 32-bit number.
pub open spec fn presence_tag(data: Seq<u8>, at: int) -> bool {
    &&& data[at] <= 1
    &&& data[at + 1] == 0
    &&& data[at + 2] == 0
    &&& data[at + 3] == 0
}

/// Whether the first 82 bytes of `data` unpack as a mint descriptor: an optional
/// mint authority in 36 bytes, the supply in 8, the decimals in 1, a flag byte
/// that is 0 or 1, and an optional freeze authority in 36.
pub open spec fn mint_unpacks(data: Seq<u8>) -> bool {
    &&& presence_tag(data, 0)
    &&& data[45] <= 1
    &&& presence_tag(data, 46)
}

/// Whether `data` is a structurally valid mint descriptor.
pub open spec fn mint_well_formed(data: Seq<u8>) -> bool {
    data.len() >= MINT_ACCOUNT_SIZE && mint_unpacks(data)
}

/// The supply that a mint descriptor states.
pub open spec fn mint_supply(data: Seq<u8>) -> nat {
    le_value(data.subrange(36, 44))
}

/// Calls `Mint::unpack_from_slice` of `spl_token` and says whether it gave a
/// mint.
///
/// Trusted: the call succeeds exactly where both presence tags are 0 or 1 and
/// the initialisation flag is 0 or 1. It looks at the first 82 bytes only, and
/// does not return on fewer.
#[verifier::external_body]
fn unpack_mint(data: &[u8]) -> (ok: bool)
    requires
        data.len() >= MINT_ACCOUNT_SIZE,
    ensures
        ok == mint_unpacks(data@),
{
    <spl_token::state::Mint as solana_program::program_pack::Pack>::unpack_from_slice(data).is_ok()
}

/// Whether `data` is a structurally valid mint descriptor.
pub fn mint_is_well_formed(data: &[u8]) -> (ok: bool)
    ensures
        ok == mint_well_formed(data@),
{
    data.len() >= MINT_ACCOUNT_SIZE && unpack_mint(data)
}

/// Whether the custody service holds `account`.
pub open spec fn custody_held(account: Account, policy: Policy) -> bool {
    account.owner@ == policy.token_program@
}

/// The first reason, if any, for which a mint of `amount` is refused:
/// too few accounts; the account presented as mint authority is not the
/// treasury authority; the mint is not held by the custody service or is no
/// valid mint; the supply would pass the maximum.
pub open spec fn mint_failure(
    accounts: Seq<Account>,
    amount: u64,
    treasury: Option<(Seq<u8>, u8)>,
    policy: Policy,
) -> Option<Failure> {
    if accounts.len() < 6 {
        Some(Failure::NotEnoughAccountKeys)
    } else if spec_authorize(accounts[3].key@, treasury) is Err {
        Some(spec_authorize(accounts[3].key@, treasury)->Err_0)
    } else if !custody_held(accounts[1], policy) {
        Some(Failure::IncorrectProgramId)
    } else if !mint_well_formed(accounts[1].data@) {
        Some(Failure::InvalidAccountData)
    } else if mint_supply(accounts[1].data@) + amount > policy.max_supply {
        Some(Failure::SupplyExceeded)
    } else {
        None
    }
}

/// What a mint of `amount` comes to, given the treasury authority.
pub open spec fn mint_outcome(
    accounts: Seq<Account>,
    amount: u64,
    treasury: Option<(Seq<u8>, u8)>,
    policy: Policy,
    result: Result<MintPlan, Failure>,
) -> bool {
    match result {
        Ok(plan) => {
            &&& mint_failure(accounts, amount, treasury, policy) is None
            &&& plan.create_recipient == (!custody_held(accounts[2], policy)
                || accounts[2].data.len() == 0)
            &&& plan.payer == accounts[0].key
            &&& plan.mint == (TokenMint {
                mint: accounts[1].key,
                recipient: accounts[2].key,
                authority: accounts[3].key,
                amount,
                bump: spec_authorize(accounts[3].key@, treasury)->Ok_0,
            })
        },
        Err(failure) => mint_failure(accounts, amount, treasury, policy) == Some(failure),
    }
}

/// Mints `amount` to the recipient, given the treasury authority as derived.
///
/// The accounts are, in order: payer, mint, recipient's custody account, mint
/// authority, system program, custody service.
pub fn mint_tokens_with(
    accounts: &[Account],
    amount: u64,
    treasury: &Option<(Address, u8)>,
    policy: &Policy,
) -> (result: Result<MintPlan, Failure>)
    ensures
        mint_outcome(accounts@, amount, authority_view(*treasury), *policy, result),
{
    if accounts.len() < 6 {
        return Err(Failure::NotEnoughAccountKeys);
    }
    let bump: u8 = match crate::address::authorize(&accounts[3].key, treasury) {
        Ok(bump) => bump,
        Err(failure) => {
            return Err(failure);
        },
    };
    if accounts[1].owner != policy.token_program {
        return Err(Failure::IncorrectProgramId);
    }
    if !mint_is_well_formed(accounts[1].data.as_slice()) {
        return Err(Failure::InvalidAccountData);
    }
    let supply: u64 = read_le(accounts[1].data.as_slice(), 36, 8);
    if supply > policy.max_supply || amount > policy.max_supply - supply {
        return Err(Failure::SupplyExceeded);
    }
    let create_recipient: bool = accounts[2].owner != policy.token_program
        || accounts[2].data.len() == 0;
    Ok(
        MintPlan {
            create_recipient,
            payer: accounts[0].key,
            mint: TokenMint {
                mint: accounts[1].key,
                recipient: accounts[2].key,
                authority: accounts[3].key,
                amount,
                bump,
            },
        },
    )
}

/// Mints `amount` to the recipient: fails with `SupplyExceeded` where the
/// supply would pass the maximum, and otherwise tells custody to mint,
/// authenticated as the treasury authority.
///
/// The accounts are, in order: payer, mint, recipient's custody account, mint
/// authority, system program, custody service.
pub fn mint_tokens(
    accounts: &[Account],
    amount: u64,
    program_id: &Address,
    policy: &Policy,
) -> (result: Result<MintPlan, Failure>)
    ensures
        mint_outcome(
            accounts@,
            amount,
            policy.spec_treasury_authority(program_id@),
            *policy,
            result,
        ),
{
    let treasury = policy.treasury_authority(program_id);
    mint_tokens_with(accounts, amount, &treasury, policy)
}

/// The first reason, if any, for which a burn is refused: too few accounts; the
/// mint or the account to burn from is not held by the custody service; the
/// mint is no valid mint; the account presented as authority is not the
/// treasury authority.
pub open spec fn burn_failure(
    accounts: Seq<Account>,
    treasury: Option<(Seq<u8>, u8)>,
    policy: Policy,
) -> Option<Failure> {
    if accounts.len() < 7 {
        Some(Failure::NotEnoughAccountKeys)
    } else if !custody_held(accounts[2], policy) {
        Some(Failure::IncorrectProgramId)
    } else if !mint_well_formed(accounts[2].data@) {
        Some(Failure::InvalidAccountData)
    } else if !custody_held(accounts[1], policy) {
        Some(Failure::IncorrectProgramId)
    } else if spec_authorize(accounts[3].key@, treasury) is Err {
        Some(spec_authorize(accounts[3].key@, treasury)->Err_0)
    } else {
        None
    }
}

/// What a burn of `amount` comes to, given the treasury authority.
pub open spec fn burn_outcome(
    accounts: Seq<Account>,
    amount: u64,
    treasury: Option<(Seq<u8>, u8)>,
    policy: Policy,
    result: Result<TokenBurn, Failure>,
) -> bool {
    match result {
        Ok(burn) => {
            &&& burn_failure(accounts, treasury, policy) is None
            &&& burn == (TokenBurn {
                account: accounts[1].key,
                mint: accounts[2].key,
                authority: accounts[0].key,
                amount,
            })
        },
        Err(failure) => burn_failure(accounts, treasury, policy) == Some(failure),
    }
}

/// Burns `amount`, given the treasury authority as derived.
///
/// The accounts are, in order: payer, account to burn from, mint, burn
/// authority, system program, custody service, funding-rate account.
pub fn burn_tokens_with(
    accounts: &[Account],
    amount: u64,
    treasury: &Option<(Address, u8)>,
    policy: &Policy,
) -> (result: Result<TokenBurn, Failure>)
    ensures
        burn_outcome(accounts@, amount, authority_view(*treasury), *policy, result),
{
    if accounts.len() < 7 {
        return Err(Failure::NotEnoughAccountKeys);
    }
    if accounts[2].owner != policy.token_program {
        return Err(Failure::IncorrectProgramId);
    }
    if !mint_is_well_formed(accounts[2].data.as_slice()) {
        return Err(Failure::InvalidAccountData);
    }
    if accounts[1].owner != policy.token_program {
        return Err(Failure::IncorrectProgramId);
    }
    match crate::address::authorize(&accounts[3].key, treasury) {
        Ok(bump) => {},
        Err(failure) => {
            return Err(failure);
        },
    }
    Ok(
        TokenBurn {
            account: accounts[1].key,
            mint: accounts[2].key,
            authority: accounts[0].key,
            amount,
        },
    )
}

/// Burns `amount` from an account: once the treasury authority is verified,
/// tells custody to burn on the signature of the payer, who owns the account.
///
/// The accounts are, in order: payer, account to burn from, mint, burn
/// authority, system program, custody service, funding-rate account.
pub fn burn_tokens(
    accounts: &[Account],
    amount: u64,
    program_id: &Address,
    policy: &Policy,
) -> (result: Result<TokenBurn, Failure>)
    ensures
        burn_outcome(
            accounts@,
            amount,
            policy.spec_treasury_authority(program_id@),
            *policy,
            result,
        ),
{
    let treasury = policy.treasury_authority(program_id);
    burn_tokens_with(accounts, amount, &treasury, policy)
}

/// The first reason, if any, for which a transfer is refused: too few accounts,
/// or the account to take from is not held by the custody service.
pub open spec fn transfer_failure(accounts: Seq<Account>, policy: Policy) -> Option<Failure> {
    if accounts.len() < 6 {
        Some(Failure::NotEnoughAccountKeys)
    } else if !custody_held(accounts[0], policy) {
        Some(Failure::IncorrectProgramId)
    } else {
        None
    }
}

/// What a transfer of `amount` comes to.
pub open spec fn transfer_outcome(
    accounts: Seq<Account>,
    amount: u64,
    policy: Policy,
    result: Result<TokenMove, Failure>,
) -> bool {
    match result {
        Ok(transfer) => {
            &&& transfer_failure(accounts, policy) is None
            &&& transfer == (TokenMove {
                source: accounts[0].key,
                destination: accounts[1].key,
                authority: accounts[3].key,
                amount,
                bump: None,
            })
        },
        Err(failure) => transfer_failure(accounts, policy) == Some(failure),
    }
}

/// Moves `amount` between two custody accounts: tells custody to transfer on
/// the signature of the sender's owner.
///
/// The accounts are, in order: sender's custody account, recipient's custody
/// account, mint, sender's owner, system program, custody service.
pub fn transfer_tokens(accounts: &[Account], amount: u64, policy: &Policy) -> (result: Result<
    TokenMove,
    Failure,
>)
    ensures
        transfer_outcome(accounts@, amount, *policy, result),
{
    if accounts.len() < 6 {
        return Err(Failure::NotEnoughAccountKeys);
    }
    if accounts[0].owner != policy.token_program {
        return Err(Failure::IncorrectProgramId);
    }
    Ok(
        TokenMove {
            source: accounts[0].key,
            destination: accounts[1].key,
            authority: accounts[3].key,
            amount,
            bump: None,
        },
    )
}

/// The supply never passes the maximum by minting: whenever a mint is not
/// refused, the supply that the mint descriptor states and the amount minted
/// are together within the maximum.
pub proof fn lemma_mint_respects_max_supply(
    accounts: Seq<Account>,
    amount: u64,
    treasury: Option<(Seq<u8>, u8)>,
    policy: Policy,
)
    requires
        mint_failure(accounts, amount, treasury, policy) is None,
    ensures
        mint_supply(accounts[1].data@) + amount <= policy.max_supply,
        spec_authorize(accounts[3].key@, treasury) is Ok,
        treasury matches Some((address, bump)) && address == accounts[3].key@,
{
}

} // verus!
