//! The treasury: the singleton record of the program, its mint, and the custody
//! account that the treasury authority holds.
//!
//! The treasury record is written once. Its 41 bytes are a flag that says it is
//! initialised, the administrator's address, and a balance counter of 8
//! little-endian bytes that is kept for information and starts at zero.

use crate::address::{authority_view, spec_authorize, Address};
use crate::custody::{MINT_ACCOUNT_SIZE, MINT_DECIMALS};
use crate::error::{CustomError, Failure};
use crate::layout::{le_bytes, lemma_le_bytes_len, write_bytes, write_le};
use crate::policy::Policy;
use crate::storage::{ensure_created, spec_ensure_created, Account, StorageStep};
use vstd::prelude::*;

verus! {

/// Bytes of a stored treasury record.
pub const TREASURY_ACCOUNT_SIZE: usize = 41;

/// The treasury record.
#[derive(Clone, Copy, Debug, PartialEq, Eq)]
pub struct Treasury {
    /// Set once the record has been written.
    pub initialized: bool,
    /// The administrator.
    pub admin: Address,
    /// A counter kept for information.
    pub balance: u64,
}

/// The 41 bytes of a treasury record.
pub open spec fn treasury_bytes(treasury: Treasury) -> Seq<u8> {
    seq![if treasury.initialized {
        1u8
    } else {
        0u8
    }] + treasury.admin@ + le_bytes(treasury.balance as nat, 8)
}

/// Whether a record's bytes say that the treasury is initialised.
pub open spec fn treasury_initialized(data: Seq<u8>) -> bool {
    data.len() >= TREASURY_ACCOUNT_SIZE && data[0] == 1
}

impl Treasury {
    /// The bytes to store this record as.
    pub fn to_bytes(&self) -> (data: Vec<u8>)
        ensures
            data@ == treasury_bytes(*self),
            data.len() == TREASURY_ACCOUNT_SIZE,
            treasury_initialized(data@) == self.initialized,
    {
        let mut data: Vec<u8> = Vec::new();
        data.push(if self.initialized { 1u8 } else { 0u8 });
        write_bytes(&mut data, self.admin.bytes.as_slice());
        write_le(&mut data, self.balance, 8);
        proof {
            lemma_le_bytes_len(self.balance as nat, 8);
            assert(data@ =~= treasury_bytes(*self));
        }
        data
    }
}

/// The creation of the mint: storage of `size` bytes at `mint`, held by the
/// custody service, and then the descriptor itself, with the treasury as mint
/// authority and no freeze authority.
#[derive(Clone, Copy, Debug, PartialEq, Eq)]
pub struct MintCreation {
    pub mint: Address,
    pub size: usize,
    pub authority: Address,
    pub decimals: u8,
    /// The bump to sign for the mint's address with.
    pub bump: u8,
}

/// What the initialisation of the treasury comes to.
#[derive(Clone, Debug, PartialEq, Eq)]
pub struct InitializePlan {
    /// Who pays for what is created.
    pub payer: Address,
    /// What to do with the treasury record's storage first.
    pub storage: StorageStep,
    /// The bump to sign for the treasury's address with.
    pub treasury_bump: u8,
    /// The record to write.
    pub treasury: Treasury,
    /// The bytes to store the record as.
    pub data: Vec<u8>,
    /// The mint to create, unless it exists.
    pub mint: Option<MintCreation>,
}

/// The first reason, if any, for which the initialisation is refused: too few
/// accounts; the treasury is initialised already; the account presented as the
/// treasury, or the one presented as the mint, is not at the address derived
/// for it; the treasury record has storage, but too little.
pub open spec fn initialize_failure(
    accounts: Seq<Account>,
    treasury: Option<(Seq<u8>, u8)>,
    mint: Option<(Seq<u8>, u8)>,
) -> Option<Failure> {
    if accounts.len() < 6 {
        Some(Failure::NotEnoughAccountKeys)
    } else if treasury_initialized(accounts[0].data@) {
        Some(Failure::AccountAlreadyInitialized)
    } else if spec_authorize(accounts[0].key@, treasury) is Err {
        Some(spec_authorize(accounts[0].key@, treasury)->Err_0)
    } else if spec_authorize(accounts[2].key@, mint) is Err {
        Some(spec_authorize(accounts[2].key@, mint)->Err_0)
    } else if 0 < accounts[0].data.len() < TREASURY_ACCOUNT_SIZE {
        Some(Failure::InvalidAccountData)
    } else {
        None
    }
}

/// What the initialisation comes to, given the addresses derived for the
/// treasury and for the mint.
pub open spec fn initialize_outcome(
    accounts: Seq<Account>,
    admin: Address,
    program: Address,
    treasury: Option<(Seq<u8>, u8)>,
    mint: Option<(Seq<u8>, u8)>,
    result: Result<InitializePlan, Failure>,
) -> bool {
    match result {
        Ok(plan) => {
            &&& initialize_failure(accounts, treasury, mint) is None
            &&& plan.payer == admin
            &&& Ok::<(StorageStep, u8), Failure>((plan.storage, plan.treasury_bump))
                == spec_ensure_created(
                accounts[0].key@,
                accounts[0].data.len() as nat,
                treasury,
                program,
                TREASURY_ACCOUNT_SIZE,
                admin,
            )
            &&& plan.treasury == (Treasury { initialized: true, admin, balance: 0 })
            &&& plan.data@ == treasury_bytes(plan.treasury)
            &&& plan.mint == (if accounts[2].data.len() < MINT_ACCOUNT_SIZE {
                Some(
                    MintCreation {
                        mint: accounts[2].key,
                        size: MINT_ACCOUNT_SIZE,
                        authority: accounts[0].key,
                        decimals: MINT_DECIMALS,
                        bump: spec_authorize(accounts[2].key@, mint)->Ok_0,
                    },
                )
            } else {
                None
            })
        },
        Err(failure) => initialize_failure(accounts, treasury, mint) == Some(failure),
    }
}

/// Initialises the treasury, given the addresses of the treasury and of the
/// mint as derived.
///
/// The accounts are, in order: treasury record, administrator, mint, system
/// program, custody service, funding-rate account.
pub fn initialize_treasury_with(
    accounts: &[Account],
    admin: &Address,
    program_id: &Address,
    treasury: &Option<(Address, u8)>,
    mint: &Option<(Address, u8)>,
) -> (result: Result<InitializePlan, Failure>)
    ensures
        initialize_outcome(
            accounts@,
            *admin,
            *program_id,
            authority_view(*treasury),
            authority_view(*mint),
            result,
        ),
{
    if accounts.len() < 6 {
        return Err(Failure::NotEnoughAccountKeys);
    }
    if accounts[0].data.len() >= TREASURY_ACCOUNT_SIZE && accounts[0].data[0] == 1 {
        return Err(Failure::AccountAlreadyInitialized);
    }
    let (storage, treasury_bump) = match ensure_created(
        &accounts[0],
        treasury,
        program_id,
        TREASURY_ACCOUNT_SIZE,
        admin,
    ) {
        Ok(step) => step,
        Err(failure) => {
            return Err(failure);
        },
    };
    let mint_bump: u8 = match crate::address::authorize(&accounts[2].key, mint) {
        Ok(bump) => bump,
        Err(failure) => {
            return Err(failure);
        },
    };
    if accounts[0].data.len() > 0 && accounts[0].data.len() < TREASURY_ACCOUNT_SIZE {
        return Err(Failure::InvalidAccountData);
    }
    let record = Treasury { initialized: true, admin: *admin, balance: 0 };
    let data = record.to_bytes();
    let creation: Option<MintCreation> = if accounts[2].data.len() < MINT_ACCOUNT_SIZE {
        Some(
            MintCreation {
                mint: accounts[2].key,
                size: MINT_ACCOUNT_SIZE,
                authority: accounts[0].key,
                decimals: MINT_DECIMALS,
                bump: mint_bump,
            },
        )
    } else {
        None
    };
    Ok(
        InitializePlan {
            payer: *admin,
            storage,
            treasury_bump,
            treasury: record,
            data,
            mint: creation,
        },
    )
}

/// Initialises the treasury record and, unless it exists, the mint.
///
/// The record is written once: a second initialisation fails with
/// `AccountAlreadyInitialized`. The mint is created with the treasury as its
/// mint authority.
///
/// The accounts are, in order: treasury record, administrator, mint, system
/// program, custody service, funding-rate account.
pub fn initialize_treasury(
    accounts: &[Account],
    admin: &Address,
    program_id: &Address,
    policy: &Policy,
) -> (result: Result<InitializePlan, Failure>)
    ensures
        initialize_outcome(
            accounts@,
            *admin,
            *program_id,
            policy.spec_treasury_authority(program_id@),
            policy.spec_mint_address(program_id@),
            result,
        ),
{
    let treasury = policy.treasury_authority(program_id);
    let mint = policy.mint_address(program_id);
    initialize_treasury_with(accounts, admin, program_id, &treasury, &mint)
}

/// The creation of the treasury's custody account, which does nothing where the
/// account exists.
#[derive(Clone, Copy, Debug, PartialEq, Eq)]
pub struct CustodyCreation {
    pub payer: Address,
    pub account: Address,
    pub wallet: Address,
    pub mint: Address,
    pub token_program: Address,
    /// The bump to sign for the treasury's address with.
    pub bump: u8,
}

/// The first reason, if any, for which the creation is refused: too few
/// accounts, or one of the accounts presented as the treasury, the mint and the
/// treasury's custody account is not at the address derived for it.
pub open spec fn create_custody_failure(
    accounts: Seq<Account>,
    treasury: Option<(Seq<u8>, u8)>,
    mint: Option<(Seq<u8>, u8)>,
    custody: Option<(Seq<u8>, u8)>,
) -> Option<Failure> {
    if accounts.len() < 8 {
        Some(Failure::NotEnoughAccountKeys)
    } else if spec_authorize(accounts[0].key@, treasury) is Err {
        Some(spec_authorize(accounts[0].key@, treasury)->Err_0)
    } else if spec_authorize(accounts[2].key@, mint) is Err {
        Some(spec_authorize(accounts[2].key@, mint)->Err_0)
    } else if spec_authorize(accounts[6].key@, custody) is Err {
        Some(spec_authorize(accounts[6].key@, custody)->Err_0)
    } else {
        None
    }
}

/// What the creation of the treasury's custody account comes to, given the
/// three addresses as derived.
pub open spec fn create_custody_outcome(
    accounts: Seq<Account>,
    treasury: Option<(Seq<u8>, u8)>,
    mint: Option<(Seq<u8>, u8)>,
    custody: Option<(Seq<u8>, u8)>,
    result: Result<CustodyCreation, Failure>,
) -> bool {
    match result {
        Ok(creation) => {
            &&& create_custody_failure(accounts, treasury, mint, custody) is None
            &&& creation == (CustodyCreation {
                payer: accounts[1].key,
                account: accounts[6].key,
                wallet: accounts[0].key,
                mint: accounts[2].key,
                token_program: accounts[4].key,
                bump: spec_authorize(accounts[0].key@, treasury)->Ok_0,
            })
        },
        Err(failure) => create_custody_failure(accounts, treasury, mint, custody) == Some(failure),
    }
}

/// Creates the treasury's custody account, given the addresses of the treasury,
/// of the mint and of the custody account as derived.
///
/// The accounts are, in order: treasury, administrator, mint, system program,
/// custody service, funding-rate account, treasury's custody account,
/// associated-account service.
pub fn create_treasury_ata_with(
    accounts: &[Account],
    treasury: &Option<(Address, u8)>,
    mint: &Option<(Address, u8)>,
    custody: &Option<(Address, u8)>,
) -> (result: Result<CustodyCreation, Failure>)
    ensures
        create_custody_outcome(
            accounts@,
            authority_view(*treasury),
            authority_view(*mint),
            authority_view(*custody),
            result,
        ),
{
    if accounts.len() < 8 {
        return Err(Failure::NotEnoughAccountKeys);
    }
    let bump: u8 = match crate::address::authorize(&accounts[0].key, treasury) {
        Ok(bump) => bump,
        Err(failure) => {
            return Err(failure);
        },
    };
    match crate::address::authorize(&accounts[2].key, mint) {
        Ok(mint_bump) => {},
        Err(failure) => {
            return Err(failure);
        },
    }
    match crate::address::authorize(&accounts[6].key, custody) {
        Ok(custody_bump) => {},
        Err(failure) => {
            return Err(failure);
        },
    }
    Ok(
        CustodyCreation {
            payer: accounts[1].key,
            account: accounts[6].key,
            wallet: accounts[0].key,
            mint: accounts[2].key,
            token_program: accounts[4].key,
            bump,
        },
    )
}

/// Creates the custody account that the treasury authority holds for the mint.
///
/// The account has to stand at the address that the associated-account service
/// derives for the treasury and the mint.
///
/// The accounts are, in order: treasury, administrator, mint, system program,
/// custody service, funding-rate account, treasury's custody account,
/// associated-account service.
pub fn create_treasury_ata(
    accounts: &[Account],
    _admin: &Address,
    program_id: &Address,
    policy: &Policy,
) -> (result: Result<CustodyCreation, Failure>)
    ensures
        accounts.len() < 8 ==> result == Err::<CustodyCreation, Failure>(
            Failure::NotEnoughAccountKeys,
        ),
        accounts.len() >= 8 ==> create_custody_outcome(
            accounts@,
            policy.spec_treasury_authority(program_id@),
            policy.spec_mint_address(program_id@),
            policy.spec_custody_address(accounts[0].key@, accounts[2].key@),
            result,
        ),
{
    if accounts.len() < 8 {
        return Err(Failure::NotEnoughAccountKeys);
    }
    let treasury = policy.treasury_authority(program_id);
    let mint = policy.mint_address(program_id);
    let custody = policy.custody_address(&accounts[0].key, &accounts[2].key);
    create_treasury_ata_with(accounts, &treasury, &mint, &custody)
}

/// An instruction to move `lamports` of native balance from `from` to `to`,
/// signed for the treasury authority with `bump`.
#[derive(Clone, Copy, Debug, PartialEq, Eq)]
pub struct LamportMove {
    pub from: Address,
    pub to: Address,
    pub lamports: u64,
    pub bump: u8,
}

/// The refusal of a deposit into a treasury that the treasury authority does
/// not hold. A client sees it under the program's code 0.
pub open spec fn deposit_refusal() -> Failure {
    Failure::Custom(CustomError::AlreadyStaking)
}

/// The refusal of a withdrawal from a treasury that the treasury authority does
/// not hold. A client sees it under the program's code 1.
pub open spec fn withdrawal_refusal() -> Failure {
    Failure::Custom(CustomError::InsufficientFunds)
}

/// The first reason, if any, for which a movement of the treasury's native
/// balance is refused: too few accounts, or, with `refusal`, a treasury account
/// that the treasury authority does not hold.
pub open spec fn treasury_move_failure(
    accounts: Seq<Account>,
    treasury_pda: Address,
    refusal: Failure,
) -> Option<Failure> {
    if accounts.len() < 2 {
        Some(Failure::NotEnoughAccountKeys)
    } else if accounts[0].owner@ != treasury_pda@ {
        Some(refusal)
    } else {
        None
    }
}

/// The two refusals carry the codes 0 and 1, and so differ from each other.
pub proof fn lemma_treasury_refusal_codes()
    ensures
        deposit_refusal().spec_custom_code() == Some(0u32),
        withdrawal_refusal().spec_custom_code() == Some(1u32),
        deposit_refusal() != withdrawal_refusal(),
{
}

/// Moves `amount` of native balance from a user into the treasury.
///
/// Refused under the program's code 0 where the treasury account is not held
/// by `treasury_pda`.
///
/// The accounts are, in order: treasury, user.
pub fn deposit_tokens_internal(
    accounts: &[Account],
    amount: u64,
    treasury_pda: &Address,
    bump: u8,
) -> (result: Result<LamportMove, Failure>)
    ensures
        match result {
            Ok(deposit) => {
                &&& treasury_move_failure(accounts@, *treasury_pda, deposit_refusal()) is None
                &&& deposit == (LamportMove {
                    from: accounts[1].key,
                    to: accounts[0].key,
                    lamports: amount,
                    bump,
                })
            },
            Err(failure) => treasury_move_failure(accounts@, *treasury_pda, deposit_refusal())
                == Some(failure),
        },
{
    if accounts.len() < 2 {
        return Err(Failure::NotEnoughAccountKeys);
    }
    if accounts[0].owner != *treasury_pda {
        return Err(Failure::Custom(CustomError::AlreadyStaking));
    }
    Ok(LamportMove { from: accounts[1].key, to: accounts[0].key, lamports: amount, bump })
}

/// Moves `amount` of native balance from the treasury to the administrator.
///
/// Refused under the program's code 1 where the treasury account is not held
/// by `treasury_pda`.
///
/// The accounts are, in order: treasury, administrator.
pub fn withdraw_tokens_internal(
    accounts: &[Account],
    amount: u64,
    treasury_pda: &Address,
    bump: u8,
) -> (result: Result<LamportMove, Failure>)
    ensures
        match result {
            Ok(withdrawal) => {
                &&& treasury_move_failure(accounts@, *treasury_pda, withdrawal_refusal()) is None
                &&& withdrawal == (LamportMove {
                    from: accounts[0].key,
                    to: accounts[1].key,
                    lamports: amount,
                    bump,
                })
            },
            Err(failure) => treasury_move_failure(accounts@, *treasury_pda, withdrawal_refusal())
                == Some(failure),
        },
{
    if accounts.len() < 2 {
        return Err(Failure::NotEnoughAccountKeys);
    }
    if accounts[0].owner != *treasury_pda {
        return Err(Failure::Custom(CustomError::InsufficientFunds));
    }
    Ok(LamportMove { from: accounts[0].key, to: accounts[1].key, lamports: amount, bump })
}

/// A derivation's result where there is one, `InvalidSeeds` where there is
/// none.
pub fn derived_or_fail(found: Option<(Address, u8)>) -> (result: Result<(Address, u8), Failure>)
    ensures
        result == match found {
            Some(pair) => Ok::<(Address, u8), Failure>(pair),
            None => Err::<(Address, u8), Failure>(Failure::InvalidSeeds),
        },
{
    match found {
        Some(pair) => Ok(pair),
        None => Err(Failure::InvalidSeeds),
    }
}

/// Reports the address that the mint's seed derives under `program_id`, with
/// its bump: a diagnostic that reads nothing and changes nothing.
pub fn test_derived_pda(program_id: &Address, policy: &Policy) -> (result: Result<
    (Address, u8),
    Failure,
>)
    ensures
        match result {
            Ok(pair) => authority_view(Some(pair)) == policy.spec_mint_address(program_id@),
            Err(failure) => failure == Failure::InvalidSeeds && policy.spec_mint_address(
                program_id@,
            ) is None,
        },
{
    let found = policy.mint_address(program_id);
    derived_or_fail(found)
}

/// The mint answers to the treasury: whenever the initialisation creates the
/// mint, the mint authority that it names is the treasury authority as derived.
pub proof fn lemma_mint_authority_is_treasury(
    accounts: Seq<Account>,
    admin: Address,
    program: Address,
    treasury: Option<(Seq<u8>, u8)>,
    mint: Option<(Seq<u8>, u8)>,
    plan: InitializePlan,
)
    requires
        initialize_outcome(accounts, admin, program, treasury, mint, Ok(plan)),
        plan.mint is Some,
    ensures
        crate::address::spec_verify(plan.mint->Some_0.authority@, treasury),
        crate::address::spec_verify(plan.mint->Some_0.mint@, mint),
{
}

/// The treasury is initialised once: after an initialisation has been carried
/// out, every further one is refused with `AccountAlreadyInitialized`.
pub proof fn lemma_initialized_once(
    accounts: Seq<Account>,
    treasury: Option<(Seq<u8>, u8)>,
    mint: Option<(Seq<u8>, u8)>,
    written: Treasury,
)
    requires
        accounts.len() >= 6,
        written.initialized,
        accounts[0].data@ == treasury_bytes(written),
    ensures
        initialize_failure(accounts, treasury, mint) == Some(Failure::AccountAlreadyInitialized),
{
    lemma_le_bytes_len(written.balance as nat, 8);
}

} // verus!
