//! The command surface: one opcode byte, then the operation's arguments as
//! little-endian fixed-width numbers, and the dispatch to the operation.

use crate::address::Address;
use crate::custody::{
    burn_failure, burn_outcome, burn_tokens, custody_held, mint_outcome, mint_tokens,
    transfer_failure, transfer_outcome, transfer_tokens, MintPlan, TokenBurn, TokenMove,
};
use crate::error::Failure;
use crate::layout::{
    le_i64_value, le_value, lemma_le_i64_bytes_of_value, lemma_le_value_bound,
    lemma_radix_values, read_i64, read_le,
};
use crate::policy::Policy;
use crate::staking::{
    stake_outcome, stake_tokens, unstake_outcome, unstake_tokens, StakePlan, UnstakePlan,
};
use crate::storage::Account;
use crate::ticketing::{
    purchase_outcome, purchase_tickets, redeem_outcome, redeem_tickets, PurchasePlan, RedeemPlan,
};
use crate::treasury::{
    create_custody_outcome, create_treasury_ata, initialize_outcome, initialize_treasury,
    test_derived_pda, CustodyCreation, InitializePlan,
};
use vstd::prelude::*;

verus! {

/// An operation with its arguments.
#[derive(Clone, Copy, Debug, PartialEq, Eq, Structural)]
pub enum Instruction {
    /// Opcode 0.
    Mint { amount: u64 },
    /// Opcode 1.
    Burn { amount: u64 },
    /// Opcode 2.
    ReportAuthority,
    /// Opcode 3.
    Initialize,
    /// Opcode 4.
    Transfer { amount: u64 },
    /// Opcode 5.
    Stake { amount: u64 },
    /// Opcode 6.
    Unstake { amount: u64 },
    /// Opcode 7.
    Purchase { amount: u64, vesting_period: i64 },
    /// Opcode 8.
    Redeem { amount: u64 },
    /// Opcode 9.
    CreateTreasuryAccount,
}

impl Instruction {
    /// Whether the operation depends on the time: staking and tickets do, the
    /// rest does not.
    pub open spec fn spec_reads_clock(self) -> bool {
        self is Stake || self is Unstake || self is Purchase || self is Redeem
    }

    /// Whether the operation depends on the time, so that the clock has to be
    /// read before it is carried out.
    pub fn reads_clock(&self) -> (needed: bool)
        ensures
            needed == self.spec_reads_clock(),
    {
        match self {
            Instruction::Stake { amount } => true,
            Instruction::Unstake { amount } => true,
            Instruction::Purchase { amount, vesting_period } => true,
            Instruction::Redeem { amount } => true,
            _ => false,
        }
    }
}

/// What an operation comes to: everything that is to be done for it.
#[derive(Clone, Debug, PartialEq, Eq)]
pub enum Plan {
    Mint(MintPlan),
    Burn(TokenBurn),
    Report { address: Address, bump: u8 },
    Initialize(InitializePlan),
    Transfer(TokenMove),
    Stake(StakePlan),
    Unstake(UnstakePlan),
    Purchase(PurchasePlan),
    Redeem(RedeemPlan),
    CreateTreasuryAccount(CustodyCreation),
}

/// The amount that a payload states: its bytes 1 to 8, or zero where the
/// payload is the opcode alone.
pub open spec fn stated_amount(data: Seq<u8>) -> u64 {
    if data.len() > 1 {
        le_value(data.subrange(1, 9)) as u64
    } else {
        0
    }
}

/// The instruction that a payload states, or `InvalidInstructionData` where it
/// states none: where it is empty, where an amount is begun and not finished,
/// where an argument that the operation needs is missing, and where no
/// operation has the opcode.
pub open spec fn spec_decode(data: Seq<u8>) -> Result<Instruction, Failure> {
    if data.len() == 0 || 1 < data.len() < 9 {
        Err(Failure::InvalidInstructionData)
    } else if data[0] == 0 {
        Ok(Instruction::Mint { amount: stated_amount(data) })
    } else if data[0] == 1 {
        Ok(Instruction::Burn { amount: stated_amount(data) })
    } else if data[0] == 2 {
        Ok(Instruction::ReportAuthority)
    } else if data[0] == 3 {
        Ok(Instruction::Initialize)
    } else if data[0] == 4 {
        Ok(Instruction::Transfer { amount: stated_amount(data) })
    } else if data[0] == 5 {
        Ok(Instruction::Stake { amount: stated_amount(data) })
    } else if data[0] == 6 {
        Ok(Instruction::Unstake { amount: stated_amount(data) })
    } else if data[0] == 7 && data.len() >= 17 {
        Ok(
            Instruction::Purchase {
                amount: stated_amount(data),
                vesting_period: le_i64_value(data.subrange(9, 17)) as i64,
            },
        )
    } else if data[0] == 8 && data.len() >= 9 {
        Ok(Instruction::Redeem { amount: stated_amount(data) })
    } else if data[0] == 9 {
        Ok(Instruction::CreateTreasuryAccount)
    } else {
        Err(Failure::InvalidInstructionData)
    }
}

/// Reads an instruction from its payload.
pub fn decode_instruction(data: &[u8]) -> (result: Result<Instruction, Failure>)
    ensures
        result == spec_decode(data@),
{
    if data.len() == 0 || (data.len() > 1 && data.len() < 9) {
        return Err(Failure::InvalidInstructionData);
    }
    let amount: u64 = if data.len() > 1 {
        proof {
            lemma_radix_values();
            lemma_le_value_bound(data@.subrange(1, 9));
        }
        read_le(data, 1, 8)
    } else {
        0
    };
    let opcode: u8 = data[0];
    if opcode == 0 {
        Ok(Instruction::Mint { amount })
    } else if opcode == 1 {
        Ok(Instruction::Burn { amount })
    } else if opcode == 2 {
        Ok(Instruction::ReportAuthority)
    } else if opcode == 3 {
        Ok(Instruction::Initialize)
    } else if opcode == 4 {
        Ok(Instruction::Transfer { amount })
    } else if opcode == 5 {
        Ok(Instruction::Stake { amount })
    } else if opcode == 6 {
        Ok(Instruction::Unstake { amount })
    } else if opcode == 7 && data.len() >= 17 {
        proof {
            lemma_le_i64_bytes_of_value(data@.subrange(9, 17));
        }
        Ok(Instruction::Purchase { amount, vesting_period: read_i64(data, 9) })
    } else if opcode == 8 && data.len() >= 9 {
        Ok(Instruction::Redeem { amount })
    } else if opcode == 9 {
        Ok(Instruction::CreateTreasuryAccount)
    } else {
        Err(Failure::InvalidInstructionData)
    }
}

/// The first reason, if any, for which a burn instruction is refused: the
/// reasons of the burn itself, and after them a seventh account that is not the
/// one under which the environment publishes its funding rates.
pub open spec fn burn_instruction_failure(
    accounts: Seq<Account>,
    treasury: Option<(Seq<u8>, u8)>,
    policy: Policy,
) -> Option<Failure> {
    if burn_failure(accounts, treasury, policy) is Some {
        burn_failure(accounts, treasury, policy)
    } else if accounts[6].key@ != policy.rent_sysvar@ {
        Some(Failure::InvalidAccountData)
    } else {
        None
    }
}

/// The first reason, if any, for which a transfer instruction is refused: the
/// reasons of the transfer itself, and after them a mint or a recipient's
/// account that the custody service does not hold.
pub open spec fn transfer_instruction_failure(accounts: Seq<Account>, policy: Policy) -> Option<
    Failure,
> {
    if transfer_failure(accounts, policy) is Some {
        transfer_failure(accounts, policy)
    } else if !custody_held(accounts[2], policy) || !custody_held(accounts[1], policy) {
        Some(Failure::IncorrectProgramId)
    } else {
        None
    }
}

/// What carrying out `instruction` on `accounts` at `now` comes to: the outcome
/// of the operation that it names, under the addresses derived for `program`.
/// A burn and a transfer that come in as instructions are held to more than the
/// operations themselves ask.
pub open spec fn instruction_outcome(
    instruction: Instruction,
    program: Address,
    accounts: Seq<Account>,
    policy: Policy,
    now: i64,
    result: Result<Plan, Failure>,
) -> bool {
    let treasury = policy.spec_treasury_authority(program@);
    let mint = policy.spec_mint_address(program@);
    match instruction {
        Instruction::Mint { amount } => match result {
            Ok(Plan::Mint(plan)) => mint_outcome(accounts, amount, treasury, policy, Ok(plan)),
            Ok(_) => false,
            Err(failure) => mint_outcome(accounts, amount, treasury, policy, Err(failure)),
        },
        Instruction::Burn { amount } => match result {
            Ok(Plan::Burn(plan)) => {
                &&& burn_instruction_failure(accounts, treasury, policy) is None
                &&& burn_outcome(accounts, amount, treasury, policy, Ok(plan))
            },
            Ok(_) => false,
            Err(failure) => burn_instruction_failure(accounts, treasury, policy) == Some(failure),
        },
        Instruction::ReportAuthority => match result {
            Ok(Plan::Report { address, bump }) => mint == Some((address@, bump)),
            Ok(_) => false,
            Err(failure) => failure == Failure::InvalidSeeds && mint is None,
        },
        Instruction::Initialize => match result {
            Ok(Plan::Initialize(plan)) => initialize_outcome(
                accounts,
                accounts[1].key,
                program,
                treasury,
                mint,
                Ok(plan),
            ),
            Ok(_) => false,
            Err(failure) => initialize_outcome(
                accounts,
                accounts[1].key,
                program,
                treasury,
                mint,
                Err(failure),
            ),
        },
        Instruction::Transfer { amount } => match result {
            Ok(Plan::Transfer(plan)) => {
                &&& transfer_instruction_failure(accounts, policy) is None
                &&& transfer_outcome(accounts, amount, policy, Ok(plan))
            },
            Ok(_) => false,
            Err(failure) => transfer_instruction_failure(accounts, policy) == Some(failure),
        },
        Instruction::Stake { amount } => match result {
            Ok(Plan::Stake(plan)) => stake_outcome(
                accounts,
                amount,
                program,
                policy.spec_staker_address(accounts[3].key@, program@),
                policy,
                now,
                Ok(plan),
            ),
            Ok(_) => false,
            Err(failure) => stake_outcome(
                accounts,
                amount,
                program,
                policy.spec_staker_address(accounts[3].key@, program@),
                policy,
                now,
                Err(failure),
            ),
        },
        Instruction::Unstake { amount } => match result {
            Ok(Plan::Unstake(plan)) => unstake_outcome(
                accounts,
                amount,
                treasury,
                policy,
                now,
                Ok(plan),
            ),
            Ok(_) => false,
            Err(failure) => unstake_outcome(accounts, amount, treasury, policy, now, Err(failure)),
        },
        Instruction::Purchase { amount, vesting_period } => match result {
            Ok(Plan::Purchase(plan)) => purchase_outcome(
                accounts,
                amount,
                vesting_period,
                program,
                policy.spec_ledger_address(accounts[0].key@, program@),
                treasury,
                policy,
                now,
                Ok(plan),
            ),
            Ok(_) => false,
            Err(failure) => purchase_outcome(
                accounts,
                amount,
                vesting_period,
                program,
                policy.spec_ledger_address(accounts[0].key@, program@),
                treasury,
                policy,
                now,
                Err(failure),
            ),
        },
        Instruction::Redeem { amount } => match result {
            Ok(Plan::Redeem(plan)) => redeem_outcome(accounts, amount, treasury, now, Ok(plan)),
            Ok(_) => false,
            Err(failure) => redeem_outcome(accounts, amount, treasury, now, Err(failure)),
        },
        Instruction::CreateTreasuryAccount => match result {
            Ok(Plan::CreateTreasuryAccount(plan)) => create_custody_outcome(
                accounts,
                treasury,
                mint,
                policy.spec_custody_address(accounts[0].key@, accounts[2].key@),
                Ok(plan),
            ),
            Ok(_) => false,
            Err(failure) => create_custody_outcome(
                accounts,
                treasury,
                mint,
                policy.spec_custody_address(accounts[0].key@, accounts[2].key@),
                Err(failure),
            ),
        },
    }
}

/// What processing a payload comes to: the failure of its decoding, or the
/// outcome of the instruction that it states.
pub open spec fn process_outcome(
    program: Address,
    accounts: Seq<Account>,
    data: Seq<u8>,
    policy: Policy,
    now: i64,
    result: Result<Plan, Failure>,
) -> bool {
    match spec_decode(data) {
        Err(failure) => result == Err::<Plan, Failure>(failure),
        Ok(instruction) => instruction_outcome(instruction, program, accounts, policy, now, result),
    }
}

/// The time is read only where it matters: an operation that does not depend
/// on the time comes to the same whatever the time is.
pub proof fn lemma_time_matters_only_where_read(
    instruction: Instruction,
    program: Address,
    accounts: Seq<Account>,
    policy: Policy,
    now: i64,
    other: i64,
    result: Result<Plan, Failure>,
)
    requires
        !instruction.spec_reads_clock(),
        instruction_outcome(instruction, program, accounts, policy, now, result),
    ensures
        instruction_outcome(instruction, program, accounts, policy, other, result),
{
}

/// Carries out `instruction` on `accounts` at `now`.
pub fn execute(
    instruction: Instruction,
    program_id: &Address,
    accounts: &[Account],
    policy: &Policy,
    now: i64,
) -> (result: Result<Plan, Failure>)
    ensures
        instruction_outcome(instruction, *program_id, accounts@, *policy, now, result),
{
    match instruction {
        Instruction::Mint { amount } => match mint_tokens(accounts, amount, program_id, policy) {
            Ok(plan) => Ok(Plan::Mint(plan)),
            Err(failure) => Err(failure),
        },
        Instruction::Burn { amount } => match burn_tokens(accounts, amount, program_id, policy) {
            Ok(plan) => {
                if accounts[6].key != policy.rent_sysvar {
                    Err(Failure::InvalidAccountData)
                } else {
                    Ok(Plan::Burn(plan))
                }
            },
            Err(failure) => Err(failure),
        },
        Instruction::ReportAuthority => match test_derived_pda(program_id, policy) {
            Ok((address, bump)) => Ok(Plan::Report { address, bump }),
            Err(failure) => Err(failure),
        },
        Instruction::Initialize => {
            if accounts.len() < 6 {
                return Err(Failure::NotEnoughAccountKeys);
            }
            match initialize_treasury(accounts, &accounts[1].key, program_id, policy) {
                Ok(plan) => Ok(Plan::Initialize(plan)),
                Err(failure) => Err(failure),
            }
        },
        Instruction::Transfer { amount } => match transfer_tokens(accounts, amount, policy) {
            Ok(plan) => {
                if accounts[2].owner != policy.token_program
                    || accounts[1].owner != policy.token_program {
                    Err(Failure::IncorrectProgramId)
                } else {
                    Ok(Plan::Transfer(plan))
                }
            },
            Err(failure) => Err(failure),
        },
        Instruction::Stake { amount } => match stake_tokens(
            accounts,
            amount,
            program_id,
            policy,
            now,
        ) {
            Ok(plan) => Ok(Plan::Stake(plan)),
            Err(failure) => Err(failure),
        },
        Instruction::Unstake { amount } => match unstake_tokens(
            accounts,
            amount,
            program_id,
            policy,
            now,
        ) {
            Ok(plan) => Ok(Plan::Unstake(plan)),
            Err(failure) => Err(failure),
        },
        Instruction::Purchase { amount, vesting_period } => match purchase_tickets(
            accounts,
            amount,
            vesting_period,
            program_id,
            policy,
            now,
        ) {
            Ok(plan) => Ok(Plan::Purchase(plan)),
            Err(failure) => Err(failure),
        },
        Instruction::Redeem { amount } => match redeem_tickets(
            accounts,
            amount,
            program_id,
            policy,
            now,
        ) {
            Ok(plan) => Ok(Plan::Redeem(plan)),
            Err(failure) => Err(failure),
        },
        Instruction::CreateTreasuryAccount => {
            if accounts.len() < 8 {
                return Err(Failure::NotEnoughAccountKeys);
            }
            match create_treasury_ata(accounts, &accounts[1].key, program_id, policy) {
                Ok(plan) => Ok(Plan::CreateTreasuryAccount(plan)),
                Err(failure) => Err(failure),
            }
        },
    }
}

/// Processes one instruction payload on `accounts` at `now`: the first byte
/// selects the operation, the bytes after it are its arguments.
///
/// Every failure of the operation is the failure of the processing: none is
/// passed over.
pub fn process_instruction(
    program_id: &Address,
    accounts: &[Account],
    instruction_data: &[u8],
    policy: &Policy,
    now: i64,
) -> (result: Result<Plan, Failure>)
    ensures
        process_outcome(*program_id, accounts@, instruction_data@, *policy, now, result),
{
    match decode_instruction(instruction_data) {
        Err(failure) => Err(failure),
        Ok(instruction) => execute(instruction, program_id, accounts, policy, now),
    }
}

} // verus!
