//! Every way an operation can fail.
//!
//! No failure is retried or repaired here: the first check that does not hold
//! ends the operation, and nothing of it is applied.

use vstd::prelude::*;

verus! {

/// The program's own error conditions, each with a fixed numeric code.
#[derive(Clone, Copy, Debug, PartialEq, Eq, Structural)]
pub enum CustomError {
    AlreadyStaking,
    InsufficientFunds,
    VestingNotComplete,
    TicketAlreadyClaimed,
    StakingPeriodNotComplete,
    UnauthorizedAccess,
    InsufficientTickets,
    InsufficientVestedTickets,
}

impl CustomError {
    /// The code a client sees for this condition.
    pub open spec fn spec_code(self) -> u32 {
        match self {
            CustomError::AlreadyStaking => 0,
            CustomError::InsufficientFunds => 1,
            CustomError::VestingNotComplete => 2,
            CustomError::TicketAlreadyClaimed => 3,
            CustomError::StakingPeriodNotComplete => 4,
            CustomError::UnauthorizedAccess => 5,
            CustomError::InsufficientTickets => 6,
            CustomError::InsufficientVestedTickets => 7,
        }
    }

    /// The code a client sees for this condition.
    pub fn code(&self) -> (code: u32)
        ensures
            code == self.spec_code(),
    {
        match self {
            CustomError::AlreadyStaking => 0,
            CustomError::InsufficientFunds => 1,
            CustomError::VestingNotComplete => 2,
            CustomError::TicketAlreadyClaimed => 3,
            CustomError::StakingPeriodNotComplete => 4,
            CustomError::UnauthorizedAccess => 5,
            CustomError::InsufficientTickets => 6,
            CustomError::InsufficientVestedTickets => 7,
        }
    }
}

/// Why an operation was refused.
#[derive(Clone, Copy, Debug, PartialEq, Eq, Structural)]
pub enum Failure {
    /// Fewer account references were supplied than the operation consumes.
    NotEnoughAccountKeys,
    /// The instruction payload is empty, too short, or names no operation.
    InvalidInstructionData,
    /// No address can be derived from the seeds.
    InvalidSeeds,
    /// An account presented as a derived authority is not the derived address.
    InvalidAuthority,
    /// A record is not controlled by the party the operation needs.
    IllegalOwner,
    /// A custody record or mint is not held by the custody service.
    IncorrectProgramId,
    /// A record's bytes do not follow its layout.
    InvalidAccountData,
    /// A record has no backing storage.
    UninitializedAccount,
    /// The treasury was initialised before.
    AccountAlreadyInitialized,
    /// Minting would take the supply past the maximum.
    SupplyExceeded,
    /// The amount offered buys no ticket.
    ZeroTickets,
    /// The ledger already holds as many entries as it may.
    TicketQueueFull,
    /// An amount does not fit in 64 bits.
    ArithmeticOverflow,
    /// One of the program's own conditions.
    Custom(CustomError),
}

impl Failure {
    /// The program-specific code of a policy violation, if this is one.
    pub open spec fn spec_custom_code(self) -> Option<u32> {
        match self {
            Failure::Custom(e) => Some(e.spec_code()),
            Failure::SupplyExceeded => Some(8),
            Failure::ZeroTickets => Some(9),
            Failure::TicketQueueFull => Some(10),
            _ => None,
        }
    }

    /// The program-specific code of a policy violation, if this is one.
    pub fn custom_code(&self) -> (code: Option<u32>)
        ensures
            code == self.spec_custom_code(),
    {
        match self {
            Failure::Custom(e) => Some(e.code()),
            Failure::SupplyExceeded => Some(8),
            Failure::ZeroTickets => Some(9),
            Failure::TicketQueueFull => Some(10),
            _ => None,
        }
    }
}

/// Two conditions that carry the same program-specific code are the same
/// condition: a client can tell every policy violation from every other.
pub proof fn lemma_custom_codes_distinct(a: Failure, b: Failure)
    requires
        a.spec_custom_code() is Some,
        a.spec_custom_code() == b.spec_custom_code(),
    ensures
        a == b,
{
}

} // verus!
