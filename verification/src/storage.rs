//! The storage record manager: when a persistent record is created, grown or
//! shrunk, and what funding that takes.
//!
//! A record is a resizable run of bytes that the environment keeps for as long
//! as its balance is at least the minimum for its size. This module decides;
//! the environment allocates. A record is created at an exact size and funded to
//! its minimum at once. It is grown only after the funding for the larger size
//! is in place, and it is shrunk only with the freed bytes wiped, so that a
//! later growth cannot bring old contents back.

use crate::address::{authority_view, spec_authorize, Address};
use crate::error::Failure;
use vstd::prelude::*;

verus! {

/// An account as the environment presents it to an operation.
#[derive(Clone, Debug, PartialEq, Eq)]
pub struct Account {
    /// The account's address.
    pub key: Address,
    /// The program that holds the account.
    pub owner: Address,
    /// The account's balance, which funds its storage.
    pub lamports: u64,
    /// The account's bytes; their number is the record's capacity.
    pub data: Vec<u8>,
}

/// What to do with a record's storage.
#[derive(Clone, Copy, Debug, PartialEq, Eq)]
pub enum StorageStep {
    /// Leave the storage as it is.
    Keep,
    /// Allocate exactly `size` bytes for `owner` and fund them to the minimum
    /// out of `funder`'s balance.
    Create { size: usize, owner: Address, funder: Address },
    /// Change the capacity to `new_size` bytes, after `payer` has made up what
    /// the balance lacks of the new minimum; wipe the bytes freed or gained
    /// where `zero_tail` is set.
    Resize { new_size: usize, zero_tail: bool, payer: Address },
}

impl StorageStep {
    /// The capacity of a record of `capacity` bytes after this step.
    pub open spec fn capacity_after(self, capacity: nat) -> nat {
        match self {
            StorageStep::Keep => capacity,
            StorageStep::Create { size, owner, funder } => size as nat,
            StorageStep::Resize { new_size, zero_tail, payer } => new_size as nat,
        }
    }

    /// Whether this step makes a record of `capacity` bytes larger.
    pub open spec fn grows(self, capacity: nat) -> bool {
        self.capacity_after(capacity) > capacity
    }

    /// The funding to move to a record with a balance of `balance` and
    /// `capacity` bytes before this step is taken, where `min_balance` is the
    /// minimum for the capacity after it: the whole minimum for a new record,
    /// what is missing for one that grows, nothing otherwise.
    pub open spec fn spec_funding(self, capacity: nat, balance: u64, min_balance: u64) -> u64 {
        match self {
            StorageStep::Keep => 0,
            StorageStep::Create { size, owner, funder } => min_balance,
            StorageStep::Resize { new_size, zero_tail, payer } => if new_size > capacity
                && min_balance
                > balance {
                (min_balance - balance) as u64
            } else {
                0
            },
        }
    }

    /// The funding to move to `record` before this step is taken, where
    /// `min_balance` is the minimum balance for the capacity after it.
    pub fn funding(&self, record: &Account, min_balance: u64) -> (lamports: u64)
        ensures
            lamports == self.spec_funding(record.data.len() as nat, record.lamports, min_balance),
    {
        match self {
            StorageStep::Keep => 0,
            StorageStep::Create { size, owner, funder } => min_balance,
            StorageStep::Resize { new_size, zero_tail, payer } => {
                if *new_size > record.data.len() && min_balance > record.lamports {
                    min_balance - record.lamports
                } else {
                    0
                }
            },
        }
    }
}

/// What `ensure_created` decides for a record at `key` with `capacity` bytes,
/// given the address derived for it.
pub open spec fn spec_ensure_created(
    key: Seq<u8>,
    capacity: nat,
    derived: Option<(Seq<u8>, u8)>,
    owner_program: Address,
    size: usize,
    funder: Address,
) -> Result<(StorageStep, u8), Failure> {
    match spec_authorize(key, derived) {
        Err(failure) => Err(failure),
        Ok(bump) => if capacity == 0 {
            Ok((StorageStep::Create { size, owner: owner_program, funder }, bump))
        } else {
            Ok((StorageStep::Keep, bump))
        },
    }
}

/// The step that brings a record without storage into being, and the bump to
/// sign its creation with.
///
/// Refused with `InvalidAuthority` where the record's address is not the one
/// derived for it, and with `InvalidSeeds` where none was derived. A record that
/// has storage already is kept as it is, so that asking twice does no more than
/// asking once.
pub fn ensure_created(
    record: &Account,
    derived: &Option<(Address, u8)>,
    owner_program: &Address,
    size: usize,
    funder: &Address,
) -> (result: Result<(StorageStep, u8), Failure>)
    ensures
        result == spec_ensure_created(
            record.key@,
            record.data.len() as nat,
            authority_view(*derived),
            *owner_program,
            size,
            *funder,
        ),
{
    match crate::address::authorize(&record.key, derived) {
        Err(failure) => Err(failure),
        Ok(bump) => {
            if record.data.len() == 0 {
                Ok((StorageStep::Create { size, owner: *owner_program, funder: *funder }, bump))
            } else {
                Ok((StorageStep::Keep, bump))
            }
        },
    }
}

/// The step that brings a record to `new_size` bytes, with `payer` to make up
/// the funding where the record grows.
///
/// Shrinking without wiping the freed bytes is not offered: `zero_tail` is set
/// in every step that shrinks.
pub fn resize(record: &Account, new_size: usize, zero_tail: bool, payer: &Address) -> (step:
    StorageStep)
    requires
        new_size < record.data.len() ==> zero_tail,
    ensures
        step == spec_resize(record.data.len() as nat, new_size, zero_tail, *payer),
{
    if new_size == record.data.len() {
        StorageStep::Keep
    } else {
        StorageStep::Resize { new_size, zero_tail, payer: *payer }
    }
}

/// What `resize` decides for a record of `capacity` bytes.
pub open spec fn spec_resize(capacity: nat, new_size: usize, zero_tail: bool, payer: Address)
    -> StorageStep {
    if new_size == capacity {
        StorageStep::Keep
    } else {
        StorageStep::Resize { new_size, zero_tail, payer }
    }
}

/// Funding comes first: once the funding that a step asks for has been moved,
/// the record's balance is at least the minimum for its new size, whenever the
/// step creates the record or makes it larger.
pub proof fn lemma_funding_covers_minimum(
    step: StorageStep,
    capacity: nat,
    balance: u64,
    min_balance: u64,
)
    requires
        step is Create || step.grows(capacity),
    ensures
        balance + step.spec_funding(capacity, balance, min_balance) >= min_balance,
{
}

/// Creating is idempotent: once a record has been created, asking again keeps
/// it as it is, under the same bump.
pub proof fn lemma_ensure_created_idempotent(
    key: Seq<u8>,
    capacity: nat,
    derived: Option<(Seq<u8>, u8)>,
    owner_program: Address,
    size: usize,
    funder: Address,
)
    requires
        size > 0,
        spec_ensure_created(key, capacity, derived, owner_program, size, funder) is Ok,
    ensures
        spec_ensure_created(
            key,
            spec_ensure_created(
                key,
                capacity,
                derived,
                owner_program,
                size,
                funder,
            )->Ok_0.0.capacity_after(capacity),
            derived,
            owner_program,
            size,
            funder,
        ) == Ok::<(StorageStep, u8), Failure>(
            (
                StorageStep::Keep,
                spec_ensure_created(key, capacity, derived, owner_program, size, funder)->Ok_0.1,
            ),
        ),
{
}

} // verus!
