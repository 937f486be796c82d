//! Ticket purchase and redemption as operations on accounts: the ticket engine
//! between the checks that come before it and the instructions that follow.
//!
//! Each operation is decided in full before anything is done. What it returns
//! is the whole of what is to happen, in the order in which it is to happen; an
//! operation that fails returns no part of it.

use crate::address::{authority_view, spec_authorize, Address};
use crate::custody::{TokenMint, TokenMove};
use crate::error::Failure;
use crate::policy::{Policy, FIXED_TICKET_PRICE};
use crate::storage::{ensure_created, resize, spec_resize, Account, StorageStep};
use crate::ticket_layout::{holds_ledger, ledger_bytes, ledger_size, ledger_size_of, stored_ledger};
use crate::tickets::{LedgerView, Purchase, Redemption, TicketAccount};
use vstd::prelude::*;

verus! {

/// What a purchase operation comes to.
#[derive(Clone, Debug, PartialEq, Eq)]
pub struct PurchasePlan {
    /// The payment: the price of the tickets bought and no more, from the
    /// buyer's custody account into the treasury's, under the treasury
    /// authority.
    pub transfer: TokenMove,
    /// What to do with the ledger's storage before the ledger is stored.
    pub storage: StorageStep,
    /// The bump to sign for the ledger's address with.
    pub ledger_bump: u8,
    /// The ledger after the purchase.
    pub ledger: TicketAccount,
    /// The bytes to store the ledger as.
    pub data: Vec<u8>,
}

/// What a redemption operation comes to.
#[derive(Clone, Debug, PartialEq, Eq)]
pub struct RedeemPlan {
    /// The one release of principal and yield, minted to the owner under the
    /// treasury authority.
    pub release: TokenMint,
    /// What to do with the ledger's storage before the ledger is stored.
    pub storage: StorageStep,
    /// The ledger after the redemption.
    pub ledger: TicketAccount,
    /// The bytes to store the ledger as.
    pub data: Vec<u8>,
}

/// The ledger that a purchase starts from: what the account holds, or, where
/// the account has no storage yet, the buyer's empty ledger.
pub open spec fn ledger_before_purchase(account: Account, buyer: Seq<u8>) -> LedgerView {
    if account.data.len() == 0 {
        LedgerView { owner: buyer, tickets: Seq::empty(), ticket_total: 0 }
    } else {
        stored_ledger(account.data@)
    }
}

/// The first reason, if any, for which a purchase is refused: too few accounts;
/// the account presented as the buyer's ledger, or the one presented as
/// treasury authority, is not at the address derived for it; the amount buys
/// nothing; the ledger is not the program's or its bytes are no ledger; the
/// queue is full; the total would pass 64 bits.
pub open spec fn purchase_tickets_failure(
    accounts: Seq<Account>,
    amount: u64,
    program: Address,
    ledger_address: Option<(Seq<u8>, u8)>,
    treasury: Option<(Seq<u8>, u8)>,
    policy: Policy,
) -> Option<Failure> {
    if accounts.len() < 7 {
        Some(Failure::NotEnoughAccountKeys)
    } else if spec_authorize(accounts[4].key@, ledger_address) is Err {
        Some(spec_authorize(accounts[4].key@, ledger_address)->Err_0)
    } else if spec_authorize(accounts[3].key@, treasury) is Err {
        Some(spec_authorize(accounts[3].key@, treasury)->Err_0)
    } else if amount / FIXED_TICKET_PRICE == 0 {
        Some(Failure::ZeroTickets)
    } else if accounts[4].data.len() != 0 && accounts[4].owner@ != program@ {
        Some(Failure::IllegalOwner)
    } else if accounts[4].data.len() != 0 && !holds_ledger(accounts[4].data@) {
        Some(Failure::InvalidAccountData)
    } else {
        ledger_before_purchase(accounts[4], accounts[0].key@).purchase_failure(
            amount,
            policy.max_tickets,
        )
    }
}

/// The storage step of a purchase: a ledger without storage is created for the
/// program at the size of one entry; any other is grown by one entry, its old
/// bytes kept. The buyer pays either way.
pub open spec fn purchase_storage(
    capacity: nat,
    entries_after: nat,
    program: Address,
    buyer: Address,
) -> StorageStep {
    if capacity == 0 {
        StorageStep::Create { size: ledger_size(1) as usize, owner: program, funder: buyer }
    } else {
        spec_resize(capacity, ledger_size(entries_after) as usize, false, buyer)
    }
}

/// What a purchase for `amount` at `now` comes to, given the addresses derived
/// for the buyer's ledger and for the treasury authority.
pub open spec fn purchase_outcome(
    accounts: Seq<Account>,
    amount: u64,
    vesting_period: i64,
    program: Address,
    ledger_address: Option<(Seq<u8>, u8)>,
    treasury: Option<(Seq<u8>, u8)>,
    policy: Policy,
    now: i64,
    result: Result<PurchasePlan, Failure>,
) -> bool {
    match result {
        Ok(plan) => {
            &&& purchase_tickets_failure(
                accounts,
                amount,
                program,
                ledger_address,
                treasury,
                policy,
            ) is None
            &&& plan.transfer == (TokenMove {
                source: accounts[1].key,
                destination: accounts[2].key,
                authority: accounts[3].key,
                amount: (amount / FIXED_TICKET_PRICE * FIXED_TICKET_PRICE) as u64,
                bump: Some(spec_authorize(accounts[3].key@, treasury)->Ok_0),
            })
            &&& plan.ledger_bump == spec_authorize(accounts[4].key@, ledger_address)->Ok_0
            &&& plan.ledger@ == ledger_before_purchase(accounts[4], accounts[0].key@).purchased(
                amount,
                vesting_period,
                now,
            )
            &&& plan.ledger@.wf()
            &&& plan.storage == purchase_storage(
                accounts[4].data.len() as nat,
                plan.ledger@.tickets.len(),
                program,
                accounts[0].key,
            )
            &&& plan.data@ == ledger_bytes(plan.ledger@)
            &&& plan.data.len() == plan.storage.capacity_after(accounts[4].data.len() as nat)
        },
        Err(failure) => purchase_tickets_failure(
            accounts,
            amount,
            program,
            ledger_address,
            treasury,
            policy,
        ) == Some(failure),
    }
}

/// Buys tickets for `amount` at `now`, given the addresses of the buyer's
/// ledger and of the treasury authority as derived.
///
/// The accounts are, in order: buyer, buyer's custody account, treasury's
/// custody account, treasury authority, buyer's ledger, custody service, system
/// program.
pub fn purchase_tickets_with(
    accounts: &[Account],
    amount: u64,
    vesting_period: i64,
    program_id: &Address,
    ledger_address: &Option<(Address, u8)>,
    treasury: &Option<(Address, u8)>,
    policy: &Policy,
    now: i64,
) -> (result: Result<PurchasePlan, Failure>)
    ensures
        purchase_outcome(
            accounts@,
            amount,
            vesting_period,
            *program_id,
            authority_view(*ledger_address),
            authority_view(*treasury),
            *policy,
            now,
            result,
        ),
{
    if accounts.len() < 7 {
        return Err(Failure::NotEnoughAccountKeys);
    }
    let (created, ledger_bump) = match ensure_created(
        &accounts[4],
        ledger_address,
        program_id,
        ledger_size_of(1),
        &accounts[0].key,
    ) {
        Ok(step) => step,
        Err(failure) => {
            return Err(failure);
        },
    };
    let treasury_bump: u8 = match crate::address::authorize(&accounts[3].key, treasury) {
        Ok(bump) => bump,
        Err(failure) => {
            return Err(failure);
        },
    };
    if amount / FIXED_TICKET_PRICE == 0 {
        return Err(Failure::ZeroTickets);
    }
    let before: TicketAccount = if accounts[4].data.len() == 0 {
        TicketAccount::new(accounts[0].key)
    } else {
        if accounts[4].owner != *program_id {
            return Err(Failure::IllegalOwner);
        }
        match TicketAccount::from_bytes(accounts[4].data.as_slice()) {
            Some(ledger) => ledger,
            None => {
                return Err(Failure::InvalidAccountData);
            },
        }
    };
    let bought: Purchase = match before.purchase(amount, vesting_period, now, policy) {
        Ok(bought) => bought,
        Err(failure) => {
            return Err(failure);
        },
    };
    let data = bought.ledger.to_bytes();
    let storage: StorageStep = match created {
        StorageStep::Keep => resize(&accounts[4], data.len(), false, &accounts[0].key),
        _ => created,
    };
    Ok(
        PurchasePlan {
            transfer: TokenMove {
                source: accounts[1].key,
                destination: accounts[2].key,
                authority: accounts[3].key,
                amount: bought.cost,
                bump: Some(treasury_bump),
            },
            storage,
            ledger_bump,
            ledger: bought.ledger,
            data,
        },
    )
}

/// Buys as many tickets as `amount` pays for, vesting for `vesting_period`
/// seconds from `now`.
///
/// The price of the tickets bought moves into the treasury's custody account;
/// what `amount` holds beyond it is neither moved nor returned. The buyer's
/// ledger is created on the first purchase and grown by one entry on every
/// later one.
///
/// The accounts are, in order: buyer, buyer's custody account, treasury's
/// custody account, treasury authority, buyer's ledger, custody service, system
/// program.
pub fn purchase_tickets(
    accounts: &[Account],
    amount: u64,
    vesting_period: i64,
    program_id: &Address,
    policy: &Policy,
    now: i64,
) -> (result: Result<PurchasePlan, Failure>)
    ensures
        accounts.len() < 7 ==> result == Err::<PurchasePlan, Failure>(
            Failure::NotEnoughAccountKeys,
        ),
        accounts.len() >= 7 ==> purchase_outcome(
            accounts@,
            amount,
            vesting_period,
            *program_id,
            policy.spec_ledger_address(accounts[0].key@, program_id@),
            policy.spec_treasury_authority(program_id@),
            *policy,
            now,
            result,
        ),
{
    if accounts.len() < 7 {
        return Err(Failure::NotEnoughAccountKeys);
    }
    let ledger_address = policy.ledger_address(&accounts[0].key, program_id);
    let treasury = policy.treasury_authority(program_id);
    purchase_tickets_with(
        accounts,
        amount,
        vesting_period,
        program_id,
        &ledger_address,
        &treasury,
        policy,
        now,
    )
}

/// The first reason, if any, for which a redemption is refused: too few
/// accounts; the account presented as treasury authority is not the one
/// derived; the ledger has no storage; its bytes are no ledger; and then the
/// reasons of the engine.
pub open spec fn redeem_tickets_failure(
    accounts: Seq<Account>,
    amount: u64,
    treasury: Option<(Seq<u8>, u8)>,
    now: i64,
) -> Option<Failure> {
    if accounts.len() < 6 {
        Some(Failure::NotEnoughAccountKeys)
    } else if spec_authorize(accounts[4].key@, treasury) is Err {
        Some(spec_authorize(accounts[4].key@, treasury)->Err_0)
    } else if accounts[0].data.len() == 0 {
        Some(Failure::UninitializedAccount)
    } else if !holds_ledger(accounts[0].data@) {
        Some(Failure::InvalidAccountData)
    } else {
        stored_ledger(accounts[0].data@).redeem_failure(accounts[1].key@, amount, now as int)
    }
}

/// What a redemption of `amount` units at `now` comes to, given the treasury
/// authority.
pub open spec fn redeem_outcome(
    accounts: Seq<Account>,
    amount: u64,
    treasury: Option<(Seq<u8>, u8)>,
    now: i64,
    result: Result<RedeemPlan, Failure>,
) -> bool {
    match result {
        Ok(plan) => {
            &&& redeem_tickets_failure(accounts, amount, treasury, now) is None
            &&& plan.release == (TokenMint {
                mint: accounts[2].key,
                recipient: accounts[3].key,
                authority: accounts[4].key,
                amount: stored_ledger(accounts[0].data@).payout(amount, now as int) as u64,
                bump: spec_authorize(accounts[4].key@, treasury)->Ok_0,
            })
            &&& plan.ledger@ == stored_ledger(accounts[0].data@).redeemed(amount, now as int)
            &&& plan.ledger@.wf()
            &&& plan.storage == spec_resize(
                accounts[0].data.len() as nat,
                ledger_size(plan.ledger@.tickets.len()) as usize,
                true,
                accounts[1].key,
            )
            &&& plan.data@ == ledger_bytes(plan.ledger@)
            &&& plan.data.len() == plan.storage.capacity_after(accounts[0].data.len() as nat)
        },
        Err(failure) => redeem_tickets_failure(accounts, amount, treasury, now) == Some(failure),
    }
}

/// Redeems `amount` units at `now`, given the treasury authority as derived.
///
/// The accounts are, in order: ledger, owner, mint, owner's custody account,
/// treasury authority, custody service.
pub fn redeem_tickets_with(
    accounts: &[Account],
    amount: u64,
    treasury: &Option<(Address, u8)>,
    now: i64,
) -> (result: Result<RedeemPlan, Failure>)
    ensures
        redeem_outcome(accounts@, amount, authority_view(*treasury), now, result),
{
    if accounts.len() < 6 {
        return Err(Failure::NotEnoughAccountKeys);
    }
    let bump: u8 = match crate::address::authorize(&accounts[4].key, treasury) {
        Ok(bump) => bump,
        Err(failure) => {
            return Err(failure);
        },
    };
    if accounts[0].data.len() == 0 {
        return Err(Failure::UninitializedAccount);
    }
    let before: TicketAccount = match TicketAccount::from_bytes(accounts[0].data.as_slice()) {
        Some(ledger) => ledger,
        None => {
            return Err(Failure::InvalidAccountData);
        },
    };
    let done: Redemption = match before.redeem(&accounts[1].key, amount, now) {
        Ok(done) => done,
        Err(failure) => {
            return Err(failure);
        },
    };
    let data = done.ledger.to_bytes();
    proof {
        crate::tickets::lemma_kept_accounts(
            before@.tickets,
            before@.tickets.len() as int,
            before@.redeem_want(amount),
            now as int,
        );
    }
    let storage: StorageStep = resize(&accounts[0], data.len(), true, &accounts[1].key);
    Ok(
        RedeemPlan {
            release: TokenMint {
                mint: accounts[2].key,
                recipient: accounts[3].key,
                authority: accounts[4].key,
                amount: done.payout,
                bump,
            },
            storage,
            ledger: done.ledger,
            data,
        },
    )
}

/// Redeems `amount` units for the ledger's owner at `now`.
///
/// A request beyond the ledger's total is served as a request for the total.
/// The walk over the queue is completed before anything is released: where the
/// matured units do not cover the request, the operation fails with
/// `InsufficientVestedTickets` and nothing is minted, not even for the units
/// that had matured. Otherwise principal and yield of all units redeemed are
/// minted in one instruction, the ledger's storage is brought to the size of the
/// entries that are left, with the freed bytes wiped, and the ledger is stored.
///
/// The accounts are, in order: ledger, owner, mint, owner's custody account,
/// treasury authority, custody service.
pub fn redeem_tickets(
    accounts: &[Account],
    amount: u64,
    program_id: &Address,
    policy: &Policy,
    now: i64,
) -> (result: Result<RedeemPlan, Failure>)
    ensures
        redeem_outcome(
            accounts@,
            amount,
            policy.spec_treasury_authority(program_id@),
            now,
            result,
        ),
{
    let treasury = policy.treasury_authority(program_id);
    redeem_tickets_with(accounts, amount, &treasury, now)
}

/// A redemption by anyone but the owner fails with `UnauthorizedAccess`,
/// whatever the ledger holds and whatever is asked for, as soon as the accounts
/// are enough, the treasury authority is the one derived and the ledger's bytes
/// are a ledger.
pub proof fn lemma_redeem_by_stranger_refused(
    accounts: Seq<Account>,
    amount: u64,
    treasury: Option<(Seq<u8>, u8)>,
    now: i64,
)
    requires
        accounts.len() >= 6,
        spec_authorize(accounts[4].key@, treasury) is Ok,
        holds_ledger(accounts[0].data@),
        stored_ledger(accounts[0].data@).owner != accounts[1].key@,
    ensures
        redeem_tickets_failure(accounts, amount, treasury, now) == Some(
            Failure::Custom(crate::error::CustomError::UnauthorizedAccess),
        ),
{
}

} // verus!
