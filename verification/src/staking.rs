//! The staking engine: a deposit is locked for a fixed time and then released
//! with a reward of five percent a year, simple interest.
//!
//! A record is unstaked while it holds no principal and staked while it holds
//! some. Every stake adds to the principal and starts the lock anew from the
//! time of that stake. An unstake of the whole principal, or of more, empties
//! the record; an unstake of less leaves the rest under the old clock.

use crate::address::{authority_view, spec_authorize, Address};
use crate::custody::{custody_held, TokenMint, TokenMove};
use crate::error::{CustomError, Failure};
use crate::layout::{
    le_bytes, le_i64_bytes, le_i64_value, le_value, lemma_le_bytes_len, lemma_le_bytes_of_value,
    lemma_le_i64_bytes_of_value, lemma_le_i64_value_of_bytes, lemma_le_value_bound,
    lemma_le_value_of_bytes, lemma_radix_values, read_block, read_i64, read_le, write_bytes,
    write_i64, write_le,
};
use crate::policy::Policy;
use crate::storage::{ensure_created, spec_ensure_created, Account, StorageStep};
use crate::tickets::elapsed;
use vstd::prelude::*;

verus! {

/// Yearly reward of a stake, in percent of the principal.
pub const STAKING_REWARD_RATE: u64 = 5;

/// Bytes of a stored staker record.
pub const STAKER_ACCOUNT_SIZE: usize = 56;

/// The staking position of one actor.
#[derive(Clone, Copy, Debug, PartialEq, Eq)]
pub struct Staker {
    /// Principal under lock, in base units.
    pub amount_staked: u64,
    /// When the latest stake was made.
    pub last_staked_time: i64,
    /// Seconds from the latest stake during which nothing can be withdrawn.
    pub staking_duration: i64,
    /// The actor who may withdraw.
    pub owner_pubkey: Address,
}

/// A staker record as a mathematical value.
pub struct StakerView {
    pub amount_staked: u64,
    pub last_staked_time: i64,
    pub staking_duration: i64,
    pub owner_pubkey: Seq<u8>,
}

impl View for Staker {
    type V = StakerView;

    open spec fn view(&self) -> StakerView {
        StakerView {
            amount_staked: self.amount_staked,
            last_staked_time: self.last_staked_time,
            staking_duration: self.staking_duration,
            owner_pubkey: self.owner_pubkey@,
        }
    }
}

/// What an unstake comes to.
#[derive(Clone, Copy, Debug, PartialEq, Eq)]
pub struct Withdrawal {
    /// Principal released.
    pub principal: u64,
    /// Reward on the principal released.
    pub reward: u64,
    /// Base units to release: principal and reward together.
    pub total: u64,
    /// The record after the withdrawal.
    pub record: Staker,
}

/// A hundred times the seconds of a year: what the product of an amount, a
/// rate in percent a year and a time in seconds is divided by.
pub const PERCENT_YEAR: u64 = 3_153_600_000;

/// The whole number nearest to `numerator / denominator`, halves going up, for
/// an even denominator.
pub open spec fn round_half_up(numerator: nat, denominator: nat) -> nat {
    (numerator + denominator / 2) / denominator
}

/// The reward on `amount_staked` base units staked from `last_staked_time` to
/// `current_time`: five percent of the principal for each year, in proportion
/// for a part of a year, rounded to the nearest base unit. No time has passed
/// where `current_time` is not later than `last_staked_time`.
pub open spec fn staking_reward(amount_staked: u64, last_staked_time: i64, current_time: i64)
    -> nat {
    round_half_up(
        amount_staked as nat * elapsed(last_staked_time as int, current_time as int)
            * STAKING_REWARD_RATE as nat,
        PERCENT_YEAR as nat,
    )
}

/// The reward as it is paid: `staking_reward`, held to the largest amount that
/// 64 bits can state.
pub open spec fn spec_calculate_staking_rewards(
    amount_staked: u64,
    last_staked_time: i64,
    current_time: i64,
) -> u64 {
    if staking_reward(amount_staked, last_staked_time, current_time) > u64::MAX {
        u64::MAX
    } else {
        staking_reward(amount_staked, last_staked_time, current_time) as u64
    }
}

/// The reward on `amount_staked` base units staked from `last_staked_time` to
/// `current_time`: five percent a year, rounded to the nearest base unit.
pub fn calculate_staking_rewards(amount_staked: u64, last_staked_time: i64, current_time: i64)
    -> (reward: u64)
    ensures
        reward == spec_calculate_staking_rewards(amount_staked, last_staked_time, current_time),
{
    let seconds: u64 = if current_time > last_staked_time {
        (current_time as i128 - last_staked_time as i128) as u64
    } else {
        0
    };
    assert(seconds == elapsed(last_staked_time as int, current_time as int));
    assert(amount_staked as nat * seconds as nat <= 0xffff_ffff_ffff_ffff * 0xffff_ffff_ffff_ffff)
        by (nonlinear_arith)
        requires
            amount_staked <= 0xffff_ffff_ffff_ffff,
            seconds <= 0xffff_ffff_ffff_ffff,
    ;
    let weighted: u128 = amount_staked as u128 * seconds as u128;
    // Five percent a year is the whole principal in twenty years: the quotient
    // below is the reward with numerator and denominator both divided by five.
    let shifted: u128 = weighted + PERCENT_YEAR as u128 / 10;
    let rounded: u128 = shifted / (PERCENT_YEAR as u128 / 5);
    assert(rounded == staking_reward(amount_staked, last_staked_time, current_time)) by {
        assert(weighted * 5 + PERCENT_YEAR / 2 == 5 * shifted);
        assert((5 * shifted) / 3_153_600_000 == shifted / 630_720_000);
    }
    if rounded > u64::MAX as u128 {
        u64::MAX
    } else {
        rounded as u64
    }
}

impl StakerView {
    /// A record names an actor by a 32-byte address.
    pub open spec fn wf(self) -> bool {
        self.owner_pubkey.len() == 32
    }

    /// The first reason, if any, for which a stake of `amount` is refused.
    pub open spec fn stake_failure(self, amount: u64) -> Option<Failure> {
        if self.amount_staked + amount > u64::MAX {
            Some(Failure::ArithmeticOverflow)
        } else {
            None
        }
    }

    /// The record after `actor` has staked `amount` at `now`.
    pub open spec fn staked(self, actor: Seq<u8>, amount: u64, now: i64, duration: i64)
        -> StakerView {
        StakerView {
            amount_staked: (self.amount_staked + amount) as u64,
            last_staked_time: now,
            staking_duration: duration,
            owner_pubkey: actor,
        }
    }

    /// The principal that an unstake of `amount` releases: `amount`, or all
    /// there is where `amount` is as much or more.
    pub open spec fn released(self, amount: u64) -> u64 {
        if amount >= self.amount_staked {
            self.amount_staked
        } else {
            amount
        }
    }

    /// The reward on the principal that an unstake of `amount` releases.
    pub open spec fn reward(self, amount: u64, now: i64) -> u64 {
        spec_calculate_staking_rewards(self.released(amount), self.last_staked_time, now)
    }

    /// Whether the lock is still running at `now`.
    pub open spec fn locked(self, now: i64) -> bool {
        now < self.last_staked_time + self.staking_duration
    }

    /// The first reason, if any, for which `actor`'s unstake is refused.
    pub open spec fn unstake_failure(self, actor: Seq<u8>, amount: u64, now: i64) -> Option<
        Failure,
    > {
        if self.owner_pubkey != actor {
            Some(Failure::IllegalOwner)
        } else if self.locked(now) {
            Some(Failure::Custom(CustomError::StakingPeriodNotComplete))
        } else if self.released(amount) + self.reward(amount, now) > u64::MAX {
            Some(Failure::ArithmeticOverflow)
        } else {
            None
        }
    }

    /// The record after an unstake of `amount`: emptied where everything is
    /// released, else with less principal under the same clock.
    pub open spec fn unstaked(self, amount: u64) -> StakerView {
        if amount >= self.amount_staked {
            StakerView {
                amount_staked: 0,
                last_staked_time: 0,
                staking_duration: 0,
                owner_pubkey: self.owner_pubkey,
            }
        } else {
            StakerView {
                amount_staked: (self.amount_staked - amount) as u64,
                last_staked_time: self.last_staked_time,
                staking_duration: self.staking_duration,
                owner_pubkey: self.owner_pubkey,
            }
        }
    }
}

impl StakerView {
    /// The record after an unstake has been asked for: changed as the unstake
    /// says where it is not refused, and as it was where it is.
    pub open spec fn after_unstake(self, actor: Seq<u8>, amount: u64, now: i64) -> StakerView {
        if self.unstake_failure(actor, amount, now) is None {
            self.unstaked(amount)
        } else {
            self
        }
    }
}

/// No stake can be withdrawn before its lock has run out: after any stake at
/// `staked_at` under a lock of `duration` seconds, every unstake by the same
/// actor at a time before `staked_at + duration` is refused with
/// `StakingPeriodNotComplete`, whatever amount it asks for, and leaves the
/// record as the stake left it.
pub proof fn lemma_unstake_refused_while_locked(
    record: StakerView,
    actor: Seq<u8>,
    stake_amount: u64,
    staked_at: i64,
    duration: i64,
    unstake_amount: u64,
    now: i64,
)
    requires
        now < staked_at + duration,
    ensures
        record.staked(actor, stake_amount, staked_at, duration).unstake_failure(
            actor,
            unstake_amount,
            now,
        ) == Some(Failure::Custom(CustomError::StakingPeriodNotComplete)),
        record.staked(actor, stake_amount, staked_at, duration).after_unstake(
            actor,
            unstake_amount,
            now,
        ) == record.staked(actor, stake_amount, staked_at, duration),
{
}

/// A full unstake empties the record and a partial one keeps the clock: after
/// an unstake that is not refused, the record holds no principal and no clock
/// where the amount was all there was or more, and otherwise holds what is left
/// under the clock it had.
pub proof fn lemma_unstake_empties_or_keeps_clock(
    record: StakerView,
    actor: Seq<u8>,
    amount: u64,
    now: i64,
)
    requires
        record.unstake_failure(actor, amount, now) is None,
    ensures
        amount >= record.amount_staked ==> {
            &&& record.after_unstake(actor, amount, now).amount_staked == 0
            &&& record.after_unstake(actor, amount, now).last_staked_time == 0
            &&& record.after_unstake(actor, amount, now).staking_duration == 0
        },
        amount < record.amount_staked ==> {
            &&& record.after_unstake(actor, amount, now).amount_staked == record.amount_staked
                - amount
            &&& record.after_unstake(actor, amount, now).last_staked_time
                == record.last_staked_time
            &&& record.after_unstake(actor, amount, now).staking_duration
                == record.staking_duration
        },
        record.after_unstake(actor, amount, now).owner_pubkey == record.owner_pubkey,
{
}

/// Stakes add up and the clock follows the latest: two stakes in a row leave
/// the principal of both under a lock that runs from the second.
pub proof fn lemma_stakes_accumulate(
    record: StakerView,
    actor: Seq<u8>,
    first: u64,
    first_at: i64,
    second: u64,
    second_at: i64,
    duration: i64,
)
    requires
        record.amount_staked + first + second <= u64::MAX,
    ensures
        record.staked(actor, first, first_at, duration).staked(
            actor,
            second,
            second_at,
            duration,
        ).amount_staked == record.amount_staked + first + second,
        record.staked(actor, first, first_at, duration).staked(
            actor,
            second,
            second_at,
            duration,
        ).last_staked_time == second_at,
{
}

/// The 56 bytes of a staker record: principal, time of the latest stake and
/// lock duration in 8 little-endian bytes each, then the owner's address.
pub open spec fn staker_bytes(record: StakerView) -> Seq<u8> {
    le_bytes(record.amount_staked as nat, 8) + le_i64_bytes(record.last_staked_time as int)
        + le_i64_bytes(record.staking_duration as int) + record.owner_pubkey
}

/// The staker record that 56 bytes hold.
pub open spec fn stored_staker(data: Seq<u8>) -> StakerView {
    StakerView {
        amount_staked: le_value(data.subrange(0, 8)) as u64,
        last_staked_time: le_i64_value(data.subrange(8, 16)) as i64,
        staking_duration: le_i64_value(data.subrange(16, 24)) as i64,
        owner_pubkey: data.subrange(24, 56),
    }
}

/// What is written can be read: a record's bytes are 56, and they hold the
/// record.
pub proof fn lemma_stored_staker_of_bytes(record: StakerView)
    requires
        record.wf(),
    ensures
        staker_bytes(record).len() == STAKER_ACCOUNT_SIZE,
        stored_staker(staker_bytes(record)) == record,
{
    let data = staker_bytes(record);
    lemma_radix_values();
    lemma_le_bytes_len(record.amount_staked as nat, 8);
    lemma_le_value_of_bytes(record.amount_staked as nat, 8);
    lemma_le_i64_value_of_bytes(record.last_staked_time as int);
    lemma_le_i64_value_of_bytes(record.staking_duration as int);
    assert(data.subrange(0, 8) =~= le_bytes(record.amount_staked as nat, 8));
    assert(data.subrange(8, 16) =~= le_i64_bytes(record.last_staked_time as int));
    assert(data.subrange(16, 24) =~= le_i64_bytes(record.staking_duration as int));
    assert(data.subrange(24, 56) =~= record.owner_pubkey);
}

/// What is read can be written: the bytes of the record that 56 bytes hold are
/// those 56 bytes.
pub proof fn lemma_bytes_of_stored_staker(data: Seq<u8>)
    requires
        data.len() == STAKER_ACCOUNT_SIZE,
    ensures
        stored_staker(data).wf(),
        staker_bytes(stored_staker(data)) == data,
{
    lemma_radix_values();
    lemma_le_value_bound(data.subrange(0, 8));
    lemma_le_bytes_of_value(data.subrange(0, 8));
    lemma_le_i64_bytes_of_value(data.subrange(8, 16));
    lemma_le_i64_bytes_of_value(data.subrange(16, 24));
    assert(staker_bytes(stored_staker(data)) =~= data.subrange(0, 8) + data.subrange(8, 16)
        + data.subrange(16, 24) + data.subrange(24, 56));
    assert(data.subrange(0, 8) + data.subrange(8, 16) + data.subrange(16, 24) + data.subrange(
        24,
        56,
    ) =~= data);
}

impl Staker {
    /// The record of an actor who has not staked yet.
    pub fn new(owner: Address, duration: i64) -> (record: Staker)
        ensures
            record@ == (StakerView {
                amount_staked: 0,
                last_staked_time: 0,
                staking_duration: duration,
                owner_pubkey: owner@,
            }),
    {
        Staker {
            amount_staked: 0,
            last_staked_time: 0,
            staking_duration: duration,
            owner_pubkey: owner,
        }
    }

    /// Stakes `amount` for `actor` at `now` under a lock of `duration` seconds.
    ///
    /// The principal grows by `amount`, the lock starts anew at `now`, and the
    /// record is the actor's. Refused with `ArithmeticOverflow` where the
    /// principal would pass 64 bits.
    pub fn stake(&self, actor: &Address, amount: u64, now: i64, duration: i64) -> (result: Result<
        Staker,
        Failure,
    >)
        ensures
            match result {
                Ok(record) => self@.stake_failure(amount) is None && record@ == self@.staked(
                    actor@,
                    amount,
                    now,
                    duration,
                ),
                Err(failure) => self@.stake_failure(amount) == Some(failure),
            },
    {
        if amount > u64::MAX - self.amount_staked {
            return Err(Failure::ArithmeticOverflow);
        }
        Ok(
            Staker {
                amount_staked: self.amount_staked + amount,
                last_staked_time: now,
                staking_duration: duration,
                owner_pubkey: *actor,
            },
        )
    }

    /// Withdraws `amount` for `actor` at `now`.
    ///
    /// An amount as large as the principal or larger withdraws all of it and
    /// empties the record; a smaller one leaves the rest under the same clock.
    /// Refused with `IllegalOwner` where `actor` is not the record's owner,
    /// with `StakingPeriodNotComplete` before the lock has run out, and with
    /// `ArithmeticOverflow` where principal and reward together would pass 64
    /// bits. The record itself is never changed: the caller stores the record
    /// that a successful withdrawal returns.
    pub fn unstake(&self, actor: &Address, amount: u64, now: i64) -> (result: Result<
        Withdrawal,
        Failure,
    >)
        ensures
            match result {
                Ok(paid) => {
                    &&& self@.unstake_failure(actor@, amount, now) is None
                    &&& paid.principal == self@.released(amount)
                    &&& paid.reward == self@.reward(amount, now)
                    &&& paid.total == paid.principal + paid.reward
                    &&& paid.record@ == self@.unstaked(amount)
                },
                Err(failure) => self@.unstake_failure(actor@, amount, now) == Some(failure),
            },
    {
        if self.owner_pubkey != *actor {
            return Err(Failure::IllegalOwner);
        }
        if (now as i128) < self.last_staked_time as i128 + self.staking_duration as i128 {
            return Err(Failure::Custom(CustomError::StakingPeriodNotComplete));
        }
        let everything: bool = amount >= self.amount_staked;
        let principal: u64 = if everything {
            self.amount_staked
        } else {
            amount
        };
        let reward: u64 = calculate_staking_rewards(principal, self.last_staked_time, now);
        if reward > u64::MAX - principal {
            return Err(Failure::ArithmeticOverflow);
        }
        let record = if everything {
            Staker {
                amount_staked: 0,
                last_staked_time: 0,
                staking_duration: 0,
                owner_pubkey: self.owner_pubkey,
            }
        } else {
            Staker {
                amount_staked: self.amount_staked - amount,
                last_staked_time: self.last_staked_time,
                staking_duration: self.staking_duration,
                owner_pubkey: self.owner_pubkey,
            }
        };
        Ok(Withdrawal { principal, reward, total: principal + reward, record })
    }

    /// The bytes to store this record as.
    pub fn to_bytes(&self) -> (data: Vec<u8>)
        ensures
            data@ == staker_bytes(self@),
            data.len() == STAKER_ACCOUNT_SIZE,
            stored_staker(data@) == self@,
    {
        let mut data: Vec<u8> = Vec::new();
        write_le(&mut data, self.amount_staked, 8);
        write_i64(&mut data, self.last_staked_time);
        write_i64(&mut data, self.staking_duration);
        write_bytes(&mut data, self.owner_pubkey.bytes.as_slice());
        proof {
            assert(data@ =~= staker_bytes(self@));
            lemma_stored_staker_of_bytes(self@);
        }
        data
    }

    /// The record that `data` holds, or `None` where `data` is not 56 bytes.
    pub fn from_bytes(data: &[u8]) -> (record: Option<Staker>)
        ensures
            match record {
                Some(found) => data.len() == STAKER_ACCOUNT_SIZE && found@ == stored_staker(data@),
                None => data.len() != STAKER_ACCOUNT_SIZE,
            },
    {
        if data.len() != STAKER_ACCOUNT_SIZE {
            return None;
        }
        let amount_staked: u64 = read_le(data, 0, 8);
        let last_staked_time: i64 = read_i64(data, 8);
        let staking_duration: i64 = read_i64(data, 16);
        let owner_pubkey = Address { bytes: read_block(data, 24) };
        proof {
            lemma_radix_values();
            lemma_le_value_bound(data@.subrange(0, 8));
            lemma_le_i64_bytes_of_value(data@.subrange(8, 16));
            lemma_le_i64_bytes_of_value(data@.subrange(16, 24));
        }
        Some(Staker { amount_staked, last_staked_time, staking_duration, owner_pubkey })
    }
}

/// What a stake operation comes to.
#[derive(Clone, Debug, PartialEq, Eq)]
pub struct StakePlan {
    /// What to do with the staker record's storage before anything else.
    pub storage: StorageStep,
    /// The bump to sign the record's creation with.
    pub record_bump: u8,
    /// The deposit, from the actor's custody account into the treasury's.
    pub transfer: TokenMove,
    /// The record after the stake.
    pub record: Staker,
    /// The bytes to store the record as.
    pub data: Vec<u8>,
}

/// What an unstake operation comes to.
#[derive(Clone, Debug, PartialEq, Eq)]
pub struct UnstakePlan {
    /// The release of principal and reward, minted to the actor.
    pub release: TokenMint,
    /// The record after the withdrawal.
    pub record: Staker,
    /// The bytes to store the record as.
    pub data: Vec<u8>,
}

/// The record that a stake starts from: what the account holds, or, where the
/// account has no storage yet, the record of an actor who has not staked.
pub open spec fn record_before_stake(account: Account, actor: Seq<u8>, policy: Policy)
    -> StakerView {
    if account.data.len() == 0 {
        StakerView {
            amount_staked: 0,
            last_staked_time: 0,
            staking_duration: policy.staking_duration,
            owner_pubkey: actor,
        }
    } else {
        stored_staker(account.data@)
    }
}

/// The first reason, if any, for which a stake is refused: too few accounts;
/// the account presented as the actor's staker record is not at the address
/// derived for it; the record's bytes are no record; the principal would pass
/// 64 bits.
pub open spec fn stake_tokens_failure(
    accounts: Seq<Account>,
    amount: u64,
    record_address: Option<(Seq<u8>, u8)>,
    policy: Policy,
) -> Option<Failure> {
    if accounts.len() < 7 {
        Some(Failure::NotEnoughAccountKeys)
    } else if spec_authorize(accounts[6].key@, record_address) is Err {
        Some(spec_authorize(accounts[6].key@, record_address)->Err_0)
    } else if accounts[6].data.len() != 0 && accounts[6].data.len() != STAKER_ACCOUNT_SIZE {
        Some(Failure::InvalidAccountData)
    } else {
        record_before_stake(accounts[6], accounts[3].key@, policy).stake_failure(amount)
    }
}

/// What a stake of `amount` at `now` comes to, given the address derived for
/// the actor's staker record.
pub open spec fn stake_outcome(
    accounts: Seq<Account>,
    amount: u64,
    program: Address,
    record_address: Option<(Seq<u8>, u8)>,
    policy: Policy,
    now: i64,
    result: Result<StakePlan, Failure>,
) -> bool {
    match result {
        Ok(plan) => {
            &&& stake_tokens_failure(accounts, amount, record_address, policy) is None
            &&& Ok::<(StorageStep, u8), Failure>((plan.storage, plan.record_bump))
                == spec_ensure_created(
                accounts[6].key@,
                accounts[6].data.len() as nat,
                record_address,
                program,
                STAKER_ACCOUNT_SIZE,
                accounts[3].key,
            )
            &&& plan.transfer == (TokenMove {
                source: accounts[0].key,
                destination: accounts[1].key,
                authority: accounts[3].key,
                amount,
                bump: None,
            })
            &&& plan.record@ == record_before_stake(accounts[6], accounts[3].key@, policy).staked(
                accounts[3].key@,
                amount,
                now,
                policy.staking_duration,
            )
            &&& plan.data@ == staker_bytes(plan.record@)
        },
        Err(failure) => stake_tokens_failure(accounts, amount, record_address, policy) == Some(
            failure,
        ),
    }
}

/// Stakes `amount` at `now`, given the address of the actor's staker record as
/// derived.
///
/// The accounts are, in order: actor's custody account, treasury's custody
/// account, treasury authority, actor, custody service, system program, staker
/// record.
pub fn stake_tokens_with(
    accounts: &[Account],
    amount: u64,
    program_id: &Address,
    record_address: &Option<(Address, u8)>,
    policy: &Policy,
    now: i64,
) -> (result: Result<StakePlan, Failure>)
    ensures
        stake_outcome(
            accounts@,
            amount,
            *program_id,
            authority_view(*record_address),
            *policy,
            now,
            result,
        ),
{
    if accounts.len() < 7 {
        return Err(Failure::NotEnoughAccountKeys);
    }
    let actor: Address = accounts[3].key;
    let (storage, record_bump) = match ensure_created(
        &accounts[6],
        record_address,
        program_id,
        STAKER_ACCOUNT_SIZE,
        &actor,
    ) {
        Ok(step) => step,
        Err(failure) => {
            return Err(failure);
        },
    };
    let before: Staker = if accounts[6].data.len() == 0 {
        Staker::new(actor, policy.staking_duration)
    } else {
        match Staker::from_bytes(accounts[6].data.as_slice()) {
            Some(record) => record,
            None => {
                return Err(Failure::InvalidAccountData);
            },
        }
    };
    let record: Staker = match before.stake(&actor, amount, now, policy.staking_duration) {
        Ok(record) => record,
        Err(failure) => {
            return Err(failure);
        },
    };
    let data = record.to_bytes();
    Ok(
        StakePlan {
            storage,
            record_bump,
            transfer: TokenMove {
                source: accounts[0].key,
                destination: accounts[1].key,
                authority: actor,
                amount,
                bump: None,
            },
            record,
            data,
        },
    )
}

/// Stakes `amount` for the actor at `now`.
///
/// The staker record is created on the first stake. The deposit moves from the
/// actor's custody account into the treasury's on the actor's signature, the
/// principal grows by `amount`, and the lock starts anew at `now` for the
/// policy's duration.
///
/// The accounts are, in order: actor's custody account, treasury's custody
/// account, treasury authority, actor, custody service, system program, staker
/// record.
pub fn stake_tokens(
    accounts: &[Account],
    amount: u64,
    program_id: &Address,
    policy: &Policy,
    now: i64,
) -> (result: Result<StakePlan, Failure>)
    ensures
        accounts.len() < 7 ==> result == Err::<StakePlan, Failure>(Failure::NotEnoughAccountKeys),
        accounts.len() >= 7 ==> stake_outcome(
            accounts@,
            amount,
            *program_id,
            policy.spec_staker_address(accounts[3].key@, program_id@),
            *policy,
            now,
            result,
        ),
{
    if accounts.len() < 7 {
        return Err(Failure::NotEnoughAccountKeys);
    }
    let record_address = policy.staker_address(&accounts[3].key, program_id);
    stake_tokens_with(accounts, amount, program_id, &record_address, policy, now)
}

/// The first reason, if any, for which an unstake is refused: too few accounts;
/// the account presented as treasury authority is not the one derived; a
/// custody account or the mint is not held by the custody service; the staker
/// record has no storage or is no record; and then the reasons of the engine.
pub open spec fn unstake_tokens_failure(
    accounts: Seq<Account>,
    amount: u64,
    treasury: Option<(Seq<u8>, u8)>,
    policy: Policy,
    now: i64,
) -> Option<Failure> {
    if accounts.len() < 7 {
        Some(Failure::NotEnoughAccountKeys)
    } else if spec_authorize(accounts[4].key@, treasury) is Err {
        Some(spec_authorize(accounts[4].key@, treasury)->Err_0)
    } else if !custody_held(accounts[2], policy) || !custody_held(accounts[3], policy)
        || !custody_held(accounts[6], policy) {
        Some(Failure::IncorrectProgramId)
    } else if accounts[1].data.len() == 0 {
        Some(Failure::UninitializedAccount)
    } else if accounts[1].data.len() != STAKER_ACCOUNT_SIZE {
        Some(Failure::InvalidAccountData)
    } else {
        stored_staker(accounts[1].data@).unstake_failure(accounts[0].key@, amount, now)
    }
}

/// What an unstake of `amount` at `now` comes to, given the treasury authority.
pub open spec fn unstake_outcome(
    accounts: Seq<Account>,
    amount: u64,
    treasury: Option<(Seq<u8>, u8)>,
    policy: Policy,
    now: i64,
    result: Result<UnstakePlan, Failure>,
) -> bool {
    match result {
        Ok(plan) => {
            &&& unstake_tokens_failure(accounts, amount, treasury, policy, now) is None
            &&& plan.release == (TokenMint {
                mint: accounts[6].key,
                recipient: accounts[2].key,
                authority: accounts[4].key,
                amount: (stored_staker(accounts[1].data@).released(amount) + stored_staker(
                    accounts[1].data@,
                ).reward(amount, now)) as u64,
                bump: spec_authorize(accounts[4].key@, treasury)->Ok_0,
            })
            &&& plan.record@ == stored_staker(accounts[1].data@).unstaked(amount)
            &&& plan.data@ == staker_bytes(plan.record@)
        },
        Err(failure) => unstake_tokens_failure(accounts, amount, treasury, policy, now) == Some(
            failure,
        ),
    }
}

/// Withdraws `amount` at `now`, given the treasury authority as derived.
///
/// The accounts are, in order: actor, staker record, actor's custody account,
/// treasury's custody account, treasury authority, custody service, mint.
pub fn unstake_tokens_with(
    accounts: &[Account],
    amount: u64,
    treasury: &Option<(Address, u8)>,
    policy: &Policy,
    now: i64,
) -> (result: Result<UnstakePlan, Failure>)
    ensures
        unstake_outcome(accounts@, amount, authority_view(*treasury), *policy, now, result),
{
    if accounts.len() < 7 {
        return Err(Failure::NotEnoughAccountKeys);
    }
    let bump: u8 = match crate::address::authorize(&accounts[4].key, treasury) {
        Ok(bump) => bump,
        Err(failure) => {
            return Err(failure);
        },
    };
    if accounts[2].owner != policy.token_program || accounts[3].owner != policy.token_program
        || accounts[6].owner != policy.token_program {
        return Err(Failure::IncorrectProgramId);
    }
    if accounts[1].data.len() == 0 {
        return Err(Failure::UninitializedAccount);
    }
    let before: Staker = match Staker::from_bytes(accounts[1].data.as_slice()) {
        Some(record) => record,
        None => {
            return Err(Failure::InvalidAccountData);
        },
    };
    let paid: Withdrawal = match before.unstake(&accounts[0].key, amount, now) {
        Ok(paid) => paid,
        Err(failure) => {
            return Err(failure);
        },
    };
    let data = paid.record.to_bytes();
    Ok(
        UnstakePlan {
            release: TokenMint {
                mint: accounts[6].key,
                recipient: accounts[2].key,
                authority: accounts[4].key,
                amount: paid.total,
                bump,
            },
            record: paid.record,
            data,
        },
    )
}

/// Withdraws `amount` for the actor at `now`.
///
/// An amount as large as the principal or larger withdraws everything and is
/// not refused for being too large. Principal and reward are released together,
/// minted to the actor's custody account under the treasury authority. Before
/// the lock has run out the operation fails with `StakingPeriodNotComplete` and
/// releases nothing.
///
/// The accounts are, in order: actor, staker record, actor's custody account,
/// treasury's custody account, treasury authority, custody service, mint.
pub fn unstake_tokens(
    accounts: &[Account],
    amount: u64,
    program_id: &Address,
    policy: &Policy,
    now: i64,
) -> (result: Result<UnstakePlan, Failure>)
    ensures
        unstake_outcome(
            accounts@,
            amount,
            policy.spec_treasury_authority(program_id@),
            *policy,
            now,
            result,
        ),
{
    let treasury = policy.treasury_authority(program_id);
    unstake_tokens_with(accounts, amount, &treasury, policy, now)
}

} // verus!
