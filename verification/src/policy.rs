//! The fixed seeds, identities and limits that every component is given.

use crate::address::{authority_view, derived_address, seed_views, Address};
use crate::layout::write_bytes;
use vstd::string::StringSliceAdditionalSpecFns;
use vstd::prelude::*;

verus! {

/// Base units that one ticket costs.
pub const FIXED_TICKET_PRICE: u64 = 1_000_000;

/// Yearly yield of a ticket, in percent of its price.
pub const YIELD_INTEREST_RATE: u64 = 5;

/// Seconds in a year of 365 days.
pub const SECONDS_PER_YEAR: u64 = 31_536_000;

/// The most entries whose ledger still has a size that every machine can hold.
pub const LEDGER_ENTRY_LIMIT: usize = 171_798_689;

/// The configuration of one deployment. It is built once and handed, unchanged,
/// to every operation.
#[derive(Clone, Debug, PartialEq, Eq)]
pub struct Policy {
    /// Seed of the mint's address.
    pub mint_seed: Vec<u8>,
    /// Seed of the treasury authority.
    pub treasury_seed: Vec<u8>,
    /// Seed that, with an actor's address, names the actor's staker record.
    pub staker_seed: Vec<u8>,
    /// Seed that, with an actor's address, names the actor's ticket ledger.
    pub ticket_seed: Vec<u8>,
    /// Identity of the token-custody service.
    pub token_program: Address,
    /// Identity of the service that derives associated custody accounts.
    pub associated_token_program: Address,
    /// Address under which the environment publishes its funding rates.
    pub rent_sysvar: Address,
    /// The supply that minting may not pass, in base units.
    pub max_supply: u64,
    /// Seconds that a stake stays locked.
    pub staking_duration: i64,
    /// The most entries a ticket ledger may hold.
    pub max_tickets: usize,
}

impl Policy {
    /// The standard seeds and limits of a deployment, around the given
    /// outside identities.
    pub fn standard(
        token_program: Address,
        associated_token_program: Address,
        rent_sysvar: Address,
    ) -> (policy: Policy)
        ensures
            policy.mint_seed@ == "mintthissuperhyperAPRtoken".spec_bytes(),
            policy.treasury_seed@ == "treasurythissuperhyperAPRtoken".spec_bytes(),
            policy.staker_seed@ == "staker".spec_bytes(),
            policy.ticket_seed@ == "ticket_seed".spec_bytes(),
            policy.token_program == token_program,
            policy.associated_token_program == associated_token_program,
            policy.rent_sysvar == rent_sysvar,
            policy.max_supply == 1_000_000_000,
            policy.staking_duration == 86_400,
            policy.max_tickets == 178,
    {
        let mut mint_seed: Vec<u8> = Vec::new();
        write_bytes(&mut mint_seed, "mintthissuperhyperAPRtoken".as_bytes());
        let mut treasury_seed: Vec<u8> = Vec::new();
        write_bytes(&mut treasury_seed, "treasurythissuperhyperAPRtoken".as_bytes());
        let mut staker_seed: Vec<u8> = Vec::new();
        write_bytes(&mut staker_seed, "staker".as_bytes());
        let mut ticket_seed: Vec<u8> = Vec::new();
        write_bytes(&mut ticket_seed, "ticket_seed".as_bytes());
        Policy {
            mint_seed,
            treasury_seed,
            staker_seed,
            ticket_seed,
            token_program,
            associated_token_program,
            rent_sysvar,
            max_supply: 1_000_000_000,
            staking_duration: 86_400,
            max_tickets: 178,
        }
    }

    /// The treasury authority of `program`, as the ledger derives it.
    pub open spec fn spec_treasury_authority(&self, program: Seq<u8>) -> Option<(Seq<u8>, u8)> {
        derived_address(seq![self.treasury_seed@], program)
    }

    /// The address of `program`'s mint, as the ledger derives it.
    pub open spec fn spec_mint_address(&self, program: Seq<u8>) -> Option<(Seq<u8>, u8)> {
        derived_address(seq![self.mint_seed@], program)
    }

    /// The address of `actor`'s staker record under `program`.
    pub open spec fn spec_staker_address(&self, actor: Seq<u8>, program: Seq<u8>) -> Option<
        (Seq<u8>, u8),
    > {
        derived_address(seq![actor, self.staker_seed@], program)
    }

    /// The address of `actor`'s ticket ledger under `program`.
    pub open spec fn spec_ledger_address(&self, actor: Seq<u8>, program: Seq<u8>) -> Option<
        (Seq<u8>, u8),
    > {
        derived_address(seq![self.ticket_seed@, actor], program)
    }

    /// The address of the custody account that belongs to `wallet` for `mint`:
    /// derived under the associated-account service from the wallet, the
    /// custody service and the mint, in this order.
    pub open spec fn spec_custody_address(&self, wallet: Seq<u8>, mint: Seq<u8>) -> Option<
        (Seq<u8>, u8),
    > {
        derived_address(seq![wallet, self.token_program@, mint], self.associated_token_program@)
    }

    /// Derives the treasury authority of `program`.
    pub fn treasury_authority(&self, program: &Address) -> (found: Option<(Address, u8)>)
        ensures
            authority_view(found) == self.spec_treasury_authority(program@),
    {
        let seeds: [&[u8]; 1] = [self.treasury_seed.as_slice()];
        assert(seed_views(seeds@) =~= seq![self.treasury_seed@]);
        crate::address::derive(&seeds, program)
    }

    /// Derives the address of `program`'s mint.
    pub fn mint_address(&self, program: &Address) -> (found: Option<(Address, u8)>)
        ensures
            authority_view(found) == self.spec_mint_address(program@),
    {
        let seeds: [&[u8]; 1] = [self.mint_seed.as_slice()];
        assert(seed_views(seeds@) =~= seq![self.mint_seed@]);
        crate::address::derive(&seeds, program)
    }

    /// Derives the address of `actor`'s staker record under `program`.
    pub fn staker_address(&self, actor: &Address, program: &Address) -> (found: Option<
        (Address, u8),
    >)
        ensures
            authority_view(found) == self.spec_staker_address(actor@, program@),
    {
        let seeds: [&[u8]; 2] = [actor.bytes.as_slice(), self.staker_seed.as_slice()];
        assert(seed_views(seeds@) =~= seq![actor@, self.staker_seed@]);
        crate::address::derive(&seeds, program)
    }

    /// Derives the address of `actor`'s ticket ledger under `program`.
    pub fn ledger_address(&self, actor: &Address, program: &Address) -> (found: Option<
        (Address, u8),
    >)
        ensures
            authority_view(found) == self.spec_ledger_address(actor@, program@),
    {
        let seeds: [&[u8]; 2] = [self.ticket_seed.as_slice(), actor.bytes.as_slice()];
        assert(seed_views(seeds@) =~= seq![self.ticket_seed@, actor@]);
        crate::address::derive(&seeds, program)
    }

    /// Derives the address of the custody account that belongs to `wallet` for
    /// `mint`.
    pub fn custody_address(&self, wallet: &Address, mint: &Address) -> (found: Option<
        (Address, u8),
    >)
        ensures
            authority_view(found) == self.spec_custody_address(wallet@, mint@),
    {
        let seeds: [&[u8]; 3] = [
            wallet.bytes.as_slice(),
            self.token_program.bytes.as_slice(),
            mint.bytes.as_slice(),
        ];
        assert(seed_views(seeds@) =~= seq![wallet@, self.token_program@, mint@]);
        crate::address::derive(&seeds, &self.associated_token_program)
    }
}

} // verus!
