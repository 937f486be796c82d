//! The authority resolver: addresses that are derived from seeds and from the
//! identity of the program that owns them.
//!
//! No private key belongs to a derived address. An account is accepted as the
//! treasury, the mint or an actor's record on one ground only: its address is
//! the one that the seeds derive. The derivation itself is the ledger's own; it
//! is called here, not rebuilt, and stands in contracts under the name
//! `derived_address`.

use crate::error::Failure;
use vstd::prelude::*;

verus! {

/// A 32-byte ledger address.
#[derive(Clone, Copy, Debug, Eq)]
pub struct Address {
    pub bytes: [u8; 32],
}

impl View for Address {
    type V = Seq<u8>;

    open spec fn view(&self) -> Seq<u8> {
        self.bytes@
    }
}

impl PartialEq for Address {
    fn eq(&self, other: &Address) -> (same: bool) {
        let mut i: usize = 0;
        while i < 32
            invariant
                i <= 32,
                forall|j: int| 0 <= j < i ==> self.bytes@[j] == other.bytes@[j],
            decreases 32 - i,
        {
            if self.bytes[i] != other.bytes[i] {
                return false;
            }
            i += 1;
        }
        assert(self.bytes@ =~= other.bytes@);
        true
    }
}

impl vstd::std_specs::cmp::PartialEqSpecImpl for Address {
    open spec fn obeys_eq_spec() -> bool {
        true
    }

    open spec fn eq_spec(&self, other: &Address) -> bool {
        self@ == other@
    }
}

/// The address and bump that the ledger derives from `seeds` for `program`, or
/// `None` where it derives none.
pub uninterp spec fn derived_address(seeds: Seq<Seq<u8>>, program: Seq<u8>) -> Option<
    (Seq<u8>, u8),
>;

/// A list of seeds as a sequence of byte sequences.
pub open spec fn seed_views(seeds: Seq<&[u8]>) -> Seq<Seq<u8>> {
    Seq::new(seeds.len(), |i: int| seeds[i]@)
}

/// A derivation's result as a mathematical value.
pub open spec fn authority_view(found: Option<(Address, u8)>) -> Option<(Seq<u8>, u8)> {
    match found {
        Some((address, bump)) => Some((address@, bump)),
        None => None,
    }
}

/// Calls `Pubkey::try_find_program_address` of `solana_program`.
///
/// Trusted: the result is a function of the seeds and the program identity
/// alone, which the contract names `derived_address`. Nothing is claimed about
/// which address that is, nor about when there is one.
#[verifier::external_body]
fn find_program_address(seeds: &[&[u8]], program: &Address) -> (found: Option<(Address, u8)>)
    ensures
        authority_view(found) == derived_address(seed_views(seeds@), program@),
{
    let program_id = solana_program::pubkey::Pubkey::new_from_array(program.bytes);
    match solana_program::pubkey::Pubkey::try_find_program_address(seeds, &program_id) {
        Some((key, bump)) => Some((Address { bytes: key.to_bytes() }, bump)),
        None => None,
    }
}

/// Derives the address that `seeds` name under `program`, with its bump.
///
/// The result depends on the seeds and the program identity and on nothing
/// else: it is what `derived_address` is of them.
pub fn derive(seeds: &[&[u8]], program: &Address) -> (found: Option<(Address, u8)>)
    ensures
        authority_view(found) == derived_address(seed_views(seeds@), program@),
{
    find_program_address(seeds, program)
}

/// Whether `candidate` is the address that a derivation found.
pub open spec fn spec_verify(candidate: Seq<u8>, found: Option<(Seq<u8>, u8)>) -> bool {
    found matches Some((address, bump)) && address == candidate
}

/// Whether `candidate` is the address that a derivation found.
pub fn verify_derived(candidate: &Address, found: &Option<(Address, u8)>) -> (ok: bool)
    ensures
        ok == spec_verify(candidate@, authority_view(*found)),
{
    match found {
        Some((address, bump)) => *address == *candidate,
        None => false,
    }
}

/// Whether `candidate` is the address that `seeds` name under `program`: the
/// address is derived again and compared.
pub fn verify(candidate: &Address, seeds: &[&[u8]], program: &Address) -> (ok: bool)
    ensures
        ok == spec_verify(candidate@, derived_address(seed_views(seeds@), program@)),
{
    let found = derive(seeds, program);
    verify_derived(candidate, &found)
}

/// The bump under which `candidate` is accepted as a derived authority, or the
/// reason for which it is not.
pub open spec fn spec_authorize(candidate: Seq<u8>, found: Option<(Seq<u8>, u8)>) -> Result<
    u8,
    Failure,
> {
    match found {
        None => Err(Failure::InvalidSeeds),
        Some((address, bump)) => if address == candidate {
            Ok(bump)
        } else {
            Err(Failure::InvalidAuthority)
        },
    }
}

/// Accepts `candidate` as the authority that a derivation found and gives the
/// bump to sign with. Refused with `InvalidSeeds` where nothing was derived and
/// with `InvalidAuthority` where another address was.
pub fn authorize(candidate: &Address, found: &Option<(Address, u8)>) -> (result: Result<
    u8,
    Failure,
>)
    ensures
        result == spec_authorize(candidate@, authority_view(*found)),
{
    match found {
        None => Err(Failure::InvalidSeeds),
        Some((address, bump)) => {
            if *address == *candidate {
                Ok(*bump)
            } else {
                Err(Failure::InvalidAuthority)
            }
        },
    }
}

/// Derivation is deterministic: equal seeds under equal program identities
/// derive equal addresses with equal bumps.
pub proof fn lemma_derive_deterministic(
    seeds: Seq<Seq<u8>>,
    program: Seq<u8>,
    other_seeds: Seq<Seq<u8>>,
    other_program: Seq<u8>,
)
    requires
        seeds == other_seeds,
        program == other_program,
    ensures
        derived_address(seeds, program) == derived_address(other_seeds, other_program),
{
}

/// At most one address is accepted for given seeds: two candidates that both
/// verify against one derivation are the same address.
pub proof fn lemma_verified_address_unique(
    first: Seq<u8>,
    second: Seq<u8>,
    found: Option<(Seq<u8>, u8)>,
)
    requires
        spec_verify(first, found),
        spec_verify(second, found),
    ensures
        first == second,
{
}

} // verus!
