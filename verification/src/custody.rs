use crate::address::Address;
use vstd::prelude::*;

verus! {

/// The keyless owner of the vault: the pool's derived address together with
/// the value that confirms its derivation. No private key stands behind it;
/// whoever can reproduce the derivation may sign as it.
#[derive(Clone, Copy, Debug, PartialEq, Eq)]
pub struct CustodyAuthority {
    pub address: Address,
    pub bump: u8,
}

/// The tag from which the custody authority is derived: the bytes of `pool`.
pub open spec fn pool_seed() -> Seq<u8> {
    seq![112u8, 111u8, 111u8, 108u8]
}

/// The tag from which a user's stake record is addressed: the bytes of
/// `user`.
pub open spec fn user_seed() -> Seq<u8> {
    seq![117u8, 115u8, 101u8, 114u8]
}

/// The tag from which the vault is addressed: the bytes of `vault`.
pub open spec fn vault_seed() -> Seq<u8> {
    seq![118u8, 97u8, 117u8, 108u8, 116u8]
}

/// The seeds by which the ledger signs as the custody authority: the tag,
/// then the confirming value as a single byte.
pub open spec fn signer_seeds_of(bump: u8) -> Seq<Seq<u8>> {
    seq![pool_seed(), seq![bump]]
}

/// A list of seeds as plain bytes.
pub open spec fn seeds_view(seeds: Seq<Vec<u8>>) -> Seq<Seq<u8>> {
    Seq::new(seeds.len(), |i: int| seeds[i]@)
}

/// The address and confirming value that the host's derivation assigns to a
/// list of seeds under a program's identity, or `None` where it assigns none.
pub uninterp spec fn program_address(seeds: Seq<Seq<u8>>, program: Seq<u8>) -> Option<
    (Seq<u8>, u8),
>;

/// A derivation's outcome as the library holds it agrees with the outcome in
/// plain bytes.
pub open spec fn derived_as(held: Option<(Address, u8)>, plain: Option<(Seq<u8>, u8)>) -> bool {
    match plain {
        Some((address, bump)) => held matches Some((found, confirm)) && found@ == address
            && confirm == bump,
        None => held is None,
    }
}

/// Calls `Pubkey::try_find_program_address` of `anchor_lang`. The derivation
/// is a hash of the seeds, a candidate confirming value and the program's
/// identity, searched downwards from 255 until the hash is no curve point.
/// The contract claims only that the outcome is a function of the seeds and
/// the program's identity; it says nothing of which address comes out.
#[verifier::external_body]
fn find_program_address(seeds: &Vec<Vec<u8>>, program: &Address) -> (r: Option<(Address, u8)>)
    ensures
        derived_as(r, program_address(seeds_view(seeds@), program@)),
{
    let slices: Vec<&[u8]> = seeds.iter().map(|seed| seed.as_slice()).collect();
    let id = anchor_lang::prelude::Pubkey::new_from_array(program.bytes);
    anchor_lang::prelude::Pubkey::try_find_program_address(&slices, &id).map(
        |(key, bump)| (Address { bytes: key.to_bytes() }, bump),
    )
}

/// The bytes of an address as a seed.
fn seed_of(address: &Address) -> (seed: Vec<u8>)
    ensures
        seed@ == address@,
{
    let mut seed: Vec<u8> = Vec::new();
    let mut i: usize = 0;
    while i < 32
        invariant
            i <= 32,
            seed@ == address@.take(i as int),
        decreases 32 - i,
    {
        seed.push(address.bytes[i]);
        assert(seed@ =~= address@.take(i + 1));
        i += 1;
    }
    assert(address@.take(32) =~= address@);
    seed
}

/// The address of the stake record of `user` under `program`: derived from
/// the tag `user` and the user's identity, so that nobody can present
/// another record as this user's.
pub fn user_stake_address(user: &Address, program: &Address) -> (r: Option<(Address, u8)>)
    ensures
        derived_as(r, program_address(seq![user_seed(), user@], program@)),
{
    let mut seeds: Vec<Vec<u8>> = Vec::new();
    seeds.push(vec![117u8, 115u8, 101u8, 114u8]);
    seeds.push(seed_of(user));
    proof {
        assert(seeds@[0]@ =~= user_seed());
        assert(seeds_view(seeds@) =~= seq![user_seed(), user@]);
    }
    find_program_address(&seeds, program)
}

/// The address of the vault of the pool at `pool_key` under `program`:
/// derived from the tag `vault` and the pool's address.
pub fn vault_address(pool_key: &Address, program: &Address) -> (r: Option<(Address, u8)>)
    ensures
        derived_as(r, program_address(seq![vault_seed(), pool_key@], program@)),
{
    let mut seeds: Vec<Vec<u8>> = Vec::new();
    seeds.push(vec![118u8, 97u8, 117u8, 108u8, 116u8]);
    seeds.push(seed_of(pool_key));
    proof {
        assert(seeds@[0]@ =~= vault_seed());
        assert(seeds_view(seeds@) =~= seq![vault_seed(), pool_key@]);
    }
    find_program_address(&seeds, program)
}

impl CustodyAuthority {
    /// The custody authority that a derivation's outcome stands for.
    pub open spec fn spec_from_derivation(derived: Option<(Address, u8)>) -> Option<
        CustodyAuthority,
    > {
        match derived {
            Some((address, bump)) => Some(CustodyAuthority { address, bump }),
            None => None,
        }
    }

    /// Makes a custody authority of a derivation's outcome.
    pub fn from_derivation(derived: Option<(Address, u8)>) -> (r: Option<CustodyAuthority>)
        ensures
            r == Self::spec_from_derivation(derived),
    {
        match derived {
            Some((address, bump)) => Some(CustodyAuthority { address, bump }),
            None => None,
        }
    }

    /// A custody authority agrees with a derivation's outcome in plain bytes.
    pub open spec fn derived_as(
        held: Option<CustodyAuthority>,
        plain: Option<(Seq<u8>, u8)>,
    ) -> bool {
        match plain {
            Some((address, bump)) => held matches Some(custody) && custody.address@ == address
                && custody.bump == bump,
            None => held is None,
        }
    }

    /// Derives the custody authority of the pool that runs under `program`:
    /// the address that the host assigns to the single seed `pool`.
    pub fn derive(program: &Address) -> (r: Option<CustodyAuthority>)
        ensures
            Self::derived_as(r, program_address(seq![pool_seed()], program@)),
    {
        let mut seeds: Vec<Vec<u8>> = Vec::new();
        seeds.push(vec![112u8, 111u8, 111u8, 108u8]);
        proof {
            assert(seeds_view(seeds@) =~= seq![pool_seed()]);
        }
        Self::from_derivation(find_program_address(&seeds, program))
    }

    /// The seeds that prove the right to sign as this authority.
    pub fn signer_seeds(&self) -> (seeds: Vec<Vec<u8>>)
        ensures
            seeds_view(seeds@) == signer_seeds_of(self.bump),
    {
        let mut seeds: Vec<Vec<u8>> = Vec::new();
        seeds.push(vec![112u8, 111u8, 111u8, 108u8]);
        seeds.push(vec![self.bump]);
        proof {
            assert(seeds@[0]@ =~= pool_seed());
            assert(seeds@[1]@ =~= seq![self.bump]);
            assert(seeds_view(seeds@) =~= signer_seeds_of(self.bump));
        }
        seeds
    }
}

} // verus!
