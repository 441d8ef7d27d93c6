//! Account addresses and their deterministic derivation from seeds.
//!
//! A derived address is computed from a list of byte seeds and the address of
//! the program that owns it. No private key belongs to such an address: the
//! only way to act as it is to present the seeds it was derived from.

use vstd::prelude::*;

verus! {

/// Largest number of seeds that a derivation accepts, the bump included.
pub const MAX_SEEDS: usize = 16;

/// Largest number of bytes in one seed.
pub const MAX_SEED_LEN: usize = 32;

/// The location of an account on the ledger: 32 bytes.
#[derive(Clone, Copy, Debug, PartialEq, Eq)]
pub struct Address {
    pub bytes: [u8; 32],
}

impl View for Address {
    type V = Seq<u8>;

    open spec fn view(&self) -> Seq<u8> {
        self.bytes@
    }
}

/// Two addresses with the same bytes are the same address.
pub proof fn lemma_address_by_bytes(a: Address, b: Address)
    ensures
        (a@ == b@) == (a == b),
{
    broadcast use vstd::array::group_array_axioms;

    if a@ == b@ {
        assert(a.bytes =~= b.bytes);
    }
}

impl Address {
    /// An address made of the given bytes.
    pub fn new(bytes: [u8; 32]) -> (r: Address)
        ensures
            r.bytes == bytes,
    {
        Address { bytes }
    }

    /// Whether two addresses hold the same bytes.
    pub fn equals(&self, other: &Address) -> (r: bool)
        ensures
            r == (*self == *other),
            r == (self@ == other@),
    {
        let mut i: usize = 0;
        while i < 32
            invariant
                i <= 32,
                forall|k: int| 0 <= k < i ==> self.bytes[k] == other.bytes[k],
            decreases 32 - i,
        {
            if self.bytes[i] != other.bytes[i] {
                proof {
                    lemma_address_by_bytes(*self, *other);
                }
                return false;
            }
            i += 1;
        }
        proof {
            assert(self@ =~= other@);
            lemma_address_by_bytes(*self, *other);
        }
        true
    }

    /// The address's bytes as a seed.
    pub fn to_seed(&self) -> (r: Vec<u8>)
        ensures
            r@ == self@,
    {
        vstd::slice::slice_to_vec(self.bytes.as_slice())
    }
}

/// Why a list of seeds gives no address.
#[derive(Clone, Copy, Debug, PartialEq, Eq, Structural)]
pub enum DeriveError {
    /// There are more than [`MAX_SEEDS`] seeds, or one is longer than
    /// [`MAX_SEED_LEN`] bytes.
    MaxSeedLengthExceeded,
    /// The seeds hash to a point of the signature curve, which could have a
    /// private key.
    InvalidSeeds,
    /// The owner is not allowed.
    IllegalOwner,
}

/// The views of a list of seeds.
pub open spec fn seed_views(seeds: Seq<Vec<u8>>) -> Seq<Seq<u8>> {
    Seq::new(seeds.len(), |i: int| seeds[i]@)
}

/// Whether the number of seeds and the length of each are within the limits.
pub open spec fn seeds_fit(seeds: Seq<Seq<u8>>) -> bool {
    &&& seeds.len() <= MAX_SEEDS
    &&& forall|i: int| 0 <= i < seeds.len() ==> (#[trigger] seeds[i]).len() <= MAX_SEED_LEN
}

/// The address that seeds within the limits hash to under a program, or `None`
/// where the hash is a point of the signature curve.
pub uninterp spec fn hashed_address(seeds: Seq<Seq<u8>>, program: Seq<u8>) -> Option<Seq<u8>>;

/// The address derived from exactly these seeds, without any search.
pub open spec fn create_address_spec(seeds: Seq<Seq<u8>>, program: Seq<u8>) -> Result<
    Seq<u8>,
    DeriveError,
> {
    if !seeds_fit(seeds) {
        Err(DeriveError::MaxSeedLengthExceeded)
    } else {
        match hashed_address(seeds, program) {
            Some(a) => Ok(a),
            None => Err(DeriveError::InvalidSeeds),
        }
    }
}

/// Calls `Pubkey::create_program_address` of `anchor_lang`. Trusted: seeds
/// over the limits are refused with `MaxSeedLengthExceeded`; otherwise the
/// result is the hash of the seeds and the program, named by
/// [`hashed_address`], or `InvalidSeeds` where that hash lies on the curve.
#[verifier::external_body]
pub(crate) fn create_program_address(seeds: &Vec<Vec<u8>>, program: &Address) -> (r: Result<
    Address,
    DeriveError,
>)
    ensures
        !seeds_fit(seed_views(seeds@)) ==> r is Err && r->Err_0
            == DeriveError::MaxSeedLengthExceeded,
        seeds_fit(seed_views(seeds@)) && hashed_address(seed_views(seeds@), program@) is Some
            ==> r is Ok && r->Ok_0@ == hashed_address(seed_views(seeds@), program@)->Some_0,
        seeds_fit(seed_views(seeds@)) && hashed_address(seed_views(seeds@), program@) is None
            ==> r is Err && r->Err_0 == DeriveError::InvalidSeeds,
{
    let parts: Vec<&[u8]> = seeds.iter().map(|s| s.as_slice()).collect();
    let owner = anchor_lang::prelude::Pubkey::new_from_array(program.bytes);
    match anchor_lang::prelude::Pubkey::create_program_address(&parts, &owner) {
        Ok(a) => Ok(Address { bytes: a.to_bytes() }),
        Err(anchor_lang::solana_program::pubkey::PubkeyError::MaxSeedLengthExceeded) => Err(
            DeriveError::MaxSeedLengthExceeded,
        ),
        Err(anchor_lang::solana_program::pubkey::PubkeyError::InvalidSeeds) => Err(DeriveError::InvalidSeeds),
        Err(anchor_lang::solana_program::pubkey::PubkeyError::IllegalOwner) => Err(DeriveError::IllegalOwner),
    }
}

/// The seeds followed by a one-byte seed that holds the bump.
pub open spec fn with_bump(seeds: Seq<Seq<u8>>, bump: u8) -> Seq<Seq<u8>> {
    seeds.push(seq![bump])
}

/// The search for a bump from `bump` downwards: the first bump whose seeds
/// derive an address wins; bump 0 is never tried.
pub open spec fn find_from(seeds: Seq<Seq<u8>>, program: Seq<u8>, bump: nat) -> Option<
    (Seq<u8>, u8),
>
    decreases bump,
{
    if bump == 0 || bump > 255 {
        None
    } else {
        match create_address_spec(with_bump(seeds, bump as u8), program) {
            Ok(a) => Some((a, bump as u8)),
            Err(DeriveError::InvalidSeeds) => find_from(seeds, program, (bump - 1) as nat),
            Err(_) => None,
        }
    }
}

/// The derived address of the seeds under a program, with its canonical bump:
/// the largest bump for which the seeds and the bump derive an address.
pub open spec fn find_address_spec(seeds: Seq<Seq<u8>>, program: Seq<u8>) -> Option<
    (Seq<u8>, u8),
> {
    if seeds.len() >= MAX_SEEDS {
        None
    } else {
        find_from(seeds, program, 255)
    }
}

/// A search that finds an address finds one that its bump reconstructs, and no
/// larger bump derives any address.
pub proof fn lemma_find_from(seeds: Seq<Seq<u8>>, program: Seq<u8>, bump: nat)
    requires
        find_from(seeds, program, bump) is Some,
    ensures
        ({
            let found = find_from(seeds, program, bump)->Some_0;
            &&& 1 <= found.1 <= bump
            &&& create_address_spec(with_bump(seeds, found.1), program) == Ok::<
                Seq<u8>,
                DeriveError,
            >(found.0)
            &&& forall|b: u8|
                found.1 < b <= bump ==> create_address_spec(with_bump(seeds, b), program)
                    == Err::<Seq<u8>, DeriveError>(DeriveError::InvalidSeeds)
        }),
    decreases bump,
{
    if create_address_spec(with_bump(seeds, bump as u8), program) is Err {
        lemma_find_from(seeds, program, (bump - 1) as nat);
    }
}

/// A derived address is reconstructed from its seeds and its bump without a
/// search, and its bump is the largest that derives an address.
pub proof fn lemma_bump_reconstructs(seeds: Seq<Seq<u8>>, program: Seq<u8>)
    requires
        find_address_spec(seeds, program) is Some,
    ensures
        ({
            let found = find_address_spec(seeds, program)->Some_0;
            &&& found.1 >= 1
            &&& create_address_spec(with_bump(seeds, found.1), program) == Ok::<
                Seq<u8>,
                DeriveError,
            >(found.0)
            &&& forall|b: u8|
                found.1 < b ==> create_address_spec(with_bump(seeds, b), program) is Err
        }),
{
    lemma_find_from(seeds, program, 255);
}

/// Finds the derived address of the seeds under a program and its canonical
/// bump, trying the bumps from 255 down to 1.
pub fn find_program_address(seeds: &Vec<Vec<u8>>, program: &Address) -> (r: Option<(Address, u8)>)
    ensures
        match find_address_spec(seed_views(seeds@), program@) {
            Some(found) => r is Some && r->Some_0.0@ == found.0 && r->Some_0.1 == found.1,
            None => r is None,
        },
{
    if seeds.len() >= MAX_SEEDS {
        return None;
    }
    let ghost base = seed_views(seeds@);
    let mut trial: Vec<Vec<u8>> = Vec::new();
    let mut i: usize = 0;
    while i < seeds.len()
        invariant
            i <= seeds.len(),
            trial@.len() == i,
            forall|k: int| 0 <= k < i ==> trial@[k]@ == seeds@[k]@,
        decreases seeds.len() - i,
    {
        trial.push(vstd::slice::slice_to_vec(seeds[i].as_slice()));
        i += 1;
    }
    trial.push(Vec::new());
    let mut bump: u8 = 255;
    while bump >= 1
        invariant
            base == seed_views(seeds@),
            seeds@.len() < MAX_SEEDS,
            trial@.len() == seeds@.len() + 1,
            forall|k: int| 0 <= k < seeds@.len() ==> trial@[k]@ == seeds@[k]@,
            find_address_spec(base, program@) == find_from(base, program@, bump as nat),
        decreases bump,
    {
        trial.pop();
        let mut last: Vec<u8> = Vec::new();
        last.push(bump);
        trial.push(last);
        proof {
            assert(last@ =~= seq![bump]);
            assert(seed_views(trial@) =~= with_bump(base, bump));
        }
        match create_program_address(&trial, program) {
            Ok(a) => {
                return Some((a, bump));
            },
            Err(DeriveError::InvalidSeeds) => {},
            Err(_) => {
                return None;
            },
        }
        bump -= 1;
    }
    None
}

} // verus!
