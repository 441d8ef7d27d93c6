//! The seeds of this program's derived accounts.
//!
//! Every account of an event is located by a namespace tag, the organizer's
//! address and the event's name. The same seeds, with the bump that was found
//! for them, prove the right to act as the derived address.

use crate::address::{
    create_address_spec, create_program_address, find_address_spec, find_program_address,
    seed_views, with_bump, Address, DeriveError,
};
use vstd::prelude::*;

verus! {

/// The bytes of this program's address.
pub const PROGRAM_ID: [u8; 32] = [
    64, 249, 145, 14, 12, 228, 184, 166, 66, 137, 229, 152, 126, 247, 91, 49, 59, 207, 28, 212,
    224, 226, 25, 72, 75, 107, 243, 177, 148, 92, 22, 15,
];

/// The bytes of the token program's address.
pub const TOKEN_PROGRAM_ID: [u8; 32] = [
    6, 221, 246, 225, 215, 101, 161, 147, 217, 203, 225, 70, 206, 235, 121, 172, 28, 180, 133,
    237, 95, 91, 55, 145, 58, 140, 245, 133, 126, 255, 0, 169,
];

/// The address of this program, under which its accounts are derived.
pub fn program_id() -> (r: Address)
    ensures
        r.bytes == PROGRAM_ID,
{
    Address { bytes: PROGRAM_ID }
}

/// Reads `anchor_spl::token::ID`. Trusted: the token program's address is
/// [`TOKEN_PROGRAM_ID`].
#[verifier::external_body]
pub(crate) fn token_program_id() -> (r: Address)
    ensures
        r.bytes == TOKEN_PROGRAM_ID,
{
    Address { bytes: anchor_spl::token::ID.to_bytes() }
}

/// Which of an event's accounts a derivation locates.
#[derive(Clone, Copy, Debug, PartialEq, Eq, Structural)]
pub enum Namespace {
    /// The event's record.
    Event,
    /// The event's token mint.
    TokenMint,
}

impl Namespace {
    /// The tag that starts the seeds: the ASCII bytes of `event` or of
    /// `token_mint`.
    pub open spec fn tag(self) -> Seq<u8> {
        match self {
            Namespace::Event => seq![101u8, 118u8, 101u8, 110u8, 116u8],
            Namespace::TokenMint => seq![
                116u8,
                111u8,
                107u8,
                101u8,
                110u8,
                95u8,
                109u8,
                105u8,
                110u8,
                116u8,
            ],
        }
    }

    /// The tag as a seed.
    pub fn seed(&self) -> (r: Vec<u8>)
        ensures
            r@ == self.tag(),
    {
        let r = match self {
            Namespace::Event => vec![101u8, 118u8, 101u8, 110u8, 116u8],
            Namespace::TokenMint => vec![
                116u8,
                111u8,
                107u8,
                101u8,
                110u8,
                95u8,
                109u8,
                105u8,
                110u8,
                116u8,
            ],
        };
        assert(r@ =~= self.tag());
        r
    }
}

/// The bytes of a text: its UTF-8 encoding.
pub open spec fn text_bytes(text: Seq<char>) -> Seq<u8> {
    vstd::utf8::encode_utf8(text)
}

/// The seeds of an event's account, without the bump.
pub open spec fn event_seeds(namespace: Namespace, organizer: Address, name: Seq<char>) -> Seq<
    Seq<u8>,
> {
    seq![namespace.tag(), organizer@, text_bytes(name)]
}

/// The derived address of an event's account and its canonical bump, where
/// the seeds admit one.
pub open spec fn derive_spec(namespace: Namespace, organizer: Address, name: Seq<char>) -> Option<
    (Seq<u8>, u8),
> {
    find_address_spec(event_seeds(namespace, organizer, name), PROGRAM_ID@)
}

/// The address that the seeds of an event's account derive with a given bump.
pub open spec fn rederive_spec(
    namespace: Namespace,
    organizer: Address,
    name: Seq<char>,
    bump: u8,
) -> Result<Seq<u8>, DeriveError> {
    create_address_spec(with_bump(event_seeds(namespace, organizer, name), bump), PROGRAM_ID@)
}

/// Builds the seeds of an event's account, without the bump.
pub fn seeds_of(namespace: Namespace, organizer: &Address, name: &String) -> (r: Vec<Vec<u8>>)
    ensures
        seed_views(r@) == event_seeds(namespace, *organizer, name@),
{
    let mut r: Vec<Vec<u8>> = Vec::new();
    r.push(namespace.seed());
    r.push(organizer.to_seed());
    r.push(vstd::slice::slice_to_vec(name.as_str().as_bytes()));
    assert(seed_views(r@) =~= event_seeds(namespace, *organizer, name@));
    r
}

/// Derives the address of an event's account and its canonical bump.
/// Returns `None` where the seeds admit no address: a name of more than 32
/// bytes, or seeds for which no bump avoids the curve.
pub fn derive(namespace: Namespace, organizer: &Address, name: &String) -> (r: Option<
    (Address, u8),
>)
    ensures
        match derive_spec(namespace, *organizer, name@) {
            Some(found) => r is Some && r->Some_0.0@ == found.0 && r->Some_0.1 == found.1,
            None => r is None,
        },
{
    let seeds = seeds_of(namespace, organizer, name);
    let program = program_id();
    find_program_address(&seeds, &program)
}

/// Reconstructs the address of an event's account from a stored bump, without
/// a search.
pub fn rederive(namespace: Namespace, organizer: &Address, name: &String, bump: u8) -> (r: Result<
    Address,
    DeriveError,
>)
    ensures
        match rederive_spec(namespace, *organizer, name@, bump) {
            Ok(a) => r is Ok && r->Ok_0@ == a,
            Err(e) => r is Err && r->Err_0 == e,
        },
{
    let mut seeds = seeds_of(namespace, organizer, name);
    let mut last: Vec<u8> = Vec::new();
    last.push(bump);
    seeds.push(last);
    let program = program_id();
    proof {
        assert(last@ =~= seq![bump]);
        assert(seed_views(seeds@) =~= with_bump(
            event_seeds(namespace, *organizer, name@),
            bump,
        ));
    }
    create_program_address(&seeds, &program)
}

/// The address that `derive` finds is the one that `rederive` reconstructs
/// from the bump found with it.
pub proof fn lemma_derive_then_rederive(namespace: Namespace, organizer: Address, name: Seq<char>)
    requires
        derive_spec(namespace, organizer, name) is Some,
    ensures
        rederive_spec(
            namespace,
            organizer,
            name,
            derive_spec(namespace, organizer, name)->Some_0.1,
        ) == Ok::<Seq<u8>, DeriveError>(derive_spec(namespace, organizer, name)->Some_0.0),
{
    crate::address::lemma_bump_reconstructs(event_seeds(namespace, organizer, name), PROGRAM_ID@);
}

} // verus!
