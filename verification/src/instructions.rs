//! The two entry points of the program: event registration and ticket
//! issuance.
//!
//! Each entry point judges its inputs and decides the steps that the ledger
//! is to carry out, in order and as one transaction. It performs none of
//! them: whoever runs the transaction does, and drops all of them when one
//! fails.

use crate::address::{Address, DeriveError};
use crate::event::{check_texts, text_fault, ErrorCode, Event};
use crate::seeds::{
    derive_spec, program_id, rederive, rederive_spec, token_program_id, Namespace, PROGRAM_ID,
    TOKEN_PROGRAM_ID,
};
use vstd::prelude::*;

verus! {

/// The bytes that an event record is allotted: an 8-byte header, the name and
/// the date each behind a 4-byte length, two addresses and the bump.
pub const EVENT_SPACE: u64 = 151;

/// The bytes that a token mint is allotted.
pub const MINT_SPACE: u64 = 82;

/// Why the ledger refuses a step.
#[derive(Clone, Copy, Debug, PartialEq, Eq, Structural)]
pub enum HostError {
    /// An account is to be created at an address that is occupied.
    AccountInUse,
    /// The seeds presented do not derive the address that is to sign.
    MissingSignature,
    /// The account is not there, or is not of the kind that the step needs.
    InvalidAccount,
    /// The authority presented is not the mint's.
    OwnerMismatch,
    /// The token account belongs to another mint.
    MintMismatch,
    /// A balance or the supply would exceed what 64 bits hold.
    Overflow,
}

/// Why a call fails.
#[derive(Clone, Copy, Debug, PartialEq, Eq, Structural)]
pub enum Refusal {
    /// The program's own judgement of the inputs.
    Program(ErrorCode),
    /// The seeds of an account admit no derived address.
    NoDerivedAddress,
    /// A supplied account is not at the address that its seeds derive.
    ConstraintSeeds,
    /// The ledger refused a step.
    Host(HostError),
}

/// The seeds and the bump of a derived address, presented in place of a
/// signature by that address.
#[derive(Debug, PartialEq, Eq)]
pub struct SigningProof {
    pub namespace: Namespace,
    pub organizer: Address,
    pub name: String,
    pub bump: u8,
}

impl SigningProof {
    /// The address that the proof signs for, where its seeds derive one.
    pub open spec fn signer(self) -> Result<Seq<u8>, DeriveError> {
        rederive_spec(self.namespace, self.organizer, self.name@, self.bump)
    }

    /// Whether the proof signs for the address.
    pub open spec fn signs_for(self, address: Address) -> bool {
        self.signer() == Ok::<Seq<u8>, DeriveError>(address@)
    }

    /// Whether the proof signs for the address.
    pub fn verifies(&self, address: &Address) -> (r: bool)
        ensures
            r == self.signs_for(*address),
    {
        match rederive(self.namespace, &self.organizer, &self.name, self.bump) {
            Ok(a) => a.equals(address),
            Err(_) => false,
        }
    }
}

/// One step that the ledger carries out for the program.
#[derive(Debug, PartialEq, Eq)]
pub enum Action {
    /// Allot an account at a vacant address, paid by `payer` and signed for
    /// by the proof.
    CreateAccount {
        payer: Address,
        account: Address,
        lamports: u64,
        space: u64,
        owner: Address,
        proof: SigningProof,
    },
    /// Make an allotted account a token mint with no units issued.
    InitializeMint {
        mint: Address,
        decimals: u8,
        mint_authority: Address,
        freeze_authority: Option<Address>,
    },
    /// Write the event record into its allotted account.
    WriteEvent { account: Address, record: Event },
    /// Create the account that holds `owner`'s balance of `mint`.
    CreateAssociatedAccount { payer: Address, owner: Address, mint: Address, account: Address },
    /// Issue `amount` units of `mint` to `destination`, by the authority that
    /// the proof signs for.
    MintTo { mint: Address, destination: Address, authority: Address, amount: u64, proof: SigningProof },
}

/// The accounts and values that a registration is called with.
#[derive(Clone, Copy, Debug, PartialEq, Eq)]
pub struct CreateEvent {
    /// The account that is to hold the event record.
    pub event: Address,
    /// The account that is to become the event's token mint.
    pub token_mint: Address,
    /// Who registers the event, and pays for both accounts.
    pub organizer: Address,
    /// What the ledger asks to keep an account of [`EVENT_SPACE`] bytes.
    pub event_rent: u64,
    /// What the ledger asks to keep an account of [`MINT_SPACE`] bytes.
    pub mint_rent: u64,
}

/// The accounts and values that an issuance is called with.
#[derive(Debug, PartialEq, Eq)]
pub struct MintTicket {
    /// The address of the account that holds the event record.
    pub event: Address,
    /// The event record that the account holds.
    pub record: Event,
    /// The account that the caller names as the event's token mint.
    pub token_mint: Address,
    /// The account that is to receive the ticket.
    pub user_token_account: Address,
    /// Whether nothing is stored yet at `user_token_account`.
    pub user_token_account_empty: bool,
    /// Who asks for the ticket, and pays for the token account.
    pub user: Address,
}

/// The steps of a registration whose inputs were accepted.
pub open spec fn registration_steps(
    ctx: CreateEvent,
    event_name: String,
    event_date: String,
    event_bump: u8,
    mint_bump: u8,
) -> Seq<Action> {
    seq![
        Action::CreateAccount {
            payer: ctx.organizer,
            account: ctx.event,
            lamports: ctx.event_rent,
            space: EVENT_SPACE,
            owner: Address { bytes: PROGRAM_ID },
            proof: SigningProof {
                namespace: Namespace::Event,
                organizer: ctx.organizer,
                name: event_name,
                bump: event_bump,
            },
        },
        Action::CreateAccount {
            payer: ctx.organizer,
            account: ctx.token_mint,
            lamports: ctx.mint_rent,
            space: MINT_SPACE,
            owner: Address { bytes: TOKEN_PROGRAM_ID },
            proof: SigningProof {
                namespace: Namespace::TokenMint,
                organizer: ctx.organizer,
                name: event_name,
                bump: mint_bump,
            },
        },
        Action::InitializeMint {
            mint: ctx.token_mint,
            decimals: 0,
            mint_authority: ctx.token_mint,
            freeze_authority: None,
        },
        Action::WriteEvent {
            account: ctx.event,
            record: Event {
                name: event_name,
                date: event_date,
                organizer: ctx.organizer,
                token_mint: ctx.token_mint,
                bump: event_bump,
            },
        },
    ]
}

/// What a registration decides: the error of the first check that fails, in
/// the order texts, event account, mint account; else its steps.
pub open spec fn create_event_spec(ctx: CreateEvent, event_name: String, event_date: String)
    -> Result<Seq<Action>, Refusal> {
    if let Some(e) = text_fault(event_name@, event_date@) {
        Err(Refusal::Program(e))
    } else {
        match derive_spec(Namespace::Event, ctx.organizer, event_name@) {
            None => Err(Refusal::NoDerivedAddress),
            Some(event) => if event.0 != ctx.event@ {
                Err(Refusal::ConstraintSeeds)
            } else {
                match derive_spec(Namespace::TokenMint, ctx.organizer, event_name@) {
                    None => Err(Refusal::NoDerivedAddress),
                    Some(mint) => if mint.0 != ctx.token_mint@ {
                        Err(Refusal::ConstraintSeeds)
                    } else {
                        Ok(registration_steps(ctx, event_name, event_date, event.1, mint.1))
                    },
                }
            },
        }
    }
}

/// Registers an event: judges the name and the date, derives the addresses
/// of the event record and of the token mint from the organizer and the name,
/// holds the supplied accounts against them, and decides the steps: allot the
/// record, allot the mint, initialize the mint as its own authority with no
/// decimals and no freeze authority, write the record.
pub fn create_event(ctx: CreateEvent, event_name: String, event_date: String) -> (r: Result<
    Vec<Action>,
    Refusal,
>)
    ensures
        match create_event_spec(ctx, event_name, event_date) {
            Ok(steps) => r is Ok && r->Ok_0@ == steps,
            Err(e) => r is Err && r->Err_0 == e,
        },
{
    if let Err(e) = check_texts(&event_name, &event_date) {
        return Err(Refusal::Program(e));
    }
    let event_bump = match crate::seeds::derive(Namespace::Event, &ctx.organizer, &event_name) {
        None => {
            return Err(Refusal::NoDerivedAddress);
        },
        Some((address, bump)) => {
            if !address.equals(&ctx.event) {
                return Err(Refusal::ConstraintSeeds);
            }
            bump
        },
    };
    let mint_bump = match crate::seeds::derive(Namespace::TokenMint, &ctx.organizer, &event_name) {
        None => {
            return Err(Refusal::NoDerivedAddress);
        },
        Some((address, bump)) => {
            if !address.equals(&ctx.token_mint) {
                return Err(Refusal::ConstraintSeeds);
            }
            bump
        },
    };
    let mut steps: Vec<Action> = Vec::new();
    steps.push(
        Action::CreateAccount {
            payer: ctx.organizer,
            account: ctx.event,
            lamports: ctx.event_rent,
            space: EVENT_SPACE,
            owner: program_id(),
            proof: SigningProof {
                namespace: Namespace::Event,
                organizer: ctx.organizer,
                name: event_name.clone(),
                bump: event_bump,
            },
        },
    );
    steps.push(
        Action::CreateAccount {
            payer: ctx.organizer,
            account: ctx.token_mint,
            lamports: ctx.mint_rent,
            space: MINT_SPACE,
            owner: token_program_id(),
            proof: SigningProof {
                namespace: Namespace::TokenMint,
                organizer: ctx.organizer,
                name: event_name.clone(),
                bump: mint_bump,
            },
        },
    );
    steps.push(
        Action::InitializeMint {
            mint: ctx.token_mint,
            decimals: 0,
            mint_authority: ctx.token_mint,
            freeze_authority: None,
        },
    );
    steps.push(
        Action::WriteEvent {
            account: ctx.event,
            record: Event {
                name: event_name,
                date: event_date,
                organizer: ctx.organizer,
                token_mint: ctx.token_mint,
                bump: event_bump,
            },
        },
    );
    assert(steps@ =~= registration_steps(ctx, event_name, event_date, event_bump, mint_bump));
    Ok(steps)
}

/// The steps of an issuance whose inputs were accepted: the token account is
/// created only where nothing is stored at its address; one unit is issued in
/// either case.
pub open spec fn issuance_steps(ctx: MintTicket, event_name: String, mint_bump: u8) -> Seq<
    Action,
> {
    let issue = Action::MintTo {
        mint: ctx.token_mint,
        destination: ctx.user_token_account,
        authority: ctx.token_mint,
        amount: 1,
        proof: SigningProof {
            namespace: Namespace::TokenMint,
            organizer: ctx.record.organizer,
            name: event_name,
            bump: mint_bump,
        },
    };
    if ctx.user_token_account_empty {
        seq![
            Action::CreateAssociatedAccount {
                payer: ctx.user,
                owner: ctx.user,
                mint: ctx.token_mint,
                account: ctx.user_token_account,
            },
            issue,
        ]
    } else {
        seq![issue]
    }
}

/// Whether the record's account is at the address that the record's own
/// organizer and bump derive with the name.
pub open spec fn record_in_place(ctx: MintTicket, name: Seq<char>) -> bool {
    rederive_spec(Namespace::Event, ctx.record.organizer, name, ctx.record.bump) == Ok::<
        Seq<u8>,
        DeriveError,
    >(ctx.event@)
}

/// Whether the mint derived from the record's organizer and the name is both
/// the supplied mint and the mint that the record names.
pub open spec fn mint_in_place(ctx: MintTicket, name: Seq<char>) -> bool {
    match derive_spec(Namespace::TokenMint, ctx.record.organizer, name) {
        None => false,
        Some(mint) => mint.0 == ctx.token_mint@ && mint.0 == ctx.record.token_mint@,
    }
}

/// What an issuance decides: the error of the first check that fails, in the
/// order event record, mint; else its steps.
pub open spec fn mint_ticket_spec(ctx: MintTicket, event_name: String) -> Result<
    Seq<Action>,
    Refusal,
> {
    if !record_in_place(ctx, event_name@) {
        Err(Refusal::ConstraintSeeds)
    } else if !mint_in_place(ctx, event_name@) {
        Err(Refusal::Program(ErrorCode::InvalidTokenMint))
    } else {
        Ok(
            issuance_steps(
                ctx,
                event_name,
                derive_spec(Namespace::TokenMint, ctx.record.organizer, event_name@)->Some_0.1,
            ),
        )
    }
}

/// Issues one ticket: holds the event record against the address that its
/// own organizer and bump derive with the name, holds the supplied mint and
/// the record's mint against the mint address derived anew, and decides the
/// steps: create the user's token account where nothing is stored there, then
/// issue one unit, signed for by the mint's own seeds.
pub fn mint_ticket(ctx: MintTicket, event_name: String) -> (r: Result<Vec<Action>, Refusal>)
    ensures
        match mint_ticket_spec(ctx, event_name) {
            Ok(steps) => r is Ok && r->Ok_0@ == steps,
            Err(e) => r is Err && r->Err_0 == e,
        },
{
    match rederive(Namespace::Event, &ctx.record.organizer, &event_name, ctx.record.bump) {
        Err(_) => {
            return Err(Refusal::ConstraintSeeds);
        },
        Ok(address) => {
            if !address.equals(&ctx.event) {
                return Err(Refusal::ConstraintSeeds);
            }
        },
    }
    let mint_bump = match crate::seeds::derive(Namespace::TokenMint, &ctx.record.organizer, &event_name) {
        None => {
            return Err(Refusal::Program(ErrorCode::InvalidTokenMint));
        },
        Some((address, bump)) => {
            if !address.equals(&ctx.token_mint) || !address.equals(&ctx.record.token_mint) {
                return Err(Refusal::Program(ErrorCode::InvalidTokenMint));
            }
            bump
        },
    };
    let mut steps: Vec<Action> = Vec::new();
    if ctx.user_token_account_empty {
        steps.push(
            Action::CreateAssociatedAccount {
                payer: ctx.user,
                owner: ctx.user,
                mint: ctx.token_mint,
                account: ctx.user_token_account,
            },
        );
    }
    steps.push(
        Action::MintTo {
            mint: ctx.token_mint,
            destination: ctx.user_token_account,
            authority: ctx.token_mint,
            amount: 1,
            proof: SigningProof {
                namespace: Namespace::TokenMint,
                organizer: ctx.record.organizer,
                name: event_name,
                bump: mint_bump,
            },
        },
    );
    assert(steps@ =~= issuance_steps(ctx, event_name, mint_bump));
    Ok(steps)
}

} // verus!
