//! What holds of registration and issuance on every ledger.

use crate::address::{lemma_address_by_bytes, Address, DeriveError};
use crate::event::{ErrorCode, Event};
use crate::instructions::{
    create_event_spec, issuance_steps, mint_in_place, mint_ticket_spec, record_in_place,
    registration_steps, Action, CreateEvent, HostError, Refusal,
};
use crate::ledger::{run, step, AccountData, Mint, TokenAccount};
use crate::seeds::{derive_spec, lemma_derive_then_rederive, rederive_spec, text_bytes, Namespace};
use crate::transactions::{issue_spec, register_spec, ticket_context};
use vstd::prelude::*;

verus! {

/// Running steps is running the first and then the rest.
pub proof fn lemma_run_first(state: Map<Address, AccountData>, steps: Seq<Action>)
    requires
        steps.len() > 0,
    ensures
        run(state, steps) == match step(state, steps[0]) {
            Ok(next) => run(next, steps.skip(1)),
            Err(e) => Err(e),
        },
{
}

/// The record that a registration writes.
pub open spec fn registered_record(ctx: CreateEvent, event_name: String, event_date: String)
    -> Event {
    Event {
        name: event_name,
        date: event_date,
        organizer: ctx.organizer,
        token_mint: ctx.token_mint,
        bump: derive_spec(Namespace::Event, ctx.organizer, event_name@)->Some_0.1,
    }
}

/// The mint that a registration creates: its own authority, nothing issued,
/// no decimals, no freeze authority.
pub open spec fn fresh_mint(token_mint: Address) -> Mint {
    Mint { mint_authority: Some(token_mint), supply: 0, decimals: 0, freeze_authority: None }
}

/// The accounts after a registration that succeeds: the record and the mint
/// are added, and nothing else changes.
pub open spec fn registered(
    state: Map<Address, AccountData>,
    ctx: CreateEvent,
    event_name: String,
    event_date: String,
) -> Map<Address, AccountData> {
    state.insert(
        ctx.event,
        AccountData::Event(registered_record(ctx, event_name, event_date)),
    ).insert(ctx.token_mint, AccountData::Mint(fresh_mint(ctx.token_mint)))
}

/// A registration whose inputs are accepted succeeds exactly where the
/// addresses of the record and of the mint are vacant and differ; it then
/// adds the record and the mint and changes nothing else. Otherwise it fails
/// because an account is in use.
pub proof fn lemma_registration(
    state: Map<Address, AccountData>,
    ctx: CreateEvent,
    event_name: String,
    event_date: String,
)
    requires
        create_event_spec(ctx, event_name, event_date) is Ok,
    ensures
        register_spec(state, ctx, event_name, event_date) == (if state.contains_key(ctx.event)
            || state.contains_key(ctx.token_mint) || ctx.event == ctx.token_mint {
            Err::<Map<Address, AccountData>, Refusal>(Refusal::Host(HostError::AccountInUse))
        } else {
            Ok::<Map<Address, AccountData>, Refusal>(
                registered(state, ctx, event_name, event_date),
            )
        }),
{
    let event_bump = derive_spec(Namespace::Event, ctx.organizer, event_name@)->Some_0.1;
    let mint_bump = derive_spec(Namespace::TokenMint, ctx.organizer, event_name@)->Some_0.1;
    let steps = registration_steps(ctx, event_name, event_date, event_bump, mint_bump);
    assert(create_event_spec(ctx, event_name, event_date) == Ok::<Seq<Action>, Refusal>(steps));
    lemma_derive_then_rederive(Namespace::Event, ctx.organizer, event_name@);
    lemma_derive_then_rederive(Namespace::TokenMint, ctx.organizer, event_name@);
    let t1 = steps.skip(1);
    let t2 = t1.skip(1);
    let t3 = t2.skip(1);
    let t4 = t3.skip(1);
    assert(t1[0] == steps[1] && t2[0] == steps[2] && t3[0] == steps[3] && t4.len() == 0);
    lemma_run_first(state, steps);
    if !state.contains_key(ctx.event) {
        let s1 = step(state, steps[0])->Ok_0;
        lemma_run_first(s1, t1);
        if !state.contains_key(ctx.token_mint) && ctx.event != ctx.token_mint {
            let s2 = step(s1, steps[1])->Ok_0;
            lemma_run_first(s2, t2);
            let s3 = step(s2, steps[2])->Ok_0;
            lemma_run_first(s3, t3);
            let s4 = step(s3, steps[3])->Ok_0;
            assert(run(s4, t4) == Ok::<Map<Address, AccountData>, HostError>(s4));
            assert(s4 =~= registered(state, ctx, event_name, event_date));
        }
    }
}

/// An event is registered at most once: after a registration has succeeded,
/// every registration by the same organizer under the same name fails and so
/// leaves the ledger, and the first record in it, as they are. Where its
/// inputs are otherwise accepted, it fails because the account is in use.
pub proof fn lemma_registers_once(
    state: Map<Address, AccountData>,
    ctx: CreateEvent,
    event_name: String,
    event_date: String,
    again: CreateEvent,
    other_date: String,
)
    requires
        register_spec(state, ctx, event_name, event_date) is Ok,
        again.organizer == ctx.organizer,
    ensures
        ({
            let after = register_spec(state, ctx, event_name, event_date)->Ok_0;
            let second = register_spec(after, again, event_name, other_date);
            &&& after.contains_key(ctx.event)
            &&& after[ctx.event] == AccountData::Event(
                registered_record(ctx, event_name, event_date),
            )
            &&& second is Err
            &&& create_event_spec(again, event_name, other_date) is Ok ==> second->Err_0
                == Refusal::Host(HostError::AccountInUse)
        }),
{
    lemma_registration(state, ctx, event_name, event_date);
    let after = registered(state, ctx, event_name, event_date);
    if create_event_spec(again, event_name, other_date) is Ok {
        lemma_address_by_bytes(again.event, ctx.event);
        lemma_registration(after, again, event_name, other_date);
    }
}

/// After a registration the mint that the record names is the address
/// derived in the mint's namespace from the organizer and the name, and a
/// mint is stored there.
pub proof fn lemma_record_names_derived_mint(
    state: Map<Address, AccountData>,
    ctx: CreateEvent,
    event_name: String,
    event_date: String,
)
    requires
        register_spec(state, ctx, event_name, event_date) is Ok,
    ensures
        ({
            let after = register_spec(state, ctx, event_name, event_date)->Ok_0;
            let derived = derive_spec(Namespace::TokenMint, ctx.organizer, event_name@);
            &&& after.contains_key(ctx.event) && after[ctx.event] is Event
            &&& derived is Some
            &&& after[ctx.event]->Event_0.token_mint@ == derived->Some_0.0
            &&& after.contains_key(after[ctx.event]->Event_0.token_mint)
            &&& after[after[ctx.event]->Event_0.token_mint] == AccountData::Mint(
                fresh_mint(ctx.token_mint),
            )
        }),
{
    lemma_registration(state, ctx, event_name, event_date);
}

/// A name of more than 50 bytes is refused as too long, whatever else is
/// supplied, and a date of more than 20 bytes as invalid where the name is
/// not too long; neither creates an account on any ledger.
pub proof fn lemma_long_texts_refused(
    state: Map<Address, AccountData>,
    ctx: CreateEvent,
    event_name: String,
    event_date: String,
)
    ensures
        text_bytes(event_name@).len() > 50 ==> register_spec(state, ctx, event_name, event_date)
            == Err::<Map<Address, AccountData>, Refusal>(
            Refusal::Program(ErrorCode::EventNameTooLong),
        ),
        text_bytes(event_name@).len() <= 50 && text_bytes(event_date@).len() > 20
            ==> register_spec(state, ctx, event_name, event_date) == Err::<
            Map<Address, AccountData>,
            Refusal,
        >(Refusal::Program(ErrorCode::InvalidEventDate)),
{
}

/// An issuance with a mint other than the one derived from the record's
/// organizer and the name always fails; where the event record is in its
/// place, it fails because the mint is invalid.
pub proof fn lemma_foreign_mint_refused(
    state: Map<Address, AccountData>,
    event: Address,
    token_mint: Address,
    user_token_account: Address,
    user: Address,
    event_name: String,
)
    requires
        state.contains_key(event),
        state[event] is Event,
        derive_spec(Namespace::TokenMint, state[event]->Event_0.organizer, event_name@) is None
            || derive_spec(
            Namespace::TokenMint,
            state[event]->Event_0.organizer,
            event_name@,
        )->Some_0.0 != token_mint@,
    ensures
        ({
            let outcome = issue_spec(
                state,
                event,
                token_mint,
                user_token_account,
                user,
                event_name,
            );
            let ctx = ticket_context(state, event, token_mint, user_token_account, user);
            &&& outcome is Err
            &&& record_in_place(ctx, event_name@) ==> outcome->Err_0 == Refusal::Program(
                ErrorCode::InvalidTokenMint,
            )
        }),
{
}

/// Whether the ledger holds an event under the name with its mint: the
/// record is stored at the address that its organizer and bump derive, it
/// names the mint that the same seeds derive in the mint's namespace, and
/// that mint is stored and is its own authority.
pub open spec fn event_ready(
    state: Map<Address, AccountData>,
    event: Address,
    token_mint: Address,
    name: Seq<char>,
) -> bool {
    &&& state.contains_key(event)
    &&& state[event] is Event
    &&& rederive_spec(
        Namespace::Event,
        state[event]->Event_0.organizer,
        name,
        state[event]->Event_0.bump,
    ) == Ok::<Seq<u8>, DeriveError>(event@)
    &&& derive_spec(Namespace::TokenMint, state[event]->Event_0.organizer, name) is Some
    &&& derive_spec(Namespace::TokenMint, state[event]->Event_0.organizer, name)->Some_0.0
        == token_mint@
    &&& state[event]->Event_0.token_mint == token_mint
    &&& state.contains_key(token_mint)
    &&& state[token_mint] is Mint
    &&& state[token_mint]->Mint_0.mint_authority == Some(token_mint)
}

/// A registration that succeeds leaves the event ready for issuance.
pub proof fn lemma_registered_is_ready(
    state: Map<Address, AccountData>,
    ctx: CreateEvent,
    event_name: String,
    event_date: String,
)
    requires
        register_spec(state, ctx, event_name, event_date) is Ok,
    ensures
        event_ready(
            register_spec(state, ctx, event_name, event_date)->Ok_0,
            ctx.event,
            ctx.token_mint,
            event_name@,
        ),
{
    lemma_registration(state, ctx, event_name, event_date);
    lemma_derive_then_rederive(Namespace::Event, ctx.organizer, event_name@);
}

/// The token account as an issuance finds it: the one stored, or an empty
/// one of the user for the mint where nothing is stored.
pub open spec fn holding(
    state: Map<Address, AccountData>,
    token_mint: Address,
    user_token_account: Address,
    user: Address,
) -> TokenAccount {
    if state.contains_key(user_token_account) {
        state[user_token_account]->Token_0
    } else {
        TokenAccount { mint: token_mint, owner: user, amount: 0 }
    }
}

/// The accounts after an issuance that succeeds: the mint's supply and the
/// token account's balance are each one more, the token account is there,
/// and nothing else changes.
pub open spec fn issued(
    state: Map<Address, AccountData>,
    token_mint: Address,
    user_token_account: Address,
    user: Address,
) -> Map<Address, AccountData> {
    let issuer = state[token_mint]->Mint_0;
    let held = holding(state, token_mint, user_token_account, user);
    state.insert(
        token_mint,
        AccountData::Mint(
            Mint {
                mint_authority: issuer.mint_authority,
                supply: (issuer.supply + 1) as u64,
                decimals: issuer.decimals,
                freeze_authority: issuer.freeze_authority,
            },
        ),
    ).insert(
        user_token_account,
        AccountData::Token(
            TokenAccount { mint: held.mint, owner: held.owner, amount: (held.amount + 1) as u64 },
        ),
    )
}

/// Why the ledger refuses to issue to the token account, if it does: what is
/// stored there is no token account, or one of another mint, or the supply
/// or the balance is at its limit.
pub open spec fn issue_fault(
    state: Map<Address, AccountData>,
    token_mint: Address,
    user_token_account: Address,
    user: Address,
) -> Option<HostError> {
    if state.contains_key(user_token_account) && !(state[user_token_account] is Token) {
        Some(HostError::InvalidAccount)
    } else if holding(state, token_mint, user_token_account, user).mint != token_mint {
        Some(HostError::MintMismatch)
    } else if state[token_mint]->Mint_0.supply == u64::MAX || holding(
        state,
        token_mint,
        user_token_account,
        user,
    ).amount == u64::MAX {
        Some(HostError::Overflow)
    } else {
        None
    }
}

/// For an event that is ready, an issuance with its record and its mint
/// fails only where the ledger refuses to issue to the token account, and
/// otherwise adds one unit to the supply and to the balance, creating the
/// token account where nothing was stored.
pub proof fn lemma_issuance(
    state: Map<Address, AccountData>,
    event: Address,
    token_mint: Address,
    user_token_account: Address,
    user: Address,
    event_name: String,
)
    requires
        event_ready(state, event, token_mint, event_name@),
    ensures
        issue_spec(state, event, token_mint, user_token_account, user, event_name) == (
        match issue_fault(state, token_mint, user_token_account, user) {
            Some(e) => Err::<Map<Address, AccountData>, Refusal>(Refusal::Host(e)),
            None => Ok::<Map<Address, AccountData>, Refusal>(
                issued(state, token_mint, user_token_account, user),
            ),
        }),
{
    let ctx = ticket_context(state, event, token_mint, user_token_account, user);
    let organizer = state[event]->Event_0.organizer;
    let mint_bump = derive_spec(Namespace::TokenMint, organizer, event_name@)->Some_0.1;
    lemma_derive_then_rederive(Namespace::TokenMint, organizer, event_name@);
    assert(record_in_place(ctx, event_name@));
    assert(mint_in_place(ctx, event_name@));
    let steps = issuance_steps(ctx, event_name, mint_bump);
    assert(mint_ticket_spec(ctx, event_name) == Ok::<Seq<Action>, Refusal>(steps));
    lemma_run_first(state, steps);
    if state.contains_key(user_token_account) {
        assert(steps.skip(1).len() == 0);
        if issue_fault(state, token_mint, user_token_account, user) is None {
            let s1 = step(state, steps[0])->Ok_0;
            assert(run(s1, steps.skip(1)) == Ok::<Map<Address, AccountData>, HostError>(s1));
            assert(s1 =~= issued(state, token_mint, user_token_account, user));
        }
    } else {
        let t1 = steps.skip(1);
        assert(t1[0] == steps[1] && t1.skip(1).len() == 0);
        let s1 = step(state, steps[0])->Ok_0;
        lemma_run_first(s1, t1);
        if issue_fault(state, token_mint, user_token_account, user) is None {
            let s2 = step(s1, steps[1])->Ok_0;
            assert(run(s2, t1.skip(1)) == Ok::<Map<Address, AccountData>, HostError>(s2));
            assert(s2 =~= issued(state, token_mint, user_token_account, user));
        }
    }
}

/// The first ticket of a user: where nothing is stored at the token
/// account's address and the supply is not at its limit, the issuance
/// succeeds, creates exactly that one account, owned by the user for the
/// mint, and its balance is 1. The event stays ready.
pub proof fn lemma_first_ticket(
    state: Map<Address, AccountData>,
    event: Address,
    token_mint: Address,
    user_token_account: Address,
    user: Address,
    event_name: String,
)
    requires
        event_ready(state, event, token_mint, event_name@),
        !state.contains_key(user_token_account),
        state[token_mint]->Mint_0.supply < u64::MAX,
    ensures
        ({
            let outcome = issue_spec(
                state,
                event,
                token_mint,
                user_token_account,
                user,
                event_name,
            );
            &&& outcome is Ok
            &&& outcome->Ok_0.dom() == state.dom().insert(user_token_account)
            &&& outcome->Ok_0[user_token_account] == AccountData::Token(
                TokenAccount { mint: token_mint, owner: user, amount: 1 },
            )
            &&& outcome->Ok_0[token_mint]->Mint_0.supply == state[token_mint]->Mint_0.supply + 1
            &&& event_ready(outcome->Ok_0, event, token_mint, event_name@)
        }),
{
    lemma_issuance(state, event, token_mint, user_token_account, user, event_name);
    let end = issued(state, token_mint, user_token_account, user);
    assert(end.dom() =~= state.dom().insert(user_token_account));
}

/// A further ticket: where the token account of the mint is already there,
/// and neither its balance nor the supply is at its limit, the issuance
/// succeeds, creates no account, and the balance is one more. The event
/// stays ready.
pub proof fn lemma_further_ticket(
    state: Map<Address, AccountData>,
    event: Address,
    token_mint: Address,
    user_token_account: Address,
    user: Address,
    event_name: String,
)
    requires
        event_ready(state, event, token_mint, event_name@),
        state.contains_key(user_token_account),
        state[user_token_account] is Token,
        state[user_token_account]->Token_0.mint == token_mint,
        state[user_token_account]->Token_0.amount < u64::MAX,
        state[token_mint]->Mint_0.supply < u64::MAX,
    ensures
        ({
            let outcome = issue_spec(
                state,
                event,
                token_mint,
                user_token_account,
                user,
                event_name,
            );
            &&& outcome is Ok
            &&& outcome->Ok_0.dom() == state.dom()
            &&& outcome->Ok_0[user_token_account] is Token
            &&& outcome->Ok_0[user_token_account]->Token_0.amount
                == state[user_token_account]->Token_0.amount + 1
            &&& outcome->Ok_0[user_token_account]->Token_0.owner
                == state[user_token_account]->Token_0.owner
            &&& outcome->Ok_0[token_mint]->Mint_0.supply == state[token_mint]->Mint_0.supply + 1
            &&& event_ready(outcome->Ok_0, event, token_mint, event_name@)
        }),
{
    lemma_issuance(state, event, token_mint, user_token_account, user, event_name);
    let end = issued(state, token_mint, user_token_account, user);
    assert(end.dom() =~= state.dom());
}

/// Issuance is per call, not per user: two issuances to a user without a
/// token account both succeed; the first creates the account, the second
/// creates none, and the balance is then 2.
pub proof fn lemma_two_tickets(
    state: Map<Address, AccountData>,
    event: Address,
    token_mint: Address,
    user_token_account: Address,
    user: Address,
    event_name: String,
)
    requires
        event_ready(state, event, token_mint, event_name@),
        !state.contains_key(user_token_account),
        state[token_mint]->Mint_0.supply + 2 <= u64::MAX,
    ensures
        ({
            let first = issue_spec(
                state,
                event,
                token_mint,
                user_token_account,
                user,
                event_name,
            );
            let second = issue_spec(
                first->Ok_0,
                event,
                token_mint,
                user_token_account,
                user,
                event_name,
            );
            &&& first is Ok
            &&& second is Ok
            &&& first->Ok_0.dom() == state.dom().insert(user_token_account)
            &&& second->Ok_0.dom() == first->Ok_0.dom()
            &&& second->Ok_0[user_token_account] == AccountData::Token(
                TokenAccount { mint: token_mint, owner: user, amount: 2 },
            )
        }),
{
    lemma_first_ticket(state, event, token_mint, user_token_account, user, event_name);
    let first = issue_spec(state, event, token_mint, user_token_account, user, event_name)->Ok_0;
    lemma_further_ticket(first, event, token_mint, user_token_account, user, event_name);
    lemma_issuance(first, event, token_mint, user_token_account, user, event_name);
}

} // verus!
