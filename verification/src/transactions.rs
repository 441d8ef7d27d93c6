//! Registration and issuance as whole transactions on a ledger, and what
//! holds of them.

use crate::address::Address;
use crate::instructions::{
    create_event, create_event_spec, mint_ticket, mint_ticket_spec, CreateEvent, HostError,
    MintTicket, Refusal,
};
use crate::ledger::{run, AccountData, Ledger};
use vstd::prelude::*;

verus! {

/// The accounts after a registration, or why it fails.
pub open spec fn register_spec(
    state: Map<Address, AccountData>,
    ctx: CreateEvent,
    event_name: String,
    event_date: String,
) -> Result<Map<Address, AccountData>, Refusal> {
    match create_event_spec(ctx, event_name, event_date) {
        Err(e) => Err(e),
        Ok(steps) => match run(state, steps) {
            Ok(end) => Ok(end),
            Err(e) => Err(Refusal::Host(e)),
        },
    }
}

/// What an issuance is called with, as the ledger shows it: the record is
/// the one stored at `event`, and the token account counts as empty where
/// nothing is stored at its address.
pub open spec fn ticket_context(
    state: Map<Address, AccountData>,
    event: Address,
    token_mint: Address,
    user_token_account: Address,
    user: Address,
) -> MintTicket {
    MintTicket {
        event,
        record: state[event]->Event_0,
        token_mint,
        user_token_account,
        user_token_account_empty: !state.contains_key(user_token_account),
        user,
    }
}

/// The accounts after an issuance, or why it fails.
pub open spec fn issue_spec(
    state: Map<Address, AccountData>,
    event: Address,
    token_mint: Address,
    user_token_account: Address,
    user: Address,
    event_name: String,
) -> Result<Map<Address, AccountData>, Refusal> {
    if !(state.contains_key(event) && state[event] is Event) {
        Err(Refusal::Host(HostError::InvalidAccount))
    } else {
        match mint_ticket_spec(
            ticket_context(state, event, token_mint, user_token_account, user),
            event_name,
        ) {
            Err(e) => Err(e),
            Ok(steps) => match run(state, steps) {
                Ok(end) => Ok(end),
                Err(e) => Err(Refusal::Host(e)),
            },
        }
    }
}

impl Ledger {
    /// Registers an event on the ledger. On any failure the ledger is left
    /// as it was.
    pub fn register_event(&mut self, ctx: CreateEvent, event_name: String, event_date: String) -> (r:
        Result<(), Refusal>)
        requires
            old(self).wf(),
        ensures
            final(self).wf(),
            match register_spec(old(self)@, ctx, event_name, event_date) {
                Ok(end) => r is Ok && final(self)@ == end,
                Err(e) => r is Err && r->Err_0 == e && final(self)@ == old(self)@,
            },
    {
        let steps = match create_event(ctx, event_name, event_date) {
            Ok(steps) => steps,
            Err(e) => {
                return Err(e);
            },
        };
        match self.transact(&steps) {
            Ok(()) => Ok(()),
            Err(e) => Err(Refusal::Host(e)),
        }
    }

    /// Issues one ticket of the event recorded at `event` to a user's token
    /// account. On any failure the ledger is left as it was.
    pub fn issue_ticket(
        &mut self,
        event: Address,
        token_mint: Address,
        user_token_account: Address,
        user: Address,
        event_name: String,
    ) -> (r: Result<(), Refusal>)
        requires
            old(self).wf(),
        ensures
            final(self).wf(),
            match issue_spec(
                old(self)@,
                event,
                token_mint,
                user_token_account,
                user,
                event_name,
            ) {
                Ok(end) => r is Ok && final(self)@ == end,
                Err(e) => r is Err && r->Err_0 == e && final(self)@ == old(self)@,
            },
    {
        let record = match self.get(&event) {
            Some(AccountData::Event(record)) => record.clone(),
            _ => {
                return Err(Refusal::Host(HostError::InvalidAccount));
            },
        };
        let user_token_account_empty = self.get(&user_token_account).is_none();
        let ctx = MintTicket {
            event,
            record,
            token_mint,
            user_token_account,
            user_token_account_empty,
            user,
        };
        let steps = match mint_ticket(ctx, event_name) {
            Ok(steps) => steps,
            Err(e) => {
                return Err(e);
            },
        };
        match self.transact(&steps) {
            Ok(()) => Ok(()),
            Err(e) => Err(Refusal::Host(e)),
        }
    }

    /// The balance of the token account at the address, if one is there.
    pub fn balance(&self, account: &Address) -> (r: Option<u64>)
        requires
            self.wf(),
        ensures
            r == if self@.contains_key(*account) && self@[*account] is Token {
                Some(self@[*account]->Token_0.amount)
            } else {
                None
            },
    {
        match self.get(account) {
            Some(AccountData::Token(token)) => Some(token.amount),
            _ => None,
        }
    }
}

} // verus!
