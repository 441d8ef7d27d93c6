//! A model of the ledger that the program runs on: the accounts it holds and
//! what each step does to them.
//!
//! The ledger holds at most one account at an address, refuses to create an
//! account where one is, and carries out the steps of a call as one
//! transaction: all of them, or none. Fees and balances of lamports are not
//! part of the model.

use crate::address::Address;
use crate::event::Event;
use crate::instructions::{Action, HostError, EVENT_SPACE, MINT_SPACE};
use crate::seeds::{PROGRAM_ID, TOKEN_PROGRAM_ID};
use vstd::prelude::*;

verus! {

/// A token mint: the authority that may issue units, and the units issued.
#[derive(Clone, Copy, Debug, PartialEq, Eq)]
pub struct Mint {
    pub mint_authority: Option<Address>,
    pub supply: u64,
    pub decimals: u8,
    pub freeze_authority: Option<Address>,
}

/// The account that holds one owner's balance of one mint.
#[derive(Clone, Copy, Debug, PartialEq, Eq)]
pub struct TokenAccount {
    pub mint: Address,
    pub owner: Address,
    pub amount: u64,
}

/// What an account holds.
#[derive(Debug, PartialEq, Eq)]
pub enum AccountData {
    /// Space allotted to a program, with nothing written yet.
    Blank { space: u64, owner: Address },
    /// An event record.
    Event(Event),
    /// A token mint.
    Mint(Mint),
    /// A token account.
    Token(TokenAccount),
}

impl Clone for AccountData {
    fn clone(&self) -> (r: AccountData)
        ensures
            r == *self,
    {
        match self {
            AccountData::Blank { space, owner } => AccountData::Blank {
                space: *space,
                owner: *owner,
            },
            AccountData::Event(record) => AccountData::Event(record.clone()),
            AccountData::Mint(mint) => AccountData::Mint(*mint),
            AccountData::Token(token) => AccountData::Token(*token),
        }
    }
}

/// An account at its address.
#[derive(Debug, PartialEq, Eq)]
pub struct Account {
    pub address: Address,
    pub data: AccountData,
}

/// Whether an account is stored at the address.
pub open spec fn occupied(accounts: Seq<Account>, address: Address) -> bool {
    exists|i: int| 0 <= i < accounts.len() && (#[trigger] accounts[i]).address == address
}

/// The position of the account stored at the address.
pub open spec fn slot(accounts: Seq<Account>, address: Address) -> int {
    choose|i: int| 0 <= i < accounts.len() && (#[trigger] accounts[i]).address == address
}

/// Whether no two accounts share an address.
pub open spec fn distinct(accounts: Seq<Account>) -> bool {
    forall|i: int, j: int|
        0 <= i < j < accounts.len() ==> (#[trigger] accounts[i]).address != (
        #[trigger] accounts[j]).address
}

/// The accounts as a map from each address to what is stored there.
pub open spec fn as_map(accounts: Seq<Account>) -> Map<Address, AccountData> {
    Map::new(
        |a: Address| occupied(accounts, a),
        |a: Address| accounts[slot(accounts, a)].data,
    )
}

proof fn lemma_slot(accounts: Seq<Account>, i: int)
    requires
        distinct(accounts),
        0 <= i < accounts.len(),
    ensures
        occupied(accounts, accounts[i].address),
        slot(accounts, accounts[i].address) == i,
        as_map(accounts).contains_key(accounts[i].address),
        as_map(accounts)[accounts[i].address] == accounts[i].data,
{
    let a = accounts[i].address;
    let j = slot(accounts, a);
    assert(0 <= j < accounts.len() && accounts[j].address == a);
    if j < i {
        assert(accounts[j].address != accounts[i].address);
    } else if i < j {
        assert(accounts[i].address != accounts[j].address);
    }
}

proof fn lemma_push(accounts: Seq<Account>, account: Account)
    requires
        distinct(accounts),
        !occupied(accounts, account.address),
    ensures
        distinct(accounts.push(account)),
        as_map(accounts.push(account)) == as_map(accounts).insert(account.address, account.data),
{
    let grown = accounts.push(account);
    assert forall|i: int, j: int| 0 <= i < j < grown.len() implies (#[trigger] grown[i]).address
        != (#[trigger] grown[j]).address by {
        if j == accounts.len() {
            assert(accounts[i].address != account.address);
        } else {
            assert(accounts[i].address != accounts[j].address);
        }
    }
    assert forall|a: Address| #[trigger]
        as_map(grown).contains_key(a) == as_map(accounts).insert(
            account.address,
            account.data,
        ).contains_key(a) by {
        if occupied(accounts, a) {
            let i = slot(accounts, a);
            assert(grown[i].address == a);
        }
        if occupied(grown, a) && a != account.address {
            let i = slot(grown, a);
            assert(accounts[i].address == a);
        }
        if a == account.address {
            assert(grown[accounts.len() as int].address == a);
        }
    }
    assert forall|a: Address| #[trigger] as_map(grown).contains_key(a) implies as_map(grown)[a]
        == as_map(accounts).insert(account.address, account.data)[a] by {
        let i = slot(grown, a);
        lemma_slot(grown, i);
        if i < accounts.len() {
            lemma_slot(accounts, i);
        }
    }
    assert(as_map(grown) =~= as_map(accounts).insert(account.address, account.data));
}

proof fn lemma_update(accounts: Seq<Account>, i: int, data: AccountData)
    requires
        distinct(accounts),
        0 <= i < accounts.len(),
    ensures
        distinct(accounts.update(i, Account { address: accounts[i].address, data })),
        as_map(accounts.update(i, Account { address: accounts[i].address, data })) == as_map(
            accounts,
        ).insert(accounts[i].address, data),
{
    let changed = accounts.update(i, Account { address: accounts[i].address, data });
    assert forall|j: int, k: int| 0 <= j < k < changed.len() implies (#[trigger] changed[j]).address
        != (#[trigger] changed[k]).address by {
        assert(accounts[j].address != accounts[k].address);
    }
    assert forall|a: Address| #[trigger]
        as_map(changed).contains_key(a) == as_map(accounts).insert(
            accounts[i].address,
            data,
        ).contains_key(a) by {
        if occupied(accounts, a) {
            let j = slot(accounts, a);
            assert(changed[j].address == a);
        }
        if occupied(changed, a) {
            let j = slot(changed, a);
            assert(accounts[j].address == a);
        }
        if a == accounts[i].address {
            assert(changed[i].address == a);
        }
    }
    assert forall|a: Address| #[trigger]
        as_map(changed).contains_key(a) implies as_map(changed)[a] == as_map(accounts).insert(
        accounts[i].address,
        data,
    )[a] by {
        let j = slot(changed, a);
        lemma_slot(changed, j);
        lemma_slot(accounts, j);
    }
    assert(as_map(changed) =~= as_map(accounts).insert(accounts[i].address, data));
}

/// Whether space of the given size, allotted to the given program and not
/// yet written, is stored at the address.
pub open spec fn blank_at(
    state: Map<Address, AccountData>,
    address: Address,
    space: u64,
    owner: Address,
) -> bool {
    state.contains_key(address) && state[address] == (AccountData::Blank { space, owner })
}

/// What one step does to the accounts, or why the ledger refuses it.
pub open spec fn step(state: Map<Address, AccountData>, action: Action) -> Result<
    Map<Address, AccountData>,
    HostError,
> {
    match action {
        Action::CreateAccount { payer, account, lamports, space, owner, proof } => {
            if !proof.signs_for(account) {
                Err(HostError::MissingSignature)
            } else if state.contains_key(account) {
                Err(HostError::AccountInUse)
            } else {
                Ok(state.insert(account, AccountData::Blank { space, owner }))
            }
        },
        Action::InitializeMint { mint, decimals, mint_authority, freeze_authority } => {
            if !blank_at(state, mint, MINT_SPACE, Address { bytes: TOKEN_PROGRAM_ID }) {
                Err(HostError::InvalidAccount)
            } else {
                Ok(
                    state.insert(
                        mint,
                        AccountData::Mint(
                            Mint {
                                mint_authority: Some(mint_authority),
                                supply: 0,
                                decimals,
                                freeze_authority,
                            },
                        ),
                    ),
                )
            }
        },
        Action::WriteEvent { account, record } => {
            if !blank_at(state, account, EVENT_SPACE, Address { bytes: PROGRAM_ID }) {
                Err(HostError::InvalidAccount)
            } else {
                Ok(state.insert(account, AccountData::Event(record)))
            }
        },
        Action::CreateAssociatedAccount { payer, owner, mint, account } => {
            if state.contains_key(account) {
                Err(HostError::AccountInUse)
            } else if !(state.contains_key(mint) && state[mint] is Mint) {
                Err(HostError::InvalidAccount)
            } else {
                Ok(
                    state.insert(
                        account,
                        AccountData::Token(TokenAccount { mint, owner, amount: 0 }),
                    ),
                )
            }
        },
        Action::MintTo { mint, destination, authority, amount, proof } => {
            if !(state.contains_key(mint) && state[mint] is Mint) {
                Err(HostError::InvalidAccount)
            } else if state[mint]->Mint_0.mint_authority != Some(authority) {
                Err(HostError::OwnerMismatch)
            } else if !proof.signs_for(authority) {
                Err(HostError::MissingSignature)
            } else if !(state.contains_key(destination) && state[destination] is Token) {
                Err(HostError::InvalidAccount)
            } else if state[destination]->Token_0.mint != mint {
                Err(HostError::MintMismatch)
            } else if state[mint]->Mint_0.supply + amount > u64::MAX
                || state[destination]->Token_0.amount + amount > u64::MAX {
                Err(HostError::Overflow)
            } else {
                let issuer = state[mint]->Mint_0;
                let holder = state[destination]->Token_0;
                Ok(
                    state.insert(
                        mint,
                        AccountData::Mint(
                            Mint {
                                mint_authority: issuer.mint_authority,
                                supply: (issuer.supply + amount) as u64,
                                decimals: issuer.decimals,
                                freeze_authority: issuer.freeze_authority,
                            },
                        ),
                    ).insert(
                        destination,
                        AccountData::Token(
                            TokenAccount {
                                mint: holder.mint,
                                owner: holder.owner,
                                amount: (holder.amount + amount) as u64,
                            },
                        ),
                    ),
                )
            }
        },
    }
}

/// What the steps do to the accounts when carried out in order, or why the
/// first step that the ledger refuses is refused.
pub open spec fn run(state: Map<Address, AccountData>, steps: Seq<Action>) -> Result<
    Map<Address, AccountData>,
    HostError,
>
    decreases steps.len(),
{
    if steps.len() == 0 {
        Ok(state)
    } else {
        match step(state, steps[0]) {
            Ok(next) => run(next, steps.skip(1)),
            Err(e) => Err(e),
        }
    }
}

/// The accounts of a ledger.
#[derive(Debug)]
pub struct Ledger {
    accounts: Vec<Account>,
}

impl View for Ledger {
    type V = Map<Address, AccountData>;

    closed spec fn view(&self) -> Map<Address, AccountData> {
        as_map(self.accounts@)
    }
}

impl Ledger {
    /// Whether no two accounts of the ledger share an address.
    pub closed spec fn wf(&self) -> bool {
        distinct(self.accounts@)
    }

    /// A ledger without accounts.
    pub fn new() -> (r: Ledger)
        ensures
            r.wf(),
            r@ == Map::<Address, AccountData>::empty(),
    {
        let r = Ledger { accounts: Vec::new() };
        assert(r@ =~= Map::<Address, AccountData>::empty());
        r
    }

    fn find(&self, address: &Address) -> (r: Option<usize>)
        requires
            self.wf(),
        ensures
            match r {
                Some(i) => i < self.accounts@.len() && self.accounts@[i as int].address
                    == *address && self@.contains_key(*address) && self@[*address]
                    == self.accounts@[i as int].data,
                None => !self@.contains_key(*address),
            },
    {
        let mut i: usize = 0;
        while i < self.accounts.len()
            invariant
                self.wf(),
                i <= self.accounts@.len(),
                forall|k: int| 0 <= k < i ==> (#[trigger] self.accounts@[k]).address != *address,
            decreases self.accounts@.len() - i,
        {
            if self.accounts[i].address.equals(address) {
                proof {
                    lemma_slot(self.accounts@, i as int);
                }
                return Some(i);
            }
            i += 1;
        }
        None
    }

    /// What is stored at the address, if anything.
    pub fn get(&self, address: &Address) -> (r: Option<&AccountData>)
        requires
            self.wf(),
        ensures
            match r {
                Some(data) => self@.contains_key(*address) && *data == self@[*address],
                None => !self@.contains_key(*address),
            },
    {
        match self.find(address) {
            Some(i) => Some(&self.accounts[i].data),
            None => None,
        }
    }

    /// The number of accounts.
    pub fn len(&self) -> (r: usize)
        requires
            self.wf(),
        ensures
            r == self@.dom().len(),
            self@.dom().finite(),
    {
        proof {
            lemma_count(self.accounts@);
        }
        self.accounts.len()
    }
}

impl Ledger {
    fn insert_new(&mut self, address: Address, data: AccountData)
        requires
            old(self).wf(),
            !old(self)@.contains_key(address),
        ensures
            final(self).wf(),
            final(self)@ == old(self)@.insert(address, data),
    {
        proof {
            lemma_push(self.accounts@, Account { address, data });
        }
        self.accounts.push(Account { address, data });
    }

    fn replace_at(&mut self, i: usize, data: AccountData)
        requires
            old(self).wf(),
            i < old(self).accounts@.len(),
        ensures
            final(self).wf(),
            final(self).accounts@.len() == old(self).accounts@.len(),
            forall|k: int|
                0 <= k < old(self).accounts@.len() ==> (#[trigger] final(self).accounts@[k]).address
                    == old(self).accounts@[k].address,
            final(self)@ == old(self)@.insert(old(self).accounts@[i as int].address, data),
    {
        let address = self.accounts[i].address;
        proof {
            lemma_update(self.accounts@, i as int, data);
        }
        self.accounts.set(i, Account { address, data });
    }

    fn blank_index(&self, address: &Address, space: u64, owner: &Address) -> (r: Option<usize>)
        requires
            self.wf(),
        ensures
            r is Some == blank_at(self@, *address, space, *owner),
            r is Some ==> r->Some_0 < self.accounts@.len() && self.accounts@[r->Some_0 as int].address
                == *address,
    {
        match self.find(address) {
            Some(i) => match &self.accounts[i].data {
                AccountData::Blank { space: allotted, owner: holder } => {
                    if *allotted == space && holder.equals(owner) {
                        Some(i)
                    } else {
                        None
                    }
                },
                _ => None,
            },
            None => None,
        }
    }

    /// Carries out one step, or refuses it and changes nothing.
    pub fn apply(&mut self, action: &Action) -> (r: Result<(), HostError>)
        requires
            old(self).wf(),
        ensures
            final(self).wf(),
            match step(old(self)@, *action) {
                Ok(next) => r is Ok && final(self)@ == next,
                Err(e) => r is Err && r->Err_0 == e && final(self)@ == old(self)@,
            },
    {
        match action {
            Action::CreateAccount { payer: _, account, lamports: _, space, owner, proof } => {
                if !proof.verifies(account) {
                    return Err(HostError::MissingSignature);
                }
                if self.find(account).is_some() {
                    return Err(HostError::AccountInUse);
                }
                self.insert_new(*account, AccountData::Blank { space: *space, owner: *owner });
                Ok(())
            },
            Action::InitializeMint { mint, decimals, mint_authority, freeze_authority } => {
                let token_program = crate::seeds::token_program_id();
                match self.blank_index(mint, MINT_SPACE, &token_program) {
                    None => Err(HostError::InvalidAccount),
                    Some(i) => {
                        self.replace_at(
                            i,
                            AccountData::Mint(
                                Mint {
                                    mint_authority: Some(*mint_authority),
                                    supply: 0,
                                    decimals: *decimals,
                                    freeze_authority: *freeze_authority,
                                },
                            ),
                        );
                        Ok(())
                    },
                }
            },
            Action::WriteEvent { account, record } => {
                let program = crate::seeds::program_id();
                match self.blank_index(account, EVENT_SPACE, &program) {
                    None => Err(HostError::InvalidAccount),
                    Some(i) => {
                        self.replace_at(i, AccountData::Event(record.clone()));
                        Ok(())
                    },
                }
            },
            Action::CreateAssociatedAccount { payer: _, owner, mint, account } => {
                if self.find(account).is_some() {
                    return Err(HostError::AccountInUse);
                }
                match self.get(mint) {
                    Some(AccountData::Mint(_)) => {},
                    _ => {
                        return Err(HostError::InvalidAccount);
                    },
                }
                self.insert_new(
                    *account,
                    AccountData::Token(TokenAccount { mint: *mint, owner: *owner, amount: 0 }),
                );
                Ok(())
            },
            Action::MintTo { mint, destination, authority, amount, proof } => {
                let (at_mint, issuer) = match self.find(mint) {
                    Some(i) => match &self.accounts[i].data {
                        AccountData::Mint(m) => (i, *m),
                        _ => {
                            return Err(HostError::InvalidAccount);
                        },
                    },
                    None => {
                        return Err(HostError::InvalidAccount);
                    },
                };
                let authorized = match issuer.mint_authority {
                    Some(a) => a.equals(authority),
                    None => false,
                };
                if !authorized {
                    return Err(HostError::OwnerMismatch);
                }
                if !proof.verifies(authority) {
                    return Err(HostError::MissingSignature);
                }
                let (at_holder, holder) = match self.find(destination) {
                    Some(i) => match &self.accounts[i].data {
                        AccountData::Token(t) => (i, *t),
                        _ => {
                            return Err(HostError::InvalidAccount);
                        },
                    },
                    None => {
                        return Err(HostError::InvalidAccount);
                    },
                };
                if !holder.mint.equals(mint) {
                    return Err(HostError::MintMismatch);
                }
                if issuer.supply > u64::MAX - *amount || holder.amount > u64::MAX - *amount {
                    return Err(HostError::Overflow);
                }
                self.replace_at(
                    at_mint,
                    AccountData::Mint(
                        Mint {
                            mint_authority: issuer.mint_authority,
                            supply: issuer.supply + *amount,
                            decimals: issuer.decimals,
                            freeze_authority: issuer.freeze_authority,
                        },
                    ),
                );
                self.replace_at(
                    at_holder,
                    AccountData::Token(
                        TokenAccount {
                            mint: holder.mint,
                            owner: holder.owner,
                            amount: holder.amount + *amount,
                        },
                    ),
                );
                Ok(())
            },
        }
    }

    /// A copy of the ledger.
    pub fn snapshot(&self) -> (r: Ledger)
        requires
            self.wf(),
        ensures
            r.wf(),
            r@ == self@,
    {
        let mut accounts: Vec<Account> = Vec::new();
        let mut i: usize = 0;
        while i < self.accounts.len()
            invariant
                i <= self.accounts@.len(),
                accounts@.len() == i,
                forall|k: int| 0 <= k < i ==> accounts@[k] == self.accounts@[k],
            decreases self.accounts@.len() - i,
        {
            accounts.push(
                Account { address: self.accounts[i].address, data: self.accounts[i].data.clone() },
            );
            i += 1;
        }
        assert(accounts@ =~= self.accounts@);
        Ledger { accounts }
    }

    /// Carries out the steps in order as one transaction: where the ledger
    /// refuses one, none of them has any effect.
    pub fn transact(&mut self, steps: &Vec<Action>) -> (r: Result<(), HostError>)
        requires
            old(self).wf(),
        ensures
            final(self).wf(),
            match run(old(self)@, steps@) {
                Ok(end) => r is Ok && final(self)@ == end,
                Err(e) => r is Err && r->Err_0 == e && final(self)@ == old(self)@,
            },
    {
        let backup = self.snapshot();
        let ghost start = self@;
        let mut i: usize = 0;
        assert(steps@.skip(0) =~= steps@);
        while i < steps.len()
            invariant
                self.wf(),
                backup.wf(),
                backup@ == start,
                start == old(self)@,
                i <= steps@.len(),
                run(start, steps@) == run(self@, steps@.skip(i as int)),
            decreases steps@.len() - i,
        {
            let ghost before = self@;
            proof {
                assert(steps@.skip(i as int).len() > 0);
                assert(steps@.skip(i as int)[0] == steps@[i as int]);
                assert(steps@.skip(i as int).skip(1) =~= steps@.skip(i + 1));
                assert(run(before, steps@.skip(i as int)) == match step(before, steps@[i as int]) {
                    Ok(next) => run(next, steps@.skip(i + 1)),
                    Err(e) => Err(e),
                });
            }
            match self.apply(&steps[i]) {
                Ok(()) => {},
                Err(e) => {
                    *self = backup;
                    return Err(e);
                },
            }
            i += 1;
        }
        assert(steps@.skip(i as int).len() == 0);
        Ok(())
    }
}

proof fn lemma_count(accounts: Seq<Account>)
    requires
        distinct(accounts),
    ensures
        as_map(accounts).dom().finite(),
        as_map(accounts).dom().len() == accounts.len(),
    decreases accounts.len(),
{
    if accounts.len() == 0 {
        assert(as_map(accounts).dom() =~= Set::<Address>::empty());
    } else {
        let rest = accounts.drop_last();
        let last = accounts.last();
        assert forall|i: int, j: int| 0 <= i < j < rest.len() implies (#[trigger] rest[i]).address
            != (#[trigger] rest[j]).address by {
            assert(accounts[i].address != accounts[j].address);
        }
        lemma_count(rest);
        if occupied(rest, last.address) {
            let i = slot(rest, last.address);
            assert(accounts[i].address != accounts[accounts.len() - 1].address);
        }
        lemma_push(rest, last);
        assert(rest.push(last) =~= accounts);
    }
}

} // verus!
