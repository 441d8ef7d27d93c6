use event_tickets::address::Address;
use event_tickets::event::{ErrorCode, Event};
use event_tickets::instructions::{
    mint_ticket, Action, CreateEvent, HostError, MintTicket, Refusal, SigningProof,
};
use event_tickets::ledger::{AccountData, Ledger, Mint, TokenAccount};
use event_tickets::seeds::Namespace;

fn organizer() -> Address {
    Address::new([7u8; 32])
}

fn user() -> Address {
    Address::new([9u8; 32])
}

fn holder() -> Address {
    Address::new([11u8; 32])
}

struct Registered {
    ledger: Ledger,
    event: Address,
    mint: Address,
    event_bump: u8,
    mint_bump: u8,
}

fn register(ledger: &mut Ledger, organizer: Address, name: &str) -> (Address, Address, u8, u8) {
    let text = String::from(name);
    let (event, event_bump) =
        event_tickets::seeds::derive(Namespace::Event, &organizer, &text).unwrap();
    let (mint, mint_bump) =
        event_tickets::seeds::derive(Namespace::TokenMint, &organizer, &text).unwrap();
    let ctx = CreateEvent { event, token_mint: mint, organizer, event_rent: 10, mint_rent: 20 };
    ledger.register_event(ctx, text, String::from("2025-11-01")).unwrap();
    (event, mint, event_bump, mint_bump)
}

fn registered() -> Registered {
    let mut ledger = Ledger::new();
    let (event, mint, event_bump, mint_bump) = register(&mut ledger, organizer(), "Conf2025");
    Registered { ledger, event, mint, event_bump, mint_bump }
}

fn context(r: &Registered, empty: bool) -> MintTicket {
    MintTicket {
        event: r.event,
        record: Event {
            name: String::from("Conf2025"),
            date: String::from("2025-11-01"),
            organizer: organizer(),
            token_mint: r.mint,
            bump: r.event_bump,
        },
        token_mint: r.mint,
        user_token_account: holder(),
        user_token_account_empty: empty,
        user: user(),
    }
}

fn issue_step(r: &Registered) -> Action {
    Action::MintTo {
        mint: r.mint,
        destination: holder(),
        authority: r.mint,
        amount: 1,
        proof: SigningProof {
            namespace: Namespace::TokenMint,
            organizer: organizer(),
            name: String::from("Conf2025"),
            bump: r.mint_bump,
        },
    }
}

#[test]
fn registered_event_issues_a_ticket() {
    let mut r = registered();
    match r.ledger.get(&r.event) {
        Some(AccountData::Event(record)) => {
            assert_eq!(record.name, "Conf2025");
            assert_eq!(record.date, "2025-11-01");
            assert_eq!(record.organizer, organizer());
            assert_eq!(record.token_mint, r.mint);
        }
        other => panic!("no event record: {:?}", other),
    }
    assert!(matches!(r.ledger.get(&r.mint), Some(AccountData::Mint(_))));
    assert_eq!(r.ledger.balance(&holder()), None);
    assert_eq!(
        r.ledger.issue_ticket(r.event, r.mint, holder(), user(), String::from("Conf2025")),
        Ok(())
    );
    assert_eq!(r.ledger.balance(&holder()), Some(1));
}

#[test]
fn first_ticket_creates_the_token_account() {
    let mut r = registered();
    assert_eq!(r.ledger.len(), 2);
    r.ledger
        .issue_ticket(r.event, r.mint, holder(), user(), String::from("Conf2025"))
        .unwrap();
    assert_eq!(r.ledger.len(), 3);
    assert_eq!(
        r.ledger.get(&holder()),
        Some(&AccountData::Token(TokenAccount { mint: r.mint, owner: user(), amount: 1 }))
    );
    assert_eq!(
        r.ledger.get(&r.mint),
        Some(&AccountData::Mint(Mint {
            mint_authority: Some(r.mint),
            supply: 1,
            decimals: 0,
            freeze_authority: None,
        }))
    );
}

#[test]
fn second_ticket_creates_no_account_and_adds_one() {
    let mut r = registered();
    r.ledger
        .issue_ticket(r.event, r.mint, holder(), user(), String::from("Conf2025"))
        .unwrap();
    assert_eq!(r.ledger.len(), 3);
    assert_eq!(
        r.ledger.issue_ticket(r.event, r.mint, holder(), user(), String::from("Conf2025")),
        Ok(())
    );
    assert_eq!(r.ledger.len(), 3);
    assert_eq!(r.ledger.balance(&holder()), Some(2));
    assert_eq!(
        r.ledger.get(&r.mint),
        Some(&AccountData::Mint(Mint {
            mint_authority: Some(r.mint),
            supply: 2,
            decimals: 0,
            freeze_authority: None,
        }))
    );
}

#[test]
fn issuance_leaves_the_record_as_it_is() {
    let mut r = registered();
    let before = r.ledger.get(&r.event).cloned();
    r.ledger
        .issue_ticket(r.event, r.mint, holder(), user(), String::from("Conf2025"))
        .unwrap();
    assert_eq!(r.ledger.get(&r.event).cloned(), before);
}

#[test]
fn users_hold_their_own_tickets() {
    let mut r = registered();
    let other_holder = Address::new([12u8; 32]);
    let other_user = Address::new([10u8; 32]);
    r.ledger
        .issue_ticket(r.event, r.mint, holder(), user(), String::from("Conf2025"))
        .unwrap();
    r.ledger
        .issue_ticket(r.event, r.mint, other_holder, other_user, String::from("Conf2025"))
        .unwrap();
    assert_eq!(r.ledger.balance(&holder()), Some(1));
    assert_eq!(
        r.ledger.get(&other_holder),
        Some(&AccountData::Token(TokenAccount { mint: r.mint, owner: other_user, amount: 1 }))
    );
    assert_eq!(r.ledger.len(), 4);
}

#[test]
fn issuance_to_an_empty_account_decides_two_steps() {
    let r = registered();
    let steps = mint_ticket(context(&r, true), String::from("Conf2025")).unwrap();
    assert_eq!(
        steps,
        vec![
            Action::CreateAssociatedAccount {
                payer: user(),
                owner: user(),
                mint: r.mint,
                account: holder(),
            },
            issue_step(&r),
        ]
    );
}

#[test]
fn issuance_to_an_existing_account_decides_one_step() {
    let r = registered();
    let steps = mint_ticket(context(&r, false), String::from("Conf2025")).unwrap();
    assert_eq!(steps, vec![issue_step(&r)]);
}

#[test]
fn foreign_mint_is_invalid() {
    let r = registered();
    let mut ctx = context(&r, true);
    ctx.token_mint = Address::new([2u8; 32]);
    assert_eq!(
        mint_ticket(ctx, String::from("Conf2025")),
        Err(Refusal::Program(ErrorCode::InvalidTokenMint))
    );
}

#[test]
fn record_that_names_another_mint_is_invalid() {
    let r = registered();
    let mut ctx = context(&r, true);
    ctx.record.token_mint = Address::new([2u8; 32]);
    assert_eq!(
        mint_ticket(ctx, String::from("Conf2025")),
        Err(Refusal::Program(ErrorCode::InvalidTokenMint))
    );
    let mut both = context(&r, true);
    both.record.token_mint = Address::new([2u8; 32]);
    both.token_mint = Address::new([2u8; 32]);
    assert_eq!(
        mint_ticket(both, String::from("Conf2025")),
        Err(Refusal::Program(ErrorCode::InvalidTokenMint))
    );
}

#[test]
fn mint_of_another_event_issues_nothing() {
    let mut r = registered();
    let (_, other_mint, _, _) = register(&mut r.ledger, organizer(), "Conf2026");
    assert_eq!(
        r.ledger.issue_ticket(r.event, other_mint, holder(), user(), String::from("Conf2025")),
        Err(Refusal::Program(ErrorCode::InvalidTokenMint))
    );
    assert_eq!(r.ledger.len(), 4);
    assert_eq!(r.ledger.balance(&holder()), None);
    assert_eq!(
        r.ledger.get(&other_mint),
        Some(&AccountData::Mint(Mint {
            mint_authority: Some(other_mint),
            supply: 0,
            decimals: 0,
            freeze_authority: None,
        }))
    );
}

#[test]
fn stale_bump_breaks_the_seeds() {
    let r = registered();
    let mut ctx = context(&r, true);
    ctx.record.bump = r.event_bump - 1;
    assert_eq!(mint_ticket(ctx, String::from("Conf2025")), Err(Refusal::ConstraintSeeds));
}

#[test]
fn another_name_breaks_the_seeds() {
    let mut r = registered();
    assert_eq!(
        mint_ticket(context(&r, true), String::from("Conf2026")),
        Err(Refusal::ConstraintSeeds)
    );
    assert_eq!(
        r.ledger.issue_ticket(r.event, r.mint, holder(), user(), String::from("Conf2026")),
        Err(Refusal::ConstraintSeeds)
    );
    assert_eq!(r.ledger.len(), 2);
}

#[test]
fn record_at_another_address_breaks_the_seeds() {
    let r = registered();
    let mut ctx = context(&r, true);
    ctx.event = Address::new([1u8; 32]);
    assert_eq!(mint_ticket(ctx, String::from("Conf2025")), Err(Refusal::ConstraintSeeds));
}

#[test]
fn seeds_are_judged_before_the_mint() {
    let r = registered();
    let mut ctx = context(&r, true);
    ctx.event = Address::new([1u8; 32]);
    ctx.token_mint = Address::new([2u8; 32]);
    assert_eq!(mint_ticket(ctx, String::from("Conf2025")), Err(Refusal::ConstraintSeeds));
}

#[test]
fn issuance_needs_an_event_record() {
    let mut r = registered();
    assert_eq!(
        r.ledger.issue_ticket(Address::new([1u8; 32]), r.mint, holder(), user(), String::from("Conf2025")),
        Err(Refusal::Host(HostError::InvalidAccount))
    );
    assert_eq!(
        r.ledger.issue_ticket(r.mint, r.mint, holder(), user(), String::from("Conf2025")),
        Err(Refusal::Host(HostError::InvalidAccount))
    );
    assert_eq!(r.ledger.len(), 2);
}

#[test]
fn destination_must_be_a_token_account() {
    let mut r = registered();
    assert_eq!(
        r.ledger.issue_ticket(r.event, r.mint, r.event, user(), String::from("Conf2025")),
        Err(Refusal::Host(HostError::InvalidAccount))
    );
    assert_eq!(r.ledger.len(), 2);
}

#[test]
fn token_account_of_another_mint_is_refused() {
    let mut r = registered();
    let (other_event, other_mint, _, _) = register(&mut r.ledger, organizer(), "Conf2026");
    r.ledger
        .issue_ticket(other_event, other_mint, holder(), user(), String::from("Conf2026"))
        .unwrap();
    assert_eq!(
        r.ledger.issue_ticket(r.event, r.mint, holder(), user(), String::from("Conf2025")),
        Err(Refusal::Host(HostError::MintMismatch))
    );
    assert_eq!(
        r.ledger.get(&holder()),
        Some(&AccountData::Token(TokenAccount { mint: other_mint, owner: user(), amount: 1 }))
    );
}

#[test]
fn supply_at_its_limit_refuses_a_ticket() {
    let mut r = registered();
    let mut much = issue_step(&r);
    if let Action::MintTo { amount, destination, .. } = &mut much {
        *amount = u64::MAX;
        *destination = Address::new([12u8; 32]);
    }
    let open = Action::CreateAssociatedAccount {
        payer: user(),
        owner: user(),
        mint: r.mint,
        account: Address::new([12u8; 32]),
    };
    assert_eq!(r.ledger.transact(&vec![open, much]), Ok(()));
    assert_eq!(r.ledger.balance(&Address::new([12u8; 32])), Some(u64::MAX));
    assert_eq!(
        r.ledger.issue_ticket(r.event, r.mint, holder(), user(), String::from("Conf2025")),
        Err(Refusal::Host(HostError::Overflow))
    );
    assert_eq!(r.ledger.len(), 3);
    assert_eq!(r.ledger.get(&holder()), None);
}

#[test]
fn units_are_issued_only_by_the_mints_own_seeds() {
    let mut r = registered();
    r.ledger
        .issue_ticket(r.event, r.mint, holder(), user(), String::from("Conf2025"))
        .unwrap();
    let mut forged = issue_step(&r);
    if let Action::MintTo { proof, .. } = &mut forged {
        proof.namespace = Namespace::Event;
        proof.bump = r.event_bump;
    }
    assert_eq!(r.ledger.apply(&forged), Err(HostError::MissingSignature));
    let mut stranger = issue_step(&r);
    if let Action::MintTo { authority, .. } = &mut stranger {
        *authority = user();
    }
    assert_eq!(r.ledger.apply(&stranger), Err(HostError::OwnerMismatch));
    let mut nowhere = issue_step(&r);
    if let Action::MintTo { mint, .. } = &mut nowhere {
        *mint = Address::new([2u8; 32]);
    }
    assert_eq!(r.ledger.apply(&nowhere), Err(HostError::InvalidAccount));
    assert_eq!(r.ledger.balance(&holder()), Some(1));
    assert_eq!(r.ledger.apply(&issue_step(&r)), Ok(()));
    assert_eq!(r.ledger.balance(&holder()), Some(2));
}

#[test]
fn token_account_is_created_once() {
    let mut r = registered();
    let open = Action::CreateAssociatedAccount {
        payer: user(),
        owner: user(),
        mint: r.mint,
        account: holder(),
    };
    assert_eq!(r.ledger.apply(&open), Ok(()));
    assert_eq!(r.ledger.balance(&holder()), Some(0));
    assert_eq!(r.ledger.apply(&open), Err(HostError::AccountInUse));
    let of_no_mint = Action::CreateAssociatedAccount {
        payer: user(),
        owner: user(),
        mint: r.event,
        account: Address::new([12u8; 32]),
    };
    assert_eq!(r.ledger.apply(&of_no_mint), Err(HostError::InvalidAccount));
    assert_eq!(r.ledger.len(), 3);
}

#[test]
fn refused_step_undoes_the_steps_before_it() {
    let mut r = registered();
    let open = Action::CreateAssociatedAccount {
        payer: user(),
        owner: user(),
        mint: r.mint,
        account: holder(),
    };
    let mut forged = issue_step(&r);
    if let Action::MintTo { proof, .. } = &mut forged {
        proof.bump = r.mint_bump - 1;
    }
    assert_eq!(
        r.ledger.transact(&vec![open, issue_step(&r), forged]),
        Err(HostError::MissingSignature)
    );
    assert_eq!(r.ledger.len(), 2);
    assert_eq!(r.ledger.get(&holder()), None);
    assert_eq!(
        r.ledger.get(&r.mint),
        Some(&AccountData::Mint(Mint {
            mint_authority: Some(r.mint),
            supply: 0,
            decimals: 0,
            freeze_authority: None,
        }))
    );
}

#[test]
fn snapshot_is_independent_of_the_ledger() {
    let mut r = registered();
    let before = r.ledger.snapshot();
    r.ledger
        .issue_ticket(r.event, r.mint, holder(), user(), String::from("Conf2025"))
        .unwrap();
    assert_eq!(before.len(), 2);
    assert_eq!(before.balance(&holder()), None);
    assert_eq!(before.get(&r.event), r.ledger.get(&r.event));
    assert_eq!(r.ledger.transact(&Vec::new()), Ok(()));
    assert_eq!(r.ledger.len(), 3);
}
