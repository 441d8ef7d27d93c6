use event_tickets::address::Address;
use event_tickets::event::{check_texts, ErrorCode, Event};
use event_tickets::instructions::{
    create_event, Action, CreateEvent, HostError, Refusal, SigningProof,
};
use event_tickets::ledger::{AccountData, Ledger, Mint};
use event_tickets::seeds::{Namespace, PROGRAM_ID, TOKEN_PROGRAM_ID};

fn organizer() -> Address {
    Address::new([7u8; 32])
}

fn context_for(organizer: Address, name: &str) -> (CreateEvent, u8, u8) {
    let text = String::from(name);
    let (event, event_bump) =
        event_tickets::seeds::derive(Namespace::Event, &organizer, &text).unwrap();
    let (token_mint, mint_bump) =
        event_tickets::seeds::derive(Namespace::TokenMint, &organizer, &text).unwrap();
    let ctx = CreateEvent { event, token_mint, organizer, event_rent: 1_941_840, mint_rent: 1_461_600 };
    (ctx, event_bump, mint_bump)
}

fn any_context() -> CreateEvent {
    CreateEvent {
        event: Address::new([1u8; 32]),
        token_mint: Address::new([2u8; 32]),
        organizer: organizer(),
        event_rent: 0,
        mint_rent: 0,
    }
}

#[test]
fn name_of_51_bytes_is_too_long() {
    assert_eq!(
        create_event(any_context(), "n".repeat(51), String::from("2025-11-01")),
        Err(Refusal::Program(ErrorCode::EventNameTooLong))
    );
}

#[test]
fn date_of_21_bytes_is_invalid() {
    assert_eq!(
        create_event(any_context(), String::from("Conf2025"), "d".repeat(21)),
        Err(Refusal::Program(ErrorCode::InvalidEventDate))
    );
}

#[test]
fn name_is_judged_before_date() {
    assert_eq!(
        create_event(any_context(), "n".repeat(51), "d".repeat(21)),
        Err(Refusal::Program(ErrorCode::EventNameTooLong))
    );
}

#[test]
fn lengths_are_counted_in_bytes() {
    let name = "é".repeat(26);
    assert_eq!(name.chars().count(), 26);
    assert_eq!(
        check_texts(&name, &String::from("2025")),
        Err(ErrorCode::EventNameTooLong)
    );
    assert_eq!(check_texts(&"é".repeat(25), &String::from("2025")), Ok(()));
    assert_eq!(
        check_texts(&String::from("Conf"), &"é".repeat(11)),
        Err(ErrorCode::InvalidEventDate)
    );
}

#[test]
fn limits_are_inclusive() {
    assert_eq!(check_texts(&"n".repeat(50), &"d".repeat(20)), Ok(()));
    assert_eq!(check_texts(&String::new(), &String::new()), Ok(()));
}

#[test]
fn date_is_free_text() {
    let (ctx, _, _) = context_for(organizer(), "Conf2025");
    assert!(create_event(ctx, String::from("Conf2025"), String::from("not a date")).is_ok());
}

#[test]
fn accepted_name_too_long_for_a_seed_has_no_address() {
    assert_eq!(
        create_event(any_context(), "n".repeat(33), String::from("2025-11-01")),
        Err(Refusal::NoDerivedAddress)
    );
    assert_eq!(
        create_event(any_context(), "n".repeat(50), String::from("2025-11-01")),
        Err(Refusal::NoDerivedAddress)
    );
}

#[test]
fn wrong_event_account_breaks_the_seeds() {
    let (mut ctx, _, _) = context_for(organizer(), "Conf2025");
    ctx.event = Address::new([1u8; 32]);
    assert_eq!(
        create_event(ctx, String::from("Conf2025"), String::from("2025-11-01")),
        Err(Refusal::ConstraintSeeds)
    );
}

#[test]
fn wrong_mint_account_breaks_the_seeds() {
    let (mut ctx, _, _) = context_for(organizer(), "Conf2025");
    ctx.token_mint = Address::new([2u8; 32]);
    assert_eq!(
        create_event(ctx, String::from("Conf2025"), String::from("2025-11-01")),
        Err(Refusal::ConstraintSeeds)
    );
}

#[test]
fn accounts_of_another_name_break_the_seeds() {
    let (ctx, _, _) = context_for(organizer(), "Conf2025");
    assert_eq!(
        create_event(ctx, String::from("Conf2026"), String::from("2025-11-01")),
        Err(Refusal::ConstraintSeeds)
    );
}

#[test]
fn registration_decides_four_steps() {
    let (ctx, event_bump, mint_bump) = context_for(organizer(), "Conf2025");
    let steps = create_event(ctx, String::from("Conf2025"), String::from("2025-11-01")).unwrap();
    let expected = vec![
        Action::CreateAccount {
            payer: organizer(),
            account: ctx.event,
            lamports: 1_941_840,
            space: 151,
            owner: Address::new(PROGRAM_ID),
            proof: SigningProof {
                namespace: Namespace::Event,
                organizer: organizer(),
                name: String::from("Conf2025"),
                bump: event_bump,
            },
        },
        Action::CreateAccount {
            payer: organizer(),
            account: ctx.token_mint,
            lamports: 1_461_600,
            space: 82,
            owner: Address::new(anchor_spl::token::ID.to_bytes()),
            proof: SigningProof {
                namespace: Namespace::TokenMint,
                organizer: organizer(),
                name: String::from("Conf2025"),
                bump: mint_bump,
            },
        },
        Action::InitializeMint {
            mint: ctx.token_mint,
            decimals: 0,
            mint_authority: ctx.token_mint,
            freeze_authority: None,
        },
        Action::WriteEvent {
            account: ctx.event,
            record: Event {
                name: String::from("Conf2025"),
                date: String::from("2025-11-01"),
                organizer: organizer(),
                token_mint: ctx.token_mint,
                bump: event_bump,
            },
        },
    ];
    assert_eq!(steps, expected);
    assert_eq!(TOKEN_PROGRAM_ID, anchor_spl::token::ID.to_bytes());
}

#[test]
fn proofs_of_a_registration_sign_for_its_accounts() {
    let (ctx, _, _) = context_for(organizer(), "Conf2025");
    let steps = create_event(ctx, String::from("Conf2025"), String::from("2025-11-01")).unwrap();
    match (&steps[0], &steps[1]) {
        (
            Action::CreateAccount { proof: for_event, .. },
            Action::CreateAccount { proof: for_mint, .. },
        ) => {
            assert!(for_event.verifies(&ctx.event));
            assert!(for_mint.verifies(&ctx.token_mint));
            assert!(!for_event.verifies(&ctx.token_mint));
            assert!(!for_mint.verifies(&ctx.event));
        }
        other => panic!("unexpected steps: {:?}", other),
    }
}

#[test]
fn registration_adds_the_record_and_the_mint() {
    let (ctx, event_bump, _) = context_for(organizer(), "Conf2025");
    let mut ledger = Ledger::new();
    assert_eq!(ledger.len(), 0);
    assert_eq!(
        ledger.register_event(ctx, String::from("Conf2025"), String::from("2025-11-01")),
        Ok(())
    );
    assert_eq!(ledger.len(), 2);
    assert_eq!(
        ledger.get(&ctx.event),
        Some(&AccountData::Event(Event {
            name: String::from("Conf2025"),
            date: String::from("2025-11-01"),
            organizer: organizer(),
            token_mint: ctx.token_mint,
            bump: event_bump,
        }))
    );
    assert_eq!(
        ledger.get(&ctx.token_mint),
        Some(&AccountData::Mint(Mint {
            mint_authority: Some(ctx.token_mint),
            supply: 0,
            decimals: 0,
            freeze_authority: None,
        }))
    );
}

#[test]
fn recorded_mint_is_the_derived_mint() {
    let (ctx, _, _) = context_for(organizer(), "Conf2025");
    let mut ledger = Ledger::new();
    ledger
        .register_event(ctx, String::from("Conf2025"), String::from("2025-11-01"))
        .unwrap();
    let derived = event_tickets::seeds::derive(
        Namespace::TokenMint,
        &organizer(),
        &String::from("Conf2025"),
    )
    .unwrap();
    match ledger.get(&ctx.event) {
        Some(AccountData::Event(record)) => assert_eq!(record.token_mint, derived.0),
        other => panic!("no event record: {:?}", other),
    }
}

#[test]
fn event_is_registered_once() {
    let (ctx, event_bump, _) = context_for(organizer(), "Conf2025");
    let mut ledger = Ledger::new();
    assert_eq!(
        ledger.register_event(ctx, String::from("Conf2025"), String::from("2025-11-01")),
        Ok(())
    );
    assert_eq!(
        ledger.register_event(ctx, String::from("Conf2025"), String::from("2026-01-01")),
        Err(Refusal::Host(HostError::AccountInUse))
    );
    assert_eq!(ledger.len(), 2);
    assert_eq!(
        ledger.get(&ctx.event),
        Some(&AccountData::Event(Event {
            name: String::from("Conf2025"),
            date: String::from("2025-11-01"),
            organizer: organizer(),
            token_mint: ctx.token_mint,
            bump: event_bump,
        }))
    );
}

#[test]
fn refused_registration_creates_no_account() {
    let (ctx, _, _) = context_for(organizer(), "Conf2025");
    let mut ledger = Ledger::new();
    assert_eq!(
        ledger.register_event(ctx, "n".repeat(51), String::from("2025-11-01")),
        Err(Refusal::Program(ErrorCode::EventNameTooLong))
    );
    assert_eq!(
        ledger.register_event(ctx, String::from("Conf2025"), "d".repeat(21)),
        Err(Refusal::Program(ErrorCode::InvalidEventDate))
    );
    let mut misplaced = ctx;
    misplaced.token_mint = Address::new([2u8; 32]);
    assert_eq!(
        ledger.register_event(misplaced, String::from("Conf2025"), String::from("2025-11-01")),
        Err(Refusal::ConstraintSeeds)
    );
    assert_eq!(ledger.len(), 0);
    assert_eq!(ledger.get(&ctx.event), None);
    assert_eq!(ledger.get(&ctx.token_mint), None);
}

#[test]
fn occupied_mint_address_undoes_the_whole_registration() {
    let (ctx, _, mint_bump) = context_for(organizer(), "Conf2025");
    let mut ledger = Ledger::new();
    let squatter = Action::CreateAccount {
        payer: organizer(),
        account: ctx.token_mint,
        lamports: 1,
        space: 1,
        owner: Address::new([3u8; 32]),
        proof: SigningProof {
            namespace: Namespace::TokenMint,
            organizer: organizer(),
            name: String::from("Conf2025"),
            bump: mint_bump,
        },
    };
    assert_eq!(ledger.apply(&squatter), Ok(()));
    assert_eq!(
        ledger.register_event(ctx, String::from("Conf2025"), String::from("2025-11-01")),
        Err(Refusal::Host(HostError::AccountInUse))
    );
    assert_eq!(ledger.len(), 1);
    assert_eq!(ledger.get(&ctx.event), None);
    assert_eq!(
        ledger.get(&ctx.token_mint),
        Some(&AccountData::Blank { space: 1, owner: Address::new([3u8; 32]) })
    );
}

#[test]
fn organizers_and_names_register_separately() {
    let mut ledger = Ledger::new();
    let (first, _, _) = context_for(organizer(), "Conf2025");
    let (other_name, _, _) = context_for(organizer(), "Conf2026");
    let (other_organizer, _, _) = context_for(Address::new([8u8; 32]), "Conf2025");
    for (ctx, name) in [(first, "Conf2025"), (other_name, "Conf2026"), (other_organizer, "Conf2025")] {
        assert_eq!(
            ledger.register_event(ctx, String::from(name), String::from("2025-11-01")),
            Ok(())
        );
    }
    assert_eq!(ledger.len(), 6);
}

#[test]
fn account_is_not_created_without_its_proof() {
    let (ctx, event_bump, _) = context_for(organizer(), "Conf2025");
    let mut ledger = Ledger::new();
    let forged = Action::CreateAccount {
        payer: organizer(),
        account: ctx.token_mint,
        lamports: 1,
        space: 82,
        owner: Address::new(TOKEN_PROGRAM_ID),
        proof: SigningProof {
            namespace: Namespace::Event,
            organizer: organizer(),
            name: String::from("Conf2025"),
            bump: event_bump,
        },
    };
    assert_eq!(ledger.apply(&forged), Err(HostError::MissingSignature));
    assert_eq!(ledger.len(), 0);
}

#[test]
fn record_is_written_only_into_its_allotted_space() {
    let (ctx, event_bump, _) = context_for(organizer(), "Conf2025");
    let mut ledger = Ledger::new();
    let write = Action::WriteEvent {
        account: ctx.event,
        record: Event {
            name: String::from("Conf2025"),
            date: String::from("2025-11-01"),
            organizer: organizer(),
            token_mint: ctx.token_mint,
            bump: event_bump,
        },
    };
    assert_eq!(ledger.apply(&write), Err(HostError::InvalidAccount));
    let init = Action::InitializeMint {
        mint: ctx.token_mint,
        decimals: 0,
        mint_authority: ctx.token_mint,
        freeze_authority: None,
    };
    assert_eq!(ledger.apply(&init), Err(HostError::InvalidAccount));
    ledger
        .register_event(ctx, String::from("Conf2025"), String::from("2025-11-01"))
        .unwrap();
    assert_eq!(ledger.apply(&write), Err(HostError::InvalidAccount));
    assert_eq!(ledger.apply(&init), Err(HostError::InvalidAccount));
    assert_eq!(ledger.len(), 2);
}
