//! On-ledger rules of an event-ticketing program: derived addresses, event
//! registration and ticket issuance.

pub mod address;
pub mod event;
pub mod instructions;
pub mod laws;
pub mod ledger;
pub mod seeds;
pub mod transactions;
