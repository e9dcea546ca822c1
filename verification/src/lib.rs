//! Points ledger and ticket issuance for a campus services backend.
//!
//! The crate keeps the accounts, the event catalog and the ticket book as
//! in-memory tables and proves, for every operation on them, what is returned
//! and how the tables change.

pub mod error;
pub mod order;
pub mod text;
pub mod password;
pub mod db_auth;
pub mod db_main;
pub mod session;
pub mod issuance;
pub mod pass;
pub mod chat;
pub mod service;
pub mod changes;
