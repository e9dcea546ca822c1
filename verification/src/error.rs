//! The failures that the service reports to its callers.

use vstd::prelude::*;
use vstd::string::*;

verus! {

/// Every way in which an operation of the service can be turned down.
#[derive(Clone, Copy, Debug, PartialEq, Eq, Structural)]
pub enum ServiceError {
    /// No session, or a session token that is not registered.
    Unauthenticated,
    /// The acting user's role does not allow the operation.
    Unauthorized,
    /// The referenced user does not exist.
    NotFound,
    /// The username or the student id is already registered.
    UsernameTaken,
    /// A registration field is empty, or the password cannot be hashed.
    WeakInput,
    /// No catalog entry, or more than one, carries the event id.
    UnknownEvent,
    /// No ticket carries the ticket id.
    UnknownTicket,
    /// The sale deadline of the event has passed.
    SaleClosed,
    /// The holder already has a ticket for the event.
    AlreadyIssued,
    /// The holder's score does not cover the price.
    InsufficientBalance,
    /// The ticket was redeemed before.
    AlreadyExpended,
    /// The store could not record the change; nothing was changed.
    PersistenceFailure,
    /// The ticket could not be stored after the ledger had been adjusted.
    /// `compensated` tells whether the reverse adjustment went through; when it
    /// did not, the ledger needs manual reconciliation.
    IssuancePersistenceFailed { compensated: bool },
}

/// The HTTP status under which a failure is reported.
pub open spec fn status_code_of(error: ServiceError) -> u16 {
    match error {
        ServiceError::Unauthenticated => 401,
        ServiceError::Unauthorized => 401,
        ServiceError::NotFound => 404,
        ServiceError::UsernameTaken => 409,
        ServiceError::WeakInput => 400,
        ServiceError::UnknownEvent => 400,
        ServiceError::UnknownTicket => 400,
        ServiceError::SaleClosed => 423,
        ServiceError::AlreadyIssued => 409,
        ServiceError::InsufficientBalance => 402,
        ServiceError::AlreadyExpended => 409,
        ServiceError::PersistenceFailure => 503,
        ServiceError::IssuancePersistenceFailed { .. } => 500,
    }
}

/// The word under which a failure is reported.
pub open spec fn status_of(error: ServiceError) -> Seq<char> {
    match error {
        ServiceError::Unauthenticated => "unauthorized"@,
        ServiceError::Unauthorized => "unauthorized"@,
        ServiceError::NotFound => "not_found"@,
        ServiceError::UsernameTaken => "username_taken"@,
        ServiceError::WeakInput => "weak_input"@,
        ServiceError::UnknownEvent => "bad_event_id"@,
        ServiceError::UnknownTicket => "invalid_id"@,
        ServiceError::SaleClosed => "sale_ended"@,
        ServiceError::AlreadyIssued => "already_issued"@,
        ServiceError::InsufficientBalance => "insufficient_balance"@,
        ServiceError::AlreadyExpended => "already_expended"@,
        ServiceError::PersistenceFailure => "persistence_failure"@,
        ServiceError::IssuancePersistenceFailed { .. } => "issuance_persistence_failed"@,
    }
}

impl ServiceError {
    /// The HTTP status under which the failure is reported.
    pub fn status_code(&self) -> (code: u16)
        ensures
            code == status_code_of(*self),
    {
        match self {
            ServiceError::Unauthenticated => 401,
            ServiceError::Unauthorized => 401,
            ServiceError::NotFound => 404,
            ServiceError::UsernameTaken => 409,
            ServiceError::WeakInput => 400,
            ServiceError::UnknownEvent => 400,
            ServiceError::UnknownTicket => 400,
            ServiceError::SaleClosed => 423,
            ServiceError::AlreadyIssued => 409,
            ServiceError::InsufficientBalance => 402,
            ServiceError::AlreadyExpended => 409,
            ServiceError::PersistenceFailure => 503,
            ServiceError::IssuancePersistenceFailed { .. } => 500,
        }
    }

    /// The word under which the failure is reported.
    pub fn status(&self) -> (word: String)
        ensures
            word@ == status_of(*self),
    {
        let word = match self {
            ServiceError::Unauthenticated => "unauthorized",
            ServiceError::Unauthorized => "unauthorized",
            ServiceError::NotFound => "not_found",
            ServiceError::UsernameTaken => "username_taken",
            ServiceError::WeakInput => "weak_input",
            ServiceError::UnknownEvent => "bad_event_id",
            ServiceError::UnknownTicket => "invalid_id",
            ServiceError::SaleClosed => "sale_ended",
            ServiceError::AlreadyIssued => "already_issued",
            ServiceError::InsufficientBalance => "insufficient_balance",
            ServiceError::AlreadyExpended => "already_expended",
            ServiceError::PersistenceFailure => "persistence_failure",
            ServiceError::IssuancePersistenceFailed { .. } => "issuance_persistence_failed",
        };
        String::from_str(word)
    }
}

} // verus!
