use vstd::prelude::*;
use vstd::string::StringExecFns;
use crate::credential::CredentialIssuanceFailure;
use crate::role::Role;
use crate::scope::Operation;
use crate::store::StoreError;

verus! {

/// How a request ended, as the caller is told.
#[derive(Clone, Copy, Debug, PartialEq, Eq, Structural)]
pub enum Status {
    Success,
    Forbidden,
    NotFound,
    InternalFailure,
}

/// What made an allowed operation fail.
#[derive(Clone, Copy, Debug, PartialEq, Eq, Structural)]
pub enum Failure {
    /// The record store refused.
    Store(StoreError),
    /// No credential could be issued.
    Credential(CredentialIssuanceFailure),
}

/// The status and the message that a caller receives.
#[derive(Debug)]
pub struct Outcome {
    pub status: Status,
    pub message: String,
}

/// What an outcome holds.
pub struct OutcomeView {
    pub status: Status,
    pub message: Seq<char>,
}

impl View for Outcome {
    type V = OutcomeView;

    open spec fn view(&self) -> OutcomeView {
        OutcomeView { status: self.status, message: self.message@ }
    }
}

/// The status that a failure is reported under: a record that was not
/// found is reported as such, everything else as an internal failure.
pub open spec fn failure_status(failure: Failure) -> Status {
    match failure {
        Failure::Store(StoreError::NotFound) => Status::NotFound,
        _ => Status::InternalFailure,
    }
}

/// What an organizer is told of a failure.
pub open spec fn failure_detail(failure: Failure) -> Seq<char> {
    match failure {
        Failure::Store(StoreError::Conflict) => "Identifier already in use"@,
        Failure::Store(StoreError::Constraint) => "Record violates a constraint"@,
        Failure::Store(StoreError::NotFound) => "Not permitted"@,
        Failure::Store(StoreError::Unavailable) => "Record store unavailable"@,
        Failure::Credential(_) => "Credential issuance failed"@,
    }
}

/// The message that goes with a success.
pub open spec fn success_message(operation: Operation) -> Seq<char> {
    match operation {
        Operation::ReadAll => "Participants listed"@,
        Operation::Delete(_) => "Participant deleted"@,
        Operation::Create => "Participant created"@,
    }
}

/// The outcome of a refused request.
pub open spec fn forbidden_outcome() -> OutcomeView {
    OutcomeView { status: Status::Forbidden, message: "Not permitted"@ }
}

/// The outcome of a request that succeeded.
pub open spec fn success_outcome(operation: Operation) -> OutcomeView {
    OutcomeView { status: Status::Success, message: success_message(operation) }
}

/// The outcome of a request that failed. A record that was not found is
/// answered exactly as a refusal is, but for the status. Of an internal
/// failure an organizer is told the cause; anybody else is told no more
/// than that something failed.
pub open spec fn failure_outcome(role: Role, failure: Failure) -> OutcomeView {
    let status = failure_status(failure);
    OutcomeView {
        status,
        message: if status == Status::NotFound {
            "Not permitted"@
        } else if role == Role::Organizer {
            failure_detail(failure)
        } else {
            "Internal failure"@
        },
    }
}

/// The outcome of an allowed operation, by the result of carrying it out.
pub open spec fn conclusion(role: Role, operation: Operation, result: Result<(), Failure>)
    -> OutcomeView {
    match result {
        Ok(_) => success_outcome(operation),
        Err(failure) => failure_outcome(role, failure),
    }
}

impl Outcome {
    /// The outcome of a refused request.
    pub fn forbidden() -> (outcome: Outcome)
        ensures
            outcome@ == forbidden_outcome(),
    {
        Outcome { status: Status::Forbidden, message: String::from_str("Not permitted") }
    }

    /// The outcome of a request that succeeded.
    pub fn success(operation: Operation) -> (outcome: Outcome)
        ensures
            outcome@ == success_outcome(operation),
    {
        let message = match operation {
            Operation::ReadAll => "Participants listed",
            Operation::Delete(_) => "Participant deleted",
            Operation::Create => "Participant created",
        };
        Outcome { status: Status::Success, message: String::from_str(message) }
    }

    /// The outcome of a request that failed, as a caller of the given role
    /// is told.
    pub fn failure(role: Role, failure: Failure) -> (outcome: Outcome)
        ensures
            outcome@ == failure_outcome(role, failure),
    {
        match failure {
            Failure::Store(StoreError::NotFound) => Outcome {
                status: Status::NotFound,
                message: String::from_str("Not permitted"),
            },
            _ => {
                let message = match role {
                    Role::Organizer => match failure {
                        Failure::Store(StoreError::Conflict) => "Identifier already in use",
                        Failure::Store(StoreError::Constraint) => "Record violates a constraint",
                        Failure::Store(StoreError::NotFound) => "Not permitted",
                        Failure::Store(StoreError::Unavailable) => "Record store unavailable",
                        Failure::Credential(_) => "Credential issuance failed",
                    },
                    _ => "Internal failure",
                };
                Outcome { status: Status::InternalFailure, message: String::from_str(message) }
            },
        }
    }

    /// The outcome of an allowed operation, by the result of carrying it
    /// out.
    pub fn conclude(role: Role, operation: Operation, result: Result<(), Failure>) -> (outcome:
        Outcome)
        ensures
            outcome@ == conclusion(role, operation, result),
    {
        match result {
            Ok(_) => Outcome::success(operation),
            Err(failure) => Outcome::failure(role, failure),
        }
    }
}

/// A refusal and a missing record are worded alike, whoever asks.
pub proof fn refusal_and_absence_read_alike(role: Role)
    ensures
        failure_outcome(role, Failure::Store(StoreError::NotFound)).message
            == forbidden_outcome().message,
{
}

/// Callers other than organizers are told the same of every internal
/// failure.
pub proof fn internal_failures_read_alike(role: Role, first: Failure, second: Failure)
    requires
        role != Role::Organizer,
        failure_status(first) == Status::InternalFailure,
        failure_status(second) == Status::InternalFailure,
    ensures
        failure_outcome(role, first) == failure_outcome(role, second),
{
}

} // verus!
