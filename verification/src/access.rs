use vstd::prelude::*;
use crate::credential::{issue, issued_for, CredentialIssuanceFailure, IssuedCredential};
use crate::id::{is_random_uuid, ParticipantId};
use crate::outcome::{
    failure_outcome, forbidden_outcome, success_outcome, Failure, Outcome, OutcomeView,
    Status,
};
use crate::participant::{
    created_record, MinimalParticipant, MinimalParticipantView, ParticipantPreview,
    ParticipantPreviewView,
};
use crate::records::{provisioning, Provisioned};
use crate::role::Role;
use crate::scope::{resolution, resolve, Decision, Operation, RowFilterView};
use crate::store::{
    deletion, distinct_ids, holds_id, holds_in_scope, preview_views, previews_in_scope,
    row_has_id, row_in_scope, ParticipantStore, StoreError, StoredParticipantView,
};
use crate::claims::Claims;

verus! {

/// The answer to a request for the list of participants.
#[derive(Debug)]
pub struct Listing {
    pub outcome: Outcome,
    /// The previews within the caller's scope; empty unless the request
    /// succeeded.
    pub previews: Vec<ParticipantPreview>,
}

/// The answer to a request for a new account.
#[derive(Debug)]
pub struct Provisioning {
    pub outcome: Outcome,
    /// The new account with its one-time password, where the request
    /// succeeded.
    pub provisioned: Option<Provisioned>,
}

/// What a caller of the given role and affiliation is answered when asking
/// for the list: a refusal and no preview where the resolver denies,
/// otherwise the previews of the rows in the caller's scope.
pub open spec fn listing_answer(
    role: Role,
    affiliation: Seq<char>,
    rows: Seq<StoredParticipantView>,
    outcome: OutcomeView,
    previews: Seq<ParticipantPreviewView>,
) -> bool {
    match resolution(role, affiliation, Operation::ReadAll) {
        None => outcome == forbidden_outcome() && previews == Seq::<ParticipantPreviewView>::empty(),
        Some(filter) => outcome == success_outcome(Operation::ReadAll) && previews
            == previews_in_scope(rows, filter),
    }
}

/// What a request to delete does and answers: a refusal leaves the table
/// alone; an allowed request deletes the row if it is in the caller's scope
/// and reports it as not found otherwise.
pub open spec fn removal_answer(
    role: Role,
    affiliation: Seq<char>,
    id: ParticipantId,
    before: Seq<StoredParticipantView>,
    after: Seq<StoredParticipantView>,
    outcome: OutcomeView,
) -> bool {
    match resolution(role, affiliation, Operation::Delete(id)) {
        None => outcome == forbidden_outcome() && after == before,
        Some(filter) => if holds_in_scope(before, id, filter) {
            outcome == success_outcome(Operation::Delete(id)) && deletion(
                before,
                id,
                filter,
                after,
                Ok(()),
            )
        } else {
            outcome == failure_outcome(role, Failure::Store(StoreError::NotFound)) && after
                == before
        },
    }
}

/// What the creation of an account does and answers once the caller is
/// allowed, given the identifier and the credential drawn for it: the
/// password is handed out exactly when the row is stored.
pub open spec fn provisioning_answer(
    role: Role,
    minimal: MinimalParticipantView,
    before: Seq<StoredParticipantView>,
    id: ParticipantId,
    issued: Result<IssuedCredential, CredentialIssuanceFailure>,
    after: Seq<StoredParticipantView>,
    outcome: OutcomeView,
    provisioned: Option<Provisioned>,
) -> bool {
    match provisioned {
        Some(account) => {
            &&& provisioning(minimal, before, id, issued, after, Ok(account))
            &&& outcome == success_outcome(Operation::Create)
        },
        None => exists|failure: Failure|
            {
                &&& #[trigger] provisioning(
                    minimal,
                    before,
                    id,
                    issued,
                    after,
                    Err::<Provisioned, _>(failure),
                )
                &&& outcome == failure_outcome(role, failure)
            },
    }
}

/// Lists the participants within the caller's scope.
pub fn get_participants(claims: Claims, store: &ParticipantStore) -> (listing: Listing)
    ensures
        listing_answer(
            claims.role,
            claims.university@,
            store@,
            listing.outcome@,
            preview_views(listing.previews@),
        ),
{
    match resolve(claims.role, &claims.university, Operation::ReadAll) {
        Decision::Deny => {
            let previews: Vec<ParticipantPreview> = Vec::new();
            assert(preview_views(previews@) =~= Seq::empty());
            Listing { outcome: Outcome::forbidden(), previews }
        },
        Decision::Allow(filter) => {
            let previews = store.list_preview(&filter);
            Listing { outcome: Outcome::success(Operation::ReadAll), previews }
        },
    }
}

/// Deletes the participant of the given identifier if the caller may.
pub fn delete_participant(claims: Claims, store: &mut ParticipantStore, id: ParticipantId) -> (outcome:
    Outcome)
    ensures
        removal_answer(
            claims.role,
            claims.university@,
            id,
            old(store)@,
            final(store)@,
            outcome@,
        ),
        distinct_ids(final(store)@),
{
    match resolve(claims.role, &claims.university, Operation::Delete(id)) {
        Decision::Deny => {
            proof {
                use_type_invariant(&*store);
            }
            Outcome::forbidden()
        },
        Decision::Allow(filter) => match store.delete(id, &filter) {
            Ok(_) => Outcome::success(Operation::Delete(id)),
            Err(e) => Outcome::failure(claims.role, Failure::Store(e)),
        },
    }
}

/// Creates the account of an allowed caller for the identifier and the
/// credential that were drawn for it, and words the answer for the
/// caller's role.
pub fn provision(
    role: Role,
    store: &mut ParticipantStore,
    minimal: &MinimalParticipant,
    id: ParticipantId,
    issued: Result<IssuedCredential, CredentialIssuanceFailure>,
) -> (answer: Provisioning)
    ensures
        provisioning_answer(
            role,
            minimal@,
            old(store)@,
            id,
            issued,
            final(store)@,
            answer.outcome@,
            answer.provisioned,
        ),
        distinct_ids(final(store)@),
{
    match minimal.write_with(store, id, issued) {
        Ok(account) => Provisioning {
            outcome: Outcome::success(Operation::Create),
            provisioned: Some(account),
        },
        Err(failure) => Provisioning {
            outcome: Outcome::failure(role, failure),
            provisioned: None,
        },
    }
}

/// Creates an account if the caller may: draws an identifier and a
/// credential, stores the record, and hands out the one-time password. A
/// refused caller costs no credential and touches no row.
pub fn create_participant(
    claims: Claims,
    store: &mut ParticipantStore,
    minimal: &MinimalParticipant,
) -> (answer: Provisioning)
    ensures
        match resolution(claims.role, claims.university@, Operation::Create) {
            None => {
                &&& answer.outcome@ == forbidden_outcome()
                &&& answer.provisioned is None
                &&& final(store)@ == old(store)@
            },
            Some(_) => match answer.provisioned {
                Some(account) => {
                    &&& answer.outcome@ == success_outcome(Operation::Create)
                    &&& is_random_uuid(account.id.bits())
                    &&& !holds_id(old(store)@, account.id)
                    &&& final(store)@.len() == old(store)@.len() + 1
                    &&& final(store)@.drop_last() == old(store)@
                    &&& final(store)@.last().record == created_record(minimal@, account.id, None)
                    &&& issued_for(account.password@, final(store)@.last().password_hash)
                },
                None => {
                    &&& final(store)@ == old(store)@
                    &&& answer.outcome@ == failure_outcome(
                        claims.role,
                        Failure::Credential(CredentialIssuanceFailure::HashDerivation),
                    ) || answer.outcome@ == failure_outcome(
                        claims.role,
                        Failure::Store(StoreError::Conflict),
                    )
                },
            },
        },
        distinct_ids(final(store)@),
{
    match resolve(claims.role, &claims.university, Operation::Create) {
        Decision::Deny => {
            proof {
                use_type_invariant(&*store);
            }
            Provisioning { outcome: Outcome::forbidden(), provisioned: None }
        },
        Decision::Allow(_) => {
            let id = ParticipantId::generate();
            let issued = issue();
            let ghost before = store@;
            let ghost drawn = issued;
            let answer = provision(claims.role, store, minimal, id, issued);
            proof {
                if let Ok(credential) = drawn {
                    if !holds_id(before, id) {
                        let row = crate::store::created_row(
                            minimal@,
                            id,
                            credential.password_hash@,
                        );
                        assert(before.push(row).drop_last() =~= before);
                    }
                }
            }
            answer
        },
    }
}

/// An organizer deletes any record that is stored, whatever its
/// affiliation, and the record is gone afterwards.
pub proof fn organizer_deletes_any_record(
    affiliation: Seq<char>,
    id: ParticipantId,
    before: Seq<StoredParticipantView>,
    after: Seq<StoredParticipantView>,
    outcome: OutcomeView,
)
    requires
        distinct_ids(before),
        holds_id(before, id),
        removal_answer(Role::Organizer, affiliation, id, before, after, outcome),
    ensures
        outcome.status == Status::Success,
        !holds_id(after, id),
        after.len() + 1 == before.len(),
{
    let i = choose|i: int| row_has_id(before, id, i);
    assert(row_in_scope(before, id, RowFilterView::All, i));
    crate::store::deleted_row_is_gone(before, id, RowFilterView::All, after);
}

/// A chef cannot delete a record of another university: the answer is that
/// nothing was found, and the table is as it was.
pub proof fn chef_cannot_delete_elsewhere(
    affiliation: Seq<char>,
    id: ParticipantId,
    before: Seq<StoredParticipantView>,
    after: Seq<StoredParticipantView>,
    outcome: OutcomeView,
    i: int,
)
    requires
        distinct_ids(before),
        row_has_id(before, id, i),
        before[i].record.university != Some(affiliation),
        removal_answer(Role::Chef, affiliation, id, before, after, outcome),
    ensures
        outcome.status == Status::NotFound,
        outcome.message == forbidden_outcome().message,
        after == before,
{
    assert forall|k: int| !row_in_scope(before, id, RowFilterView::University(affiliation), k) by {
        if row_has_id(before, id, k) && k != i {
            assert(before[k].record.id != before[i].record.id);
        }
    }
}

/// A chef deletes a record of the chef's own university, and the record is
/// gone afterwards.
pub proof fn chef_deletes_own_record(
    affiliation: Seq<char>,
    id: ParticipantId,
    before: Seq<StoredParticipantView>,
    after: Seq<StoredParticipantView>,
    outcome: OutcomeView,
    i: int,
)
    requires
        distinct_ids(before),
        row_has_id(before, id, i),
        before[i].record.university == Some(affiliation),
        removal_answer(Role::Chef, affiliation, id, before, after, outcome),
    ensures
        outcome.status == Status::Success,
        !holds_id(after, id),
{
    let filter = RowFilterView::University(affiliation);
    assert(row_in_scope(before, id, filter, i));
    crate::store::deleted_row_is_gone(before, id, filter, after);
}

/// A caller without administrative scope changes nothing and learns
/// nothing.
pub proof fn refused_requests_leave_no_trace(
    role: Role,
    affiliation: Seq<char>,
    id: ParticipantId,
    before: Seq<StoredParticipantView>,
    after: Seq<StoredParticipantView>,
    outcome: OutcomeView,
    listed: OutcomeView,
    previews: Seq<ParticipantPreviewView>,
)
    requires
        !role.is_administrative(),
        removal_answer(role, affiliation, id, before, after, outcome),
        listing_answer(role, affiliation, before, listed, previews),
    ensures
        outcome == forbidden_outcome(),
        after == before,
        listed == forbidden_outcome(),
        previews.len() == 0,
{
}

} // verus!
