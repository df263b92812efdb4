use vstd::prelude::*;
use vstd::string::StringExecFns;
use crate::credential::{
    issue, issued_for, CredentialIssuanceFailure, IssuedCredential, SECRET_LENGTH,
};
use crate::id::{is_random_uuid, ParticipantId};
use crate::outcome::Failure;
use crate::participant::{
    created_record, MinimalParticipant, MinimalParticipantView, Participant, ParticipantPreview,
};
use crate::scope::{RowFilter, RowFilterView};
use crate::store::{
    all_have_minimal, created_row, deletion, distinct_ids, holds_id, holds_in_scope, insertion,
    minimal_views, minimals_of, preview_views, previews_in_scope, row_in_scope, rows_in_scope,
    ParticipantStore, StoreError, StoredParticipantView,
};
use crate::university::University;

verus! {

/// A newly created account: its identifier, and the one-time password to
/// deliver to its holder.
#[derive(Debug)]
pub struct Provisioned {
    pub id: ParticipantId,
    pub password: String,
}

/// How the creation of an account relates the table before to the table
/// after and to the result, given the identifier and the credential that
/// were drawn for it.
///
/// Without a credential nothing is stored. With one, the row goes to the end
/// of the table unless its identifier is taken, and the password is handed
/// out only together with the stored row.
pub open spec fn provisioning(
    minimal: MinimalParticipantView,
    before: Seq<StoredParticipantView>,
    id: ParticipantId,
    issued: Result<IssuedCredential, CredentialIssuanceFailure>,
    after: Seq<StoredParticipantView>,
    result: Result<Provisioned, Failure>,
) -> bool {
    match issued {
        Err(failure) => result == Err::<Provisioned, _>(Failure::Credential(failure)) && after
            == before,
        Ok(credential) => if holds_id(before, id) {
            result == Err::<Provisioned, _>(Failure::Store(StoreError::Conflict)) && after == before
        } else {
            &&& result matches Ok(provisioned)
            &&& provisioned.id == id
            &&& provisioned.password@ == credential.password@
            &&& after == before.push(created_row(minimal, id, credential.password_hash@))
        },
    }
}

impl MinimalParticipant {
    /// The minimal projections of all records, in the order of insertion.
    /// Fails with `Constraint` where a record names no competition.
    pub fn get_participants(store: &ParticipantStore) -> (result: Result<
        Vec<MinimalParticipant>,
        StoreError,
    >)
        ensures
            match result {
                Ok(minimals) => all_have_minimal(store@) && minimal_views(minimals@)
                    == minimals_of(store@),
                Err(e) => e == StoreError::Constraint && !all_have_minimal(store@),
            },
    {
        proof {
            crate::store::full_scope_keeps_every_row(store@);
        }
        store.list_minimal(&RowFilter::All)
    }

    /// The minimal projections of the records of one university, in the
    /// order of insertion. Fails with `Constraint` where one of them names
    /// no competition.
    pub fn get_participants_from_university(store: &ParticipantStore, university: &str) -> (result:
        Result<Vec<MinimalParticipant>, StoreError>)
        ensures
            match result {
                Ok(minimals) => all_have_minimal(
                    rows_in_scope(store@, RowFilterView::University(university@)),
                ) && minimal_views(minimals@) == minimals_of(
                    rows_in_scope(store@, RowFilterView::University(university@)),
                ),
                Err(e) => e == StoreError::Constraint && !all_have_minimal(
                    rows_in_scope(store@, RowFilterView::University(university@)),
                ),
            },
    {
        let filter = RowFilter::University(University::new(String::from_str(university)));
        store.list_minimal(&filter)
    }

    /// Creates the account for an identifier and a credential that were
    /// drawn for it.
    pub fn write_with(
        &self,
        store: &mut ParticipantStore,
        id: ParticipantId,
        issued: Result<IssuedCredential, CredentialIssuanceFailure>,
    ) -> (result: Result<Provisioned, Failure>)
        ensures
            provisioning(self@, old(store)@, id, issued, final(store)@, result),
            distinct_ids(final(store)@),
    {
        match issued {
            Err(failure) => {
                proof {
                    use_type_invariant(&*store);
                }
                Err(Failure::Credential(failure))
            },
            Ok(credential) => {
                let IssuedCredential { password, password_hash } = credential;
                match store.create(self, id, password_hash) {
                    Ok(_) => Ok(Provisioned { id, password }),
                    Err(e) => Err(Failure::Store(e)),
                }
            },
        }
    }

    /// Creates the account: draws a random identifier and a fresh
    /// credential, and stores the record with the credential's hash. The
    /// password is returned for one delivery and stored nowhere.
    pub fn write_to_database(&self, store: &mut ParticipantStore) -> (result: Result<
        Provisioned,
        Failure,
    >)
        ensures
            match result {
                Ok(provisioned) => {
                    &&& is_random_uuid(provisioned.id.bits())
                    &&& !holds_id(old(store)@, provisioned.id)
                    &&& provisioned.password@.len() == SECRET_LENGTH
                    &&& final(store)@.len() == old(store)@.len() + 1
                    &&& final(store)@.drop_last() == old(store)@
                    &&& final(store)@.last().record == created_record(
                        self@,
                        provisioned.id,
                        None,
                    )
                    &&& issued_for(provisioned.password@, final(store)@.last().password_hash)
                },
                Err(failure) => {
                    &&& final(store)@ == old(store)@
                    &&& failure == Failure::Credential(CredentialIssuanceFailure::HashDerivation)
                        || failure == Failure::Store(StoreError::Conflict)
                },
            },
            distinct_ids(final(store)@),
    {
        let id = ParticipantId::generate();
        let issued = issue();
        let ghost before = store@;
        let ghost drawn = issued;
        let result = self.write_with(store, id, issued);
        proof {
            if let Ok(credential) = drawn {
                if !holds_id(before, id) {
                    let row = created_row(self@, id, credential.password_hash@);
                    assert(before.push(row).drop_last() =~= before);
                }
            }
        }
        result
    }
}

impl ParticipantPreview {
    /// The previews of all records, in the order of insertion.
    pub fn get_participants(store: &ParticipantStore) -> (result: Result<
        Vec<ParticipantPreview>,
        StoreError,
    >)
        ensures
            result matches Ok(previews) && preview_views(previews@) == previews_in_scope(
                store@,
                RowFilterView::All,
            ),
    {
        Ok(store.list_preview(&RowFilter::All))
    }

    /// The previews of the delegation members of one university, in the
    /// order of insertion.
    pub fn get_participants_from_university(store: &ParticipantStore, university: University) -> (
    result: Result<Vec<ParticipantPreview>, StoreError>)
        ensures
            result matches Ok(previews) && preview_views(previews@) == previews_in_scope(
                store@,
                RowFilterView::DelegationOf(university@),
            ),
    {
        Ok(store.list_preview(&RowFilter::DelegationOf(university)))
    }
}

impl Participant {
    /// The record of the given identifier.
    pub fn get_participant(store: &ParticipantStore, id: ParticipantId) -> (result: Result<
        Participant,
        StoreError,
    >)
        ensures
            match result {
                Ok(record) => exists|i: int|
                    #[trigger] row_in_scope(store@, id, RowFilterView::All, i) && record@
                        == store@[i].record,
                Err(e) => e == StoreError::NotFound && !holds_id(store@, id),
            },
    {
        let result = store.get(id, &RowFilter::All);
        proof {
            if result is Err {
                assert forall|i: int| !crate::store::row_has_id(store@, id, i) by {
                    assert(!row_in_scope(store@, id, RowFilterView::All, i));
                }
            }
        }
        result
    }

    /// Stores the record, attachments included, with the hash of its
    /// password. Fails with `Conflict` where the identifier is taken.
    pub fn write_to_database(&self, store: &mut ParticipantStore, password_hash: String) -> (result:
        Result<(), StoreError>)
        ensures
            insertion(
                old(store)@,
                (StoredParticipantView { record: self@, password_hash: password_hash@ }),
                final(store)@,
                result,
            ),
            distinct_ids(final(store)@),
    {
        store.insert(self.duplicate(), password_hash)
    }

    /// Deletes the record of the given identifier, whatever its
    /// affiliation.
    pub fn delete_from_database(id: ParticipantId, store: &mut ParticipantStore) -> (result: Result<
        (),
        StoreError,
    >)
        ensures
            deletion(old(store)@, id, RowFilterView::All, final(store)@, result),
            result is Ok <==> holds_id(old(store)@, id),
            distinct_ids(final(store)@),
    {
        let ghost before = store@;
        let result = store.delete(id, &RowFilter::All);
        proof {
            if holds_id(before, id) {
                let i = choose|i: int| crate::store::row_has_id(before, id, i);
                assert(row_in_scope(before, id, RowFilterView::All, i));
            }
        }
        result
    }

    /// Deletes the record of the given identifier if it is affiliated with
    /// the university.
    pub fn delete_from_database_university(
        id: ParticipantId,
        university: University,
        store: &mut ParticipantStore,
    ) -> (result: Result<(), StoreError>)
        ensures
            deletion(
                old(store)@,
                id,
                RowFilterView::University(university@),
                final(store)@,
                result,
            ),
            result is Ok <==> holds_in_scope(
                old(store)@,
                id,
                RowFilterView::University(university@),
            ),
            distinct_ids(final(store)@),
    {
        store.delete(id, &RowFilter::University(university))
    }
}

} // verus!
