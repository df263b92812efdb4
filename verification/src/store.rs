use vstd::prelude::*;
use crate::id::ParticipantId;
use crate::participant::{
    created_record, minimal_of, preview_of, MinimalParticipant, MinimalParticipantView,
    Participant, ParticipantPreview, ParticipantPreviewView, ParticipantView,
};
use crate::role::Role;
use crate::scope::{resolution, Operation, RowFilter, RowFilterView};
use crate::university::University;

verus! {

/// Why the record store refused an operation.
#[derive(Clone, Copy, Debug, PartialEq, Eq, Structural)]
pub enum StoreError {
    /// A record of that identifier is already stored.
    Conflict,
    /// A record does not fit the shape asked of it.
    Constraint,
    /// No record of that identifier is within the caller's scope.
    NotFound,
    /// The underlying persistence failed.
    Unavailable,
}

/// A persisted row: the record and the hash of its password.
#[derive(Debug)]
pub struct StoredParticipant {
    pub record: Participant,
    pub password_hash: String,
}

/// What a persisted row holds.
pub struct StoredParticipantView {
    pub record: ParticipantView,
    pub password_hash: Seq<char>,
}

impl View for StoredParticipant {
    type V = StoredParticipantView;

    open spec fn view(&self) -> StoredParticipantView {
        StoredParticipantView { record: self.record@, password_hash: self.password_hash@ }
    }
}

/// No two rows share an identifier.
pub open spec fn distinct_ids(rows: Seq<StoredParticipantView>) -> bool {
    forall|i: int, j: int|
        0 <= i < rows.len() && 0 <= j < rows.len() && i != j ==> (#[trigger] rows[i]).record.id
            != (#[trigger] rows[j]).record.id
}

/// Whether row `i` carries the identifier.
pub open spec fn row_has_id(rows: Seq<StoredParticipantView>, id: ParticipantId, i: int) -> bool {
    0 <= i < rows.len() && rows[i].record.id == id
}

/// Whether some row carries the identifier.
pub open spec fn holds_id(rows: Seq<StoredParticipantView>, id: ParticipantId) -> bool {
    exists|i: int| row_has_id(rows, id, i)
}

/// Whether row `i` carries the identifier and passes the filter.
pub open spec fn row_in_scope(
    rows: Seq<StoredParticipantView>,
    id: ParticipantId,
    filter: RowFilterView,
    i: int,
) -> bool {
    row_has_id(rows, id, i) && filter.admits(rows[i].record)
}

/// Whether some row carries the identifier and passes the filter.
pub open spec fn holds_in_scope(
    rows: Seq<StoredParticipantView>,
    id: ParticipantId,
    filter: RowFilterView,
) -> bool {
    exists|i: int| row_in_scope(rows, id, filter, i)
}

/// The filter as a predicate over rows.
pub open spec fn admitted_by(filter: RowFilterView) -> spec_fn(StoredParticipantView) -> bool {
    |row: StoredParticipantView| filter.admits(row.record)
}

/// The rows that pass the filter, in the order of insertion.
pub open spec fn rows_in_scope(
    rows: Seq<StoredParticipantView>,
    filter: RowFilterView,
) -> Seq<StoredParticipantView> {
    rows.filter(admitted_by(filter))
}

/// The previews of the rows that pass the filter, in the order of insertion.
pub open spec fn previews_in_scope(
    rows: Seq<StoredParticipantView>,
    filter: RowFilterView,
) -> Seq<ParticipantPreviewView> {
    rows_in_scope(rows, filter).map_values(|row: StoredParticipantView| preview_of(row.record))
}

/// The views of a list of previews.
pub open spec fn preview_views(previews: Seq<ParticipantPreview>) -> Seq<ParticipantPreviewView> {
    previews.map_values(|p: ParticipantPreview| p@)
}

/// The views of a list of minimal participants.
pub open spec fn minimal_views(minimals: Seq<MinimalParticipant>) -> Seq<MinimalParticipantView> {
    minimals.map_values(|m: MinimalParticipant| m@)
}

/// Whether every row names a competition, so that its minimal projection
/// exists.
pub open spec fn all_have_minimal(rows: Seq<StoredParticipantView>) -> bool {
    forall|i: int| 0 <= i < rows.len() ==> minimal_of((#[trigger] rows[i]).record) is Some
}

/// The minimal projections of the rows, in the order of insertion.
pub open spec fn minimals_of(rows: Seq<StoredParticipantView>) -> Seq<MinimalParticipantView> {
    rows.map_values(|row: StoredParticipantView| minimal_of(row.record).unwrap())
}

/// The row that creation stores for a minimal participant: its record
/// without affiliation or sensitive attributes, and the hash of its password.
pub open spec fn created_row(
    minimal: MinimalParticipantView,
    id: ParticipantId,
    password_hash: Seq<char>,
) -> StoredParticipantView {
    StoredParticipantView { record: created_record(minimal, id, None), password_hash }
}

/// How an insertion of `row` relates the table before to the table after
/// and to the result: a row of the same identifier is a conflict and leaves
/// the table alone; otherwise the row goes to the end.
pub open spec fn insertion(
    before: Seq<StoredParticipantView>,
    row: StoredParticipantView,
    after: Seq<StoredParticipantView>,
    result: Result<(), StoreError>,
) -> bool {
    if holds_id(before, row.record.id) {
        result == Err::<(), _>(StoreError::Conflict) && after == before
    } else {
        result is Ok && after == before.push(row)
    }
}

/// How a deletion relates the table before to the table after and to the
/// result: the row of that identifier leaves if the filter admits it;
/// otherwise nothing is found and the table is left alone.
pub open spec fn deletion(
    before: Seq<StoredParticipantView>,
    id: ParticipantId,
    filter: RowFilterView,
    after: Seq<StoredParticipantView>,
    result: Result<(), StoreError>,
) -> bool {
    if holds_in_scope(before, id, filter) {
        result is Ok && exists|i: int|
            #[trigger] row_in_scope(before, id, filter, i) && after == before.remove(i)
    } else {
        result == Err::<(), _>(StoreError::NotFound) && after == before
    }
}

/// The filter that admits every row keeps the table as it is.
pub proof fn full_scope_keeps_every_row(rows: Seq<StoredParticipantView>)
    ensures
        rows_in_scope(rows, RowFilterView::All) == rows,
    decreases rows.len(),
{
    reveal(Seq::filter);
    if rows.len() > 0 {
        full_scope_keeps_every_row(rows.drop_last());
        assert(rows.drop_last().push(rows.last()) =~= rows);
    }
}

/// Whatever is listed under a filter is listed when nothing is filtered.
pub proof fn scoped_listing_within_full_listing(
    rows: Seq<StoredParticipantView>,
    filter: RowFilterView,
    preview: ParticipantPreviewView,
)
    requires
        previews_in_scope(rows, filter).contains(preview),
    ensures
        previews_in_scope(rows, RowFilterView::All).contains(preview),
{
    let kept = rows_in_scope(rows, filter);
    let k = choose|k: int| 0 <= k < kept.len() && preview_of(kept[k].record) == preview;
    assert(previews_in_scope(rows, filter)[k] == preview_of(kept[k].record));
    assert(kept.contains(kept[k]));
    rows.lemma_filter_contains_rev(admitted_by(filter), kept[k]);
    let i = choose|i: int| 0 <= i < rows.len() && rows[i] == kept[k];
    full_scope_keeps_every_row(rows);
    assert(previews_in_scope(rows, RowFilterView::All)[i] == preview);
}

/// Scope is monotone: whatever a caller of any role and affiliation is
/// given to read, an organizer is given to read as well.
pub proof fn caller_listing_within_organizer_listing(
    role: Role,
    affiliation: Seq<char>,
    organizer_affiliation: Seq<char>,
    rows: Seq<StoredParticipantView>,
    preview: ParticipantPreviewView,
)
    requires
        resolution(role, affiliation, Operation::ReadAll) matches Some(filter)
            && previews_in_scope(rows, filter).contains(preview),
    ensures
        resolution(Role::Organizer, organizer_affiliation, Operation::ReadAll) matches Some(all)
            && previews_in_scope(rows, all).contains(preview),
{
    let filter = resolution(role, affiliation, Operation::ReadAll).unwrap();
    scoped_listing_within_full_listing(rows, filter, preview);
}

/// Every preview in a listing flags a CV exactly when the row it was made
/// of holds one.
pub proof fn listed_previews_flag_cv_presence(
    rows: Seq<StoredParticipantView>,
    filter: RowFilterView,
    k: int,
)
    requires
        0 <= k < previews_in_scope(rows, filter).len(),
    ensures
        exists|i: int|
            0 <= i < rows.len() && filter.admits((#[trigger] rows[i]).record) && previews_in_scope(
                rows,
                filter,
            )[k] == preview_of(rows[i].record) && (previews_in_scope(rows, filter)[k].contain_cv
                <==> rows[i].record.cv is Some),
{
    let kept = rows_in_scope(rows, filter);
    assert(kept.contains(kept[k]));
    rows.lemma_filter_contains_rev(admitted_by(filter), kept[k]);
    rows.lemma_filter_pred(admitted_by(filter), k);
    let i = choose|i: int| 0 <= i < rows.len() && rows[i] == kept[k];
    assert(filter.admits(rows[i].record));
}

/// A deletion that succeeds takes exactly one row away, and no row of that
/// identifier is left.
pub proof fn deleted_row_is_gone(
    before: Seq<StoredParticipantView>,
    id: ParticipantId,
    filter: RowFilterView,
    after: Seq<StoredParticipantView>,
)
    requires
        distinct_ids(before),
        holds_in_scope(before, id, filter),
        deletion(before, id, filter, after, Ok(())),
    ensures
        !holds_id(after, id),
        after.len() + 1 == before.len(),
        distinct_ids(after),
{
    let i = choose|i: int|
        #[trigger] row_in_scope(before, id, filter, i) && after == before.remove(i);
    assert forall|k: int| !row_has_id(after, id, k) by {
        if 0 <= k < after.len() {
            let k0 = if k < i { k } else { k + 1 };
            assert(after[k] == before[k0]);
            assert(before[k0].record.id != before[i].record.id);
        }
    }
    assert forall|a: int, b: int|
        0 <= a < after.len() && 0 <= b < after.len() && a != b implies (#[trigger] after[a]).record.id
        != (#[trigger] after[b]).record.id by {
        let a0 = if a < i { a } else { a + 1 };
        let b0 = if b < i { b } else { b + 1 };
        assert(after[a] == before[a0]);
        assert(after[b] == before[b0]);
    }
}

/// Of two deletions of one identifier, the second finds nothing once the
/// first has succeeded.
pub proof fn second_deletion_finds_nothing(
    before: Seq<StoredParticipantView>,
    id: ParticipantId,
    first_filter: RowFilterView,
    between: Seq<StoredParticipantView>,
    first: Result<(), StoreError>,
    second_filter: RowFilterView,
    after: Seq<StoredParticipantView>,
    second: Result<(), StoreError>,
)
    requires
        distinct_ids(before),
        holds_in_scope(before, id, first_filter),
        deletion(before, id, first_filter, between, first),
        deletion(between, id, second_filter, after, second),
    ensures
        second == Err::<(), _>(StoreError::NotFound),
        after == between,
        !holds_id(after, id),
{
    deleted_row_is_gone(before, id, first_filter, between);
    assert forall|k: int| !row_in_scope(between, id, second_filter, k) by {
        assert(!row_has_id(between, id, k));
    }
}

/// A deletion never removes a row that the filter does not admit, and
/// removes at most the one row of the given identifier.
pub proof fn deletion_stays_in_scope(
    before: Seq<StoredParticipantView>,
    id: ParticipantId,
    filter: RowFilterView,
    after: Seq<StoredParticipantView>,
    result: Result<(), StoreError>,
    i: int,
)
    requires
        distinct_ids(before),
        deletion(before, id, filter, after, result),
        0 <= i < before.len(),
        before[i].record.id != id || !filter.admits(before[i].record),
    ensures
        after.contains(before[i]),
{
    if holds_in_scope(before, id, filter) {
        let d = choose|d: int|
            #[trigger] row_in_scope(before, id, filter, d) && after == before.remove(d);
        if before[i].record.id == id {
            assert(i == d);
        }
        let j = if i < d { i } else { i - 1 };
        assert(after[j] == before[i]);
    } else {
        assert(after[i] == before[i]);
    }
}

/// The table of participant records, in the order of insertion, no two of
/// them under one identifier.
pub struct ParticipantStore {
    rows: Vec<StoredParticipant>,
}

impl View for ParticipantStore {
    type V = Seq<StoredParticipantView>;

    closed spec fn view(&self) -> Seq<StoredParticipantView> {
        self.rows@.map_values(|row: StoredParticipant| row@)
    }
}

impl ParticipantStore {
    /// What holds of every table: no two rows share an identifier.
    #[verifier::type_invariant]
    pub open spec fn ids_are_distinct(&self) -> bool {
        distinct_ids(self@)
    }

    /// An empty table.
    pub fn new() -> (store: ParticipantStore)
        ensures
            store@ == Seq::<StoredParticipantView>::empty(),
    {
        let store = ParticipantStore { rows: Vec::new() };
        assert(store@ =~= Seq::<StoredParticipantView>::empty());
        store
    }

    /// The number of rows.
    pub fn len(&self) -> (n: usize)
        ensures
            n == self@.len(),
    {
        self.rows.len()
    }

    /// The index of the row of the given identifier, if there is one.
    fn position(&self, id: ParticipantId) -> (found: Option<usize>)
        ensures
            match found {
                Some(i) => row_has_id(self@, id, i as int),
                None => !holds_id(self@, id),
            },
    {
        let mut i: usize = 0;
        while i < self.rows.len()
            invariant
                i <= self.rows.len(),
                self@.len() == self.rows.len(),
                forall|j: int| 0 <= j < i ==> !row_has_id(self@, id, j),
            decreases self.rows.len() - i,
        {
            if self.rows[i].record.id.0 == id.0 {
                return Some(i);
            }
            i += 1;
        }
        None
    }

    /// Whether a row of the given identifier is stored.
    pub fn contains(&self, id: ParticipantId) -> (held: bool)
        ensures
            held == holds_id(self@, id),
    {
        self.position(id).is_some()
    }

    /// The stored password hash of the record of the given identifier.
    pub fn password_hash(&self, id: ParticipantId) -> (hash: Option<String>)
        ensures
            match hash {
                Some(h) => exists|i: int|
                    #[trigger] row_has_id(self@, id, i) && self@[i].password_hash == h@,
                None => !holds_id(self@, id),
            },
    {
        match self.position(id) {
            Some(i) => {
                assert(row_has_id(self@, id, i as int));
                Some(self.rows[i].password_hash.clone())
            },
            None => None,
        }
    }

    /// Stores a full record with the hash of its password.
    pub fn insert(&mut self, record: Participant, password_hash: String) -> (result: Result<
        (),
        StoreError,
    >)
        ensures
            insertion(
                old(self)@,
                (StoredParticipantView { record: record@, password_hash: password_hash@ }),
                final(self)@,
                result,
            ),
            distinct_ids(old(self)@),
            distinct_ids(final(self)@),
    {
        proof {
            use_type_invariant(&*self);
        }
        match self.position(record.id) {
            Some(_) => Err(StoreError::Conflict),
            None => {
                let ghost before = self@;
                let row = StoredParticipant { record, password_hash };
                let ghost added = row@;
                let mut rows: Vec<StoredParticipant> = Vec::new();
                core::mem::swap(&mut self.rows, &mut rows);
                rows.push(row);
                proof {
                    let after = rows@.map_values(|row: StoredParticipant| row@);
                    assert(after =~= before.push(added));
                    assert forall|i: int, j: int|
                        0 <= i < after.len() && 0 <= j < after.len() && i != j implies (
                    #[trigger] after[i]).record.id != (#[trigger] after[j]).record.id by {
                        if i < before.len() && j < before.len() {
                            assert(before[i].record.id != before[j].record.id);
                        } else if i < before.len() {
                            assert(!row_has_id(before, added.record.id, i));
                        } else {
                            assert(!row_has_id(before, added.record.id, j));
                        }
                    }
                }
                core::mem::swap(&mut self.rows, &mut rows);
                Ok(())
            },
        }
    }

    /// Creates the record of a minimal participant under the given
    /// identifier: no affiliation yet, and every sensitive attribute absent.
    pub fn create(
        &mut self,
        minimal: &MinimalParticipant,
        id: ParticipantId,
        password_hash: String,
    ) -> (result: Result<(), StoreError>)
        ensures
            insertion(old(self)@, created_row(minimal@, id, password_hash@), final(self)@, result),
            distinct_ids(old(self)@),
            distinct_ids(final(self)@),
    {
        let record = Participant::from_minimal(minimal, id, None);
        self.insert(record, password_hash)
    }

    /// Deletes the record of the given identifier if the filter admits it.
    /// A record that is absent and one that is out of scope are answered
    /// alike.
    pub fn delete(&mut self, id: ParticipantId, filter: &RowFilter) -> (result: Result<
        (),
        StoreError,
    >)
        ensures
            deletion(old(self)@, id, filter@, final(self)@, result),
            result is Ok ==> !holds_id(final(self)@, id),
            distinct_ids(old(self)@),
            distinct_ids(final(self)@),
    {
        proof {
            use_type_invariant(&*self);
        }
        let ghost before = self@;
        match self.position(id) {
            Some(i) => {
                if filter.admits(&self.rows[i].record) {
                    assert(row_in_scope(before, id, filter@, i as int));
                    let mut rows: Vec<StoredParticipant> = Vec::new();
                    core::mem::swap(&mut self.rows, &mut rows);
                    rows.remove(i);
                    proof {
                        let after = rows@.map_values(|row: StoredParticipant| row@);
                        assert(after =~= before.remove(i as int));
                        assert forall|a: int, b: int|
                            0 <= a < after.len() && 0 <= b < after.len() && a != b implies (
                        #[trigger] after[a]).record.id != (#[trigger] after[b]).record.id by {
                            let a0 = if a < i { a } else { a + 1 };
                            let b0 = if b < i { b } else { b + 1 };
                            assert(after[a] == before[a0]);
                            assert(after[b] == before[b0]);
                        }
                        assert forall|k: int| !row_has_id(after, id, k) by {
                            if 0 <= k < after.len() {
                                let k0 = if k < i { k } else { k + 1 };
                                assert(after[k] == before[k0]);
                                assert(before[k0].record.id != before[i as int].record.id);
                            }
                        }
                    }
                    core::mem::swap(&mut self.rows, &mut rows);
                    Ok(())
                } else {
                    proof {
                        assert forall|k: int| !row_in_scope(before, id, filter@, k) by {
                            if row_has_id(before, id, k) && k != i {
                                assert(before[k].record.id != before[i as int].record.id);
                            }
                        }
                    }
                    Err(StoreError::NotFound)
                }
            },
            None => {
                assert forall|k: int| !row_in_scope(before, id, filter@, k) by {
                    assert(!row_has_id(before, id, k));
                }
                Err(StoreError::NotFound)
            },
        }
    }

    /// The record of the given identifier, if the filter admits it.
    pub fn get(&self, id: ParticipantId, filter: &RowFilter) -> (result: Result<
        Participant,
        StoreError,
    >)
        ensures
            match result {
                Ok(record) => exists|i: int|
                    #[trigger] row_in_scope(self@, id, filter@, i) && record@ == self@[i].record,
                Err(e) => e == StoreError::NotFound && !holds_in_scope(self@, id, filter@),
            },
    {
        proof {
            use_type_invariant(self);
        }
        match self.position(id) {
            Some(i) => {
                if filter.admits(&self.rows[i].record) {
                    assert(row_in_scope(self@, id, filter@, i as int));
                    Ok(self.rows[i].record.duplicate())
                } else {
                    proof {
                        assert forall|k: int| !row_in_scope(self@, id, filter@, k) by {
                            if row_has_id(self@, id, k) && k != i {
                                assert(self@[k].record.id != self@[i as int].record.id);
                            }
                        }
                    }
                    Err(StoreError::NotFound)
                }
            },
            None => {
                assert forall|k: int| !row_in_scope(self@, id, filter@, k) by {
                    assert(!row_has_id(self@, id, k));
                }
                Err(StoreError::NotFound)
            },
        }
    }

    /// The previews of the rows that the filter admits, in the order of
    /// insertion.
    pub fn list_preview(&self, filter: &RowFilter) -> (previews: Vec<ParticipantPreview>)
        ensures
            preview_views(previews@) == previews_in_scope(self@, filter@),
    {
        let mut previews: Vec<ParticipantPreview> = Vec::new();
        let mut i: usize = 0;
        assert(self@.take(0) =~= Seq::empty());
        assert(preview_views(previews@) =~= previews_in_scope(self@.take(0), filter@)) by {
            reveal(Seq::filter);
        }
        while i < self.rows.len()
            invariant
                i <= self.rows.len(),
                self@.len() == self.rows.len(),
                preview_views(previews@) == previews_in_scope(self@.take(i as int), filter@),
            decreases self.rows.len() - i,
        {
            let ghost seen = self@.take(i as int);
            proof {
                assert(self@.take(i + 1) =~= seen.push(self@[i as int]));
                seen.lemma_filter_push(self@[i as int], admitted_by(filter@));
            }
            if filter.admits(&self.rows[i].record) {
                let preview = ParticipantPreview::from_record(&self.rows[i].record);
                let ghost listed = previews@;
                previews.push(preview);
                proof {
                    assert(previews@ == listed.push(preview));
                    assert(preview_views(previews@) =~= preview_views(listed).push(preview@));
                    assert(rows_in_scope(self@.take(i + 1), filter@) == rows_in_scope(
                        seen,
                        filter@,
                    ).push(self@[i as int]));
                    assert(previews_in_scope(self@.take(i + 1), filter@) =~= previews_in_scope(
                        seen,
                        filter@,
                    ).push(preview_of(self@[i as int].record)));
                }
            }
            i += 1;
        }
        assert(self@.take(i as int) =~= self@);
        previews
    }

    /// The previews of the delegation members of one university, in the
    /// order of insertion: what a chef of that university is given to read.
    pub fn list_by_affiliation(&self, affiliation: &University) -> (previews: Vec<
        ParticipantPreview,
    >)
        ensures
            preview_views(previews@) == previews_in_scope(
                self@,
                RowFilterView::DelegationOf(affiliation@),
            ),
    {
        self.list_preview(&RowFilter::DelegationOf(affiliation.duplicate()))
    }

    /// The minimal projections of the rows that the filter admits, in the
    /// order of insertion; a
    /// row that names no competition has none, and fails the listing.
    pub fn list_minimal(&self, filter: &RowFilter) -> (result: Result<
        Vec<MinimalParticipant>,
        StoreError,
    >)
        ensures
            match result {
                Ok(minimals) => all_have_minimal(rows_in_scope(self@, filter@)) && minimal_views(
                    minimals@,
                ) == minimals_of(rows_in_scope(self@, filter@)),
                Err(e) => e == StoreError::Constraint && !all_have_minimal(
                    rows_in_scope(self@, filter@),
                ),
            },
    {
        let mut minimals: Vec<MinimalParticipant> = Vec::new();
        let mut i: usize = 0;
        assert(self@.take(0) =~= Seq::empty());
        assert(rows_in_scope(self@.take(0), filter@) =~= Seq::empty()) by {
            reveal(Seq::filter);
        }
        assert(minimal_views(minimals@) =~= minimals_of(rows_in_scope(self@.take(0), filter@)));
        while i < self.rows.len()
            invariant
                i <= self.rows.len(),
                self@.len() == self.rows.len(),
                all_have_minimal(rows_in_scope(self@.take(i as int), filter@)),
                minimal_views(minimals@) == minimals_of(
                    rows_in_scope(self@.take(i as int), filter@),
                ),
            decreases self.rows.len() - i,
        {
            let ghost seen = self@.take(i as int);
            let ghost kept = rows_in_scope(seen, filter@);
            proof {
                assert(self@.take(i + 1) =~= seen.push(self@[i as int]));
                seen.lemma_filter_push(self@[i as int], admitted_by(filter@));
            }
            if filter.admits(&self.rows[i].record) {
                match MinimalParticipant::from_record(&self.rows[i].record) {
                    Some(minimal) => {
                        let ghost listed = minimals@;
                        minimals.push(minimal);
                        proof {
                            assert(minimals@ == listed.push(minimal));
                            assert(minimal_views(minimals@) =~= minimal_views(listed).push(
                                minimal@,
                            ));
                            let now = rows_in_scope(self@.take(i + 1), filter@);
                            assert(now == kept.push(self@[i as int]));
                            assert forall|k: int| 0 <= k < now.len() implies minimal_of(
                                (#[trigger] now[k]).record,
                            ) is Some by {
                                if k < kept.len() {
                                    assert(now[k] == kept[k]);
                                }
                            }
                            assert(minimals_of(now) =~= minimals_of(kept).push(
                                minimal_of(self@[i as int].record).unwrap(),
                            ));
                        }
                    },
                    None => {
                        proof {
                            let now = rows_in_scope(self@.take(i + 1), filter@);
                            let all = rows_in_scope(self@, filter@);
                            assert(self@ =~= self@.take(i + 1) + self@.skip(i + 1));
                            Seq::filter_distributes_over_add(
                                self@.take(i + 1),
                                self@.skip(i + 1),
                                admitted_by(filter@),
                            );
                            assert(now[kept.len() as int] == self@[i as int]);
                            assert(all[kept.len() as int] == self@[i as int]);
                        }
                        return Err(StoreError::Constraint);
                    },
                }
            }
            i += 1;
        }
        assert(self@.take(i as int) =~= self@);
        Ok(minimals)
    }
}

} // verus!
