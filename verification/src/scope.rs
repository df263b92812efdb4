use vstd::prelude::*;
use crate::id::ParticipantId;
use crate::participant::{Participant, ParticipantView};
use crate::role::Role;
use crate::university::University;

verus! {

/// What a caller asks to do.
#[derive(Clone, Copy, Debug, PartialEq, Eq, Structural)]
pub enum Operation {
    /// List the records.
    ReadAll,
    /// Delete the record of the given identifier.
    Delete(ParticipantId),
    /// Create a record.
    Create,
}

/// The rows an allowed operation may touch.
#[derive(Debug)]
pub enum RowFilter {
    /// Every row.
    All,
    /// The rows affiliated with the university, whatever their role.
    University(University),
    /// The rows affiliated with the university whose role is that of a
    /// delegation member.
    DelegationOf(University),
}

/// The predicate over rows that a filter stands for.
pub enum RowFilterView {
    All,
    University(Seq<char>),
    DelegationOf(Seq<char>),
}

impl View for RowFilter {
    type V = RowFilterView;

    open spec fn view(&self) -> RowFilterView {
        match self {
            RowFilter::All => RowFilterView::All,
            RowFilter::University(u) => RowFilterView::University(u@),
            RowFilter::DelegationOf(u) => RowFilterView::DelegationOf(u@),
        }
    }
}

impl RowFilterView {
    /// Whether the filter lets the row through.
    pub open spec fn admits(self, row: ParticipantView) -> bool {
        match self {
            RowFilterView::All => true,
            RowFilterView::University(u) => row.university == Some(u),
            RowFilterView::DelegationOf(u) => row.university == Some(u)
                && row.role.is_delegation_member(),
        }
    }
}

/// The answer of the scope resolver.
#[derive(Debug)]
pub enum Decision {
    /// The operation may proceed on the rows that the filter admits.
    Allow(RowFilter),
    /// The operation is refused.
    Deny,
}

impl View for Decision {
    type V = Option<RowFilterView>;

    open spec fn view(&self) -> Option<RowFilterView> {
        match self {
            Decision::Allow(filter) => Some(filter@),
            Decision::Deny => None,
        }
    }
}

/// What the resolver decides: the filter under which a caller of the given
/// role and affiliation may carry out the operation, or `None` where the
/// caller may not.
///
/// An organizer reads and deletes every row. A chef reads the delegation
/// members of the chef's own university and deletes rows of that university.
/// Organizers and chefs create; nobody else does anything.
pub open spec fn resolution(role: Role, affiliation: Seq<char>, operation: Operation) -> Option<
    RowFilterView,
> {
    match operation {
        Operation::ReadAll => match role {
            Role::Organizer => Some(RowFilterView::All),
            Role::Chef => Some(RowFilterView::DelegationOf(affiliation)),
            _ => None,
        },
        Operation::Delete(_) => match role {
            Role::Organizer => Some(RowFilterView::All),
            Role::Chef => Some(RowFilterView::University(affiliation)),
            _ => None,
        },
        Operation::Create => if role.is_administrative() {
            Some(RowFilterView::All)
        } else {
            None
        },
    }
}

impl RowFilter {
    /// Whether the filter lets the record through.
    pub fn admits(&self, record: &Participant) -> (admitted: bool)
        ensures
            admitted == self@.admits(record@),
    {
        match self {
            RowFilter::All => true,
            RowFilter::University(u) => match &record.university {
                Some(own) => own.same_as(u),
                None => false,
            },
            RowFilter::DelegationOf(u) => match &record.university {
                Some(own) => own.same_as(u) && record.role.delegation_member(),
                None => false,
            },
        }
    }
}

/// Decides whether a caller of the given role and affiliation may carry out
/// the operation, and on which rows.
pub fn resolve(role: Role, affiliation: &University, operation: Operation) -> (decision: Decision)
    ensures
        decision@ == resolution(role, affiliation@, operation),
{
    match operation {
        Operation::ReadAll => match role {
            Role::Organizer => Decision::Allow(RowFilter::All),
            Role::Chef => Decision::Allow(RowFilter::DelegationOf(affiliation.duplicate())),
            _ => Decision::Deny,
        },
        Operation::Delete(_) => match role {
            Role::Organizer => Decision::Allow(RowFilter::All),
            Role::Chef => Decision::Allow(RowFilter::University(affiliation.duplicate())),
            _ => Decision::Deny,
        },
        Operation::Create => match role {
            Role::Organizer | Role::Chef => Decision::Allow(RowFilter::All),
            _ => Decision::Deny,
        },
    }
}

/// Scope is monotone: a row that any caller may read, an organizer may read.
pub proof fn read_scope_within_organizer_scope(
    role: Role,
    affiliation: Seq<char>,
    organizer_affiliation: Seq<char>,
    row: ParticipantView,
)
    ensures
        resolution(Role::Organizer, organizer_affiliation, Operation::ReadAll) is Some,
        resolution(role, affiliation, Operation::ReadAll) matches Some(filter) && filter.admits(row)
            ==> resolution(
            Role::Organizer,
            organizer_affiliation,
            Operation::ReadAll,
        ).unwrap().admits(row),
{
}

/// A chef's scope never leaves the chef's university, whatever the
/// operation.
pub proof fn chef_scope_is_own_university(
    affiliation: Seq<char>,
    operation: Operation,
    row: ParticipantView,
)
    requires
        operation != Operation::Create,
    ensures
        resolution(Role::Chef, affiliation, operation) matches Some(filter) && (filter.admits(row)
            ==> row.university == Some(affiliation)),
{
}

/// Roles without administrative scope are refused every operation.
pub proof fn others_are_denied(role: Role, affiliation: Seq<char>, operation: Operation)
    requires
        !role.is_administrative(),
    ensures
        resolution(role, affiliation, operation) is None,
{
}

} // verus!
