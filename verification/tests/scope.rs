use participant_registry::competition::Competition;
use participant_registry::id::ParticipantId;
use participant_registry::participant::{MinimalParticipant, Participant};
use participant_registry::role::Role;
use participant_registry::scope::{resolve, Decision, Operation, RowFilter};
use participant_registry::university::University;

fn university(name: &str) -> University {
    University::new(name.to_string())
}

fn record(id: u128, role: Role, affiliation: Option<&str>) -> Participant {
    let minimal = MinimalParticipant {
        first_name: "Ada".to_string(),
        last_name: "L".to_string(),
        email: "a@x.com".to_string(),
        competition: Competition::Programming,
        role,
    };
    Participant::from_minimal(&minimal, ParticipantId(id), affiliation.map(university))
}

const ROLES: [Role; 4] = [Role::Organizer, Role::Chef, Role::TeamLead, Role::Participant];

#[test]
fn organizer_reads_everything() {
    match resolve(Role::Organizer, &university("U1"), Operation::ReadAll) {
        Decision::Allow(RowFilter::All) => {}
        other => panic!("unexpected decision {:?}", other),
    }
}

#[test]
fn chef_reads_the_delegation_of_the_own_university() {
    match resolve(Role::Chef, &university("U1"), Operation::ReadAll) {
        Decision::Allow(RowFilter::DelegationOf(u)) => assert_eq!(u.name, "U1"),
        other => panic!("unexpected decision {:?}", other),
    }
}

#[test]
fn organizer_deletes_any_row() {
    match resolve(Role::Organizer, &university("U1"), Operation::Delete(ParticipantId(7))) {
        Decision::Allow(RowFilter::All) => {}
        other => panic!("unexpected decision {:?}", other),
    }
}

#[test]
fn chef_deletes_rows_of_the_own_university() {
    match resolve(Role::Chef, &university("U2"), Operation::Delete(ParticipantId(7))) {
        Decision::Allow(RowFilter::University(u)) => assert_eq!(u.name, "U2"),
        other => panic!("unexpected decision {:?}", other),
    }
}

#[test]
fn organizers_and_chefs_create() {
    for role in [Role::Organizer, Role::Chef] {
        match resolve(role, &university("U1"), Operation::Create) {
            Decision::Allow(RowFilter::All) => {}
            other => panic!("unexpected decision {:?}", other),
        }
    }
}

#[test]
fn other_roles_are_denied_everything() {
    for role in [Role::Participant, Role::TeamLead] {
        for operation in
            [Operation::ReadAll, Operation::Delete(ParticipantId(1)), Operation::Create]
        {
            assert!(matches!(resolve(role, &university("U1"), operation), Decision::Deny));
        }
    }
}

#[test]
fn filter_all_admits_every_row() {
    for role in ROLES {
        assert!(RowFilter::All.admits(&record(1, role, Some("U1"))));
        assert!(RowFilter::All.admits(&record(1, role, None)));
    }
}

#[test]
fn university_filter_goes_by_affiliation_alone() {
    let filter = RowFilter::University(university("U1"));
    for role in ROLES {
        assert!(filter.admits(&record(1, role, Some("U1"))));
        assert!(!filter.admits(&record(1, role, Some("U2"))));
        assert!(!filter.admits(&record(1, role, Some("u1"))));
        assert!(!filter.admits(&record(1, role, None)));
    }
}

#[test]
fn delegation_filter_goes_by_affiliation_and_role() {
    let filter = RowFilter::DelegationOf(university("U1"));
    assert!(filter.admits(&record(1, Role::Participant, Some("U1"))));
    assert!(filter.admits(&record(1, Role::TeamLead, Some("U1"))));
    assert!(!filter.admits(&record(1, Role::Chef, Some("U1"))));
    assert!(!filter.admits(&record(1, Role::Organizer, Some("U1"))));
    assert!(!filter.admits(&record(1, Role::Participant, Some("U2"))));
    assert!(!filter.admits(&record(1, Role::Participant, None)));
}

#[test]
fn whatever_a_role_may_read_the_organizer_may_read() {
    let rows = [
        record(1, Role::Participant, Some("U1")),
        record(2, Role::TeamLead, Some("U2")),
        record(3, Role::Chef, Some("U1")),
        record(4, Role::Organizer, None),
    ];
    let organizer = match resolve(Role::Organizer, &university("U9"), Operation::ReadAll) {
        Decision::Allow(filter) => filter,
        Decision::Deny => panic!("organizer denied"),
    };
    for role in ROLES {
        for affiliation in ["U1", "U2", "U3"] {
            if let Decision::Allow(filter) =
                resolve(role, &university(affiliation), Operation::ReadAll)
            {
                for row in &rows {
                    if filter.admits(row) {
                        assert!(organizer.admits(row));
                    }
                }
            }
        }
    }
}
