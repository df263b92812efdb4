use participant_registry::competition::Competition;
use participant_registry::id::ParticipantId;
use participant_registry::participant::{MinimalParticipant, ValidationFailure};
use participant_registry::role::Role;

const ROLES: [Role; 4] = [Role::Organizer, Role::Chef, Role::TeamLead, Role::Participant];

const COMPETITIONS: [Competition; 8] = [
    Competition::SeniorDesign,
    Competition::JuniorDesign,
    Competition::Debate,
    Competition::Reengineering,
    Competition::Consulting,
    Competition::ScientificCommunication,
    Competition::Programming,
    Competition::InnovativeDesign,
];

#[test]
fn role_tags_are_as_stored() {
    assert_eq!(Role::Organizer.tag(), "organizer");
    assert_eq!(Role::Chef.tag(), "chef");
    assert_eq!(Role::TeamLead.tag(), "team_lead");
    assert_eq!(Role::Participant.tag(), "participant");
}

#[test]
fn role_tags_round_trip() {
    for role in ROLES {
        assert_eq!(Role::from_tag(role.tag()), Some(role));
    }
}

#[test]
fn unknown_role_tags_are_rejected() {
    assert_eq!(Role::from_tag(""), None);
    assert_eq!(Role::from_tag("Chef"), None);
    assert_eq!(Role::from_tag("chef "), None);
    assert_eq!(Role::from_tag("volunteer"), None);
}

#[test]
fn delegation_members_are_participants_and_team_leads() {
    assert!(Role::Participant.delegation_member());
    assert!(Role::TeamLead.delegation_member());
    assert!(!Role::Chef.delegation_member());
    assert!(!Role::Organizer.delegation_member());
}

#[test]
fn competition_tags_round_trip() {
    for competition in COMPETITIONS {
        assert_eq!(Competition::from_tag(competition.tag()), Some(competition));
    }
    assert_eq!(Competition::Programming.tag(), "programming");
    assert_eq!(Competition::ScientificCommunication.tag(), "scientific_communication");
}

#[test]
fn competition_tags_are_distinct() {
    for (i, a) in COMPETITIONS.iter().enumerate() {
        for (j, b) in COMPETITIONS.iter().enumerate() {
            assert_eq!(a.tag() == b.tag(), i == j);
        }
    }
}

#[test]
fn unknown_competition_tags_are_rejected() {
    assert_eq!(Competition::from_tag(""), None);
    assert_eq!(Competition::from_tag("chess"), None);
    assert_eq!(Competition::from_tag("Programming"), None);
}

#[test]
fn validation_accepts_a_complete_submission() {
    let minimal = MinimalParticipant::validate(
        "Ada".to_string(),
        "L".to_string(),
        "a@x.com".to_string(),
        "programming",
        "participant",
    )
    .expect("valid");
    assert_eq!(minimal.first_name, "Ada");
    assert_eq!(minimal.last_name, "L");
    assert_eq!(minimal.email, "a@x.com");
    assert_eq!(minimal.competition, Competition::Programming);
    assert_eq!(minimal.role, Role::Participant);
}

#[test]
fn validation_names_the_first_fault() {
    let check = |first: &str, last: &str, email: &str, competition: &str, role: &str| {
        MinimalParticipant::validate(
            first.to_string(),
            last.to_string(),
            email.to_string(),
            competition,
            role,
        )
        .err()
    };
    assert_eq!(check("", "", "", "x", "y"), Some(ValidationFailure::MissingFirstName));
    assert_eq!(check("Ada", "", "", "x", "y"), Some(ValidationFailure::MissingLastName));
    assert_eq!(check("Ada", "L", "", "x", "y"), Some(ValidationFailure::MissingEmail));
    assert_eq!(check("Ada", "L", "a@x.com", "x", "y"), Some(ValidationFailure::UnknownCompetition));
    assert_eq!(
        check("Ada", "L", "a@x.com", "debate", "y"),
        Some(ValidationFailure::UnknownRole)
    );
    assert_eq!(check("Ada", "L", "a@x.com", "debate", "chef"), None);
}

#[test]
fn generated_identifiers_are_random_uuids() {
    let first = ParticipantId::generate();
    let second = ParticipantId::generate();
    assert!(first.is_random());
    assert!(second.is_random());
    assert_ne!(first, second);
    assert_eq!((first.0 >> 76) & 0xf, 4);
    assert_eq!((first.0 >> 62) & 0x3, 2);
}

#[test]
fn other_identifiers_are_not_random_uuids() {
    assert!(!ParticipantId(0).is_random());
    assert!(!ParticipantId(u128::MAX).is_random());
    assert!(ParticipantId(0xa1a2a3a4_b1b2_41c2_91d2_d3d4d5d6d7d8).is_random());
    assert!(!ParticipantId(0xa1a2a3a4_b1b2_11c2_91d2_d3d4d5d6d7d8).is_random());
    assert!(!ParticipantId(0xa1a2a3a4_b1b2_41c2_d1d2_d3d4d5d6d7d8).is_random());
}
