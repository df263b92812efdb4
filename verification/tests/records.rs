use participant_registry::competition::Competition;
use participant_registry::credential::{
    issue_from, verify, CredentialIssuanceFailure, IssuedCredential,
};
use participant_registry::id::ParticipantId;
use participant_registry::outcome::Failure;
use participant_registry::participant::{MinimalParticipant, Participant, ParticipantPreview};
use participant_registry::role::Role;
use participant_registry::scope::RowFilter;
use participant_registry::store::{ParticipantStore, StoreError};
use participant_registry::university::University;

fn university(name: &str) -> University {
    University::new(name.to_string())
}

fn ada() -> MinimalParticipant {
    MinimalParticipant {
        first_name: "Ada".to_string(),
        last_name: "L".to_string(),
        email: "a@x.com".to_string(),
        competition: Competition::Programming,
        role: Role::Participant,
    }
}

fn record(id: u128, role: Role, affiliation: Option<&str>) -> Participant {
    let mut record =
        Participant::from_minimal(&ada(), ParticipantId(id), affiliation.map(university));
    record.role = role;
    record
}

fn sample() -> ParticipantStore {
    let mut store = ParticipantStore::new();
    for (id, role, affiliation) in [
        (1, Role::Participant, Some("U1")),
        (2, Role::TeamLead, Some("U2")),
        (3, Role::Chef, Some("U1")),
        (4, Role::Participant, None),
    ] {
        let r = record(id, role, affiliation);
        assert_eq!(r.write_to_database(&mut store, "hash".to_string()), Ok(()));
    }
    store
}

fn ids(previews: &[ParticipantPreview]) -> Vec<u128> {
    previews.iter().map(|p| p.id.0).collect()
}

#[test]
fn create_persists_a_bare_record_and_returns_the_password() {
    let mut store = ParticipantStore::new();
    let provisioned = ada().write_to_database(&mut store).expect("created");
    assert!(provisioned.password.chars().count() >= 16);
    assert!(provisioned.password.chars().all(|c| c.is_ascii_alphanumeric()));
    assert!(provisioned.id.is_random());
    assert_eq!(store.len(), 1);
    let full = Participant::get_participant(&store, provisioned.id).expect("stored");
    assert_eq!(full.first_name, "Ada");
    assert_eq!(full.last_name, "L");
    assert_eq!(full.email, "a@x.com");
    assert_eq!(full.competition, Some(Competition::Programming));
    assert_eq!(full.role, Role::Participant);
    assert!(full.university.is_none());
    assert!(full.medical_conditions.is_none() && full.allergies.is_none());
    assert!(full.pronouns.is_none() && full.phone_number.is_none());
    assert!(full.tshirt_size.is_none() && full.comments.is_none());
    assert!(full.emergency_contact.is_none() && full.has_monthly_opus_card.is_none());
    assert!(full.reduced_mobility.is_none());
    assert!(full.study_proof.is_none() && full.photo.is_none() && full.cv.is_none());
    let hash = store.password_hash(provisioned.id).expect("stored hash");
    assert!(!hash.is_empty());
    assert!(!hash.contains(&provisioned.password));
    assert!(verify(&hash, &provisioned.password));
    assert!(!format!("{:?}", full).contains(&provisioned.password));
    assert!(!format!("{:?}", store.list_preview(&RowFilter::All)).contains(&provisioned.password));
}

#[test]
fn two_creations_give_two_accounts() {
    let mut store = ParticipantStore::new();
    let first = ada().write_to_database(&mut store).expect("created");
    let second = ada().write_to_database(&mut store).expect("created");
    assert_ne!(first.id, second.id);
    assert_ne!(first.password, second.password);
    assert_eq!(store.len(), 2);
}

#[test]
fn write_with_stores_the_given_hash_and_hands_out_the_given_password() {
    let mut store = ParticipantStore::new();
    let issued = issue_from("abcdefghij012345".to_string(), "c29tZXNhbHRzb21lc2FsdA");
    let hash = issued.as_ref().expect("issued").password_hash.clone();
    let provisioned = ada().write_with(&mut store, ParticipantId(5), issued).expect("created");
    assert_eq!(provisioned.id, ParticipantId(5));
    assert_eq!(provisioned.password, "abcdefghij012345");
    assert!(verify(&hash, &provisioned.password));
    assert!(store.contains(ParticipantId(5)));
}

#[test]
fn write_with_reports_a_taken_identifier() {
    let mut store = sample();
    let issued = Ok(IssuedCredential {
        password: "abcdefghij012345".to_string(),
        password_hash: "h".to_string(),
    });
    let r = ada().write_with(&mut store, ParticipantId(2), issued);
    assert_eq!(r.err(), Some(Failure::Store(StoreError::Conflict)));
    assert_eq!(store.len(), 4);
}

#[test]
fn write_with_stores_nothing_without_a_credential() {
    let mut store = sample();
    let r = ada().write_with(
        &mut store,
        ParticipantId(9),
        Err(CredentialIssuanceFailure::HashDerivation),
    );
    assert_eq!(r.err(), Some(Failure::Credential(CredentialIssuanceFailure::HashDerivation)));
    assert_eq!(store.len(), 4);
    assert!(!store.contains(ParticipantId(9)));
}

#[test]
fn previews_of_all_and_of_one_university() {
    let store = sample();
    let all = ParticipantPreview::get_participants(&store).expect("listing");
    assert_eq!(ids(&all), [1, 2, 3, 4]);
    let u1 = ParticipantPreview::get_participants_from_university(&store, university("U1"))
        .expect("listing");
    assert_eq!(ids(&u1), [1]);
    let u2 = ParticipantPreview::get_participants_from_university(&store, university("U2"))
        .expect("listing");
    assert_eq!(ids(&u2), [2]);
}

#[test]
fn minimal_participants_of_all_and_of_one_university() {
    let store = sample();
    let all = MinimalParticipant::get_participants(&store).expect("listing");
    assert_eq!(all.len(), 4);
    let roles: Vec<Role> = all.iter().map(|m| m.role).collect();
    assert_eq!(roles, [Role::Participant, Role::TeamLead, Role::Chef, Role::Participant]);
    let u1 = MinimalParticipant::get_participants_from_university(&store, "U1").expect("listing");
    let roles: Vec<Role> = u1.iter().map(|m| m.role).collect();
    assert_eq!(roles, [Role::Participant, Role::Chef]);
    let none = MinimalParticipant::get_participants_from_university(&store, "U7").expect("listing");
    assert!(none.is_empty());
}

#[test]
fn get_participant_finds_by_identifier() {
    let store = sample();
    assert_eq!(Participant::get_participant(&store, ParticipantId(3)).map(|p| p.role), Ok(Role::Chef));
    assert_eq!(
        Participant::get_participant(&store, ParticipantId(30)).err(),
        Some(StoreError::NotFound)
    );
}

#[test]
fn full_record_conflicts_on_a_taken_identifier() {
    let mut store = sample();
    let r = record(1, Role::Chef, Some("U5"));
    assert_eq!(r.write_to_database(&mut store, "hash".to_string()), Err(StoreError::Conflict));
    assert_eq!(Participant::get_participant(&store, ParticipantId(1)).map(|p| p.role), Ok(Role::Participant));
}

#[test]
fn delete_from_database_ignores_affiliation() {
    let mut store = sample();
    assert_eq!(Participant::delete_from_database(ParticipantId(4), &mut store), Ok(()));
    assert_eq!(Participant::delete_from_database(ParticipantId(1), &mut store), Ok(()));
    assert_eq!(
        Participant::delete_from_database(ParticipantId(1), &mut store),
        Err(StoreError::NotFound)
    );
    assert_eq!(store.len(), 2);
}

#[test]
fn delete_from_database_university_needs_the_affiliation() {
    let mut store = sample();
    assert_eq!(
        Participant::delete_from_database_university(ParticipantId(1), university("U2"), &mut store),
        Err(StoreError::NotFound)
    );
    assert!(store.contains(ParticipantId(1)));
    assert_eq!(
        Participant::delete_from_database_university(ParticipantId(4), university("U1"), &mut store),
        Err(StoreError::NotFound)
    );
    assert_eq!(
        Participant::delete_from_database_university(ParticipantId(3), university("U1"), &mut store),
        Ok(())
    );
    assert!(!store.contains(ParticipantId(3)));
}
