use vstd::prelude::*;
use crate::competition::Competition;
use crate::id::ParticipantId;
use crate::role::Role;
use crate::university::{affiliation_view, University};

verus! {

/// The view of an optional text field.
pub open spec fn text_view(text: Option<String>) -> Option<Seq<char>> {
    match text {
        Some(t) => Some(t@),
        None => None,
    }
}

/// The view of an optional attachment.
pub open spec fn bytes_view(bytes: Option<Vec<u8>>) -> Option<Seq<u8>> {
    match bytes {
        Some(b) => Some(b@),
        None => None,
    }
}

/// A copy of an optional text field.
pub fn copy_text(text: &Option<String>) -> (copy: Option<String>)
    ensures
        text_view(copy) == text_view(*text),
{
    match text {
        Some(t) => Some(t.clone()),
        None => None,
    }
}

/// A copy of an optional attachment.
pub fn copy_bytes(bytes: &Option<Vec<u8>>) -> (copy: Option<Vec<u8>>)
    ensures
        bytes_view(copy) == bytes_view(*bytes),
{
    match bytes {
        Some(b) => {
            let copy = b.clone();
            assert(copy@ =~= b@);
            Some(copy)
        },
        None => None,
    }
}

/// A copy of an optional university.
pub fn copy_university(university: &Option<University>) -> (copy: Option<University>)
    ensures
        affiliation_view(copy) == affiliation_view(*university),
{
    match university {
        Some(u) => Some(u.duplicate()),
        None => None,
    }
}

/// The canonical participant record, every field included.
#[derive(Debug)]
pub struct Participant {
    pub id: ParticipantId,
    pub role: Role,
    pub email: String,
    pub first_name: String,
    pub last_name: String,
    pub university: Option<University>,
    pub medical_conditions: Option<String>,
    pub allergies: Option<String>,
    pub pronouns: Option<String>,
    pub competition: Option<Competition>,
    pub phone_number: Option<String>,
    pub tshirt_size: Option<String>,
    pub comments: Option<String>,
    pub emergency_contact: Option<String>,
    pub has_monthly_opus_card: Option<bool>,
    pub reduced_mobility: Option<String>,
    pub study_proof: Option<Vec<u8>>,
    pub photo: Option<Vec<u8>>,
    pub cv: Option<Vec<u8>>,
}

/// What a participant record holds.
pub struct ParticipantView {
    pub id: ParticipantId,
    pub role: Role,
    pub email: Seq<char>,
    pub first_name: Seq<char>,
    pub last_name: Seq<char>,
    pub university: Option<Seq<char>>,
    pub medical_conditions: Option<Seq<char>>,
    pub allergies: Option<Seq<char>>,
    pub pronouns: Option<Seq<char>>,
    pub competition: Option<Competition>,
    pub phone_number: Option<Seq<char>>,
    pub tshirt_size: Option<Seq<char>>,
    pub comments: Option<Seq<char>>,
    pub emergency_contact: Option<Seq<char>>,
    pub has_monthly_opus_card: Option<bool>,
    pub reduced_mobility: Option<Seq<char>>,
    pub study_proof: Option<Seq<u8>>,
    pub photo: Option<Seq<u8>>,
    pub cv: Option<Seq<u8>>,
}

impl View for Participant {
    type V = ParticipantView;

    open spec fn view(&self) -> ParticipantView {
        ParticipantView {
            id: self.id,
            role: self.role,
            email: self.email@,
            first_name: self.first_name@,
            last_name: self.last_name@,
            university: affiliation_view(self.university),
            medical_conditions: text_view(self.medical_conditions),
            allergies: text_view(self.allergies),
            pronouns: text_view(self.pronouns),
            competition: self.competition,
            phone_number: text_view(self.phone_number),
            tshirt_size: text_view(self.tshirt_size),
            comments: text_view(self.comments),
            emergency_contact: text_view(self.emergency_contact),
            has_monthly_opus_card: self.has_monthly_opus_card,
            reduced_mobility: text_view(self.reduced_mobility),
            study_proof: bytes_view(self.study_proof),
            photo: bytes_view(self.photo),
            cv: bytes_view(self.cv),
        }
    }
}

impl ParticipantView {
    /// Whether every sensitive attribute and every attachment is absent.
    pub open spec fn sensitive_fields_absent(self) -> bool {
        &&& self.medical_conditions is None
        &&& self.allergies is None
        &&& self.pronouns is None
        &&& self.phone_number is None
        &&& self.tshirt_size is None
        &&& self.comments is None
        &&& self.emergency_contact is None
        &&& self.has_monthly_opus_card is None
        &&& self.reduced_mobility is None
        &&& self.study_proof is None
        &&& self.photo is None
        &&& self.cv is None
    }
}

/// What is needed to create a record: identity, role and competition.
#[derive(Debug)]
pub struct MinimalParticipant {
    pub first_name: String,
    pub last_name: String,
    pub email: String,
    pub competition: Competition,
    pub role: Role,
}

/// What a minimal participant holds.
pub struct MinimalParticipantView {
    pub first_name: Seq<char>,
    pub last_name: Seq<char>,
    pub email: Seq<char>,
    pub competition: Competition,
    pub role: Role,
}

impl View for MinimalParticipant {
    type V = MinimalParticipantView;

    open spec fn view(&self) -> MinimalParticipantView {
        MinimalParticipantView {
            first_name: self.first_name@,
            last_name: self.last_name@,
            email: self.email@,
            competition: self.competition,
            role: self.role,
        }
    }
}

/// A record without its sensitive attributes: identity, role, competition,
/// affiliation, and whether a CV is attached.
#[derive(Debug)]
pub struct ParticipantPreview {
    pub id: ParticipantId,
    pub first_name: String,
    pub last_name: String,
    pub email: String,
    pub role: Role,
    pub competition: Option<Competition>,
    pub university: Option<University>,
    pub contain_cv: bool,
}

/// What a preview holds.
pub struct ParticipantPreviewView {
    pub id: ParticipantId,
    pub first_name: Seq<char>,
    pub last_name: Seq<char>,
    pub email: Seq<char>,
    pub role: Role,
    pub competition: Option<Competition>,
    pub university: Option<Seq<char>>,
    pub contain_cv: bool,
}

impl View for ParticipantPreview {
    type V = ParticipantPreviewView;

    open spec fn view(&self) -> ParticipantPreviewView {
        ParticipantPreviewView {
            id: self.id,
            first_name: self.first_name@,
            last_name: self.last_name@,
            email: self.email@,
            role: self.role,
            competition: self.competition,
            university: affiliation_view(self.university),
            contain_cv: self.contain_cv,
        }
    }
}

/// The preview of a record: its identity fields, and the presence of its CV
/// in place of the CV itself.
pub open spec fn preview_of(record: ParticipantView) -> ParticipantPreviewView {
    ParticipantPreviewView {
        id: record.id,
        first_name: record.first_name,
        last_name: record.last_name,
        email: record.email,
        role: record.role,
        competition: record.competition,
        university: record.university,
        contain_cv: record.cv is Some,
    }
}

/// The minimal projection of a record, which exists where the record names
/// a competition.
pub open spec fn minimal_of(record: ParticipantView) -> Option<MinimalParticipantView> {
    match record.competition {
        Some(competition) => Some(
            MinimalParticipantView {
                first_name: record.first_name,
                last_name: record.last_name,
                email: record.email,
                competition,
                role: record.role,
            },
        ),
        None => None,
    }
}

/// The record that creation makes of a minimal participant: the given
/// identifier and affiliation, the minimal participant's identity, role and
/// competition, and every sensitive attribute absent.
pub open spec fn created_record(
    minimal: MinimalParticipantView,
    id: ParticipantId,
    university: Option<Seq<char>>,
) -> ParticipantView {
    ParticipantView {
        id,
        role: minimal.role,
        email: minimal.email,
        first_name: minimal.first_name,
        last_name: minimal.last_name,
        university,
        medical_conditions: None,
        allergies: None,
        pronouns: None,
        competition: Some(minimal.competition),
        phone_number: None,
        tshirt_size: None,
        comments: None,
        emergency_contact: None,
        has_monthly_opus_card: None,
        reduced_mobility: None,
        study_proof: None,
        photo: None,
        cv: None,
    }
}

impl Participant {
    /// A copy of the record, attachments included.
    pub fn duplicate(&self) -> (copy: Participant)
        ensures
            copy@ == self@,
    {
        Participant {
            id: self.id,
            role: self.role,
            email: self.email.clone(),
            first_name: self.first_name.clone(),
            last_name: self.last_name.clone(),
            university: copy_university(&self.university),
            medical_conditions: copy_text(&self.medical_conditions),
            allergies: copy_text(&self.allergies),
            pronouns: copy_text(&self.pronouns),
            competition: self.competition,
            phone_number: copy_text(&self.phone_number),
            tshirt_size: copy_text(&self.tshirt_size),
            comments: copy_text(&self.comments),
            emergency_contact: copy_text(&self.emergency_contact),
            has_monthly_opus_card: self.has_monthly_opus_card,
            reduced_mobility: copy_text(&self.reduced_mobility),
            study_proof: copy_bytes(&self.study_proof),
            photo: copy_bytes(&self.photo),
            cv: copy_bytes(&self.cv),
        }
    }

    /// The record created for a minimal participant under a given
    /// identifier and affiliation.
    pub fn from_minimal(
        minimal: &MinimalParticipant,
        id: ParticipantId,
        university: Option<University>,
    ) -> (record: Participant)
        ensures
            record@ == created_record(minimal@, id, affiliation_view(university)),
            record@.sensitive_fields_absent(),
    {
        Participant {
            id,
            role: minimal.role,
            email: minimal.email.clone(),
            first_name: minimal.first_name.clone(),
            last_name: minimal.last_name.clone(),
            university,
            medical_conditions: None,
            allergies: None,
            pronouns: None,
            competition: Some(minimal.competition),
            phone_number: None,
            tshirt_size: None,
            comments: None,
            emergency_contact: None,
            has_monthly_opus_card: None,
            reduced_mobility: None,
            study_proof: None,
            photo: None,
            cv: None,
        }
    }
}

impl ParticipantPreview {
    /// The preview of a record. No attachment is copied: the CV is looked
    /// at only for its presence.
    pub fn from_record(record: &Participant) -> (preview: ParticipantPreview)
        ensures
            preview@ == preview_of(record@),
    {
        ParticipantPreview {
            id: record.id,
            first_name: record.first_name.clone(),
            last_name: record.last_name.clone(),
            email: record.email.clone(),
            role: record.role,
            competition: record.competition,
            university: copy_university(&record.university),
            contain_cv: record.cv.is_some(),
        }
    }
}

impl MinimalParticipant {
    /// The minimal projection of a record, or `None` where the record names
    /// no competition.
    pub fn from_record(record: &Participant) -> (minimal: Option<MinimalParticipant>)
        ensures
            match minimal {
                Some(m) => minimal_of(record@) == Some(m@),
                None => minimal_of(record@) is None,
            },
    {
        match record.competition {
            Some(competition) => Some(
                MinimalParticipant {
                    first_name: record.first_name.clone(),
                    last_name: record.last_name.clone(),
                    email: record.email.clone(),
                    competition,
                    role: record.role,
                },
            ),
            None => None,
        }
    }
}

/// Why a submitted participant was not accepted.
#[derive(Clone, Copy, Debug, PartialEq, Eq, Structural)]
pub enum ValidationFailure {
    /// The first name is empty.
    MissingFirstName,
    /// The last name is empty.
    MissingLastName,
    /// The email address is empty.
    MissingEmail,
    /// No competition carries the submitted tag.
    UnknownCompetition,
    /// No role carries the submitted tag.
    UnknownRole,
}

/// What validation makes of a submitted participant: the first fault found,
/// in the order of the fields, or the minimal participant.
pub open spec fn validated(
    first_name: Seq<char>,
    last_name: Seq<char>,
    email: Seq<char>,
    competition_tag: Seq<char>,
    role_tag: Seq<char>,
) -> Result<MinimalParticipantView, ValidationFailure> {
    if first_name.len() == 0 {
        Err(ValidationFailure::MissingFirstName)
    } else if last_name.len() == 0 {
        Err(ValidationFailure::MissingLastName)
    } else if email.len() == 0 {
        Err(ValidationFailure::MissingEmail)
    } else {
        match Competition::with_tag(competition_tag) {
            None => Err(ValidationFailure::UnknownCompetition),
            Some(competition) => match Role::with_tag(role_tag) {
                None => Err(ValidationFailure::UnknownRole),
                Some(role) => Ok(
                    MinimalParticipantView { first_name, last_name, email, competition, role },
                ),
            },
        }
    }
}

impl MinimalParticipant {
    /// Validates a submitted participant: the required fields may not be
    /// empty, and the tags must be those of a competition and of a role.
    pub fn validate(
        first_name: String,
        last_name: String,
        email: String,
        competition_tag: &str,
        role_tag: &str,
    ) -> (result: Result<MinimalParticipant, ValidationFailure>)
        ensures
            match result {
                Ok(minimal) => validated(
                    first_name@,
                    last_name@,
                    email@,
                    competition_tag@,
                    role_tag@,
                ) == Ok::<_, ValidationFailure>(minimal@),
                Err(failure) => validated(
                    first_name@,
                    last_name@,
                    email@,
                    competition_tag@,
                    role_tag@,
                ) == Err::<MinimalParticipantView, _>(failure),
            },
    {
        if first_name.as_str().is_empty() {
            return Err(ValidationFailure::MissingFirstName);
        }
        if last_name.as_str().is_empty() {
            return Err(ValidationFailure::MissingLastName);
        }
        if email.as_str().is_empty() {
            return Err(ValidationFailure::MissingEmail);
        }
        let competition = match Competition::from_tag(competition_tag) {
            Some(competition) => competition,
            None => {
                return Err(ValidationFailure::UnknownCompetition);
            },
        };
        let role = match Role::from_tag(role_tag) {
            Some(role) => role,
            None => {
                return Err(ValidationFailure::UnknownRole);
            },
        };
        Ok(MinimalParticipant { first_name, last_name, email, competition, role })
    }
}

/// A minimal participant written out with its tags is accepted again as
/// the same minimal participant.
pub proof fn validation_accepts_written_tags(minimal: MinimalParticipantView)
    requires
        minimal.first_name.len() > 0,
        minimal.last_name.len() > 0,
        minimal.email.len() > 0,
    ensures
        validated(
            minimal.first_name,
            minimal.last_name,
            minimal.email,
            minimal.competition.tag_text(),
            minimal.role.tag_text(),
        ) == Ok::<_, ValidationFailure>(minimal),
{
    Competition::tag_round_trip(minimal.competition, minimal.competition.tag_text());
    Role::tag_round_trip(minimal.role, minimal.role.tag_text());
}

/// A preview says that a CV is attached exactly when the record holds one.
pub proof fn preview_flags_cv_presence(record: ParticipantView)
    ensures
        preview_of(record).contain_cv <==> record.cv is Some,
{
}

} // verus!
