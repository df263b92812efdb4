use vstd::prelude::*;
use crate::text::same_text;

verus! {

/// The role a caller or a participant record carries.
#[derive(Clone, Copy, Debug, PartialEq, Eq, Structural)]
pub enum Role {
    Organizer,
    Chef,
    TeamLead,
    Participant,
}

impl Role {
    /// The tag under which the role is stored and transmitted.
    pub open spec fn tag_text(self) -> Seq<char> {
        match self {
            Role::Organizer => "organizer"@,
            Role::Chef => "chef"@,
            Role::TeamLead => "team_lead"@,
            Role::Participant => "participant"@,
        }
    }

    /// The tag under which the role is stored and transmitted.
    pub fn tag(self) -> (t: &'static str)
        ensures
            t@ == self.tag_text(),
    {
        match self {
            Role::Organizer => "organizer",
            Role::Chef => "chef",
            Role::TeamLead => "team_lead",
            Role::Participant => "participant",
        }
    }

    /// The role that carries the tag, or `None` where no role does.
    pub open spec fn with_tag(tag: Seq<char>) -> Option<Role> {
        if tag == Role::Organizer.tag_text() {
            Some(Role::Organizer)
        } else if tag == Role::Chef.tag_text() {
            Some(Role::Chef)
        } else if tag == Role::TeamLead.tag_text() {
            Some(Role::TeamLead)
        } else if tag == Role::Participant.tag_text() {
            Some(Role::Participant)
        } else {
            None
        }
    }

    /// Reads a tag: the role that carries it, or `None` where no role does.
    pub fn from_tag(tag: &str) -> (r: Option<Role>)
        ensures
            r == Role::with_tag(tag@),
    {
        if same_text(tag, "organizer") {
            Some(Role::Organizer)
        } else if same_text(tag, "chef") {
            Some(Role::Chef)
        } else if same_text(tag, "team_lead") {
            Some(Role::TeamLead)
        } else if same_text(tag, "participant") {
            Some(Role::Participant)
        } else {
            None
        }
    }

    /// Whether the role administers records: organizers and chefs do.
    pub open spec fn is_administrative(self) -> bool {
        self == Role::Organizer || self == Role::Chef
    }

    /// Whether the role is that of a member of a delegation, which a chef
    /// may list: participants and team leads.
    pub open spec fn is_delegation_member(self) -> bool {
        self == Role::Participant || self == Role::TeamLead
    }

    /// Whether the role is that of a member of a delegation.
    pub fn delegation_member(self) -> (b: bool)
        ensures
            b == self.is_delegation_member(),
    {
        match self {
            Role::Participant | Role::TeamLead => true,
            _ => false,
        }
    }

    /// Distinct roles carry distinct tags.
    pub proof fn tags_are_distinct(a: Role, b: Role)
        requires
            a != b,
        ensures
            a.tag_text() != b.tag_text(),
    {
        reveal_strlit("organizer");
        reveal_strlit("chef");
        reveal_strlit("team_lead");
        reveal_strlit("participant");
        let first = |r: Role| r.tag_text()[0];
        assert(first(Role::Organizer) == 'o');
        assert(first(Role::Chef) == 'c');
        assert(first(Role::TeamLead) == 't');
        assert(first(Role::Participant) == 'p');
        assert(first(a) != first(b));
    }

    /// Reading the tag of a role gives that role back, and a tag is read
    /// only as the role that carries it.
    pub proof fn tag_round_trip(role: Role, tag: Seq<char>)
        ensures
            Role::with_tag(role.tag_text()) == Some(role),
            Role::with_tag(tag) == Some(role) <==> tag == role.tag_text(),
    {
        if role != Role::Organizer {
            Self::tags_are_distinct(role, Role::Organizer);
        }
        if role != Role::Chef {
            Self::tags_are_distinct(role, Role::Chef);
        }
        if role != Role::TeamLead {
            Self::tags_are_distinct(role, Role::TeamLead);
        }
        if role != Role::Participant {
            Self::tags_are_distinct(role, Role::Participant);
        }
    }
}

} // verus!
