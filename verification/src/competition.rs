use vstd::prelude::*;
use crate::text::same_text;

verus! {

/// The competition a participant is registered for.
#[derive(Clone, Copy, Debug, PartialEq, Eq, Structural)]
pub enum Competition {
    SeniorDesign,
    JuniorDesign,
    Debate,
    Reengineering,
    Consulting,
    ScientificCommunication,
    Programming,
    InnovativeDesign,
}

impl Competition {
    /// The tag under which the competition is stored and transmitted.
    pub open spec fn tag_text(self) -> Seq<char> {
        match self {
            Competition::SeniorDesign => "senior_design"@,
            Competition::JuniorDesign => "junior_design"@,
            Competition::Debate => "debate"@,
            Competition::Reengineering => "reengineering"@,
            Competition::Consulting => "consulting"@,
            Competition::ScientificCommunication => "scientific_communication"@,
            Competition::Programming => "programming"@,
            Competition::InnovativeDesign => "innovative_design"@,
        }
    }

    /// The tag under which the competition is stored and transmitted.
    pub fn tag(self) -> (t: &'static str)
        ensures
            t@ == self.tag_text(),
    {
        match self {
            Competition::SeniorDesign => "senior_design",
            Competition::JuniorDesign => "junior_design",
            Competition::Debate => "debate",
            Competition::Reengineering => "reengineering",
            Competition::Consulting => "consulting",
            Competition::ScientificCommunication => "scientific_communication",
            Competition::Programming => "programming",
            Competition::InnovativeDesign => "innovative_design",
        }
    }

    /// The competition that carries the tag, or `None` where none does.
    pub open spec fn with_tag(tag: Seq<char>) -> Option<Competition> {
        if tag == Competition::SeniorDesign.tag_text() {
            Some(Competition::SeniorDesign)
        } else if tag == Competition::JuniorDesign.tag_text() {
            Some(Competition::JuniorDesign)
        } else if tag == Competition::Debate.tag_text() {
            Some(Competition::Debate)
        } else if tag == Competition::Reengineering.tag_text() {
            Some(Competition::Reengineering)
        } else if tag == Competition::Consulting.tag_text() {
            Some(Competition::Consulting)
        } else if tag == Competition::ScientificCommunication.tag_text() {
            Some(Competition::ScientificCommunication)
        } else if tag == Competition::Programming.tag_text() {
            Some(Competition::Programming)
        } else if tag == Competition::InnovativeDesign.tag_text() {
            Some(Competition::InnovativeDesign)
        } else {
            None
        }
    }

    /// Reads a tag: the competition that carries it, or `None` where no
    /// competition does.
    pub fn from_tag(tag: &str) -> (r: Option<Competition>)
        ensures
            r == Competition::with_tag(tag@),
    {
        if same_text(tag, "senior_design") {
            Some(Competition::SeniorDesign)
        } else if same_text(tag, "junior_design") {
            Some(Competition::JuniorDesign)
        } else if same_text(tag, "debate") {
            Some(Competition::Debate)
        } else if same_text(tag, "reengineering") {
            Some(Competition::Reengineering)
        } else if same_text(tag, "consulting") {
            Some(Competition::Consulting)
        } else if same_text(tag, "scientific_communication") {
            Some(Competition::ScientificCommunication)
        } else if same_text(tag, "programming") {
            Some(Competition::Programming)
        } else if same_text(tag, "innovative_design") {
            Some(Competition::InnovativeDesign)
        } else {
            None
        }
    }

    /// Distinct competitions carry distinct tags.
    pub proof fn tags_are_distinct(a: Competition, b: Competition)
        requires
            a != b,
        ensures
            a.tag_text() != b.tag_text(),
    {
        reveal_strlit("senior_design");
        reveal_strlit("junior_design");
        reveal_strlit("debate");
        reveal_strlit("reengineering");
        reveal_strlit("consulting");
        reveal_strlit("scientific_communication");
        reveal_strlit("programming");
        reveal_strlit("innovative_design");
        let first = |c: Competition| c.tag_text()[0];
        let length = |c: Competition| c.tag_text().len();
        assert(first(Competition::SeniorDesign) == 's' && length(Competition::SeniorDesign) == 13);
        assert(first(Competition::JuniorDesign) == 'j');
        assert(first(Competition::Debate) == 'd');
        assert(first(Competition::Reengineering) == 'r');
        assert(first(Competition::Consulting) == 'c');
        assert(first(Competition::ScientificCommunication) == 's' && length(
            Competition::ScientificCommunication,
        ) == 24);
        assert(first(Competition::Programming) == 'p');
        assert(first(Competition::InnovativeDesign) == 'i');
        assert(first(a) != first(b) || length(a) != length(b));
    }

    /// Reading the tag of a competition gives that competition back, and a
    /// tag is read only as the competition that carries it.
    pub proof fn tag_round_trip(competition: Competition, tag: Seq<char>)
        ensures
            Competition::with_tag(competition.tag_text()) == Some(competition),
            Competition::with_tag(tag) == Some(competition) <==> tag == competition.tag_text(),
    {
        if competition != Competition::SeniorDesign {
            Self::tags_are_distinct(competition, Competition::SeniorDesign);
        }
        if competition != Competition::JuniorDesign {
            Self::tags_are_distinct(competition, Competition::JuniorDesign);
        }
        if competition != Competition::Debate {
            Self::tags_are_distinct(competition, Competition::Debate);
        }
        if competition != Competition::Reengineering {
            Self::tags_are_distinct(competition, Competition::Reengineering);
        }
        if competition != Competition::Consulting {
            Self::tags_are_distinct(competition, Competition::Consulting);
        }
        if competition != Competition::ScientificCommunication {
            Self::tags_are_distinct(competition, Competition::ScientificCommunication);
        }
        if competition != Competition::Programming {
            Self::tags_are_distinct(competition, Competition::Programming);
        }
        if competition != Competition::InnovativeDesign {
            Self::tags_are_distinct(competition, Competition::InnovativeDesign);
        }
    }
}

} // verus!
