use vstd::prelude::*;

verus! {

/// A university, known by its name: the affiliation of a participant or of
/// a chef.
#[derive(Debug)]
pub struct University {
    pub name: String,
}

impl View for University {
    type V = Seq<char>;

    open spec fn view(&self) -> Seq<char> {
        self.name@
    }
}

impl University {
    /// The university of the given name.
    pub fn new(name: String) -> (u: University)
        ensures
            u@ == name@,
    {
        University { name }
    }

    /// Whether both are the same university.
    pub fn same_as(&self, other: &University) -> (same: bool)
        ensures
            same == (self@ == other@),
    {
        self.name == other.name
    }

    /// A copy of the university.
    pub fn duplicate(&self) -> (u: University)
        ensures
            u@ == self@,
    {
        University { name: self.name.clone() }
    }
}

/// The view of an optional university.
pub open spec fn affiliation_view(university: Option<University>) -> Option<Seq<char>> {
    match university {
        Some(u) => Some(u@),
        None => None,
    }
}

} // verus!
