use vstd::prelude::*;
use crate::role::Role;
use crate::university::University;

verus! {

/// Identity facts of an authenticated caller: the role, and the university
/// the caller is affiliated with. They are taken as verified.
#[derive(Debug)]
pub struct Claims {
    pub role: Role,
    pub university: University,
}

} // verus!
