use vstd::prelude::*;

verus! {

/// Analysis of a simulation's results; it has no settings yet.
pub struct Check {}

impl Check {
    pub fn new() -> Check {
        Check {}
    }
}

} // verus!
