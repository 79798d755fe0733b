use crate::error::lowered_first;
use vstd::prelude::*;

verus! {

/// The failures of the lighter command set.
#[derive(Debug, PartialEq)]
pub enum Error {
    InvalidJson(String),
    GenericParseMissingEq,
}

impl Error {
    /// Presents the message `s` without the first letter being capitalized.
    pub fn lowerize(s: String) -> (r: String)
        ensures
            r@ == lowered_first(s@),
    {
        crate::error::Error::lowerize(s)
    }

    /// The error for a malformed interface document, from the parser's diagnostic.
    pub fn invalid_json(diagnostic: String) -> (r: Error)
        ensures
            r matches Error::InvalidJson(m) && m@ == lowered_first(diagnostic@),
    {
        Error::InvalidJson(Self::lowerize(diagnostic))
    }
}

} // verus!
