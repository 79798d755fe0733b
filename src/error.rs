use vstd::prelude::*;
use vstd::string::*;

verus! {

/// The failures that the library reports.
#[derive(Debug, PartialEq)]
pub enum Error {
    Custom(String),
    InvalidJson(String),
    GenericParseMissingEq,
    ChildProcErrorCode(i32),
    ChildProcTerminated,
    GenericNotFound(String),
    FoundWildEvents(usize),
    FailedCoverage(usize),
    UnknownSeverity(String),
    MissingTimeUnits,
    ExpectingTimestamp,
    ExpectingSeverity,
    ExpectingTopic,
    UnsupportedLang(String),
    UnimplementedLang(String),
}

/// What `char::to_lowercase` makes of one character: it depends on the
/// character alone.
pub uninterp spec fn char_lower_of(c: char) -> Seq<char>;

/// Relies on `char::to_lowercase`: the lowercase form of one character.
#[verifier::external_body]
fn lower_char(c: char) -> (r: String)
    ensures
        r@ == char_lower_of(c),
{
    c.to_lowercase().collect()
}

/// `s` with its first character replaced by `head`; an empty `s` stays empty.
pub open spec fn with_head(head: Seq<char>, s: Seq<char>) -> Seq<char> {
    if s.len() == 0 {
        s
    } else {
        head + s.subrange(1, s.len() as int)
    }
}

/// `s` with its first character in lower case.
pub open spec fn lowered_first(s: Seq<char>) -> Seq<char> {
    if s.len() == 0 {
        s
    } else {
        with_head(char_lower_of(s[0]), s)
    }
}

impl Error {
    /// Presents the message `s` without the first letter being capitalized.
    pub fn lowerize(s: String) -> (r: String)
        ensures
            r@ == lowered_first(s@),
    {
        if s.as_str().unicode_len() == 0 {
            return s;
        }
        let head = lower_char(s.as_str().get_char(0));
        Self::lowerize_from(head.as_str(), s.as_str())
    }

    /// Replaces the first character of `s` with `head`, the lowercase form
    /// of that character; an empty `s` stays empty.
    pub fn lowerize_from(head: &str, s: &str) -> (r: String)
        ensures
            r@ == with_head(head@, s@),
    {
        let n = s.unicode_len();
        if n == 0 {
            return String::new();
        }
        let mut r = String::from_str(head);
        r.append(s.substring_char(1, n));
        r
    }

    /// The error for a malformed interface document, from the parser's diagnostic.
    pub fn invalid_json(diagnostic: String) -> (r: Error)
        ensures
            r matches Error::InvalidJson(m) && m@ == lowered_first(diagnostic@),
    {
        Error::InvalidJson(Self::lowerize(diagnostic))
    }
}

} // verus!
