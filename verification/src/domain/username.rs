use crate::text::{grapheme_count, is_empty_or_whitespace, is_too_long, trimmed};
use vstd::prelude::*;

verus! {

/// Whether every character of the sequence is a word character (in the
/// Unicode sense used by regular expressions), `.`, `~` or `-`.  The Unicode
/// word-character classes take pages to state, so the judgement is left
/// abstract and contracts speak of it through this name.
pub uninterp spec fn username_pattern_match(s: Seq<char>) -> bool;

/// Relies on regex: whether the whole string matches the character class of
/// word characters, '.', '~' and '-'; a function of the characters alone.
#[verifier::external_body]
fn matches_username_pattern(s: &str) -> (r: bool)
    ensures
        r == username_pattern_match(s@),
{
    let expression = regex::Regex::new("^[\\w.~-]*$").unwrap();
    expression.is_match(s)
}

/// An account name: non-blank, at most 70 grapheme clusters, and made of
/// word characters, '.', '~' and '-' only.
#[derive(Debug)]
pub struct Username(String);

impl View for Username {
    type V = Seq<char>;

    closed spec fn view(&self) -> Seq<char> {
        self.0@
    }
}

impl Username {
    /// Whether `s` is accepted as a username.
    pub open spec fn spec_valid(s: Seq<char>) -> bool {
        trimmed(s).len() != 0 && grapheme_count(s) <= 70 && username_pattern_match(s)
    }

    pub fn parse(s: String) -> (r: Result<Username, String>)
        ensures
            r is Ok <==> Self::spec_valid(s@),
            r matches Ok(u) ==> u@ == s@,
            r matches Err(e) ==> e@ == s@ + " is not a valid username."@,
    {
        let blank = is_empty_or_whitespace(s.as_str());
        let too_long = is_too_long(s.as_str(), 70);
        let pattern_ok = matches_username_pattern(s.as_str());
        if blank || too_long || !pattern_ok {
            let mut m = s;
            m.append(" is not a valid username.");
            Err(m)
        } else {
            Ok(Username(s))
        }
    }

    pub fn as_str(&self) -> (r: &str)
        ensures
            r@ == self@,
    {
        self.0.as_str()
    }

    pub fn into_string(self) -> (r: String)
        ensures
            r@ == self@,
    {
        self.0
    }
}

} // verus!
