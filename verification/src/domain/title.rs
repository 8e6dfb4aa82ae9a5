use crate::text::{
    contains_forbidden_characters, grapheme_count, is_empty_or_whitespace, is_too_long,
    spec_contains_forbidden, trimmed,
};
use vstd::prelude::*;

verus! {

/// A newsletter issue title: non-blank, at most 70 grapheme clusters, and
/// free of the forbidden characters.
#[derive(Debug)]
pub struct Title(String);

impl View for Title {
    type V = Seq<char>;

    closed spec fn view(&self) -> Seq<char> {
        self.0@
    }
}

impl Title {
    /// Whether `s` is accepted as a title.
    pub open spec fn spec_valid(s: Seq<char>) -> bool {
        trimmed(s).len() != 0 && grapheme_count(s) <= 70 && !spec_contains_forbidden(s)
    }

    /// The message returned when `s` is rejected.
    pub open spec fn spec_error(s: Seq<char>) -> Seq<char> {
        if trimmed(s).len() == 0 {
            "A title is required."@
        } else if grapheme_count(s) > 70 {
            "Title exceeds character limit."@
        } else {
            "Title includes illegal characters."@
        }
    }

    pub fn parse(s: String) -> (r: Result<Title, String>)
        ensures
            r is Ok <==> Self::spec_valid(s@),
            r matches Ok(t) ==> t@ == s@,
            r matches Err(e) ==> e@ == Self::spec_error(s@),
    {
        if is_empty_or_whitespace(s.as_str()) {
            Err(String::from_str("A title is required."))
        } else if is_too_long(s.as_str(), 70) {
            Err(String::from_str("Title exceeds character limit."))
        } else if contains_forbidden_characters(s.as_str()) {
            Err(String::from_str("Title includes illegal characters."))
        } else {
            Ok(Title(s))
        }
    }

    pub fn as_str(&self) -> (r: &str)
        ensures
            r@ == self@,
    {
        self.0.as_str()
    }

    pub fn into_string(self) -> (r: String)
        ensures
            r@ == self@,
    {
        self.0
    }
}

} // verus!
