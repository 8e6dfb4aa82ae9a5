use crate::text::{
    contains_forbidden_characters, grapheme_count, is_too_long, spec_contains_forbidden,
};
use vstd::prelude::*;

verus! {

/// A user profile display name: at most 70 grapheme clusters and free of the
/// forbidden characters; it may be empty.
#[derive(Debug)]
pub struct DisplayName(String);

impl View for DisplayName {
    type V = Seq<char>;

    closed spec fn view(&self) -> Seq<char> {
        self.0@
    }
}

impl DisplayName {
    /// Whether `s` is accepted as a display name.
    pub open spec fn spec_valid(s: Seq<char>) -> bool {
        grapheme_count(s) <= 70 && !spec_contains_forbidden(s)
    }

    /// The message returned when `s` is rejected.
    pub open spec fn spec_error(s: Seq<char>) -> Seq<char> {
        if grapheme_count(s) > 70 {
            "Display name exceeds character limit."@
        } else {
            "Display name includes illegal characters."@
        }
    }

    pub fn parse(s: String) -> (r: Result<DisplayName, String>)
        ensures
            r is Ok <==> Self::spec_valid(s@),
            r matches Ok(d) ==> d@ == s@,
            r matches Err(e) ==> e@ == Self::spec_error(s@),
    {
        if is_too_long(s.as_str(), 70) {
            Err(String::from_str("Display name exceeds character limit."))
        } else if contains_forbidden_characters(s.as_str()) {
            Err(String::from_str("Display name includes illegal characters."))
        } else {
            Ok(DisplayName(s))
        }
    }

    pub fn as_str(&self) -> (r: &str)
        ensures
            r@ == self@,
    {
        self.0.as_str()
    }

    pub fn into_string(self) -> (r: String)
        ensures
            r@ == self@,
    {
        self.0
    }
}

} // verus!
