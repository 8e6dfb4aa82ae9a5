use crate::text::{
    contains_forbidden_characters, grapheme_count, is_empty_or_whitespace, is_too_long,
    spec_contains_forbidden, trimmed,
};
use vstd::prelude::*;

verus! {

/// A newsletter issue description: at most 200 grapheme clusters and free of
/// the forbidden characters; drafts may additionally be blank.
#[derive(Debug)]
pub struct Description(String);

impl View for Description {
    type V = Seq<char>;

    closed spec fn view(&self) -> Seq<char> {
        self.0@
    }
}

impl Description {
    /// Whether `s` is accepted as the description of a published issue.
    pub open spec fn spec_valid(s: Seq<char>) -> bool {
        trimmed(s).len() != 0 && grapheme_count(s) <= 200 && !spec_contains_forbidden(s)
    }

    /// Whether `s` is accepted as the description of a draft.
    pub open spec fn spec_valid_draft(s: Seq<char>) -> bool {
        grapheme_count(s) <= 200 && !spec_contains_forbidden(s)
    }

    /// The message returned when `s` is rejected by `parse`.
    pub open spec fn spec_error(s: Seq<char>) -> Seq<char> {
        if trimmed(s).len() == 0 {
            "A description is required."@
        } else {
            Self::spec_error_draft(s)
        }
    }

    /// The message returned when `s` is rejected by `parse_draft`.
    pub open spec fn spec_error_draft(s: Seq<char>) -> Seq<char> {
        if grapheme_count(s) > 200 {
            "Description exceeds character limit."@
        } else {
            "Description includes illegal characters."@
        }
    }

    pub fn parse(s: String) -> (r: Result<Description, String>)
        ensures
            r is Ok <==> Self::spec_valid(s@),
            r matches Ok(d) ==> d@ == s@,
            r matches Err(e) ==> e@ == Self::spec_error(s@),
    {
        if is_empty_or_whitespace(s.as_str()) {
            Err(String::from_str("A description is required."))
        } else if is_too_long(s.as_str(), 200) {
            Err(String::from_str("Description exceeds character limit."))
        } else if contains_forbidden_characters(s.as_str()) {
            Err(String::from_str("Description includes illegal characters."))
        } else {
            Ok(Description(s))
        }
    }

    pub fn parse_draft(s: String) -> (r: Result<Description, String>)
        ensures
            r is Ok <==> Self::spec_valid_draft(s@),
            r matches Ok(d) ==> d@ == s@,
            r matches Err(e) ==> e@ == Self::spec_error_draft(s@),
    {
        if is_too_long(s.as_str(), 200) {
            Err(String::from_str("Description exceeds character limit."))
        } else if contains_forbidden_characters(s.as_str()) {
            Err(String::from_str("Description includes illegal characters."))
        } else {
            Ok(Description(s))
        }
    }

    pub fn as_str(&self) -> (r: &str)
        ensures
            r@ == self@,
    {
        self.0.as_str()
    }

    pub fn into_string(self) -> (r: String)
        ensures
            r@ == self@,
    {
        self.0
    }
}

} // verus!
