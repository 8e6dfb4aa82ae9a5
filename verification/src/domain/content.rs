use crate::text::{is_empty_or_whitespace, trimmed};
use vstd::prelude::*;

verus! {

/// The markdown body of a newsletter issue: any non-blank text.
#[derive(Debug)]
pub struct Content(String);

impl View for Content {
    type V = Seq<char>;

    closed spec fn view(&self) -> Seq<char> {
        self.0@
    }
}

impl Content {
    /// Whether `s` is accepted as issue content.
    pub open spec fn spec_valid(s: Seq<char>) -> bool {
        trimmed(s).len() != 0
    }

    pub fn parse(s: String) -> (r: Result<Content, String>)
        ensures
            r is Ok <==> Self::spec_valid(s@),
            r matches Ok(c) ==> c@ == s@,
            r matches Err(e) ==> e@ == "Content body is required."@,
    {
        if is_empty_or_whitespace(s.as_str()) {
            Err(String::from_str("Content body is required."))
        } else {
            Ok(Content(s))
        }
    }

    pub fn as_str(&self) -> (r: &str)
        ensures
            r@ == self@,
    {
        self.0.as_str()
    }

    pub fn into_string(self) -> (r: String)
        ensures
            r@ == self@,
    {
        self.0
    }
}

} // verus!
