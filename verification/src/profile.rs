use crate::domain::description::Description;
use crate::domain::display_name::DisplayName;
use vstd::prelude::*;

verus! {

/// A user's profile text, as stored.
pub struct UserProfile {
    pub bio: String,
    pub description: String,
    pub display_name: String,
    pub user_id: u128,
}

impl UserProfile {
    /// The blank profile every new user starts with.
    pub fn initialize(user_id: u128) -> (p: UserProfile)
        ensures
            p.bio@.len() == 0,
            p.description@.len() == 0,
            p.display_name@.len() == 0,
            p.user_id == user_id,
    {
        UserProfile {
            bio: String::new(),
            description: String::new(),
            display_name: String::new(),
            user_id,
        }
    }

    /// Validates the profile text before it is stored: the description and
    /// the display name may be empty but are bounded and free of forbidden
    /// characters; the bio passes through unchecked.
    pub fn validate(self) -> (r: Result<UserProfile, String>)
        ensures
            r is Ok <==> Description::spec_valid_draft(self.description@)
                && DisplayName::spec_valid(self.display_name@),
            r matches Ok(p) ==> p.bio@ == self.bio@ && p.description@ == self.description@
                && p.display_name@ == self.display_name@ && p.user_id == self.user_id,
            r matches Err(e) ==> e@ == (if !Description::spec_valid_draft(self.description@) {
                Description::spec_error_draft(self.description@)
            } else {
                DisplayName::spec_error(self.display_name@)
            }),
    {
        let description = match Description::parse_draft(self.description) {
            Ok(d) => d.into_string(),
            Err(e) => {
                return Err(e);
            },
        };
        let display_name = match DisplayName::parse(self.display_name) {
            Ok(d) => d.into_string(),
            Err(e) => {
                return Err(e);
            },
        };
        Ok(UserProfile { bio: self.bio, description, display_name, user_id: self.user_id })
    }
}

/// A profile as the API returns it, with the owner's account name and the
/// count of published issues.
pub struct UserProfileAPI {
    pub bio: String,
    pub description: String,
    pub display_name: String,
    pub username: String,
    pub total_issues: Option<i64>,
}

/// What changing a password requires of the new value: the two entries
/// match and the length is between 13 and 128 characters.
pub open spec fn spec_password_accepted(pw: Seq<char>, check: Seq<char>) -> bool {
    pw == check && 12 < pw.len() < 129
}

/// The message with which a new password is rejected.
pub open spec fn spec_password_error(pw: Seq<char>, check: Seq<char>) -> Seq<char> {
    if pw != check {
        "You entered two different new passwords - the field values must match."@
    } else if pw.len() <= 12 {
        "New password must be longer than 12 characters."@
    } else {
        "New password must be shorter than 129 characters."@
    }
}

/// Checks a new password and its confirmation before anything is hashed
/// or stored.
pub fn validate_password(password: &str, password_check: &str) -> (r: Result<(), String>)
    ensures
        r is Ok <==> spec_password_accepted(password@, password_check@),
        r matches Err(e) ==> e@ == spec_password_error(password@, password_check@),
{
    if !crate::text::str_eq(password, password_check) {
        Err(
            String::from_str(
                "You entered two different new passwords - the field values must match.",
            ),
        )
    } else if password.unicode_len() <= 12 {
        Err(String::from_str("New password must be longer than 12 characters."))
    } else if password.unicode_len() >= 129 {
        Err(String::from_str("New password must be shorter than 129 characters."))
    } else {
        Ok(())
    }
}

} // verus!
