use crate::domain::base64_image_url::{
    spec_base64_image_url_check, spec_size_error, spec_total_bytes, Base64ImageUrl,
};
use crate::domain::content::Content;
use crate::domain::description::Description;
use crate::domain::image_url::{spec_image_url_result, ImageUrl};
use crate::domain::title::Title;
use crate::num::dec_chars;
use crate::text::{is_empty_or_whitespace, trimmed};
use vstd::prelude::*;

verus! {

/// The hyphenated text form of a 128-bit identifier, as uuid renders it: 36
/// characters, a function of the identifier alone.
pub uninterp spec fn uuid_hyphenated(id: u128) -> Seq<char>;

/// Relies on uuid's hyphenated `Display` of `Uuid::from_u128`: deterministic
/// in the identifier.
#[verifier::external_body]
fn format_uuid(id: u128) -> (s: String)
    ensures
        s@ == uuid_hyphenated(id),
{
    uuid::Uuid::from_u128(id).hyphenated().to_string()
}

/// Relies on uuid's `Uuid::new_v4`: the identifier is random, so nothing is
/// promised of the result.
#[verifier::external_body]
fn fresh_uuid() -> (id: u128) {
    uuid::Uuid::new_v4().as_u128()
}

/// What slug::slugify returns for a string; a function of the input alone.
pub uninterp spec fn slug_of(s: Seq<char>) -> Seq<char>;

/// Relies on slug's `slugify`: deterministic in the input.
#[verifier::external_body]
fn slugify_str(s: &str) -> (r: String)
    ensures
        r@ == slug_of(s@),
{
    String::from(slug::slugify(s))
}

/// The mathematical value of a stored newsletter issue.
#[verifier::ext_equal]
pub struct NewsletterIssueView {
    pub content: Seq<char>,
    pub cover_image_url: Seq<char>,
    pub created_at: u64,
    pub description: Seq<char>,
    pub newsletter_issue_id: u128,
    pub published_at: Option<u64>,
    pub slug: Seq<char>,
    pub title: Seq<char>,
    pub user_id: u128,
}

/// A stored newsletter issue, one row of the issues table.
#[derive(Debug)]
pub struct NewsletterIssue {
    pub content: String,
    pub cover_image_url: String,
    pub created_at: u64,
    pub description: String,
    pub newsletter_issue_id: u128,
    pub published_at: Option<u64>,
    pub slug: String,
    pub title: String,
    pub user_id: u128,
}

impl View for NewsletterIssue {
    type V = NewsletterIssueView;

    open spec fn view(&self) -> NewsletterIssueView {
        NewsletterIssueView {
            content: self.content@,
            cover_image_url: self.cover_image_url@,
            created_at: self.created_at,
            description: self.description@,
            newsletter_issue_id: self.newsletter_issue_id,
            published_at: self.published_at,
            slug: self.slug@,
            title: self.title@,
            user_id: self.user_id,
        }
    }
}

/// Whether an issue may be published: content, description and title all
/// pass their published-issue validation.
pub open spec fn spec_publishable(v: NewsletterIssueView) -> bool {
    Content::spec_valid(v.content) && Description::spec_valid(v.description) && Title::spec_valid(
        v.title,
    )
}

/// The message with which `validate_for_publish` rejects an issue.
pub open spec fn spec_publish_validation_error(v: NewsletterIssueView) -> Seq<char> {
    if !Content::spec_valid(v.content) {
        "Content body is required."@
    } else if !Description::spec_valid(v.description) {
        Description::spec_error(v.description)
    } else {
        Title::spec_error(v.title)
    }
}

impl NewsletterIssue {
    /// Checks content, description and title before an issue goes out, in
    /// that order.
    pub fn validate_for_publish(self) -> (r: Result<NewsletterIssue, String>)
        ensures
            r is Ok <==> spec_publishable(self@),
            r matches Ok(i) ==> i@ == self@,
            r matches Err(e) ==> e@ == spec_publish_validation_error(self@),
    {
        let ghost v = self@;
        let content = match Content::parse(self.content) {
            Ok(c) => c,
            Err(e) => {
                return Err(e);
            },
        };
        let description = match Description::parse(self.description) {
            Ok(d) => d,
            Err(e) => {
                return Err(e);
            },
        };
        let title = match Title::parse(self.title) {
            Ok(t) => t,
            Err(e) => {
                return Err(e);
            },
        };
        let r = NewsletterIssue {
            content: content.into_string(),
            cover_image_url: self.cover_image_url,
            created_at: self.created_at,
            description: description.into_string(),
            newsletter_issue_id: self.newsletter_issue_id,
            published_at: self.published_at,
            slug: self.slug,
            title: title.into_string(),
            user_id: self.user_id,
        };
        proof {
            assert(r@ =~= v);
        }
        Ok(r)
    }

    /// The cover image URL that a stored issue is given: the object-store
    /// base, the issue's identifier and the `.webp` suffix.
    pub fn prepare_cover_image_url(newsletter_issue_id: u128, s3_base_url: &str) -> (r: Result<
        String,
        String,
    >)
        ensures
            r is Ok <==> spec_image_url_result(
                spec_cover_image_url_chars(newsletter_issue_id, s3_base_url@),
            ) is Ok,
            r matches Ok(u) ==> u@ == spec_image_url_result(
                spec_cover_image_url_chars(newsletter_issue_id, s3_base_url@),
            )->Ok_0,
            r matches Err(e) ==> e@ == spec_image_url_result(
                spec_cover_image_url_chars(newsletter_issue_id, s3_base_url@),
            )->Err_0,
    {
        let mut url = String::from_str(s3_base_url);
        url.append("/images/newsletter/cover/");
        url.append(format_uuid(newsletter_issue_id).as_str());
        url.append(".webp");
        proof {
            assert(url@ =~= spec_cover_image_url_chars(newsletter_issue_id, s3_base_url@));
        }
        match ImageUrl::parse(url) {
            Ok(u) => Ok(u.into_string()),
            Err(e) => Err(e),
        }
    }

    /// Stamps the cover image URL with a cache-busting version, or clears
    /// it.  The caller supplies the clock reading `now`.
    pub fn set_cover_image_url(self, s3_base_url: &str, is_empty: bool, now: u64) -> (r: Result<
        NewsletterIssue,
        String,
    >)
        ensures
            r matches Ok(i) ==> {
                &&& i@ == (NewsletterIssueView {
                    cover_image_url: spec_versioned_cover_url(
                        self@.newsletter_issue_id,
                        s3_base_url@,
                        is_empty,
                        now,
                    )->Ok_0,
                    ..self@
                })
                &&& spec_versioned_cover_url(
                    self@.newsletter_issue_id,
                    s3_base_url@,
                    is_empty,
                    now,
                ) is Ok
            },
            r matches Err(e) ==> spec_versioned_cover_url(
                self@.newsletter_issue_id,
                s3_base_url@,
                is_empty,
                now,
            ) matches Err(m) && e@ == m,
    {
        let ghost v = self@;
        let cover_image_url: String;
        if is_empty {
            cover_image_url = String::new();
        } else {
            let base = match Self::prepare_cover_image_url(self.newsletter_issue_id, s3_base_url) {
                Ok(u) => u,
                Err(e) => {
                    return Err(e);
                },
            };
            let mut url = base;
            url.append("?v=");
            url.append(crate::num::u64_to_string(now).as_str());
            cover_image_url = url;
        }
        let r = NewsletterIssue { cover_image_url, ..self };
        proof {
            assert(r@ =~= (NewsletterIssueView {
                cover_image_url: spec_versioned_cover_url(
                    v.newsletter_issue_id,
                    s3_base_url@,
                    is_empty,
                    now,
                )->Ok_0,
                ..v
            }));
        }
        Ok(r)
    }
}

/// The characters of the cover image URL built for an issue.
pub open spec fn spec_cover_image_url_chars(id: u128, base: Seq<char>) -> Seq<char> {
    base + "/images/newsletter/cover/"@ + uuid_hyphenated(id) + ".webp"@
}

/// The versioned cover URL that `set_cover_image_url` stores: empty when the
/// issue has no cover, else the prepared URL with `?v=` and the timestamp.
pub open spec fn spec_versioned_cover_url(
    id: u128,
    base: Seq<char>,
    is_empty: bool,
    now: u64,
) -> Result<Seq<char>, Seq<char>> {
    if is_empty {
        Ok(Seq::empty())
    } else {
        match spec_image_url_result(spec_cover_image_url_chars(id, base)) {
            Ok(u) => Ok(u + "?v="@ + dec_chars(now as nat)),
            Err(e) => Err(e),
        }
    }
}

/// The fields a client sends to update an issue.
pub struct NewsletterIssueUpdateParams {
    pub content: String,
    pub description: String,
    pub title: String,
}

/// What updating an issue with new text yields: the updated issue, or the
/// message that rejects the new text.  A draft keeps looser rules than a
/// published issue.
pub open spec fn spec_validate_update(
    v: NewsletterIssueView,
    c: Seq<char>,
    d: Seq<char>,
    t: Seq<char>,
) -> Result<NewsletterIssueView, Seq<char>> {
    if !Title::spec_valid(t) {
        Err(Title::spec_error(t))
    } else if v.published_at is None {
        if !Description::spec_valid_draft(d) {
            Err(Description::spec_error_draft(d))
        } else {
            Ok(NewsletterIssueView { content: c, description: d, title: t, ..v })
        }
    } else {
        if !Content::spec_valid(c) {
            Err("Content body is required."@)
        } else if !Description::spec_valid(d) {
            Err(Description::spec_error(d))
        } else {
            Ok(NewsletterIssueView { content: c, description: d, title: t, ..v })
        }
    }
}

impl NewsletterIssue {
    /// Applies a client's update, validating the new text: a published issue
    /// needs full validation, a draft allows blank content and description.
    pub fn validate_update(self, data: NewsletterIssueUpdateParams) -> (r: Result<
        NewsletterIssue,
        String,
    >)
        ensures
            r is Ok <==> spec_validate_update(self@, data.content@, data.description@, data.title@)
                is Ok,
            r matches Ok(i) ==> i@ == spec_validate_update(
                self@,
                data.content@,
                data.description@,
                data.title@,
            )->Ok_0,
            r matches Err(e) ==> e@ == spec_validate_update(
                self@,
                data.content@,
                data.description@,
                data.title@,
            )->Err_0,
    {
        let ghost v = self@;
        let title = match Title::parse(data.title) {
            Ok(t) => t,
            Err(e) => {
                return Err(e);
            },
        };
        let content: String;
        let description: String;
        if self.published_at.is_none() {
            content = data.content;
            description = match Description::parse_draft(data.description) {
                Ok(d) => d.into_string(),
                Err(e) => {
                    return Err(e);
                },
            };
        } else {
            content = match Content::parse(data.content) {
                Ok(c) => c.into_string(),
                Err(e) => {
                    return Err(e);
                },
            };
            description = match Description::parse(data.description) {
                Ok(d) => d.into_string(),
                Err(e) => {
                    return Err(e);
                },
            };
        }
        let r = NewsletterIssue { content, description, title: title.into_string(), ..self };
        proof {
            assert(r@ =~= spec_validate_update(v, r@.content, r@.description, r@.title)->Ok_0);
        }
        Ok(r)
    }
}

/// The HTML that the markdown renderer produces for a text; a function of
/// the input alone.
pub uninterp spec fn html_of(s: Seq<char>) -> Seq<char>;

/// Relies on markdown's `to_html`: deterministic in the input.
#[verifier::external_body]
pub(crate) fn markdown_to_html(s: &str) -> (r: String)
    ensures
        r@ == html_of(s@),
{
    markdown::to_html(s)
}

/// The text left after HTML tags are stripped; a function of the input
/// alone.
pub uninterp spec fn tags_stripped(s: Seq<char>) -> Seq<char>;

/// Relies on voca_rs's `strip::strip_tags`: deterministic in the input.
#[verifier::external_body]
pub(crate) fn strip_tags_str(s: &str) -> (r: String)
    ensures
        r@ == tags_stripped(s@),
{
    voca_rs::strip::strip_tags(s)
}

/// An issue as the public API returns it, with the markdown body rendered
/// to HTML.
pub struct NewsletterIssueAPI {
    pub content: String,
    pub cover_image_url: String,
    pub description: String,
    pub html_content: String,
    pub newsletter_issue_id: u128,
    pub published_at: Option<u64>,
    pub slug: String,
    pub title: String,
    pub user_id: u128,
}

impl NewsletterIssueAPI {
    /// Renders an issue for the API.
    pub fn from_issue(issue: NewsletterIssue) -> (r: NewsletterIssueAPI)
        ensures
            r.content@ == issue.content@,
            r.cover_image_url@ == issue.cover_image_url@,
            r.description@ == issue.description@,
            r.html_content@ == html_of(issue.content@),
            r.newsletter_issue_id == issue.newsletter_issue_id,
            r.published_at == issue.published_at,
            r.slug@ == issue.slug@,
            r.title@ == issue.title@,
            r.user_id == issue.user_id,
    {
        let html_content = markdown_to_html(issue.content.as_str());
        NewsletterIssueAPI {
            content: issue.content,
            cover_image_url: issue.cover_image_url,
            description: issue.description,
            html_content,
            newsletter_issue_id: issue.newsletter_issue_id,
            published_at: issue.published_at,
            slug: issue.slug,
            title: issue.title,
            user_id: issue.user_id,
        }
    }
}

/// An issue as the notification sender needs it: the markdown body rendered
/// to HTML and, for the plain-text part, stripped of tags.
pub struct NewsletterIssueEmail {
    pub description: String,
    pub html_content: String,
    pub newsletter_issue_id: u128,
    pub published_at: Option<u64>,
    pub slug: String,
    pub text_content: String,
    pub title: String,
    pub user_id: u128,
}

impl NewsletterIssueEmail {
    /// Renders an issue for sending.
    pub fn from_issue(issue: NewsletterIssue) -> (r: NewsletterIssueEmail)
        ensures
            r.description@ == issue.description@,
            r.html_content@ == html_of(issue.content@),
            r.text_content@ == tags_stripped(html_of(issue.content@)),
            r.newsletter_issue_id == issue.newsletter_issue_id,
            r.published_at == issue.published_at,
            r.slug@ == issue.slug@,
            r.title@ == issue.title@,
            r.user_id == issue.user_id,
    {
        let html_content = markdown_to_html(issue.content.as_str());
        let text_content = strip_tags_str(html_content.as_str());
        NewsletterIssueEmail {
            description: issue.description,
            html_content,
            newsletter_issue_id: issue.newsletter_issue_id,
            published_at: issue.published_at,
            slug: issue.slug,
            text_content,
            title: issue.title,
            user_id: issue.user_id,
        }
    }
}

/// The fields of a create-issue request, as the route receives them.
pub struct CreateNewsletterParams {
    pub content: String,
    pub cover_image: String,
    pub description: String,
    pub title: String,
}

impl CreateNewsletterParams {
    /// Pairs the request fields with the object store's base URL, as the
    /// create route does before validating.
    pub fn into_data(self, s3_base_url: String) -> (d: NewNewsletterIssueData)
        ensures
            d.content@ == self.content@,
            d.cover_image@ == self.cover_image@,
            d.description@ == self.description@,
            d.s3_base_url@ == s3_base_url@,
            d.title@ == self.title@,
    {
        NewNewsletterIssueData {
            content: self.content,
            cover_image: self.cover_image,
            description: self.description,
            s3_base_url,
            title: self.title,
        }
    }
}

/// The fields a client sends to create an issue.
pub struct NewNewsletterIssueData {
    pub content: String,
    pub cover_image: String,
    pub description: String,
    pub s3_base_url: String,
    pub title: String,
}

/// A validated issue ready to be stored, with its freshly drawn identifier.
#[derive(Debug)]
pub struct NewNewsletterIssue {
    pub content: String,
    pub cover_image_url: String,
    pub cover_image: String,
    pub description: String,
    pub newsletter_issue_id: u128,
    pub slug: String,
    pub title: String,
}

impl NewNewsletterIssue {
    /// Validates client data into a new issue: the inline cover image
    /// must be a well-formed data URI within
    /// three megabytes, the description a valid draft description, the title
    /// a valid title; the slug is derived from the title and the identifier
    /// is drawn at random.
    pub fn try_from_data(data: NewNewsletterIssueData) -> (r: Result<NewNewsletterIssue, String>)
        ensures
            r matches Ok(n) ==> {
                &&& n.content@ == data.content@
                &&& n.title@ == data.title@
                &&& n.description@ == data.description@
                &&& n.slug@ == slug_of(data.title@)
                &&& Title::spec_valid(data.title@)
                &&& Description::spec_valid_draft(data.description@)
                &&& (trimmed(data.cover_image@).len() == 0 ==> n.cover_image@.len() == 0
                    && n.cover_image_url@.len() == 0)
                &&& (trimmed(data.cover_image@).len() != 0 ==> n.cover_image@
                    == data.cover_image@ && spec_base64_image_url_check(data.cover_image@) is Ok
                    && spec_total_bytes(data.cover_image@) <= 3 * 1024 * 1024 && n.cover_image_url@
                    == spec_image_url_result(
                    spec_cover_image_url_chars(n.newsletter_issue_id, data.s3_base_url@),
                )->Ok_0)
            },
            r matches Err(e) ==> {
                ||| (trimmed(data.cover_image@).len() != 0 && (spec_base64_image_url_check(
                    data.cover_image@,
                ) matches Err(m) && e@ == m))
                ||| (trimmed(data.cover_image@).len() != 0 && spec_total_bytes(data.cover_image@)
                    > 3 * 1024 * 1024 && e@ == spec_size_error(
                    spec_total_bytes(data.cover_image@),
                    3 * 1024 * 1024 as int,
                ))
                ||| (!Description::spec_valid_draft(data.description@) && e@
                    == Description::spec_error_draft(data.description@))
                ||| (!Title::spec_valid(data.title@) && e@ == Title::spec_error(data.title@))
                ||| (exists|id: u128|
                    spec_image_url_result(#[trigger] spec_cover_image_url_chars(id, data.s3_base_url@))
                        matches Err(m) && e@ == m)
            },
    {
        let cover_blank = is_empty_or_whitespace(data.cover_image.as_str());
        let cover_image: String;
        if cover_blank {
            cover_image = String::new();
        } else {
            let parsed = match Base64ImageUrl::parse(data.cover_image) {
                Ok(p) => p,
                Err(e) => {
                    return Err(e);
                },
            };
            let checked = match parsed.validate_size_limit(1024 * 1024 * 3) {
                Ok(c) => c,
                Err(e) => {
                    return Err(e);
                },
            };
            cover_image = checked.into_string();
        }
        let description = match Description::parse_draft(data.description) {
            Ok(d) => d,
            Err(e) => {
                return Err(e);
            },
        };
        let newsletter_issue_id = fresh_uuid();
        let title = match Title::parse(data.title) {
            Ok(t) => t,
            Err(e) => {
                return Err(e);
            },
        };
        let cover_image_url: String;
        if cover_blank {
            cover_image_url = String::new();
        } else {
            cover_image_url =
            match NewsletterIssue::prepare_cover_image_url(
                newsletter_issue_id,
                data.s3_base_url.as_str(),
            ) {
                Ok(u) => u,
                Err(e) => {
                    return Err(e);
                },
            };
        }
        let slug = slugify_str(title.as_str());
        Ok(
            NewNewsletterIssue {
                content: data.content,
                cover_image_url,
                cover_image,
                description: description.into_string(),
                newsletter_issue_id,
                slug,
                title: title.into_string(),
            },
        )
    }
}

} // verus!
