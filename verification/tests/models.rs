use newsletter_core::newsletter::{
    NewNewsletterIssue, NewNewsletterIssueData, NewsletterIssue, NewsletterIssueAPI,
    NewsletterIssueEmail,
};
use newsletter_core::profile::{validate_password, UserProfile};

#[test]
fn valid_new_newsletter_issue_data_can_convert_into_newsletter_issue() {
    let test_newsletter_issue = NewNewsletterIssueData {
        content: String::from("## Newsletter content"),
        description: String::from("Newsletter description"),
        title: String::from("Ursula Le Guin"),
        cover_image: String::from(""),
        s3_base_url: String::from(""),
    };

    assert!(NewNewsletterIssue::try_from_data(test_newsletter_issue).is_ok());
}

#[test]
fn invalid_new_newsletter_issue_data_cannot_convert_into_newsletter_issue() {
    let test_newsletter_issue = NewNewsletterIssueData {
        content: String::from("## Newsletter content"),
        description: String::from("Newsletter description"),
        title: String::from("Ursula>Le Guin"),
        cover_image: String::from(""),
        s3_base_url: String::from(""),
    };

    assert!(NewNewsletterIssue::try_from_data(test_newsletter_issue).is_err());
}

#[test]
fn newsletter_issue_api_correctly_parses_and_sanitizes_content() {
    let new_newsletter_issue = NewNewsletterIssue::try_from_data(NewNewsletterIssueData {
        content: String::from("## Newsletter content"),
        description: String::from("Newsletter description"),
        title: String::from("Ursula Le Guin"),
        cover_image: String::from(""),
        s3_base_url: String::from(""),
    })
    .unwrap();
    let newsletter_issue_api = NewsletterIssueAPI::from_issue(NewsletterIssue {
        content: new_newsletter_issue.content,
        cover_image_url: String::from(""),
        created_at: 1000,
        description: new_newsletter_issue.description,
        newsletter_issue_id: new_newsletter_issue.newsletter_issue_id,
        published_at: Some(2000),
        slug: new_newsletter_issue.slug,
        title: new_newsletter_issue.title,
        user_id: 42,
    });

    assert_eq!(newsletter_issue_api.slug, "ursula-le-guin");
    assert_eq!(newsletter_issue_api.html_content, "<h2>Newsletter content</h2>");
}

#[test]
fn newsletter_issue_email_correctly_parses_and_sanitizes_content() {
    let new_newsletter_issue = NewNewsletterIssue::try_from_data(NewNewsletterIssueData {
        content: String::from("## Newsletter content"),
        description: String::from("Newsletter description"),
        title: String::from("Ursula Le Guin"),
        cover_image: String::from(""),
        s3_base_url: String::from(""),
    })
    .unwrap();
    let newsletter_issue_email = NewsletterIssueEmail::from_issue(NewsletterIssue {
        content: new_newsletter_issue.content,
        cover_image_url: String::from(""),
        created_at: 1000,
        description: new_newsletter_issue.description,
        newsletter_issue_id: new_newsletter_issue.newsletter_issue_id,
        published_at: Some(2000),
        slug: new_newsletter_issue.slug,
        title: new_newsletter_issue.title,
        user_id: 42,
    });

    assert_eq!(newsletter_issue_email.slug, "ursula-le-guin");
    assert_eq!(newsletter_issue_email.html_content, "<h2>Newsletter content</h2>");
    assert_eq!(newsletter_issue_email.text_content, "Newsletter content");
}

#[test]
fn valid_user_profile_data_can_convert_into_user() {
    let test_user = UserProfile {
        bio: "".to_string(),
        description: "some valid text".to_string(),
        display_name: "".to_string(),
        user_id: 1,
    };
    assert!(test_user.validate().is_ok());
}

#[test]
fn invalid_user_profile_data_cannot_convert_into_user() {
    let test_user = UserProfile {
        bio: "".to_string(),
        description: "some valid text".to_string(),
        display_name: "Ur/<>sula-Le-Guin".to_string(),
        user_id: 1,
    };
    assert!(test_user.validate().is_err());

    let test_user = UserProfile {
        bio: "".to_string(),
        description: "Ur/<>sula-Le-Guin".to_string(),
        display_name: "".to_string(),
        user_id: 1,
    };
    assert!(test_user.validate().is_err());
}

#[test]
fn validate_for_publish_accepts_a_complete_issue() {
    let issue = NewsletterIssue {
        content: String::from("## Body"),
        cover_image_url: String::from(""),
        created_at: 0,
        description: String::from("A description"),
        newsletter_issue_id: 9,
        published_at: None,
        slug: String::from("a-title"),
        title: String::from("A title"),
        user_id: 3,
    };

    assert!(issue.validate_for_publish().is_ok());
}

#[test]
fn validate_for_publish_rejects_blank_content_first() {
    let issue = NewsletterIssue {
        content: String::from("  "),
        cover_image_url: String::from(""),
        created_at: 0,
        description: String::from(""),
        newsletter_issue_id: 9,
        published_at: None,
        slug: String::from("a-title"),
        title: String::from(""),
        user_id: 3,
    };

    assert_eq!(issue.validate_for_publish().unwrap_err(), "Content body is required.");
}

#[test]
fn prepare_cover_image_url_renders_the_issue_identifier() {
    let url = NewsletterIssue::prepare_cover_image_url(5, "https://files.example.com").unwrap();

    assert_eq!(
        url,
        "https://files.example.com/images/newsletter/cover/00000000-0000-0000-0000-000000000005.webp"
    );
}

#[test]
fn set_cover_image_url_versions_or_clears_the_url() {
    let issue = NewsletterIssue {
        content: String::from("body"),
        cover_image_url: String::from(""),
        created_at: 0,
        description: String::from("d"),
        newsletter_issue_id: 5,
        published_at: None,
        slug: String::from("s"),
        title: String::from("t"),
        user_id: 3,
    };
    let stamped = issue.set_cover_image_url("https://files.example.com", false, 42).unwrap();
    assert_eq!(
        stamped.cover_image_url,
        "https://files.example.com/images/newsletter/cover/00000000-0000-0000-0000-000000000005.webp?v=42"
    );

    let cleared = stamped.set_cover_image_url("https://files.example.com", true, 43).unwrap();
    assert_eq!(cleared.cover_image_url, "");
}

#[test]
fn validate_password_enforces_match_and_length() {
    assert!(validate_password("one-long-password", "one-long-password").is_ok());
    assert_eq!(
        validate_password("one-long-password", "another-password").unwrap_err(),
        "You entered two different new passwords - the field values must match."
    );
    assert_eq!(
        validate_password("short", "short").unwrap_err(),
        "New password must be longer than 12 characters."
    );
    let long = "x".repeat(129);
    assert_eq!(
        validate_password(&long, &long).unwrap_err(),
        "New password must be shorter than 129 characters."
    );
}
