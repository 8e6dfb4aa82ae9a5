use newsletter_core::newsletter::{NewNewsletterIssue, NewNewsletterIssueData};
use newsletter_core::publish::publish_newsletter_issue;
use newsletter_core::response::see_other;
use newsletter_core::store::Store;
use newsletter_core::upload::{CloudinaryUploadResponse, EagerTransformation};

fn blank_upload_response(secure_url: &str) -> CloudinaryUploadResponse {
    CloudinaryUploadResponse {
        eager: None,
        secure_url: secure_url.to_string(),
        api_key: String::new(),
        asset_folder: String::new(),
        asset_id: String::new(),
        bytes: 0,
        created_at: String::new(),
        display_name: String::new(),
        etag: String::new(),
        format: String::new(),
        height: 0,
        overwritten: None,
        pages: 0,
        placeholder: false,
        public_id: String::new(),
        resource_type: String::new(),
        signature: String::new(),
        url: String::new(),
        version_id: String::new(),
        version: 0,
        width: 0,
    }
}

fn draft_issue(title: &str, description: &str) -> NewNewsletterIssue {
    NewNewsletterIssue::try_from_data(NewNewsletterIssueData {
        content: String::from("## Body"),
        cover_image: String::new(),
        description: description.to_string(),
        s3_base_url: String::new(),
        title: title.to_string(),
    })
    .unwrap()
}

#[test]
fn publishing_an_incomplete_draft_is_rejected_and_rolled_back() {
    let mut store = Store::new();
    let user_id = 7;
    store.add_subscription(user_id, "reader@example.com".to_string(), true);
    // A draft may have a blank description, but publishing requires one.
    let issue_id = draft_issue("A draft", "")
        .validate(user_id, &store)
        .unwrap()
        .insert_newsletter_issue(user_id, &mut store, 100)
        .unwrap();

    let response =
        publish_newsletter_issue(&mut store, user_id, issue_id, "a-key".to_string(), 2000);

    assert_eq!(response.status, 400);
    assert_eq!(
        response.body,
        b"{\"error\":\"A description is required.\"}".to_vec()
    );
    assert_eq!(store.idempotency.len(), 0);
    assert_eq!(store.delivery_queue.len(), 0);
    assert_eq!(store.issues[0].published_at, None);
}

#[test]
fn a_taken_user_and_slug_pair_is_rejected() {
    let mut store = Store::new();
    let user_id = 7;
    let first = draft_issue("Same Title", "d").validate(user_id, &store).unwrap();
    first.insert_newsletter_issue(user_id, &mut store, 100).unwrap();

    let second = draft_issue("Same Title", "d");
    assert_eq!(
        second.validate(user_id, &store).unwrap_err(),
        "User id and slug are not unique."
    );

    // Another user may reuse the slug.
    let other = draft_issue("Same Title", "d");
    assert!(other.validate(8, &store).is_ok());
}

#[test]
fn published_issue_counting_ignores_drafts_and_other_users() {
    let mut store = Store::new();
    let a = draft_issue("One", "d")
        .validate(7, &store)
        .unwrap()
        .insert_newsletter_issue(7, &mut store, 100)
        .unwrap();
    draft_issue("Two", "d")
        .validate(7, &store)
        .unwrap()
        .insert_newsletter_issue(7, &mut store, 100)
        .unwrap();
    draft_issue("Three", "d")
        .validate(8, &store)
        .unwrap()
        .insert_newsletter_issue(8, &mut store, 100)
        .unwrap();

    assert_eq!(store.count_published_issues(7), 0);
    publish_newsletter_issue(&mut store, 7, a, "k".to_string(), 200);
    assert_eq!(store.count_published_issues(7), 1);
    assert_eq!(store.count_published_issues(8), 0);
}

#[test]
fn see_other_carries_the_location_header() {
    let r = see_other("/admin/newsletters");

    assert_eq!(r.status, 303);
    assert_eq!(
        r.headers,
        vec![(b"location".to_vec(), b"/admin/newsletters".to_vec())]
    );
    assert!(r.body.is_empty());
}

#[test]
fn the_effective_image_url_prefers_the_eager_transformation() {
    let plain = blank_upload_response("https://img.example.com/raw.webp");
    assert_eq!(plain.effective_secure_url(), "https://img.example.com/raw.webp");

    let mut eager = blank_upload_response("https://img.example.com/raw.webp");
    eager.eager = Some(vec![EagerTransformation {
        secure_url: "https://img.example.com/cropped.webp".to_string(),
        bytes: 0,
        format: String::new(),
        height: 0,
        transformation: String::new(),
        url: String::new(),
        width: 0,
    }]);
    assert_eq!(
        eager.effective_secure_url(),
        "https://img.example.com/cropped.webp"
    );
}
