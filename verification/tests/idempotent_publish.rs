use newsletter_core::idempotency::{
    save_response, try_processing, IdempotencyKey, NextAction, SavedResponse,
};
use newsletter_core::newsletter::{NewNewsletterIssue, NewNewsletterIssueData, NewsletterIssue};
use newsletter_core::publish::{
    enqueue_delivery_tasks, publish_newsletter_issue, success_message,
};
use newsletter_core::response::HttpResponse;
use newsletter_core::store::Store;
use newsletter_core::worker::{claim_task, complete_task, ClaimOutcome, SendOutcome};

fn store_with_issue(user_id: u128, subscribers: &[(&str, bool)]) -> (Store, u128) {
    let mut store = Store::new();
    for (email, confirmed) in subscribers {
        store.add_subscription(user_id, email.to_string(), *confirmed);
    }
    let new_issue = NewNewsletterIssue::try_from_data(NewNewsletterIssueData {
        content: String::from("## Newsletter content"),
        cover_image: String::from(""),
        description: String::from("Newsletter description"),
        s3_base_url: String::from(""),
        title: String::from("Ursula Le Guin"),
    })
    .unwrap();
    let new_issue = new_issue.validate(user_id, &store).unwrap();
    let issue_id = new_issue
        .insert_newsletter_issue(user_id, &mut store, 100)
        .unwrap();
    (store, issue_id)
}

fn drain(store: &mut Store, now: u64) -> usize {
    let mut sends = 0;
    loop {
        match claim_task(store, now) {
            ClaimOutcome::EmptyQueue => break,
            ClaimOutcome::Completed => {}
            ClaimOutcome::Send(task) => {
                sends += 1;
                complete_task(store, task, SendOutcome::Delivered, now, 3);
            }
        }
    }
    sends
}

#[test]
fn idempotency_key_rules() {
    assert!(IdempotencyKey::parse("k".to_string()).is_ok());
    assert!(IdempotencyKey::parse("x".repeat(50)).is_ok());
    assert_eq!(
        IdempotencyKey::parse("".to_string()).unwrap_err(),
        "The idempotency key cannot be empty."
    );
    assert_eq!(
        IdempotencyKey::parse("x".repeat(51)).unwrap_err(),
        "The idempotency key must be shorter than 50 characters."
    );
}

#[test]
fn publish_accepts_and_enqueues_one_row_per_confirmed_subscriber() {
    let user_id = 7;
    let (mut store, issue_id) = store_with_issue(user_id, &[("reader@example.com", true)]);

    let response = publish_newsletter_issue(
        &mut store,
        user_id,
        issue_id,
        "11111111-1111-1111-1111-111111111111".to_string(),
        2000,
    );

    assert_eq!(response.status, 200);
    assert_eq!(
        response.body,
        b"{\"message\":\"The newsletter issue has been accepted - emails will go out shortly.\"}"
            .to_vec()
    );
    assert_eq!(store.delivery_queue.len(), 1);
    assert_eq!(store.issues[0].published_at, Some(2000));

    let sends = drain(&mut store, 3000);
    assert_eq!(sends, 1);
    assert_eq!(store.delivery_queue.len(), 0);
}

#[test]
fn publishing_twice_with_the_same_key_mutates_once_and_replays_the_response() {
    let user_id = 7;
    let (mut store, issue_id) = store_with_issue(
        user_id,
        &[("one@example.com", true), ("two@example.com", true)],
    );
    let key = "22222222-2222-2222-2222-222222222222".to_string();

    let first = publish_newsletter_issue(&mut store, user_id, issue_id, key.clone(), 2000);
    let rows_after_first = store.delivery_queue.len();
    let second = publish_newsletter_issue(&mut store, user_id, issue_id, key, 9000);

    assert_eq!(first.status, second.status);
    assert_eq!(first.body, second.body);
    assert_eq!(first.headers, second.headers);
    assert_eq!(rows_after_first, 2);
    assert_eq!(store.delivery_queue.len(), 2);
    assert_eq!(store.idempotency.len(), 1);
}

#[test]
fn malformed_keys_are_rejected_before_any_row_is_reserved() {
    let user_id = 7;
    let (mut store, issue_id) = store_with_issue(user_id, &[("reader@example.com", true)]);

    for bad in [String::new(), "x".repeat(51)] {
        let response = publish_newsletter_issue(&mut store, user_id, issue_id, bad, 2000);
        assert_eq!(response.status, 400);
        assert_eq!(store.idempotency.len(), 0);
        assert_eq!(store.delivery_queue.len(), 0);
    }
}

#[test]
fn missing_issue_rolls_back_the_reservation() {
    let user_id = 7;
    let (mut store, _issue_id) = store_with_issue(user_id, &[("reader@example.com", true)]);

    let response =
        publish_newsletter_issue(&mut store, user_id, 424242, "a-key".to_string(), 2000);

    assert_eq!(response.status, 404);
    assert_eq!(
        response.body,
        b"{\"error\":\"Failed to query for newsletter issue.\"}".to_vec()
    );
    assert_eq!(store.idempotency.len(), 0);
    assert_eq!(store.delivery_queue.len(), 0);

    let retry = publish_newsletter_issue(&mut store, user_id, 424242, "a-key".to_string(), 2001);
    assert_eq!(retry.status, 404);
}

#[test]
fn concurrent_duplicate_submissions_mutate_once_and_agree() {
    let user_id = 7;
    let (mut store, issue_id) = store_with_issue(user_id, &[("reader@example.com", true)]);
    let key = IdempotencyKey::parse("33333333-3333-3333-3333-333333333333".to_string()).unwrap();

    // The winner reserves the key and starts processing.
    let winner_txn = match try_processing(&mut store, &key, user_id) {
        Ok(NextAction::StartProcessing(txn)) => txn,
        _ => panic!("the first submission must start processing"),
    };

    // The loser arrives while the row is reserved but not finalized; in the
    // real system it blocks on the row lock, which surfaces here as an error.
    match try_processing(&mut store, &key, user_id) {
        Err(e) => assert_eq!(e, "We expected a saved response, we didn't find it."),
        _ => panic!("a reserved key must not start processing again"),
    }

    // The winner performs the mutation inside its transaction and commits.
    let issue =
        NewsletterIssue::find_by_user_id_and_newsletter_issue_id_txn(user_id, issue_id, &store)
            .unwrap()
            .validate_for_publish()
            .unwrap();
    let mut winner_txn = winner_txn;
    issue.publish_newsletter(&mut winner_txn, 500);
    enqueue_delivery_tasks(&mut winner_txn, &store, issue_id, user_id);
    let winner_response = save_response(
        &mut store,
        winner_txn,
        &key,
        user_id,
        HttpResponse::ok_json_message(success_message()),
    );

    // The loser retries and replays the winner's response verbatim.
    let loser_response = match try_processing(&mut store, &key, user_id) {
        Ok(NextAction::ReturnSavedResponse(r)) => r,
        _ => panic!("a finalized key must replay the saved response"),
    };
    assert_eq!(winner_response, loser_response);

    // The mutation happened exactly once.
    assert_eq!(store.delivery_queue.len(), 1);
    assert_eq!(store.issues[0].published_at, Some(500));
    let sends = drain(&mut store, 1000);
    assert_eq!(sends, 1);
}

#[test]
fn saved_response_round_trips_bit_for_bit() {
    let original = HttpResponse {
        status: 201,
        headers: vec![
            (b"content-type".to_vec(), b"application/json".to_vec()),
            (b"x-request-id".to_vec(), vec![0, 159, 146, 150]),
        ],
        body: vec![123, 34, 107, 34, 58, 49, 125],
    };

    let saved = SavedResponse::from_response(&original);
    let reconstructed = saved.to_response();
    let resaved = SavedResponse::from_response(&reconstructed);

    assert_eq!(reconstructed, original);
    assert_eq!(resaved.status, saved.status);
    assert_eq!(resaved.headers, saved.headers);
    assert_eq!(resaved.body, saved.body);
}
