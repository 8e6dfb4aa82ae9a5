use newsletter_core::num::{sat_add, u64_to_string};
use newsletter_core::response::{ResponseErrorMessage, ResponseMessage};
use newsletter_core::store::Store;
use newsletter_core::worker::{
    claim_task, complete_task, try_execute_task, ClaimOutcome, DeliveryRow, ExecutionOutcome,
    SendOutcome,
};

fn store_with_rows(rows: &[(&str, bool, u32, u64)]) -> Store {
    // Each row: subscriber email, confirmed, n_retries, execute_after.
    let mut store = Store::new();
    let user_id = 7;
    store.issues.push(newsletter_core::newsletter::NewsletterIssue {
        content: String::from("## Hello"),
        cover_image_url: String::from(""),
        created_at: 0,
        description: String::from("d"),
        newsletter_issue_id: 1,
        published_at: Some(10),
        slug: String::from("hello"),
        title: String::from("Hello"),
        user_id,
    });
    for (email, confirmed, n_retries, execute_after) in rows {
        store.add_subscription(user_id, email.to_string(), *confirmed);
        store.delivery_queue.push(DeliveryRow {
            newsletter_issue_id: 1,
            subscriber_email: email.to_string(),
            n_retries: *n_retries,
            execute_after: *execute_after,
        });
    }
    store
}

#[test]
fn draining_n_confirmed_rows_sends_n_notifications_and_empties_the_queue() {
    let mut store = store_with_rows(&[
        ("a@example.com", true, 0, 0),
        ("b@example.com", true, 0, 0),
        ("c@example.com", true, 0, 0),
    ]);

    let mut sends = 0;
    loop {
        match claim_task(&mut store, 100) {
            ClaimOutcome::EmptyQueue => break,
            ClaimOutcome::Completed => {}
            ClaimOutcome::Send(task) => {
                sends += 1;
                complete_task(&mut store, task, SendOutcome::Delivered, 100, 3);
            }
        }
    }

    assert_eq!(sends, 3);
    assert_eq!(store.delivery_queue.len(), 0);
}

#[test]
fn an_unconfirmed_subscriber_row_is_removed_without_sending() {
    let mut store = store_with_rows(&[("pending@example.com", false, 0, 0)]);

    match claim_task(&mut store, 100) {
        ClaimOutcome::Completed => {}
        _ => panic!("an unconfirmed row must be settled without a send"),
    }
    assert_eq!(store.delivery_queue.len(), 0);
    match claim_task(&mut store, 100) {
        ClaimOutcome::EmptyQueue => {}
        _ => panic!("the queue must be empty afterwards"),
    }
}

#[test]
fn the_notification_carries_the_rendered_issue() {
    let mut store = store_with_rows(&[("a@example.com", true, 0, 0)]);

    match claim_task(&mut store, 100) {
        ClaimOutcome::Send(task) => {
            assert_eq!(task.notification.subscriber_email, "a@example.com");
            assert_eq!(task.notification.title, "Hello");
            assert_eq!(task.notification.html_content, "<h2>Hello</h2>");
            assert_eq!(task.notification.text_content, "Hello");
        }
        _ => panic!("a confirmed row must ask for a send"),
    }
}

#[test]
fn a_send_failure_backs_the_row_off_and_keeps_it_claimable() {
    let mut store = store_with_rows(&[("a@example.com", true, 0, 50)]);

    // Not claimable before its window.
    match claim_task(&mut store, 49) {
        ClaimOutcome::EmptyQueue => {}
        _ => panic!("the row must not be claimable before execute_after"),
    }

    // Claim at 50, fail the send: one more retry, window 2^1 seconds.
    match claim_task(&mut store, 50) {
        ClaimOutcome::Send(task) => {
            complete_task(&mut store, task, SendOutcome::TransientFailure, 50, 3);
        }
        _ => panic!("the row must be claimable at execute_after"),
    }
    assert_eq!(store.delivery_queue.len(), 1);
    assert_eq!(store.delivery_queue[0].n_retries, 1);
    assert_eq!(store.delivery_queue[0].execute_after, 52);

    // Still backing off at 51; claimable again once the window elapsed.
    match claim_task(&mut store, 51) {
        ClaimOutcome::EmptyQueue => {}
        _ => panic!("the row must wait out its backoff window"),
    }
    match claim_task(&mut store, 52) {
        ClaimOutcome::Send(task) => {
            complete_task(&mut store, task, SendOutcome::Delivered, 52, 3);
        }
        _ => panic!("the row must be claimable after the window"),
    }
    assert_eq!(store.delivery_queue.len(), 0);
}

#[test]
fn exhausted_retries_abandon_the_row_for_good() {
    let mut store = store_with_rows(&[("a@example.com", true, 3, 0)]);

    match claim_task(&mut store, 100) {
        ClaimOutcome::Send(task) => {
            complete_task(&mut store, task, SendOutcome::TransientFailure, 100, 3);
        }
        _ => panic!("the row must be claimable"),
    }
    assert_eq!(store.delivery_queue.len(), 0);
    match try_execute_task(&mut store, 200, SendOutcome::Delivered, 3) {
        ExecutionOutcome::EmptyQueue => {}
        _ => panic!("an abandoned row must never be attempted again"),
    }
}

#[test]
fn try_execute_task_handles_one_row_per_call() {
    let mut store = store_with_rows(&[("a@example.com", true, 0, 0), ("b@example.com", true, 0, 0)]);

    assert!(matches!(
        try_execute_task(&mut store, 100, SendOutcome::Delivered, 3),
        ExecutionOutcome::TaskCompleted
    ));
    assert_eq!(store.delivery_queue.len(), 1);
    assert!(matches!(
        try_execute_task(&mut store, 100, SendOutcome::Delivered, 3),
        ExecutionOutcome::TaskCompleted
    ));
    assert!(matches!(
        try_execute_task(&mut store, 100, SendOutcome::Delivered, 3),
        ExecutionOutcome::EmptyQueue
    ));
}

#[test]
fn decimal_rendering_matches_display() {
    assert_eq!(u64_to_string(0), "0");
    assert_eq!(u64_to_string(7), "7");
    assert_eq!(u64_to_string(1234567890), "1234567890");
    assert_eq!(u64_to_string(u64::MAX), format!("{}", u64::MAX));
}

#[test]
fn saturating_add_clamps_at_the_maximum() {
    assert_eq!(sat_add(1, 2), 3);
    assert_eq!(sat_add(u64::MAX - 1, 5), u64::MAX);
}

#[test]
fn json_bodies_escape_their_payload() {
    let message = ResponseMessage::from(String::from("say \"hi\" \\ there"));
    assert_eq!(
        message.to_json_body(),
        b"{\"message\":\"say \\\"hi\\\" \\\\ there\"}".to_vec()
    );

    let error = ResponseErrorMessage::from(String::from("line\nbreak"));
    assert_eq!(
        error.to_json_body(),
        b"{\"error\":\"line\\nbreak\"}".to_vec()
    );
}
