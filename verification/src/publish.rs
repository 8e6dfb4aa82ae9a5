use crate::idempotency::{
    lemma_idem_at, save_response, spec_commit, spec_reserve, spec_rollback, try_processing,
    IdempotencyKey, IdempotencyRecordView, NextAction, Transaction, TransactionView,
};
use crate::newsletter::{
    spec_publish_validation_error, spec_publishable, NewsletterIssue,
};
use crate::response::{
    e400, e404, e500, spec_error_body_chars, spec_json_response, spec_message_body_chars,
    HttpResponse, HttpResponseView,
};
use crate::store::{Store, StoreView, SubscriptionView};
use crate::worker::{DeliveryRow, DeliveryRowView};
use vstd::prelude::*;

verus! {

/// The body message of a successful publish.
pub open spec fn spec_success_message() -> Seq<char> {
    "The newsletter issue has been accepted - emails will go out shortly."@
}

/// The success message shown when a publish is accepted.
pub fn success_message() -> (r: &'static str)
    ensures
        r@ == spec_success_message(),
{
    "The newsletter issue has been accepted - emails will go out shortly."
}

/// The 400 response for message `m`.
pub open spec fn spec_bad_request(m: Seq<char>) -> HttpResponseView {
    spec_json_response(400, spec_error_body_chars(m))
}

/// The 404 response for message `m`.
pub open spec fn spec_not_found(m: Seq<char>) -> HttpResponseView {
    spec_json_response(404, spec_error_body_chars(m))
}

/// The 500 response for message `m`.
pub open spec fn spec_server_error(m: Seq<char>) -> HttpResponseView {
    spec_json_response(500, spec_error_body_chars(m))
}

/// The delivery rows that publishing an issue enqueues: one per confirmed
/// subscription of the issue's owner, in table order, with no retries yet
/// and eligible at once.
pub open spec fn spec_delivery_rows(
    subs: Seq<SubscriptionView>,
    newsletter_issue_id: u128,
    user_id: u128,
) -> Seq<DeliveryRowView>
    decreases subs.len(),
{
    if subs.len() == 0 {
        Seq::empty()
    } else {
        spec_delivery_rows(subs.drop_last(), newsletter_issue_id, user_id) + (
        if subs.last().user_id == user_id && subs.last().confirmed {
            seq![
                DeliveryRowView {
                    newsletter_issue_id,
                    subscriber_email: subs.last().email,
                    n_retries: 0,
                    execute_after: 0,
                },
            ]
        } else {
            Seq::empty()
        })
    }
}

proof fn lemma_delivery_rows_snoc(subs: Seq<SubscriptionView>, i: int, id: u128, u: u128)
    requires
        0 <= i < subs.len(),
    ensures
        spec_delivery_rows(subs.take(i + 1), id, u) == spec_delivery_rows(subs.take(i), id, u) + (
        if subs[i].user_id == u && subs[i].confirmed {
            seq![
                DeliveryRowView {
                    newsletter_issue_id: id,
                    subscriber_email: subs[i].email,
                    n_retries: 0,
                    execute_after: 0,
                },
            ]
        } else {
            Seq::empty()
        }),
{
    assert(subs.take(i + 1).drop_last() =~= subs.take(i));
    assert(subs.take(i + 1).last() == subs[i]);
    assert(subs.take(i + 1).len() == i + 1);
}

impl NewsletterIssue {
    /// Reads the issue a publish request names, inside the open
    /// transaction; absence becomes the 404 message.
    pub fn find_by_user_id_and_newsletter_issue_id_txn(
        user_id: u128,
        newsletter_issue_id: u128,
        store: &Store,
    ) -> (r: Result<NewsletterIssue, String>)
        requires
            store@.wf(),
        ensures
            r is Ok <==> store@.has_issue(user_id, newsletter_issue_id),
            r matches Ok(i) ==> i@ == store@.issue_record(user_id, newsletter_issue_id),
            r matches Err(e) ==> e@ == "Failed to query for newsletter issue."@,
    {
        let n = store.issues.len();
        let mut i: usize = 0;
        while i < n
            invariant
                i <= n,
                n == store.issues@.len(),
                store@.issues.len() == n,
                store@.wf(),
                forall|j: int|
                    0 <= j < i ==> !(#[trigger] store@.issues[j].newsletter_issue_id
                        == newsletter_issue_id && store@.issues[j].user_id == user_id),
            decreases n - i,
        {
            if store.issues[i].newsletter_issue_id == newsletter_issue_id && store.issues[i].user_id
                == user_id {
                proof {
                    crate::idempotency::lemma_issue_at(
                        store@,
                        user_id,
                        newsletter_issue_id,
                        i as int,
                    );
                }
                let rec = &store.issues[i];
                let copy = NewsletterIssue {
                    content: String::from_str(rec.content.as_str()),
                    cover_image_url: String::from_str(rec.cover_image_url.as_str()),
                    created_at: rec.created_at,
                    description: String::from_str(rec.description.as_str()),
                    newsletter_issue_id: rec.newsletter_issue_id,
                    published_at: rec.published_at,
                    slug: String::from_str(rec.slug.as_str()),
                    title: String::from_str(rec.title.as_str()),
                    user_id: rec.user_id,
                };
                proof {
                    assert(copy@ =~= store@.issues[i as int]);
                }
                return Ok(copy);
            }
            i += 1;
        }
        Err(String::from_str("Failed to query for newsletter issue."))
    }

    /// Marks the issue as published inside the open transaction; the
    /// timestamp becomes visible only when the transaction commits.  The
    /// caller supplies the clock reading `now`.
    pub fn publish_newsletter(self, txn: &mut Transaction, now: u64) -> (id: u128)
        ensures
            id == self.newsletter_issue_id,
            final(txn)@ == (TransactionView {
                publish: Some((self.newsletter_issue_id, now)),
                ..old(txn)@
            }),
    {
        txn.publish = Some((self.newsletter_issue_id, now));
        proof {
            assert(final(txn)@ =~= (TransactionView {
                publish: Some((self.newsletter_issue_id, now)),
                ..old(txn)@
            }));
        }
        self.newsletter_issue_id
    }
}

/// Buffers one delivery row per confirmed subscriber of `user_id` into the
/// open transaction, all in one sweep over the subscriptions table.
pub fn enqueue_delivery_tasks(
    txn: &mut Transaction,
    store: &Store,
    newsletter_issue_id: u128,
    user_id: u128,
)
    ensures
        final(txn)@ == (TransactionView {
            enqueued: old(txn)@.enqueued + spec_delivery_rows(
                store@.subscriptions,
                newsletter_issue_id,
                user_id,
            ),
            ..old(txn)@
        }),
{
    let ghost t0 = txn@;
    let n = store.subscriptions.len();
    let mut i: usize = 0;
    proof {
        assert(txn@.enqueued =~~= t0.enqueued + spec_delivery_rows(
            store@.subscriptions.take(0),
            newsletter_issue_id,
            user_id,
        ));
    }
    while i < n
        invariant
            i <= n,
            n == store.subscriptions@.len(),
            store@.subscriptions.len() == n,
            txn@ == (TransactionView {
                enqueued: t0.enqueued + spec_delivery_rows(
                    store@.subscriptions.take(i as int),
                    newsletter_issue_id,
                    user_id,
                ),
                ..t0
            }),
        decreases n - i,
    {
        proof {
            lemma_delivery_rows_snoc(
                store@.subscriptions,
                i as int,
                newsletter_issue_id,
                user_id,
            );
        }
        let sub = &store.subscriptions[i];
        let ghost prev = txn@.enqueued;
        if sub.user_id == user_id && sub.confirmed {
            txn.enqueued.push(
                DeliveryRow {
                    newsletter_issue_id,
                    subscriber_email: String::from_str(sub.email.as_str()),
                    n_retries: 0,
                    execute_after: 0,
                },
            );
            proof {
                assert(txn@.enqueued =~~= prev + seq![
                    DeliveryRowView {
                        newsletter_issue_id,
                        subscriber_email: store@.subscriptions[i as int].email,
                        n_retries: 0,
                        execute_after: 0,
                    },
                ]);
            }
        } else {
            proof {
                assert(txn@.enqueued =~~= prev + Seq::empty());
            }
        }
        proof {
            assert(txn@.enqueued =~~= t0.enqueued + spec_delivery_rows(
                store@.subscriptions.take(i as int + 1),
                newsletter_issue_id,
                user_id,
            ));
            assert(txn@ =~~= (TransactionView {
                enqueued: t0.enqueued + spec_delivery_rows(
                    store@.subscriptions.take(i as int + 1),
                    newsletter_issue_id,
                    user_id,
                ),
                ..t0
            }));
        }
        i += 1;
    }
    proof {
        assert(store@.subscriptions.take(n as int) =~= store@.subscriptions);
        assert(txn@ =~~= (TransactionView {
            enqueued: t0.enqueued + spec_delivery_rows(
                store@.subscriptions,
                newsletter_issue_id,
                user_id,
            ),
            ..t0
        }));
    }
}

/// What a publish request does to the store and returns to the client, for
/// every input:
/// - a malformed key is rejected with a 400 before anything is written;
/// - a pair already finalized replays the saved response verbatim;
/// - a pair reserved by an unfinished concurrent request gets the opaque
///   500 (the caller retries after the winner commits);
/// - a missing issue gets a 404, an issue failing validation a 400; in both
///   cases the reservation is rolled back and nothing persists;
/// - otherwise the issue's publish timestamp is set, one delivery row per
///   confirmed subscriber is enqueued, and the 200 response is saved and
///   returned, all atomically.
pub open spec fn spec_publish(
    s: StoreView,
    user_id: u128,
    newsletter_issue_id: u128,
    key: Seq<char>,
    now: u64,
) -> (StoreView, HttpResponseView) {
    if !IdempotencyKey::spec_valid(key) {
        (s, spec_bad_request(IdempotencyKey::spec_error(key)))
    } else if s.has_idem(user_id, key) {
        match s.idem_record(user_id, key).response {
            Some(resp) => (s, resp),
            None => (s, spec_server_error("We expected a saved response, we didn't find it."@)),
        }
    } else if !s.has_issue(user_id, newsletter_issue_id) {
        (s, spec_not_found("Failed to query for newsletter issue."@))
    } else if !spec_publishable(s.issue_record(user_id, newsletter_issue_id)) {
        (
            s,
            spec_bad_request(
                spec_publish_validation_error(s.issue_record(user_id, newsletter_issue_id)),
            ),
        )
    } else {
        let t = TransactionView {
            user_id,
            key,
            publish: Some((newsletter_issue_id, now)),
            enqueued: spec_delivery_rows(s.subscriptions, newsletter_issue_id, user_id),
        };
        let resp = spec_json_response(200, spec_message_body_chars(spec_success_message()));
        (spec_commit(spec_reserve(s, user_id, key), t, resp), resp)
    }
}

/// Reserving a fresh `(u, k)` keeps the storage invariants.
pub proof fn lemma_reserve_wf(s: StoreView, u: u128, k: Seq<char>)
    requires
        s.wf(),
        !s.has_idem(u, k),
    ensures
        spec_reserve(s, u, k).wf(),
        spec_reserve(s, u, k).has_idem(u, k),
        spec_reserve(s, u, k).idem_at(u, k) == s.idempotency.len(),
        spec_reserve(s, u, k).idem_record(u, k) == (IdempotencyRecordView {
            user_id: u,
            key: k,
            response: None,
        }),
{
    let s1 = spec_reserve(s, u, k);
    assert forall|i: int, j: int| 0 <= i < j < s1.idempotency.len() implies !(
    #[trigger] s1.idempotency[i].user_id == #[trigger] s1.idempotency[j].user_id
        && s1.idempotency[i].key == s1.idempotency[j].key) by {
        if j == s1.idempotency.len() - 1 {
            assert(!(s.idempotency[i].user_id == u && s.idempotency[i].key == k));
        }
    }
    lemma_idem_at(s1, u, k, s.idempotency.len() as int);
}

/// Rolling a fresh reservation back restores the store exactly.
pub proof fn lemma_reserve_rollback(s: StoreView, u: u128, k: Seq<char>)
    requires
        s.wf(),
        !s.has_idem(u, k),
    ensures
        spec_rollback(spec_reserve(s, u, k), u, k) == s,
{
    let s1 = spec_reserve(s, u, k);
    lemma_reserve_wf(s, u, k);
    assert(s1.idempotency.remove(s.idempotency.len() as int) =~= s.idempotency);
    assert(spec_rollback(s1, u, k) =~= s);
}

/// Committing a transaction over a fresh reservation finalizes exactly that
/// row and keeps the storage invariants.
pub proof fn lemma_commit_after_reserve(
    s: StoreView,
    u: u128,
    k: Seq<char>,
    t: TransactionView,
    resp: HttpResponseView,
)
    requires
        s.wf(),
        !s.has_idem(u, k),
        t.user_id == u,
        t.key == k,
    ensures
        ({
            let s1 = spec_commit(spec_reserve(s, u, k), t, resp);
            &&& s1.wf()
            &&& s1.has_idem(u, k)
            &&& s1.idem_record(u, k) == (IdempotencyRecordView {
                user_id: u,
                key: k,
                response: Some(resp),
            })
        }),
{
    let s0 = spec_reserve(s, u, k);
    lemma_reserve_wf(s, u, k);
    let s1 = spec_commit(s0, t, resp);
    let idx = s.idempotency.len() as int;
    assert(s1.idempotency[idx] == (IdempotencyRecordView {
        user_id: u,
        key: k,
        response: Some(resp),
    }));
    assert forall|i: int, j: int| 0 <= i < j < s1.idempotency.len() implies !(
    #[trigger] s1.idempotency[i].user_id == #[trigger] s1.idempotency[j].user_id
        && s1.idempotency[i].key == s1.idempotency[j].key) by {
        assert(s1.idempotency[i].user_id == s0.idempotency[i].user_id && s1.idempotency[i].key
            == s0.idempotency[i].key);
        assert(s1.idempotency[j].user_id == s0.idempotency[j].user_id && s1.idempotency[j].key
            == s0.idempotency[j].key);
    }
    assert forall|i: int, j: int| 0 <= i < j < s1.issues.len() implies
    #[trigger] s1.issues[i].newsletter_issue_id != #[trigger] s1.issues[j].newsletter_issue_id by {
        assert(s1.issues[i].newsletter_issue_id == s0.issues[i].newsletter_issue_id);
        assert(s1.issues[j].newsletter_issue_id == s0.issues[j].newsletter_issue_id);
    }
    lemma_idem_at(s1, u, k, idx);
}

/// A malformed idempotency key is rejected before any transaction begins:
/// the store is unchanged — no idempotency row appears — and the response
/// carries the key's validation message with status 400.
pub proof fn lemma_malformed_key_rejected(
    s: StoreView,
    user_id: u128,
    newsletter_issue_id: u128,
    k: Seq<char>,
    now: u64,
)
    requires
        !IdempotencyKey::spec_valid(k),
    ensures
        spec_publish(s, user_id, newsletter_issue_id, k, now).0 == s,
        spec_publish(s, user_id, newsletter_issue_id, k, now).1 == spec_bad_request(
            IdempotencyKey::spec_error(k),
        ),
{
}

/// A first publish with a fresh valid key and a publishable issue succeeds
/// with the acceptance response, stamps the issue's publish timestamp, and
/// appends exactly one delivery row per confirmed subscriber of the issue's
/// owner — and nothing else changes.
pub proof fn lemma_publish_success_effects(
    s: StoreView,
    user_id: u128,
    newsletter_issue_id: u128,
    k: Seq<char>,
    now: u64,
)
    requires
        s.wf(),
        IdempotencyKey::spec_valid(k),
        !s.has_idem(user_id, k),
        s.has_issue(user_id, newsletter_issue_id),
        spec_publishable(s.issue_record(user_id, newsletter_issue_id)),
    ensures
        ({
            let result = spec_publish(s, user_id, newsletter_issue_id, k, now);
            &&& result.1 == spec_json_response(
                200,
                spec_message_body_chars(spec_success_message()),
            )
            &&& result.0.delivery_queue == s.delivery_queue + spec_delivery_rows(
                s.subscriptions,
                newsletter_issue_id,
                user_id,
            )
            &&& result.0.issues[s.issue_at(user_id, newsletter_issue_id)].published_at == Some(now)
            &&& result.0.subscriptions == s.subscriptions
            &&& result.0.idempotency.len() == s.idempotency.len() + 1
        }),
{
    let t = TransactionView {
        user_id,
        key: k,
        publish: Some((newsletter_issue_id, now)),
        enqueued: spec_delivery_rows(s.subscriptions, newsletter_issue_id, user_id),
    };
    let resp = spec_json_response(200, spec_message_body_chars(spec_success_message()));
    let s0 = spec_reserve(s, user_id, k);
    lemma_reserve_wf(s, user_id, k);
    let s1 = spec_commit(s0, t, resp);
    assert(s0.has_issue(user_id, newsletter_issue_id) == s.has_issue(user_id, newsletter_issue_id));
    let ii = s.issue_at(user_id, newsletter_issue_id);
    assert(0 <= ii < s.issues.len() && s.issues[ii].newsletter_issue_id == newsletter_issue_id
        && s.issues[ii].user_id == user_id);
    lemma_idem_at(s0, user_id, k, s.idempotency.len() as int);
    assert(s0.issue_at(user_id, newsletter_issue_id) == ii) by {
        crate::idempotency::lemma_issue_at(s0, user_id, newsletter_issue_id, ii);
    }
    assert(s1.issues[ii].published_at == Some(now));
}

/// Publishing is idempotent in the `(user, key)` pair: a repeated call, at
/// any later time, changes nothing and returns a response identical to the
/// first, so the publish mutation and its delivery rows happen at most
/// once.  This also covers the loser of a concurrent duplicate submission:
/// once the winner's transaction commits, the loser's retry replays the
/// winner's saved response verbatim.
pub proof fn lemma_publish_idempotent(
    s: StoreView,
    user_id: u128,
    newsletter_issue_id: u128,
    k: Seq<char>,
    t1: u64,
    t2: u64,
)
    requires
        s.wf(),
    ensures
        ({
            let first = spec_publish(s, user_id, newsletter_issue_id, k, t1);
            let second = spec_publish(first.0, user_id, newsletter_issue_id, k, t2);
            second.0 == first.0 && second.1 == first.1
        }),
{
    if IdempotencyKey::spec_valid(k) && !s.has_idem(user_id, k) && s.has_issue(
        user_id,
        newsletter_issue_id,
    ) && spec_publishable(s.issue_record(user_id, newsletter_issue_id)) {
        let t = TransactionView {
            user_id,
            key: k,
            publish: Some((newsletter_issue_id, t1)),
            enqueued: spec_delivery_rows(s.subscriptions, newsletter_issue_id, user_id),
        };
        let resp = spec_json_response(200, spec_message_body_chars(spec_success_message()));
        lemma_commit_after_reserve(s, user_id, k, t, resp);
    }
}

/// Publishes a newsletter issue idempotently: the whole request path of
/// the publish endpoint, from key validation through saving the response.
pub fn publish_newsletter_issue(
    store: &mut Store,
    user_id: u128,
    newsletter_issue_id: u128,
    idempotency_key: String,
    now: u64,
) -> (r: HttpResponse)
    requires
        old(store)@.wf(),
    ensures
        final(store)@.wf(),
        final(store)@ == spec_publish(old(store)@, user_id, newsletter_issue_id, idempotency_key@, now).0,
        r@ == spec_publish(old(store)@, user_id, newsletter_issue_id, idempotency_key@, now).1,
{
    let ghost pre = store@;
    let ghost key_chars = idempotency_key@;
    let key = match IdempotencyKey::parse(idempotency_key) {
        Ok(k) => k,
        Err(m) => {
            return e400(m).error_response();
        },
    };
    let txn = match try_processing(store, &key, user_id) {
        Ok(NextAction::StartProcessing(t)) => t,
        Ok(NextAction::ReturnSavedResponse(resp)) => {
            return resp;
        },
        Err(m) => {
            return e500(m).error_response();
        },
    };
    let issue = match NewsletterIssue::find_by_user_id_and_newsletter_issue_id_txn(
        user_id,
        newsletter_issue_id,
        store,
    ) {
        Ok(i) => i,
        Err(m) => {
            proof {
                lemma_reserve_wf(pre, user_id, key_chars);
            }
            crate::idempotency::rollback(store, txn);
            proof {
                lemma_reserve_rollback(pre, user_id, key_chars);
            }
            return e404(m).error_response();
        },
    };
    let issue = match issue.validate_for_publish() {
        Ok(i) => i,
        Err(m) => {
            proof {
                lemma_reserve_wf(pre, user_id, key_chars);
            }
            crate::idempotency::rollback(store, txn);
            proof {
                lemma_reserve_rollback(pre, user_id, key_chars);
            }
            return e400(m).error_response();
        },
    };
    let mut txn = txn;
    proof {
        lemma_reserve_wf(pre, user_id, key_chars);
        assert(pre.issues[pre.issue_at(user_id, newsletter_issue_id)].newsletter_issue_id
            == newsletter_issue_id);
    }
    issue.publish_newsletter(&mut txn, now);
    enqueue_delivery_tasks(&mut txn, store, newsletter_issue_id, user_id);
    let response = HttpResponse::ok_json_message(success_message());
    let response = save_response(store, txn, &key, user_id, response);
    proof {
        assert(store@ == spec_publish(pre, user_id, newsletter_issue_id, key_chars, now).0);
    }
    response
}

} // verus!
