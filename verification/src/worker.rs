use crate::newsletter::{html_of, markdown_to_html, strip_tags_str, tags_stripped, NewsletterIssueView};
use crate::num::{sat_add, spec_sat_add};
use crate::store::{Store, StoreView, SubscriptionView};
use crate::text::str_eq;
use vstd::prelude::*;

verus! {

/// The mathematical value of one delivery queue row.
#[verifier::ext_equal]
pub struct DeliveryRowView {
    pub newsletter_issue_id: u128,
    pub subscriber_email: Seq<char>,
    pub n_retries: u32,
    pub execute_after: u64,
}

/// One pending notification: a row of the issue delivery queue.
pub struct DeliveryRow {
    pub newsletter_issue_id: u128,
    pub subscriber_email: String,
    pub n_retries: u32,
    pub execute_after: u64,
}

impl View for DeliveryRow {
    type V = DeliveryRowView;

    open spec fn view(&self) -> DeliveryRowView {
        DeliveryRowView {
            newsletter_issue_id: self.newsletter_issue_id,
            subscriber_email: self.subscriber_email@,
            n_retries: self.n_retries,
            execute_after: self.execute_after,
        }
    }
}

/// What the sender reported for one notification attempt.
pub enum SendOutcome {
    Delivered,
    TransientFailure,
}

/// What one call of the worker did: handled one row, or found nothing to do.
pub enum ExecutionOutcome {
    TaskCompleted,
    EmptyQueue,
}

/// The mathematical value of a rendered notification.
#[verifier::ext_equal]
pub struct NotificationView {
    pub subscriber_email: Seq<char>,
    pub title: Seq<char>,
    pub html_content: Seq<char>,
    pub text_content: Seq<char>,
}

/// The rendered notification handed to the sender: destination address and
/// the issue content as HTML and plain text.
pub struct Notification {
    pub subscriber_email: String,
    pub title: String,
    pub html_content: String,
    pub text_content: String,
}

impl View for Notification {
    type V = NotificationView;

    open spec fn view(&self) -> NotificationView {
        NotificationView {
            subscriber_email: self.subscriber_email@,
            title: self.title@,
            html_content: self.html_content@,
            text_content: self.text_content@,
        }
    }
}

/// A claimed queue row together with the notification to send for it.  The
/// row is locked out of the queue until `complete_task` settles it.
pub struct DeliveryTask {
    pub row: DeliveryRow,
    pub notification: Notification,
}

/// What claiming produced: an empty queue, a row settled without sending
/// (its subscriber is not confirmed), or a notification that must be sent.
pub enum ClaimOutcome {
    EmptyQueue,
    Completed,
    Send(DeliveryTask),
}

/// Whether a row may be claimed at time `now`.
pub open spec fn spec_eligible(r: DeliveryRowView, now: u64) -> bool {
    r.execute_after <= now
}

/// Whether some row of `q` may be claimed at time `now`.
pub open spec fn spec_has_eligible(q: Seq<DeliveryRowView>, now: u64) -> bool {
    exists|i: int| 0 <= i < q.len() && spec_eligible(#[trigger] q[i], now)
}

/// `i` is the first row of `q` claimable at time `now`.
pub open spec fn spec_is_first_eligible(q: Seq<DeliveryRowView>, now: u64, i: int) -> bool {
    &&& 0 <= i < q.len()
    &&& spec_eligible(q[i], now)
    &&& forall|j: int| 0 <= j < i ==> !spec_eligible(#[trigger] q[j], now)
}

/// The index of the first claimable row of `q`.
pub open spec fn spec_first_eligible(q: Seq<DeliveryRowView>, now: u64) -> int {
    choose|i: int| spec_is_first_eligible(q, now, i)
}

pub proof fn lemma_first_eligible(q: Seq<DeliveryRowView>, now: u64, i: int)
    requires
        spec_is_first_eligible(q, now, i),
    ensures
        spec_has_eligible(q, now),
        spec_first_eligible(q, now) == i,
{
    assert(spec_has_eligible(q, now));
    let j = spec_first_eligible(q, now);
    assert(spec_is_first_eligible(q, now, j));
    if i < j {
        assert(!spec_eligible(q[i], now));
    } else if j < i {
        assert(!spec_eligible(q[j], now));
    }
}

/// Whether some issue with this identifier exists, whoever owns it.
pub open spec fn has_issue_by_id(issues: Seq<NewsletterIssueView>, id: u128) -> bool {
    exists|i: int| 0 <= i < issues.len() && #[trigger] issues[i].newsletter_issue_id == id
}

/// The index of the issue with this identifier; unique under the store's
/// invariants.
pub open spec fn issue_by_id_at(issues: Seq<NewsletterIssueView>, id: u128) -> int {
    choose|i: int| 0 <= i < issues.len() && #[trigger] issues[i].newsletter_issue_id == id
}

/// `i` is the first subscription row for `(u, email)`.
pub open spec fn is_first_sub(subs: Seq<SubscriptionView>, u: u128, email: Seq<char>, i: int) -> bool {
    &&& 0 <= i < subs.len()
    &&& subs[i].user_id == u
    &&& subs[i].email == email
    &&& forall|j: int| 0 <= j < i ==> !(#[trigger] subs[j].user_id == u && subs[j].email == email)
}

/// Whether a subscription row for `(u, email)` exists.
pub open spec fn has_sub(subs: Seq<SubscriptionView>, u: u128, email: Seq<char>) -> bool {
    exists|i: int| 0 <= i < subs.len() && #[trigger] subs[i].user_id == u && subs[i].email == email
}

/// The index of the first subscription row for `(u, email)`.
pub open spec fn first_sub_at(subs: Seq<SubscriptionView>, u: u128, email: Seq<char>) -> int {
    choose|i: int| is_first_sub(subs, u, email, i)
}

pub proof fn lemma_first_sub(subs: Seq<SubscriptionView>, u: u128, email: Seq<char>, i: int)
    requires
        is_first_sub(subs, u, email, i),
    ensures
        has_sub(subs, u, email),
        first_sub_at(subs, u, email) == i,
{
    assert(has_sub(subs, u, email));
    let j = first_sub_at(subs, u, email);
    assert(is_first_sub(subs, u, email, j));
    if i < j {
        assert(!(subs[i].user_id == u && subs[i].email == email));
    } else if j < i {
        assert(!(subs[j].user_id == u && subs[j].email == email));
    }
}

/// Whether the subscriber a row points at is confirmed: the row's issue
/// exists and its owner has a confirmed subscription under the row's
/// address.
pub open spec fn spec_row_confirmed(
    issues: Seq<NewsletterIssueView>,
    subs: Seq<SubscriptionView>,
    r: DeliveryRowView,
) -> bool {
    &&& has_issue_by_id(issues, r.newsletter_issue_id)
    &&& has_sub(subs, issues[issue_by_id_at(issues, r.newsletter_issue_id)].user_id, r.subscriber_email)
    &&& subs[first_sub_at(
        subs,
        issues[issue_by_id_at(issues, r.newsletter_issue_id)].user_id,
        r.subscriber_email,
    )].confirmed
}

/// The notification rendered for a row: the issue's title, its content as
/// HTML, and the HTML stripped back to plain text.
pub open spec fn spec_notification(
    issues: Seq<NewsletterIssueView>,
    r: DeliveryRowView,
) -> NotificationView {
    let issue = issues[issue_by_id_at(issues, r.newsletter_issue_id)];
    NotificationView {
        subscriber_email: r.subscriber_email,
        title: issue.title,
        html_content: html_of(issue.content),
        text_content: tags_stripped(html_of(issue.content)),
    }
}

/// Claims at most one eligible queue row: the first row whose backoff
/// window has passed is removed from the queue; if its subscriber is not
/// confirmed the row is settled on the spot with no notification, otherwise
/// the rendered notification is handed back to be sent.
pub fn claim_task(store: &mut Store, now: u64) -> (c: ClaimOutcome)
    requires
        old(store)@.wf(),
    ensures
        final(store)@.wf(),
        !spec_has_eligible(old(store)@.delivery_queue, now) ==> c is EmptyQueue && final(store)@
            == old(store)@,
        spec_has_eligible(old(store)@.delivery_queue, now) ==> {
            let i = spec_first_eligible(old(store)@.delivery_queue, now);
            let row = old(store)@.delivery_queue[i];
            &&& final(store)@ == (StoreView {
                delivery_queue: old(store)@.delivery_queue.remove(i),
                ..old(store)@
            })
            &&& (spec_row_confirmed(old(store)@.issues, old(store)@.subscriptions, row) ==> (
            c matches ClaimOutcome::Send(task) && task.row@ == row && task.notification@
                == spec_notification(old(store)@.issues, row)))
            &&& (!spec_row_confirmed(old(store)@.issues, old(store)@.subscriptions, row)
                ==> c is Completed)
        },
{
    let ghost pre = store@;
    let n = store.delivery_queue.len();
    let mut i: usize = 0;
    while i < n && store.delivery_queue[i].execute_after > now
        invariant
            i <= n,
            n == store.delivery_queue@.len(),
            store@.delivery_queue.len() == n,
            forall|j: int| 0 <= j < i ==> !spec_eligible(#[trigger] store@.delivery_queue[j], now),
        decreases n - i,
    {
        i += 1;
    }
    if i >= n {
        proof {
            if spec_has_eligible(pre.delivery_queue, now) {
                let w = choose|w: int|
                    0 <= w < pre.delivery_queue.len() && spec_eligible(
                        #[trigger] pre.delivery_queue[w],
                        now,
                    );
                assert(!spec_eligible(pre.delivery_queue[w], now));
            }
        }
        return ClaimOutcome::EmptyQueue;
    }
    proof {
        lemma_first_eligible(pre.delivery_queue, now, i as int);
    }
    let row = store.delivery_queue.remove(i);
    proof {
        assert(store@ =~= (StoreView { delivery_queue: pre.delivery_queue.remove(i as int), ..pre }));
    }
    let ghost rowv = row@;
    let issue_idx: usize;
    let m = store.issues.len();
    let mut k: usize = 0;
    loop
        invariant
            k <= m,
            m == store.issues@.len(),
            store@.issues.len() == m,
            pre.wf(),
            store@ == (StoreView { delivery_queue: pre.delivery_queue.remove(
                spec_first_eligible(pre.delivery_queue, now),
            ), ..pre }),
            forall|j: int|
                0 <= j < k ==> #[trigger] store@.issues[j].newsletter_issue_id
                    != rowv.newsletter_issue_id,
            rowv == row@,
        ensures
            k <= m,
            m == store@.issues.len(),
            store@ == (StoreView { delivery_queue: pre.delivery_queue.remove(
                spec_first_eligible(pre.delivery_queue, now),
            ), ..pre }),
            k < m ==> store@.issues[k as int].newsletter_issue_id == rowv.newsletter_issue_id
                && has_issue_by_id(pre.issues, rowv.newsletter_issue_id) && issue_by_id_at(
                pre.issues,
                rowv.newsletter_issue_id,
            ) == k as int,
            k >= m ==> !has_issue_by_id(pre.issues, rowv.newsletter_issue_id),
        decreases m - k,
    {
        if k >= m {
            proof {
                if has_issue_by_id(pre.issues, rowv.newsletter_issue_id) {
                    let w = choose|w: int|
                        0 <= w < pre.issues.len() && #[trigger] pre.issues[w].newsletter_issue_id
                            == rowv.newsletter_issue_id;
                    assert(pre.issues[w].newsletter_issue_id != rowv.newsletter_issue_id);
                }
            }
            break ;
        }
        if store.issues[k].newsletter_issue_id == row.newsletter_issue_id {
            proof {
                assert(pre.issues[k as int].newsletter_issue_id == rowv.newsletter_issue_id);
                assert(has_issue_by_id(pre.issues, rowv.newsletter_issue_id));
                let w = issue_by_id_at(pre.issues, rowv.newsletter_issue_id);
                assert(0 <= w < pre.issues.len() && pre.issues[w].newsletter_issue_id
                    == rowv.newsletter_issue_id);
                if w < k as int {
                    assert(pre.issues[w].newsletter_issue_id != rowv.newsletter_issue_id);
                } else if (k as int) < w {
                    assert(pre.issues[k as int].newsletter_issue_id
                        != pre.issues[w].newsletter_issue_id);
                }
                assert(w == k as int);
            }
            break ;
        }
        k += 1;
    }
    if k >= m {
        return ClaimOutcome::Completed;
    }
    issue_idx = k;
    let owner = store.issues[issue_idx].user_id;
    let s = store.subscriptions.len();
    let mut p: usize = 0;
    loop
        invariant
            p <= s,
            s == store.subscriptions@.len(),
            store@.subscriptions.len() == s,
            store@ == (StoreView { delivery_queue: pre.delivery_queue.remove(
                spec_first_eligible(pre.delivery_queue, now),
            ), ..pre }),
            owner == pre.issues[issue_by_id_at(pre.issues, rowv.newsletter_issue_id)].user_id,
            forall|j: int|
                0 <= j < p ==> !(#[trigger] store@.subscriptions[j].user_id == owner
                    && store@.subscriptions[j].email == rowv.subscriber_email),
            rowv == row@,
        ensures
            p <= s,
            s == store@.subscriptions.len(),
            store@ == (StoreView { delivery_queue: pre.delivery_queue.remove(
                spec_first_eligible(pre.delivery_queue, now),
            ), ..pre }),
            p < s ==> is_first_sub(pre.subscriptions, owner, rowv.subscriber_email, p as int)
                && has_sub(pre.subscriptions, owner, rowv.subscriber_email) && first_sub_at(
                pre.subscriptions,
                owner,
                rowv.subscriber_email,
            ) == p as int,
            p >= s ==> !has_sub(pre.subscriptions, owner, rowv.subscriber_email),
        decreases s - p,
    {
        if p >= s {
            proof {
                if has_sub(pre.subscriptions, owner, rowv.subscriber_email) {
                    let w = choose|w: int|
                        0 <= w < pre.subscriptions.len() && #[trigger] pre.subscriptions[w].user_id
                            == owner && pre.subscriptions[w].email == rowv.subscriber_email;
                    assert(!(pre.subscriptions[w].user_id == owner && pre.subscriptions[w].email
                        == rowv.subscriber_email));
                }
            }
            break ;
        }
        if store.subscriptions[p].user_id == owner && str_eq(
            store.subscriptions[p].email.as_str(),
            row.subscriber_email.as_str(),
        ) {
            proof {
                lemma_first_sub(pre.subscriptions, owner, rowv.subscriber_email, p as int);
            }
            break ;
        }
        p += 1;
    }
    if p >= s {
        return ClaimOutcome::Completed;
    }
    if !store.subscriptions[p].confirmed {
        return ClaimOutcome::Completed;
    }
    let issue = &store.issues[issue_idx];
    let html_content = markdown_to_html(issue.content.as_str());
    let text_content = strip_tags_str(html_content.as_str());
    let notification = Notification {
        subscriber_email: String::from_str(row.subscriber_email.as_str()),
        title: String::from_str(issue.title.as_str()),
        html_content,
        text_content,
    };
    proof {
        assert(notification@ =~= spec_notification(pre.issues, rowv));
    }
    ClaimOutcome::Send(DeliveryTask { row, notification })
}

/// The retry backoff in seconds after `n` attempts: it doubles with each
/// attempt and is capped so that the window always fits.
pub open spec fn spec_backoff(n: u32) -> u64 {
    if n >= 32 {
        0x100000000u64
    } else {
        (1u64 << n)
    }
}

fn backoff_seconds(n: u32) -> (r: u64)
    ensures
        r == spec_backoff(n),
{
    if n >= 32 {
        0x100000000u64
    } else {
        1u64 << n
    }
}

/// Settles a claimed row once its send was attempted:
/// - delivered: the row stays deleted, its work is done;
/// - transient failure with retries left: the row returns to the queue with
///   one more retry and a backoff window;
/// - transient failure with retries exhausted: the row is abandoned for
///   good (dead-letter) and never attempted again.
pub fn complete_task(
    store: &mut Store,
    task: DeliveryTask,
    outcome: SendOutcome,
    now: u64,
    max_retries: u32,
)
    requires
        old(store)@.wf(),
    ensures
        final(store)@.wf(),
        outcome is Delivered ==> final(store)@ == old(store)@,
        outcome is TransientFailure && task.row@.n_retries >= max_retries ==> final(store)@ == old(
            store,
        )@,
        outcome is TransientFailure && task.row@.n_retries < max_retries ==> final(store)@
            == (StoreView {
            delivery_queue: old(store)@.delivery_queue.push(
                DeliveryRowView {
                    n_retries: (task.row@.n_retries + 1) as u32,
                    execute_after: spec_sat_add(now, spec_backoff((task.row@.n_retries + 1) as u32)),
                    ..task.row@
                },
            ),
            ..old(store)@
        }),
{
    let ghost pre = store@;
    match outcome {
        SendOutcome::Delivered => {
        },
        SendOutcome::TransientFailure => {
            if task.row.n_retries < max_retries {
                let retries = task.row.n_retries + 1;
                let window = backoff_seconds(retries);
                let row = DeliveryRow {
                    n_retries: retries,
                    execute_after: sat_add(now, window),
                    ..task.row
                };
                store.delivery_queue.push(row);
                proof {
                    assert(store@ =~= (StoreView {
                        delivery_queue: pre.delivery_queue.push(
                            DeliveryRowView {
                                n_retries: (task.row@.n_retries + 1) as u32,
                                execute_after: spec_sat_add(
                                    now,
                                    spec_backoff((task.row@.n_retries + 1) as u32),
                                ),
                                ..task.row@
                            },
                        ),
                        ..pre
                    }));
                }
            }
        },
    }
}

/// What one worker step does to the store, which outcome it reports, and
/// whether the sender was invoked.
pub open spec fn spec_worker_step(
    s: StoreView,
    now: u64,
    outcome: SendOutcome,
    max_retries: u32,
) -> (StoreView, ExecutionOutcome, bool) {
    if !spec_has_eligible(s.delivery_queue, now) {
        (s, ExecutionOutcome::EmptyQueue, false)
    } else {
        let i = spec_first_eligible(s.delivery_queue, now);
        let row = s.delivery_queue[i];
        let s1 = StoreView { delivery_queue: s.delivery_queue.remove(i), ..s };
        if !spec_row_confirmed(s.issues, s.subscriptions, row) {
            (s1, ExecutionOutcome::TaskCompleted, false)
        } else {
            match outcome {
                SendOutcome::Delivered => (s1, ExecutionOutcome::TaskCompleted, true),
                SendOutcome::TransientFailure => if row.n_retries < max_retries {
                    (
                        StoreView {
                            delivery_queue: s1.delivery_queue.push(
                                DeliveryRowView {
                                    n_retries: (row.n_retries + 1) as u32,
                                    execute_after: spec_sat_add(
                                        now,
                                        spec_backoff((row.n_retries + 1) as u32),
                                    ),
                                    ..row
                                },
                            ),
                            ..s1
                        },
                        ExecutionOutcome::TaskCompleted,
                        true,
                    )
                } else {
                    (s1, ExecutionOutcome::TaskCompleted, true)
                },
            }
        }
    }
}

/// How many rows of `q` point at a confirmed subscriber.
pub open spec fn spec_confirmed_count(
    issues: Seq<NewsletterIssueView>,
    subs: Seq<SubscriptionView>,
    q: Seq<DeliveryRowView>,
) -> nat
    decreases q.len(),
{
    if q.len() == 0 {
        0
    } else {
        (if spec_row_confirmed(issues, subs, q[0]) {
            1nat
        } else {
            0nat
        }) + spec_confirmed_count(issues, subs, q.drop_first())
    }
}

/// The store left, and the number of notifications sent, when worker steps
/// with a sender that always succeeds are repeated until the queue has no
/// claimable row.  (The inner length guard only serves termination; the
/// draining lemma shows it always holds.)
pub open spec fn spec_drain(s: StoreView, now: u64, max_retries: u32) -> (StoreView, nat)
    decreases s.delivery_queue.len(),
{
    if !spec_has_eligible(s.delivery_queue, now) {
        (s, 0)
    } else {
        let step = spec_worker_step(s, now, SendOutcome::Delivered, max_retries);
        if step.0.delivery_queue.len() < s.delivery_queue.len() {
            let rest = spec_drain(step.0, now, max_retries);
            (
                rest.0,
                rest.1 + (if step.2 {
                    1nat
                } else {
                    0nat
                }),
            )
        } else {
            (s, 0)
        }
    }
}

/// Draining an all-eligible queue with a sender that always succeeds: the
/// sender is invoked exactly once per row whose subscriber is confirmed, a
/// row whose subscriber is not confirmed is removed without invoking the
/// sender, the queue ends empty, and no other table changes.
pub proof fn lemma_drain_queue(s: StoreView, now: u64, max_retries: u32)
    requires
        s.wf(),
        forall|i: int|
            0 <= i < s.delivery_queue.len() ==> spec_eligible(#[trigger] s.delivery_queue[i], now),
    ensures
        spec_drain(s, now, max_retries).0 == (StoreView {
            delivery_queue: Seq::empty(),
            ..s
        }),
        spec_drain(s, now, max_retries).1 == spec_confirmed_count(
            s.issues,
            s.subscriptions,
            s.delivery_queue,
        ),
    decreases s.delivery_queue.len(),
{
    let q = s.delivery_queue;
    if q.len() == 0 {
        if spec_has_eligible(q, now) {
            let w = choose|w: int| 0 <= w < q.len() && spec_eligible(#[trigger] q[w], now);
        }
        assert(spec_drain(s, now, max_retries).0 =~= (StoreView {
            delivery_queue: Seq::empty(),
            ..s
        }));
    } else {
        assert(spec_eligible(q[0], now));
        assert(spec_has_eligible(q, now));
        lemma_first_eligible(q, now, 0);
        let step = spec_worker_step(s, now, SendOutcome::Delivered, max_retries);
        assert(q.remove(0) =~= q.drop_first());
        let s1 = step.0;
        assert(s1.delivery_queue == q.drop_first());
        assert(s1.issues == s.issues && s1.subscriptions == s.subscriptions);
        assert(s1.wf());
        assert(forall|i: int|
            0 <= i < s1.delivery_queue.len() ==> spec_eligible(
                #[trigger] s1.delivery_queue[i],
                now,
            ));
        lemma_drain_queue(s1, now, max_retries);
        assert((StoreView { delivery_queue: Seq::empty(), ..s1 }) =~= (StoreView {
            delivery_queue: Seq::empty(),
            ..s
        }));
        assert(step.2 == spec_row_confirmed(s.issues, s.subscriptions, q[0]));
    }
}

/// A transient send failure re-enqueues the claimed row with its retry
/// counter incremented and a backoff window, after which the row is
/// claimable again; a row whose retries are exhausted is instead removed
/// for good and never attempted again.
pub proof fn lemma_retry_after_failure(s: StoreView, now: u64, max_retries: u32)
    requires
        s.wf(),
        spec_has_eligible(s.delivery_queue, now),
        spec_row_confirmed(
            s.issues,
            s.subscriptions,
            s.delivery_queue[spec_first_eligible(s.delivery_queue, now)],
        ),
    ensures
        ({
            let i = spec_first_eligible(s.delivery_queue, now);
            let row = s.delivery_queue[i];
            let stepped = spec_worker_step(s, now, SendOutcome::TransientFailure, max_retries);
            &&& stepped.1 == ExecutionOutcome::TaskCompleted
            &&& stepped.2
            &&& (row.n_retries < max_retries ==> {
                let requeued = stepped.0.delivery_queue.last();
                &&& stepped.0.delivery_queue == s.delivery_queue.remove(i).push(requeued)
                &&& requeued.newsletter_issue_id == row.newsletter_issue_id
                &&& requeued.subscriber_email == row.subscriber_email
                &&& requeued.n_retries == row.n_retries + 1
                &&& requeued.execute_after == spec_sat_add(
                    now,
                    spec_backoff((row.n_retries + 1) as u32),
                )
                &&& forall|later: u64|
                    later >= requeued.execute_after ==> spec_eligible(requeued, later)
            })
            &&& (row.n_retries >= max_retries ==> stepped.0.delivery_queue
                == s.delivery_queue.remove(i))
        }),
{
}

/// Runs one worker step: claims the first eligible row, treats a row whose
/// subscriber is not confirmed as already handled, and otherwise settles
/// the row according to what the sender reported.  The sender itself runs
/// outside; `outcome` is its verdict for this attempt.  Returns
/// `TaskCompleted` after handling one row, or `EmptyQueue` when nothing is
/// claimable, so callers loop until `EmptyQueue`.
pub fn try_execute_task(store: &mut Store, now: u64, outcome: SendOutcome, max_retries: u32) -> (r:
    ExecutionOutcome)
    requires
        old(store)@.wf(),
    ensures
        final(store)@.wf(),
        final(store)@ == spec_worker_step(old(store)@, now, outcome, max_retries).0,
        r == spec_worker_step(old(store)@, now, outcome, max_retries).1,
{
    match claim_task(store, now) {
        ClaimOutcome::EmptyQueue => ExecutionOutcome::EmptyQueue,
        ClaimOutcome::Completed => ExecutionOutcome::TaskCompleted,
        ClaimOutcome::Send(task) => {
            complete_task(store, task, outcome, now, max_retries);
            ExecutionOutcome::TaskCompleted
        },
    }
}

} // verus!
