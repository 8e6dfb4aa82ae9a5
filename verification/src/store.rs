use crate::idempotency::{IdempotencyRecord, IdempotencyRecordView};
use crate::newsletter::{NewNewsletterIssue, NewsletterIssue, NewsletterIssueView};
use crate::text::str_eq;
use crate::worker::{has_issue_by_id, DeliveryRow, DeliveryRowView};
use vstd::prelude::*;

verus! {

/// The mathematical value of one subscription row.
#[verifier::ext_equal]
pub struct SubscriptionView {
    pub user_id: u128,
    pub email: Seq<char>,
    pub confirmed: bool,
}

/// One subscription: a reader of `user_id`'s newsletter, confirmed or still
/// pending confirmation.
pub struct SubscriptionRecord {
    pub user_id: u128,
    pub email: String,
    pub confirmed: bool,
}

impl View for SubscriptionRecord {
    type V = SubscriptionView;

    open spec fn view(&self) -> SubscriptionView {
        SubscriptionView { user_id: self.user_id, email: self.email@, confirmed: self.confirmed }
    }
}

/// The mathematical value of the whole store.
#[verifier::ext_equal]
pub struct StoreView {
    pub idempotency: Seq<IdempotencyRecordView>,
    pub issues: Seq<NewsletterIssueView>,
    pub subscriptions: Seq<SubscriptionView>,
    pub delivery_queue: Seq<DeliveryRowView>,
}

impl StoreView {
    /// The store with nothing in it.
    pub open spec fn empty() -> StoreView {
        StoreView {
            idempotency: Seq::empty(),
            issues: Seq::empty(),
            subscriptions: Seq::empty(),
            delivery_queue: Seq::empty(),
        }
    }

    /// The invariants the storage layer enforces: `(user_id, key)` is unique
    /// across idempotency rows, and issue identifiers are unique.
    pub open spec fn wf(self) -> bool {
        &&& forall|i: int, j: int|
            0 <= i < j < self.idempotency.len() ==> !(#[trigger] self.idempotency[i].user_id
                == #[trigger] self.idempotency[j].user_id && self.idempotency[i].key
                == self.idempotency[j].key)
        &&& forall|i: int, j: int|
            0 <= i < j < self.issues.len() ==> #[trigger] self.issues[i].newsletter_issue_id
                != #[trigger] self.issues[j].newsletter_issue_id
    }

    /// Whether an idempotency row for `(u, k)` exists.
    pub open spec fn has_idem(self, u: u128, k: Seq<char>) -> bool {
        exists|i: int|
            0 <= i < self.idempotency.len() && #[trigger] self.idempotency[i].user_id == u
                && self.idempotency[i].key == k
    }

    /// The index of the idempotency row for `(u, k)`; unique when `wf` holds.
    pub open spec fn idem_at(self, u: u128, k: Seq<char>) -> int {
        choose|i: int|
            0 <= i < self.idempotency.len() && #[trigger] self.idempotency[i].user_id == u
                && self.idempotency[i].key == k
    }

    /// The idempotency row for `(u, k)`.
    pub open spec fn idem_record(self, u: u128, k: Seq<char>) -> IdempotencyRecordView {
        self.idempotency[self.idem_at(u, k)]
    }

    /// Whether user `u` owns an issue with this identifier.
    pub open spec fn has_issue(self, u: u128, id: u128) -> bool {
        exists|i: int|
            0 <= i < self.issues.len() && #[trigger] self.issues[i].newsletter_issue_id == id
                && self.issues[i].user_id == u
    }

    /// The index of user `u`'s issue `id`; unique when `wf` holds.
    pub open spec fn issue_at(self, u: u128, id: u128) -> int {
        choose|i: int|
            0 <= i < self.issues.len() && #[trigger] self.issues[i].newsletter_issue_id == id
                && self.issues[i].user_id == u
    }

    /// User `u`'s issue `id`.
    pub open spec fn issue_record(self, u: u128, id: u128) -> NewsletterIssueView {
        self.issues[self.issue_at(u, id)]
    }

    /// Whether a subscription row for `(u, email)` exists.
    pub open spec fn has_subscription(self, u: u128, email: Seq<char>) -> bool {
        exists|i: int|
            0 <= i < self.subscriptions.len() && #[trigger] self.subscriptions[i].user_id == u
                && self.subscriptions[i].email == email
    }

    /// `i` is the first subscription row for `(u, email)`.
    pub open spec fn is_first_subscription(self, u: u128, email: Seq<char>, i: int) -> bool {
        &&& 0 <= i < self.subscriptions.len()
        &&& self.subscriptions[i].user_id == u
        &&& self.subscriptions[i].email == email
        &&& forall|j: int|
            0 <= j < i ==> !(#[trigger] self.subscriptions[j].user_id == u
                && self.subscriptions[j].email == email)
    }

    /// The index of the first subscription row for `(u, email)`.
    pub open spec fn subscription_at(self, u: u128, email: Seq<char>) -> int {
        choose|i: int| self.is_first_subscription(u, email, i)
    }

    /// The number of issues of user `u` that are published.
    pub open spec fn spec_published_count(issues: Seq<NewsletterIssueView>, u: u128) -> nat
        decreases issues.len(),
    {
        if issues.len() == 0 {
            0
        } else {
            Self::spec_published_count(issues.drop_last(), u) + (
            if issues.last().user_id == u && issues.last().published_at is Some {
                1nat
            } else {
                0nat
            })
        }
    }
}

/// The relational store: the single source of truth that requests and the
/// delivery worker synchronize through.
pub struct Store {
    pub idempotency: Vec<IdempotencyRecord>,
    pub issues: Vec<NewsletterIssue>,
    pub subscriptions: Vec<SubscriptionRecord>,
    pub delivery_queue: Vec<DeliveryRow>,
}

impl View for Store {
    type V = StoreView;

    open spec fn view(&self) -> StoreView {
        StoreView {
            idempotency: Seq::new(self.idempotency@.len(), |i: int| self.idempotency@[i]@),
            issues: Seq::new(self.issues@.len(), |i: int| self.issues@[i]@),
            subscriptions: Seq::new(self.subscriptions@.len(), |i: int| self.subscriptions@[i]@),
            delivery_queue: Seq::new(self.delivery_queue@.len(), |i: int| self.delivery_queue@[i]@),
        }
    }
}

impl Store {
    /// A fresh, empty store.
    pub fn new() -> (s: Store)
        ensures
            s@ == StoreView::empty(),
            s@.wf(),
    {
        let s = Store {
            idempotency: Vec::new(),
            issues: Vec::new(),
            subscriptions: Vec::new(),
            delivery_queue: Vec::new(),
        };
        proof {
            assert(s@ =~= StoreView::empty());
        }
        s
    }

    /// Records a subscription of `email` to `user_id`'s newsletter.
    pub fn add_subscription(&mut self, user_id: u128, email: String, confirmed: bool)
        ensures
            final(self)@ == (StoreView {
                subscriptions: old(self)@.subscriptions.push(
                    SubscriptionView { user_id, email: email@, confirmed },
                ),
                ..old(self)@
            }),
            old(self)@.wf() ==> final(self)@.wf(),
    {
        let ghost pre = self@;
        self.subscriptions.push(SubscriptionRecord { user_id, email, confirmed });
        proof {
            assert(self@ =~= (StoreView {
                subscriptions: pre.subscriptions.push(self@.subscriptions.last()),
                ..pre
            }));
        }
    }

    /// Whether user `u` already has an issue under this slug.
    pub open spec fn spec_slug_taken(issues: Seq<NewsletterIssueView>, u: u128, slug: Seq<char>) -> bool {
        exists|i: int|
            0 <= i < issues.len() && #[trigger] issues[i].user_id == u && issues[i].slug == slug
    }

    /// How many of `user_id`'s issues are published.
    pub fn count_published_issues(&self, user_id: u128) -> (n: usize)
        ensures
            n == StoreView::spec_published_count(self@.issues, user_id),
    {
        let mut n: usize = 0;
        let mut i: usize = 0;
        let len = self.issues.len();
        while i < len
            invariant
                i <= len,
                len == self@.issues.len(),
                self@.issues.len() == self.issues@.len(),
                forall|j: int|
                    0 <= j < self@.issues.len() ==> #[trigger] self@.issues[j]
                        == self.issues@[j]@,
                n == StoreView::spec_published_count(self@.issues.take(i as int), user_id),
                n <= i,
            decreases len - i,
        {
            proof {
                assert(self@.issues.take(i as int + 1).drop_last() =~= self@.issues.take(i as int));
            }
            if self.issues[i].user_id == user_id && self.issues[i].published_at.is_some() {
                n += 1;
            }
            i += 1;
        }
        proof {
            assert(self@.issues.take(len as int) =~= self@.issues);
        }
        n
    }
}

impl NewNewsletterIssue {
    /// Rejects a new issue whose `(user, slug)` pair is already taken;
    /// this runs before any insert.
    pub fn validate(self, user_id: u128, store: &Store) -> (r: Result<NewNewsletterIssue, String>)
        ensures
            r is Ok <==> !Store::spec_slug_taken(store@.issues, user_id, self.slug@),
            r matches Ok(n) ==> n == self,
            r matches Err(e) ==> e@ == "User id and slug are not unique."@,
    {
        let n = store.issues.len();
        let mut i: usize = 0;
        while i < n
            invariant
                i <= n,
                n == store.issues@.len(),
                store@.issues.len() == n,
                forall|j: int|
                    0 <= j < i ==> !(#[trigger] store@.issues[j].user_id == user_id
                        && store@.issues[j].slug == self.slug@),
            decreases n - i,
        {
            if store.issues[i].user_id == user_id && str_eq(
                store.issues[i].slug.as_str(),
                self.slug.as_str(),
            ) {
                proof {
                    assert(store@.issues[i as int].user_id == user_id && store@.issues[i as int].slug
                        == self.slug@);
                    assert(Store::spec_slug_taken(store@.issues, user_id, self.slug@));
                }
                return Err(String::from_str("User id and slug are not unique."));
            }
            i += 1;
        }
        proof {
            if Store::spec_slug_taken(store@.issues, user_id, self.slug@) {
                let w = choose|w: int|
                    0 <= w < store@.issues.len() && #[trigger] store@.issues[w].user_id == user_id
                        && store@.issues[w].slug == self.slug@;
                assert(!(store@.issues[w].user_id == user_id && store@.issues[w].slug
                    == self.slug@));
            }
        }
        Ok(self)
    }

    /// Stores the new issue as an unpublished row created at `now`; a row
    /// with the same identifier makes the insert fail, as the storage
    /// layer's unique constraint would.  The caller supplies the clock
    /// reading `now`.
    pub fn insert_newsletter_issue(&self, user_id: u128, store: &mut Store, now: u64) -> (r: Result<
        u128,
        String,
    >)
        requires
            old(store)@.wf(),
        ensures
            final(store)@.wf(),
            r is Ok <==> !has_issue_by_id(old(store)@.issues, self.newsletter_issue_id),
            r matches Ok(id) ==> id == self.newsletter_issue_id && final(store)@ == (StoreView {
                issues: old(store)@.issues.push(
                    NewsletterIssueView {
                        content: self.content@,
                        cover_image_url: self.cover_image_url@,
                        created_at: now,
                        description: self.description@,
                        newsletter_issue_id: self.newsletter_issue_id,
                        published_at: None,
                        slug: self.slug@,
                        title: self.title@,
                        user_id,
                    },
                ),
                ..old(store)@
            }),
            r is Err ==> final(store)@ == old(store)@ && (r matches Err(e) && e@
                == "Failed to store newsletter issue details."@),
    {
        let ghost pre = store@;
        let n = store.issues.len();
        let mut i: usize = 0;
        while i < n
            invariant
                i <= n,
                n == store.issues@.len(),
                store@.issues.len() == n,
                store@ == pre,
                pre.wf(),
                forall|j: int|
                    0 <= j < i ==> #[trigger] store@.issues[j].newsletter_issue_id
                        != self.newsletter_issue_id,
            decreases n - i,
        {
            if store.issues[i].newsletter_issue_id == self.newsletter_issue_id {
                proof {
                    assert(store@.issues[i as int].newsletter_issue_id
                        == self.newsletter_issue_id);
                    assert(has_issue_by_id(pre.issues, self.newsletter_issue_id));
                }
                return Err(String::from_str("Failed to store newsletter issue details."));
            }
            i += 1;
        }
        proof {
            if has_issue_by_id(pre.issues, self.newsletter_issue_id) {
                let w = choose|w: int|
                    0 <= w < pre.issues.len() && #[trigger] pre.issues[w].newsletter_issue_id
                        == self.newsletter_issue_id;
                assert(pre.issues[w].newsletter_issue_id != self.newsletter_issue_id);
            }
        }
        let row = NewsletterIssue {
            content: String::from_str(self.content.as_str()),
            cover_image_url: String::from_str(self.cover_image_url.as_str()),
            created_at: now,
            description: String::from_str(self.description.as_str()),
            newsletter_issue_id: self.newsletter_issue_id,
            published_at: None,
            slug: String::from_str(self.slug.as_str()),
            title: String::from_str(self.title.as_str()),
            user_id,
        };
        store.issues.push(row);
        proof {
            assert(store@ =~= (StoreView {
                issues: pre.issues.push(
                    NewsletterIssueView {
                        content: self.content@,
                        cover_image_url: self.cover_image_url@,
                        created_at: now,
                        description: self.description@,
                        newsletter_issue_id: self.newsletter_issue_id,
                        published_at: None,
                        slug: self.slug@,
                        title: self.title@,
                        user_id,
                    },
                ),
                ..pre
            }));
            assert forall|x: int, y: int| 0 <= x < y < store@.issues.len() implies
            #[trigger] store@.issues[x].newsletter_issue_id
                != #[trigger] store@.issues[y].newsletter_issue_id by {
                if y == store@.issues.len() - 1 {
                    assert(pre.issues[x].newsletter_issue_id != self.newsletter_issue_id);
                }
            }
        }
        Ok(self.newsletter_issue_id)
    }
}

} // verus!
