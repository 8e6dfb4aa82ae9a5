use crate::response::{copy_bytes, copy_headers, headers_view, HttpResponse, HttpResponseView};
use crate::store::{Store, StoreView};
use crate::text::str_eq;
use crate::worker::{DeliveryRow, DeliveryRowView};
use vstd::prelude::*;

verus! {

/// A client-supplied token scoping one retryable operation per user:
/// non-empty and at most 50 characters.
#[derive(Debug)]
pub struct IdempotencyKey(String);

impl View for IdempotencyKey {
    type V = Seq<char>;

    closed spec fn view(&self) -> Seq<char> {
        self.0@
    }
}

impl IdempotencyKey {
    /// Whether `s` is accepted as an idempotency key.
    pub open spec fn spec_valid(s: Seq<char>) -> bool {
        0 < s.len() <= 50
    }

    /// The message returned when `s` is rejected.
    pub open spec fn spec_error(s: Seq<char>) -> Seq<char> {
        if s.len() == 0 {
            "The idempotency key cannot be empty."@
        } else {
            "The idempotency key must be shorter than 50 characters."@
        }
    }

    pub fn parse(s: String) -> (r: Result<IdempotencyKey, String>)
        ensures
            r is Ok <==> Self::spec_valid(s@),
            r matches Ok(k) ==> k@ == s@,
            r matches Err(e) ==> e@ == Self::spec_error(s@),
    {
        let n = s.as_str().unicode_len();
        if n == 0 {
            Err(String::from_str("The idempotency key cannot be empty."))
        } else if n > 50 {
            Err(String::from_str("The idempotency key must be shorter than 50 characters."))
        } else {
            Ok(IdempotencyKey(s))
        }
    }

    pub fn as_str(&self) -> (r: &str)
        ensures
            r@ == self@,
    {
        self.0.as_str()
    }
}

/// The persisted snapshot of a prior HTTP response: status, exact header
/// bytes and exact body bytes, replayed verbatim on duplicate requests.
pub struct SavedResponse {
    pub status: u16,
    pub headers: Vec<(Vec<u8>, Vec<u8>)>,
    pub body: Vec<u8>,
}

impl View for SavedResponse {
    type V = HttpResponseView;

    open spec fn view(&self) -> HttpResponseView {
        HttpResponseView {
            status: self.status,
            headers: headers_view(self.headers@),
            body: self.body@,
        }
    }
}

impl SavedResponse {
    /// Snapshots a response.  Together with `to_response` this is the
    /// round trip the snapshot store must preserve: what is saved and then
    /// reconstructed serializes to exactly the bytes that were saved.
    pub fn from_response(r: &HttpResponse) -> (s: SavedResponse)
        ensures
            s@ == r@,
    {
        let s = SavedResponse {
            status: r.status,
            headers: copy_headers(&r.headers),
            body: copy_bytes(&r.body),
        };
        proof {
            assert(s@ =~= r@);
        }
        s
    }

    /// Reconstructs the response exactly as it was first returned.
    pub fn to_response(&self) -> (r: HttpResponse)
        ensures
            r@ == self@,
    {
        let r = HttpResponse {
            status: self.status,
            headers: copy_headers(&self.headers),
            body: copy_bytes(&self.body),
        };
        proof {
            assert(r@ =~= self@);
        }
        r
    }
}

/// The mathematical value of one idempotency row.
#[verifier::ext_equal]
pub struct IdempotencyRecordView {
    pub user_id: u128,
    pub key: Seq<char>,
    pub response: Option<HttpResponseView>,
}

/// One idempotency row: reserved with no response while its request is being
/// processed, then finalized with the response snapshot and never updated
/// again.
pub struct IdempotencyRecord {
    pub user_id: u128,
    pub idempotency_key: String,
    pub response: Option<SavedResponse>,
}

impl View for IdempotencyRecord {
    type V = IdempotencyRecordView;

    open spec fn view(&self) -> IdempotencyRecordView {
        IdempotencyRecordView {
            user_id: self.user_id,
            key: self.idempotency_key@,
            response: match self.response {
                Some(s) => Some(s@),
                None => None,
            },
        }
    }
}

/// The mathematical value of an open transaction.
#[verifier::ext_equal]
pub struct TransactionView {
    pub user_id: u128,
    pub key: Seq<char>,
    pub publish: Option<(u128, u64)>,
    pub enqueued: Seq<DeliveryRowView>,
}

/// An open transactional resource: it remembers which `(user_id, key)` row
/// it reserved and buffers the mutation it will apply.  Every path must end
/// it with `save_response` (commit) or `rollback`; until then none of its
/// work is visible in the store.
pub struct Transaction {
    pub user_id: u128,
    pub key: String,
    pub publish: Option<(u128, u64)>,
    pub enqueued: Vec<DeliveryRow>,
}

impl View for Transaction {
    type V = TransactionView;

    open spec fn view(&self) -> TransactionView {
        TransactionView {
            user_id: self.user_id,
            key: self.key@,
            publish: self.publish,
            enqueued: Seq::new(self.enqueued@.len(), |i: int| self.enqueued@[i]@),
        }
    }
}

/// What `try_processing` decides: run the mutation inside the open
/// transaction, or hand back the already saved response.
pub enum NextAction {
    StartProcessing(Transaction),
    ReturnSavedResponse(HttpResponse),
}

/// The store after a reserved row for `(u, k)` is inserted.
pub open spec fn spec_reserve(s: StoreView, u: u128, k: Seq<char>) -> StoreView {
    StoreView {
        idempotency: s.idempotency.push(
            IdempotencyRecordView { user_id: u, key: k, response: None },
        ),
        ..s
    }
}

/// The store after a transaction commits: the reserved row is finalized with
/// the response, the pending publish timestamp is applied, and the buffered
/// delivery rows are appended.
pub open spec fn spec_commit(s: StoreView, t: TransactionView, resp: HttpResponseView) -> StoreView {
    let idem = s.idempotency.update(
        s.idem_at(t.user_id, t.key),
        IdempotencyRecordView { user_id: t.user_id, key: t.key, response: Some(resp) },
    );
    let issues = match t.publish {
        Some(p) => if s.has_issue(t.user_id, p.0) {
            s.issues.update(
                s.issue_at(t.user_id, p.0),
                crate::newsletter::NewsletterIssueView {
                    published_at: Some(p.1),
                    ..s.issue_record(t.user_id, p.0)
                },
            )
        } else {
            s.issues
        },
        None => s.issues,
    };
    StoreView { idempotency: idem, issues, delivery_queue: s.delivery_queue + t.enqueued, ..s }
}

/// The store after a transaction rolls back: the reserved row is gone and
/// nothing else changed, so the key is usable again.
pub open spec fn spec_rollback(s: StoreView, u: u128, k: Seq<char>) -> StoreView {
    StoreView { idempotency: s.idempotency.remove(s.idem_at(u, k)), ..s }
}

/// A row matching `(u, k)` at index `i` pins down `has_idem` and `idem_at`.
pub proof fn lemma_idem_at(s: StoreView, u: u128, k: Seq<char>, i: int)
    requires
        s.wf(),
        0 <= i < s.idempotency.len(),
        s.idempotency[i].user_id == u,
        s.idempotency[i].key == k,
    ensures
        s.has_idem(u, k),
        s.idem_at(u, k) == i,
{
    assert(s.has_idem(u, k));
    let j = s.idem_at(u, k);
    if i < j {
        assert(!(s.idempotency[i].user_id == s.idempotency[j].user_id && s.idempotency[i].key
            == s.idempotency[j].key));
    } else if j < i {
        assert(!(s.idempotency[j].user_id == s.idempotency[i].user_id && s.idempotency[j].key
            == s.idempotency[i].key));
    }
}

/// An issue of user `u` with id `id` at index `i` pins down `has_issue` and
/// `issue_at`.
pub proof fn lemma_issue_at(s: StoreView, u: u128, id: u128, i: int)
    requires
        s.wf(),
        0 <= i < s.issues.len(),
        s.issues[i].newsletter_issue_id == id,
        s.issues[i].user_id == u,
    ensures
        s.has_issue(u, id),
        s.issue_at(u, id) == i,
{
    assert(s.has_issue(u, id));
    let j = s.issue_at(u, id);
    if i < j {
        assert(s.issues[i].newsletter_issue_id != s.issues[j].newsletter_issue_id);
    } else if j < i {
        assert(s.issues[j].newsletter_issue_id != s.issues[i].newsletter_issue_id);
    }
}

/// Finds the idempotency row for `(user_id, key)`.
fn find_idem_index(store: &Store, user_id: u128, key: &str) -> (r: Option<usize>)
    requires
        store@.wf(),
    ensures
        r is None ==> !store@.has_idem(user_id, key@),
        r matches Some(i) ==> store@.has_idem(user_id, key@) && store@.idem_at(user_id, key@)
            == i as int && i < store@.idempotency.len(),
{
    let n = store.idempotency.len();
    let mut i: usize = 0;
    while i < n
        invariant
            i <= n,
            n == store.idempotency@.len(),
            store@.idempotency.len() == n,
            store@.wf(),
            forall|j: int|
                0 <= j < i ==> !(#[trigger] store@.idempotency[j].user_id == user_id
                    && store@.idempotency[j].key == key@),
        decreases n - i,
    {
        if store.idempotency[i].user_id == user_id && str_eq(
            store.idempotency[i].idempotency_key.as_str(),
            key,
        ) {
            proof {
                lemma_idem_at(store@, user_id, key@, i as int);
            }
            return Some(i);
        }
        i += 1;
    }
    None
}

/// Begins idempotent processing of a request for `(user_id, key)`:
/// - no row yet: a reserved row is inserted and an open transaction handed
///   back, in which the caller runs the mutation and then `save_response`;
/// - a finalized row: its saved response is replayed verbatim;
/// - a reserved but unfinished row (a concurrent request holds it): an error,
///   surfaced as a server error; the caller retries once the winner commits.
pub fn try_processing(store: &mut Store, key: &IdempotencyKey, user_id: u128) -> (r: Result<
    NextAction,
    String,
>)
    requires
        old(store)@.wf(),
    ensures
        final(store)@.wf(),
        !old(store)@.has_idem(user_id, key@) ==> {
            &&& final(store)@ == spec_reserve(old(store)@, user_id, key@)
            &&& r matches Ok(a) && a matches NextAction::StartProcessing(t) && t@
                == (TransactionView {
                user_id,
                key: key@,
                publish: None,
                enqueued: Seq::empty(),
            })
        },
        old(store)@.has_idem(user_id, key@) ==> final(store)@ == old(store)@ && match old(
            store,
        )@.idem_record(user_id, key@).response {
            Some(resp) => r matches Ok(a) && a matches NextAction::ReturnSavedResponse(h) && h@
                == resp,
            None => r matches Err(e) && e@
                == "We expected a saved response, we didn't find it."@,
        },
{
    let found = find_idem_index(store, user_id, key.as_str());
    match found {
        None => {
            let ghost pre = store@;
            store.idempotency.push(
                IdempotencyRecord {
                    user_id,
                    idempotency_key: String::from_str(key.as_str()),
                    response: None,
                },
            );
            proof {
                assert(store@ =~= spec_reserve(pre, user_id, key@));
                assert forall|i: int, j: int|
                    0 <= i < j < store@.idempotency.len() implies !(
                #[trigger] store@.idempotency[i].user_id
                    == #[trigger] store@.idempotency[j].user_id && store@.idempotency[i].key
                    == store@.idempotency[j].key) by {
                    if j == store@.idempotency.len() - 1 {
                        assert(!(pre.idempotency[i].user_id == user_id && pre.idempotency[i].key
                            == key@));
                    }
                }
            }
            let t = Transaction {
                user_id,
                key: String::from_str(key.as_str()),
                publish: None,
                enqueued: Vec::new(),
            };
            proof {
                assert(t@ =~= (TransactionView {
                    user_id,
                    key: key@,
                    publish: None,
                    enqueued: Seq::empty(),
                }));
            }
            Ok(NextAction::StartProcessing(t))
        },
        Some(i) => {
            match &store.idempotency[i].response {
                Some(saved) => {
                    let resp = saved.to_response();
                    Ok(NextAction::ReturnSavedResponse(resp))
                },
                None => Err(String::from_str("We expected a saved response, we didn't find it.")),
            }
        },
    }
}

/// Finds the issue row for `(user_id, id)`.
fn find_issue_index(store: &Store, user_id: u128, id: u128) -> (r: Option<usize>)
    requires
        store@.wf(),
    ensures
        r is None ==> !store@.has_issue(user_id, id),
        r matches Some(i) ==> store@.has_issue(user_id, id) && store@.issue_at(user_id, id)
            == i as int && i < store@.issues.len(),
{
    let n = store.issues.len();
    let mut i: usize = 0;
    while i < n
        invariant
            i <= n,
            n == store.issues@.len(),
            store@.issues.len() == n,
            store@.wf(),
            forall|j: int|
                0 <= j < i ==> !(#[trigger] store@.issues[j].newsletter_issue_id == id
                    && store@.issues[j].user_id == user_id),
        decreases n - i,
    {
        if store.issues[i].newsletter_issue_id == id && store.issues[i].user_id == user_id {
            proof {
                lemma_issue_at(store@, user_id, id, i as int);
            }
            return Some(i);
        }
        i += 1;
    }
    None
}

/// Finalizes idempotent processing: within the still-open transaction the
/// response snapshot is written into the reserved row, the buffered mutation
/// (publish timestamp, delivery rows) is applied, and everything becomes
/// visible at once.  The response is returned for immediate use.
pub fn save_response(
    store: &mut Store,
    txn: Transaction,
    key: &IdempotencyKey,
    user_id: u128,
    response: HttpResponse,
) -> (r: HttpResponse)
    requires
        old(store)@.wf(),
        txn@.user_id == user_id,
        txn@.key == key@,
        old(store)@.has_idem(user_id, key@),
        old(store)@.idem_record(user_id, key@).response is None,
    ensures
        final(store)@ == spec_commit(old(store)@, txn@, response@),
        final(store)@.wf(),
        r@ == response@,
{
    let ghost pre = store@;
    let mut txn = txn;
    let ghost tv = txn@;
    let saved = SavedResponse::from_response(&response);
    let found = find_idem_index(store, user_id, key.as_str());
    proof {
        assert(found is Some);
    }
    let i = found.unwrap();
    let rec = &mut store.idempotency[i];
    rec.response = Some(saved);
    proof {
        assert(store@.idempotency =~= pre.idempotency.update(
            pre.idem_at(user_id, key@),
            IdempotencyRecordView { user_id, key: key@, response: Some(response@) },
        ));
        assert(store@.issues =~= pre.issues);
        assert(store@.subscriptions =~= pre.subscriptions);
        assert(store@.delivery_queue =~= pre.delivery_queue);
    }
    let ghost mid = store@;
    match txn.publish {
        Some(p) => {
            let found_issue = find_issue_index(store, user_id, p.0);
            proof {
                assert(store@.has_issue(user_id, p.0) == pre.has_issue(user_id, p.0));
            }
            match found_issue {
                Some(idx) => {
                    let issue = &mut store.issues[idx];
                    issue.published_at = Some(p.1);
                    proof {
                        assert(pre.has_issue(user_id, p.0) && pre.issue_at(user_id, p.0)
                            == idx as int) by {
                            assert(mid.issues[idx as int] =~= pre.issues[idx as int]);
                            lemma_issue_at(pre, user_id, p.0, idx as int);
                        }
                        assert(store@.issues =~= pre.issues.update(
                            pre.issue_at(user_id, p.0),
                            crate::newsletter::NewsletterIssueView {
                                published_at: Some(p.1),
                                ..pre.issue_record(user_id, p.0)
                            },
                        ));
                    }
                },
                None => {
                },
            }
        },
        None => {
        },
    }
    let ghost before_queue = store@;
    store.delivery_queue.append(&mut txn.enqueued);
    proof {
        assert(store@.delivery_queue =~= pre.delivery_queue + tv.enqueued);
        assert(store@ =~= spec_commit(pre, tv, response@));
        assert forall|i: int, j: int|
            0 <= i < j < store@.idempotency.len() implies !(#[trigger] store@.idempotency[i].user_id
            == #[trigger] store@.idempotency[j].user_id && store@.idempotency[i].key
            == store@.idempotency[j].key) by {
            assert(pre.idempotency[i].user_id == store@.idempotency[i].user_id
                && pre.idempotency[i].key == store@.idempotency[i].key);
            assert(pre.idempotency[j].user_id == store@.idempotency[j].user_id
                && pre.idempotency[j].key == store@.idempotency[j].key);
        }
    }
    response
}

/// Abandons idempotent processing: the reserved row is removed and none of
/// the buffered mutation is applied, so a later request with the same key
/// starts fresh.  This is the explicit form of dropping the transaction.
pub fn rollback(store: &mut Store, txn: Transaction)
    requires
        old(store)@.wf(),
        old(store)@.has_idem(txn@.user_id, txn@.key),
        old(store)@.idem_record(txn@.user_id, txn@.key).response is None,
    ensures
        final(store)@ == spec_rollback(old(store)@, txn@.user_id, txn@.key),
        final(store)@.wf(),
{
    let ghost pre = store@;
    let found = find_idem_index(store, txn.user_id, txn.key.as_str());
    proof {
        assert(found is Some);
    }
    let i = found.unwrap();
    store.idempotency.remove(i);
    proof {
        assert(store@.idempotency =~= pre.idempotency.remove(pre.idem_at(txn@.user_id, txn@.key)));
        assert(store@.issues =~= pre.issues);
        assert(store@.subscriptions =~= pre.subscriptions);
        assert(store@.delivery_queue =~= pre.delivery_queue);
        assert(store@ =~= spec_rollback(pre, txn@.user_id, txn@.key));
        let ii = i as int;
        assert forall|x: int, y: int|
            0 <= x < y < store@.idempotency.len() implies !(#[trigger] store@.idempotency[x].user_id
            == #[trigger] store@.idempotency[y].user_id && store@.idempotency[x].key
            == store@.idempotency[y].key) by {
            let x0 = if x < ii {
                x
            } else {
                x + 1
            };
            let y0 = if y < ii {
                y
            } else {
                y + 1
            };
            assert(store@.idempotency[x] == pre.idempotency[x0]);
            assert(store@.idempotency[y] == pre.idempotency[y0]);
            assert(!(pre.idempotency[x0].user_id == pre.idempotency[y0].user_id
                && pre.idempotency[x0].key == pre.idempotency[y0].key));
        }
    }
}

} // verus!
