//! The notification store: an indexed collection of notifications with
//! create, a predicate query, and a conditional status update.
//!
//! `get_messages` returns, in insertion order, the notifications that meet
//! every supplied predicate, up to the supplied limit. With
//! `respect_nighttime` set and an upper bound on the scheduled time, the
//! result is further restricted to recipients whose local hour of that
//! bound lies in the waking window.

use vstd::prelude::*;
use vstd::string::StringExecFns;

use crate::digits::dec_str_of;
use crate::digits::lemma_dec_str_injective;
use crate::digits::u64_to_dec_string;
use crate::errors::AppError;
use crate::errors::AppResult;
use crate::notification::all_statuses_advanced;
use crate::notification::Notification;
use crate::notification::NotificationView;
use crate::notification::Priority;
use crate::notification::Status;
use crate::notification::transition_allowed;
use crate::notification::with_status;
use crate::timezone::spec_delivery_allowed;
use crate::timezone::delivery_allowed;

verus! {

/// Predicates of a store query; every supplied predicate must hold of every
/// returned notification.
#[derive(Clone, Copy)]
pub struct GetMessagesOptions {
    pub priority: Option<Priority>,
    pub status: Option<Status>,
    pub limit: Option<usize>,
    pub scheduled_time: Option<i64>,
    pub respect_nighttime: Option<bool>,
}

impl Default for GetMessagesOptions {
    /// The empty query: no predicate, no limit.
    fn default() -> (opts: Self)
        ensures
            opts == GetMessagesOptions::spec_default(),
    {
        GetMessagesOptions {
            priority: None,
            status: None,
            limit: None,
            scheduled_time: None,
            respect_nighttime: None,
        }
    }
}

impl GetMessagesOptions {
    /// The empty query: no predicate, no limit.
    pub open spec fn spec_default() -> GetMessagesOptions {
        GetMessagesOptions {
            priority: None,
            status: None,
            limit: None,
            scheduled_time: None,
            respect_nighttime: None,
        }
    }
}

/// Whether one notification meets every supplied predicate of a query.
/// The quiet-hours restriction applies only when an upper bound on the
/// scheduled time is supplied, and it is judged at that bound.
pub open spec fn matches_query(n: NotificationView, opts: GetMessagesOptions) -> bool {
    &&& (opts.priority matches Some(p) ==> n.priority == p)
    &&& (opts.status matches Some(st) ==> n.status == st)
    &&& (opts.scheduled_time matches Some(t) ==> {
        &&& n.scheduled_time <= t
        &&& (opts.respect_nighttime == Some(true) ==> spec_delivery_allowed(
            t as int,
            n.recipient.timezone_offset,
        ))
    })
}

/// The notifications of `docs` that meet the query, in insertion order,
/// before the limit is applied.
pub open spec fn query_filter(docs: Seq<NotificationView>, opts: GetMessagesOptions) -> Seq<
    NotificationView,
>
    decreases docs.len(),
{
    if docs.len() == 0 {
        Seq::empty()
    } else {
        let prefix = query_filter(docs.drop_last(), opts);
        if matches_query(docs.last(), opts) {
            prefix.push(docs.last())
        } else {
            prefix
        }
    }
}

/// The full result of a query: the filtered notifications, cut to the
/// limit when one is supplied.
pub open spec fn query_result(docs: Seq<NotificationView>, opts: GetMessagesOptions) -> Seq<
    NotificationView,
> {
    let f = query_filter(docs, opts);
    match opts.limit {
        Some(l) => if f.len() > l {
            f.take(l as int)
        } else {
            f
        },
        None => f,
    }
}

/// Extending the scanned prefix by one document extends the filter by that
/// document exactly when it matches.
pub proof fn lemma_query_filter_step(docs: Seq<NotificationView>, opts: GetMessagesOptions, i: int)
    requires
        0 <= i < docs.len(),
    ensures
        query_filter(docs.take(i + 1), opts) == if matches_query(docs[i], opts) {
            query_filter(docs.take(i), opts).push(docs[i])
        } else {
            query_filter(docs.take(i), opts)
        },
{
    assert(docs.take(i + 1).drop_last() =~= docs.take(i));
    assert(docs.take(i + 1).last() == docs[i]);
}

/// The filter of a prefix is a prefix of the filter.
pub proof fn lemma_query_filter_prefix(docs: Seq<NotificationView>, opts: GetMessagesOptions, i: int)
    requires
        0 <= i <= docs.len(),
    ensures
        query_filter(docs.take(i), opts).is_prefix_of(query_filter(docs, opts)),
    decreases docs.len(),
{
    if i == docs.len() {
        assert(docs.take(i) =~= docs);
    } else {
        let dl = docs.drop_last();
        lemma_query_filter_prefix(dl, opts, i);
        assert(dl.take(i) =~= docs.take(i));
    }
}

/// Every filtered notification meets the query and stands in the documents.
pub proof fn lemma_query_filter_sound(docs: Seq<NotificationView>, opts: GetMessagesOptions)
    ensures
        forall|k: int| 0 <= k < query_filter(docs, opts).len() ==> matches_query(
            #[trigger] query_filter(docs, opts)[k],
            opts,
        ),
        forall|k: int| 0 <= k < query_filter(docs, opts).len() ==> exists|j: int|
            0 <= j < docs.len() && docs[j] == #[trigger] query_filter(docs, opts)[k],
    decreases docs.len(),
{
    if docs.len() > 0 {
        let dl = docs.drop_last();
        lemma_query_filter_sound(dl, opts);
        let f = query_filter(docs, opts);
        let fp = query_filter(dl, opts);
        assert forall|k: int| 0 <= k < f.len() implies exists|j: int|
            0 <= j < docs.len() && docs[j] == #[trigger] f[k] by {
            if k < fp.len() {
                let j = choose|j: int| 0 <= j < dl.len() && dl[j] == fp[k];
                assert(docs[j] == f[k]);
            } else {
                assert(f[k] == docs.last());
                assert(docs[docs.len() - 1] == f[k]);
            }
        }
    }
}

/// Every element of the full query result meets the query and stands in
/// the documents.
pub proof fn lemma_query_result_sound(docs: Seq<NotificationView>, opts: GetMessagesOptions)
    ensures
        forall|k: int| 0 <= k < query_result(docs, opts).len() ==> matches_query(
            #[trigger] query_result(docs, opts)[k],
            opts,
        ),
        forall|k: int| 0 <= k < query_result(docs, opts).len() ==> exists|j: int|
            0 <= j < docs.len() && docs[j] == #[trigger] query_result(docs, opts)[k],
        opts.limit matches Some(l) ==> query_result(docs, opts).len() <= l,
{
    lemma_query_filter_sound(docs, opts);
}

/// A query with no predicate keeps every document.
pub proof fn lemma_query_filter_no_predicates(docs: Seq<NotificationView>, opts: GetMessagesOptions)
    requires
        opts.priority is None,
        opts.status is None,
        opts.scheduled_time is None,
    ensures
        query_filter(docs, opts) == docs,
    decreases docs.len(),
{
    if docs.len() == 0 {
        assert(query_filter(docs, opts) =~= docs);
    } else {
        lemma_query_filter_no_predicates(docs.drop_last(), opts);
        assert(query_filter(docs, opts) =~= docs);
    }
}

/// Position of the first document with the given id, or -1.
pub open spec fn find_id_from(docs: Seq<NotificationView>, id: Seq<char>, i: int) -> int
    decreases docs.len() - i,
{
    if i < 0 || i >= docs.len() {
        -1
    } else if docs[i].id == Some(id) {
        i
    } else {
        find_id_from(docs, id, i + 1)
    }
}

/// Position of the first document with the given id, or -1.
pub open spec fn find_id(docs: Seq<NotificationView>, id: Seq<char>) -> int {
    find_id_from(docs, id, 0)
}

/// A scan that saw no match before `i` determines the find from the start.
pub proof fn lemma_find_id_prefix(docs: Seq<NotificationView>, id: Seq<char>, k: int, i: int)
    requires
        0 <= k <= i <= docs.len(),
        forall|j: int| k <= j < i ==> (#[trigger] docs[j]).id != Some(id),
    ensures
        find_id_from(docs, id, k) == find_id_from(docs, id, i),
    decreases i - k,
{
    if k < i {
        lemma_find_id_prefix(docs, id, k + 1, i);
    }
}

/// What a successful find means.
pub proof fn lemma_find_id_found(docs: Seq<NotificationView>, id: Seq<char>, i: int)
    requires
        0 <= i <= docs.len(),
        forall|j: int| 0 <= j < i ==> (#[trigger] docs[j]).id != Some(id),
        i < docs.len() ==> docs[i].id == Some(id),
    ensures
        find_id(docs, id) == if i < docs.len() {
            i
        } else {
            -1
        },
{
    lemma_find_id_prefix(docs, id, 0, i);
}

/// The find depends only on the ids of the documents.
pub proof fn lemma_find_id_same_ids(
    docs1: Seq<NotificationView>,
    docs2: Seq<NotificationView>,
    id: Seq<char>,
    i: int,
)
    requires
        docs1.len() == docs2.len(),
        forall|j: int| 0 <= j < docs1.len() ==> (#[trigger] docs1[j]).id == (
        #[trigger] docs2[j]).id,
        0 <= i <= docs1.len(),
    ensures
        find_id_from(docs1, id, i) == find_id_from(docs2, id, i),
    decreases docs1.len() - i,
{
    if i < docs1.len() {
        lemma_find_id_same_ids(docs1, docs2, id, i + 1);
    }
}

/// Under unique ids, a document with the id stands exactly at the found
/// position.
pub proof fn lemma_find_id_unique(docs: Seq<NotificationView>, id: Seq<char>, j: int)
    requires
        ids_unique(docs),
        0 <= j < docs.len(),
        docs[j].id == Some(id),
    ensures
        find_id(docs, id) == j,
{
    assert forall|k: int| 0 <= k < j implies (#[trigger] docs[k]).id != Some(id) by {
        assert(docs[k].id != docs[j].id);
    }
    lemma_find_id_prefix(docs, id, 0, j);
}

/// A successful find points at a document carrying the id.
pub proof fn lemma_find_id_spec(docs: Seq<NotificationView>, id: Seq<char>, i: int)
    requires
        0 <= i <= docs.len(),
    ensures
        find_id_from(docs, id, i) >= 0 ==> i <= find_id_from(docs, id, i) < docs.len()
            && docs[find_id_from(docs, id, i)].id == Some(id),
    decreases docs.len() - i,
{
    if i < docs.len() && docs[i].id != Some(id) {
        lemma_find_id_spec(docs, id, i + 1);
    }
}

/// Under unique ids carried by every document, the filtered notifications
/// carry pairwise distinct ids.
pub proof fn lemma_query_filter_distinct_ids(docs: Seq<NotificationView>, opts: GetMessagesOptions)
    requires
        ids_unique(docs),
        forall|j: int| 0 <= j < docs.len() ==> (#[trigger] docs[j]).id is Some,
    ensures
        ids_unique(query_filter(docs, opts)),
    decreases docs.len(),
{
    if docs.len() > 0 {
        let dl = docs.drop_last();
        lemma_query_filter_distinct_ids(dl, opts);
        lemma_query_filter_sound(dl, opts);
        let f = query_filter(docs, opts);
        let fp = query_filter(dl, opts);
        assert forall|k1: int, k2: int|
            0 <= k1 < k2 < f.len() && (#[trigger] f[k1]).id == (#[trigger] f[k2]).id implies
            false by {
            if k2 == fp.len() {
                let j = choose|j: int| 0 <= j < dl.len() && dl[j] == fp[k1];
                assert(docs[j].id != docs[docs.len() - 1].id);
            } else {
                assert(fp[k1].id != fp[k2].id);
            }
        }
    }
}

/// The full query result also carries pairwise distinct ids.
pub proof fn lemma_query_result_distinct_ids(docs: Seq<NotificationView>, opts: GetMessagesOptions)
    requires
        ids_unique(docs),
        forall|j: int| 0 <= j < docs.len() ==> (#[trigger] docs[j]).id is Some,
    ensures
        ids_unique(query_result(docs, opts)),
{
    lemma_query_filter_distinct_ids(docs, opts);
    let f = query_filter(docs, opts);
    let r = query_result(docs, opts);
    assert forall|k1: int, k2: int|
        0 <= k1 < k2 < r.len() && (#[trigger] r[k1]).id == (#[trigger] r[k2]).id implies false by {
        assert(r[k1] == f[k1] && r[k2] == f[k2]);
    }
}

/// No two documents share an id.
pub open spec fn ids_unique(docs: Seq<NotificationView>) -> bool {
    forall|j1: int, j2: int|
        0 <= j1 < j2 < docs.len() ==> (#[trigger] docs[j1]).id != (#[trigger] docs[j2]).id
}

/// The store. Ids are assigned from a counter, so they are unique; the
/// counter bound is visible as `id_budget`.
pub struct NotificationStore {
    notifications: Vec<Notification>,
    next_id: u64,
}

impl View for NotificationStore {
    type V = Seq<NotificationView>;

    closed spec fn view(&self) -> Seq<NotificationView> {
        self.notifications.deep_view()
    }
}

impl NotificationStore {
    /// How many ids the store can still assign.
    pub closed spec fn id_budget(&self) -> int {
        u64::MAX - self.next_id
    }

    /// The store invariant: every document has an id, drawn from the
    /// counter's past, and no two documents share one.
    pub closed spec fn wf(&self) -> bool {
        &&& forall|j: int| 0 <= j < self@.len() ==> exists|k: nat|
            k < self.next_id && (#[trigger] self@[j]).id == Some(dec_str_of(k))
        &&& ids_unique(self@)
    }

    /// Every stored document carries an id.
    pub proof fn lemma_wf_ids(&self)
        requires
            self.wf(),
        ensures
            ids_unique(self@),
            forall|j: int| 0 <= j < self@.len() ==> (#[trigger] self@[j]).id is Some,
    {
        assert forall|j: int| 0 <= j < self@.len() implies (#[trigger] self@[j]).id is Some by {
            let k = choose|k: nat| k < self.next_id && self@[j].id == Some(dec_str_of(k));
        }
    }

    /// An empty store.
    pub fn new() -> (s: Self)
        ensures
            s.wf(),
            s@ == Seq::<NotificationView>::empty(),
            s.id_budget() == u64::MAX as int,
    {
        let s = NotificationStore { notifications: Vec::new(), next_id: 0 };
        proof {
            assert(s@ =~= Seq::<NotificationView>::empty());
        }
        s
    }

    /// Assign a fresh id, persist, and return the stored form. The stored
    /// notification equals the given one in every field but the id, and its
    /// id collides with no stored one. Creation fails only when the id
    /// space is exhausted.
    pub fn create(&mut self, notification: Notification) -> (r: AppResult<Notification>)
        requires
            old(self).wf(),
        ensures
            final(self).wf(),
            r is Ok <==> old(self).id_budget() > 0,
            r matches Ok(stored) ==> {
                &&& stored@.id is Some
                &&& stored@ == NotificationView { id: stored@.id, ..notification@ }
                &&& forall|j: int| 0 <= j < old(self)@.len() ==> (#[trigger] old(
                    self,
                )@[j]).id != stored@.id
                &&& final(self)@ == old(self)@.push(stored@)
                &&& final(self).id_budget() == old(self).id_budget() - 1
            },
            r is Err ==> final(self)@ == old(self)@ && final(self).id_budget() == old(
                self,
            ).id_budget(),
            r matches Err(e) ==> e is RepositoryError,
    {
        if self.next_id == u64::MAX {
            return Err(AppError::RepositoryError(String::from_str("id space exhausted")));
        }
        let ghost old_docs = self@;
        let ghost old_next = self.next_id;
        let id_str = u64_to_dec_string(self.next_id);
        let stored = Notification { id: Some(id_str), ..notification };
        let copy = stored.clone();
        self.notifications.push(copy);
        self.next_id = self.next_id + 1;
        proof {
            assert(self@ =~= old_docs.push(stored@));
            assert(stored@.id == Some(dec_str_of(old_next as nat)));
            assert forall|j: int| 0 <= j < old_docs.len() implies (#[trigger] old_docs[j]).id
                != stored@.id by {
                let k = choose|k: nat|
                    k < old_next && old_docs[j].id == Some(dec_str_of(k));
                if old_docs[j].id == stored@.id {
                    assert(dec_str_of(k) == dec_str_of(old_next as nat));
                    lemma_dec_str_injective(k, old_next as nat);
                }
            }
            assert(self.wf()) by {
                assert forall|j: int| 0 <= j < self@.len() implies exists|k: nat|
                    k < self.next_id && (#[trigger] self@[j]).id == Some(dec_str_of(k)) by {
                    if j < old_docs.len() {
                        let k = choose|k: nat|
                            k < old_next && old_docs[j].id == Some(dec_str_of(k));
                        assert(k < self.next_id && self@[j].id == Some(dec_str_of(k)));
                    } else {
                        assert(self@[j].id == Some(dec_str_of(old_next as nat)));
                        assert((old_next as nat) < self.next_id);
                    }
                }
            }
        }
        Ok(stored)
    }

    /// Whether one notification meets every supplied predicate.
    fn notification_matches(n: &Notification, opts: GetMessagesOptions) -> (b: bool)
        ensures
            b == matches_query(n@, opts),
    {
        let priority_ok = match opts.priority {
            Some(p) => p == n.priority,
            None => true,
        };
        let status_ok = match opts.status {
            Some(st) => st == n.status,
            None => true,
        };
        let time_ok = match opts.scheduled_time {
            Some(t) => n.scheduled_time <= t && (!matches!(
                opts.respect_nighttime,
                Some(true),
            ) || delivery_allowed(t, n.recipient.timezone_offset.as_str())),
            None => true,
        };
        priority_ok && status_ok && time_ok
    }

    /// Run a query: every returned notification meets every supplied
    /// predicate, the result keeps insertion order, and its length never
    /// exceeds the supplied limit.
    pub fn get_messages(&self, opts: GetMessagesOptions) -> (r: AppResult<Vec<Notification>>)
        ensures
            r matches Ok(v) && v.deep_view() == query_result(self@, opts),
    {
        let ghost docs = self@;
        let mut out: Vec<Notification> = Vec::new();
        let n = self.notifications.len();
        let mut i: usize = 0;
        let mut done = false;
        proof {
            assert(out.deep_view() =~= query_filter(docs.take(0), opts));
            assert(docs.take(0) =~= Seq::<NotificationView>::empty());
        }
        while i < n && !done
            invariant
                i <= n,
                n == self.notifications.len(),
                docs == self@,
                docs.len() == n,
                done ==> (opts.limit matches Some(l) && out.len() == l),
                match opts.limit {
                    None => out.deep_view() == query_filter(docs.take(i as int), opts),
                    Some(l) => if out.len() < l {
                        out.deep_view() == query_filter(docs.take(i as int), opts)
                    } else {
                        &&& out.len() == l
                        &&& query_filter(docs.take(i as int), opts).len() >= l
                        &&& out.deep_view() == query_filter(docs.take(i as int), opts).take(
                            l as int,
                        )
                    },
                },
            decreases n - i + (if done {
                0int
            } else {
                1int
            }),
        {
            let hit_limit = match opts.limit {
                Some(l) => out.len() >= l,
                None => false,
            };
            if hit_limit {
                done = true;
            } else {
                let ghost out_pre = out.deep_view();
                let nref = &self.notifications[i];
                proof {
                    lemma_query_filter_step(docs, opts, i as int);
                    assert(nref@ == docs[i as int]);
                }
                if Self::notification_matches(nref, opts) {
                    out.push(nref.clone());
                    proof {
                        assert(out.deep_view() =~= out_pre.push(docs[i as int]));
                        match opts.limit {
                            Some(l) => if out.len() == l {
                                let fi = query_filter(docs.take(i + 1 as int), opts);
                                assert(fi.take(l as int) =~= fi);
                            },
                            None => {},
                        }
                    }
                }
                i += 1;
            }
        }
        proof {
            let f = query_filter(docs, opts);
            if i == n && !done {
                assert(docs.take(n as int) =~= docs);
            } else {
                // stopped at the limit
                let l = opts.limit->0;
                lemma_query_filter_prefix(docs, opts, i as int);
                let fi = query_filter(docs.take(i as int), opts);
                assert(fi.len() >= l);
                assert(fi == f.take(fi.len() as int));
                assert(out.deep_view() =~= f.take(l as int));
            }
        }
        Ok(out)
    }

    /// Conditionally update the status of the document with the given id.
    /// The update succeeds exactly when such a document exists, is still
    /// `pending`, and the new status is a terminal one; everything else is
    /// the zero-match failure.
    pub fn update_message_status(&mut self, id: String, status: Status) -> (r: AppResult<()>)
        requires
            old(self).wf(),
        ensures
            final(self).wf(),
            final(self).id_budget() == old(self).id_budget(),
            ({
                let j = find_id(old(self)@, id@);
                if j >= 0 && transition_allowed(old(self)@[j].status, status) {
                    &&& r is Ok
                    &&& final(self)@ == old(self)@.update(j, with_status(old(self)@[j], status))
                } else {
                    &&& r is Err
                    &&& final(self)@ == old(self)@
                }
            }),
            r matches Err(e) ==> e is RepositoryError,
            all_statuses_advanced(old(self)@, final(self)@),
    {
        let ghost docs = self@;
        let n = self.notifications.len();
        let mut i: usize = 0;
        while i < n
            invariant
                i <= n,
                n == self.notifications.len(),
                docs == self@,
                docs.len() == n,
                old(self).wf(),
                self == old(self),
                forall|j: int| 0 <= j < i ==> (#[trigger] docs[j]).id != Some(id@),
            decreases n - i,
        {
            let matches_id = match &self.notifications[i].id {
                Some(s) => *s == id,
                None => false,
            };
            if matches_id {
                proof {
                    lemma_find_id_found(docs, id@, i as int);
                }
                if self.notifications[i].status == Status::Pending && !matches!(
                    status,
                    Status::Pending,
                ) {
                    let mut updated = self.notifications[i].clone();
                    updated.status = status;
                    proof {
                        assert(updated@ == with_status(docs[i as int], status));
                    }
                    self.notifications.set(i, updated);
                    proof {
                        assert(self@ =~= docs.update(
                            i as int,
                            with_status(docs[i as int], status),
                        ));
                        assert(self.wf()) by {
                            assert forall|j: int| 0 <= j < self@.len() implies exists|k: nat|
                                k < self.next_id && (#[trigger] self@[j]).id == Some(
                                dec_str_of(k),
                            ) by {
                                let k = choose|k: nat|
                                    k < self.next_id && docs[j].id == Some(dec_str_of(k));
                                assert(self@[j].id == docs[j].id);
                                assert(k < self.next_id && self@[j].id == Some(dec_str_of(k)));
                            }
                        }
                    }
                    return Ok(());
                } else {
                    return Err(
                        AppError::RepositoryError(
                            String::from_str("no documents matched the query"),
                        ),
                    );
                }
            }
            i += 1;
        }
        proof {
            lemma_find_id_found(docs, id@, n as int);
        }
        Err(AppError::RepositoryError(String::from_str("no documents matched the query")))
    }
}

} // verus!
