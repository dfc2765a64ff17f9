//! The quantified guarantees of the dispatcher, proved once and for all
//! from the specifications the executable functions carry: status
//! transitions only advance, the due set respects quiet hours and the batch
//! limit, a dispatched notification is retained on the bus exactly once per
//! deduplication window, failures mark notifications `failed`, a cancelled
//! notification is never selected again, and a created notification lists
//! back unchanged.

use vstd::prelude::*;

use crate::bus::bus_wf;
use crate::bus::BusMessageView;
use crate::bus::DEDUP_WINDOW_SECS;
use crate::bus::key_in_window;
use crate::bus::lemma_publish_step_preserves_wf;
use crate::bus::publish_step;
use crate::notification::all_statuses_advanced;
use crate::notification::lemma_all_statuses_advanced_trans;
use crate::notification::NotificationView;
use crate::notification::Status;
use crate::notification::status_advanced;
use crate::notification::with_status;
use crate::service::appended_with_fresh_id;
use crate::service::attempt_message;
use crate::service::attempts_used;
use crate::service::bus_after_attempts;
use crate::service::dispatch_bus;
use crate::service::dispatch_docs;
use crate::service::dispatch_query;
use crate::service::DISPATCH_BATCH_LIMIT;
use crate::service::outcome_status;
use crate::service::send_succeeds;
use crate::store::find_id;
use crate::store::GetMessagesOptions;
use crate::store::ids_unique;
use crate::store::lemma_find_id_same_ids;
use crate::store::lemma_find_id_spec;
use crate::store::lemma_find_id_unique;
use crate::store::lemma_query_result_distinct_ids;
use crate::store::lemma_query_result_sound;
use crate::store::query_result;
use crate::timezone::spec_in_waking_hours;
use crate::timezone::spec_local_hour;
use crate::timezone::spec_offset_hours;
use crate::timezone::spec_utc_hour;

verus! {

/// A dispatch only advances statuses: every document either keeps its value
/// or moves from `pending` to a terminal status.
pub proof fn lemma_dispatch_docs_statuses_advance(
    docs: Seq<NotificationView>,
    batch: Seq<NotificationView>,
    acks: Seq<Seq<bool>>,
    k: int,
)
    ensures
        all_statuses_advanced(docs, dispatch_docs(docs, batch, acks, k)),
    decreases k,
{
    if k <= 0 {
    } else {
        lemma_dispatch_docs_statuses_advance(docs, batch, acks, k - 1);
        let prev = dispatch_docs(docs, batch, acks, k - 1);
        let post = dispatch_docs(docs, batch, acks, k);
        let st = outcome_status(acks[k - 1]);
        let j = find_id(prev, batch[k - 1].id->0);
        assert(all_statuses_advanced(prev, post)) by {
            if j >= 0 && prev[j].status == Status::Pending {
                lemma_find_id_spec(prev, batch[k - 1].id->0, 0);
                assert(0 <= j < prev.len());
                assert(post == prev.update(j, with_status(prev[j], st)));
                assert forall|i: int| 0 <= i < prev.len() implies status_advanced(
                    prev[i],
                    #[trigger] post[i],
                ) by {
                    if i == j {
                        assert(post[i] == with_status(prev[i], st));
                    } else {
                        assert(post[i] == prev[i]);
                    }
                }
            } else {
                assert(post == prev);
            }
        }
        lemma_all_statuses_advanced_trans(docs, prev, post);
    }
}

/// With quiet hours respected, every notification the due-set query returns
/// has its recipient-local hour of the query's upper bound inside the
/// waking window.
pub proof fn lemma_due_set_respects_quiet_hours(
    docs: Seq<NotificationView>,
    opts: GetMessagesOptions,
)
    requires
        opts.respect_nighttime == Some(true),
        opts.scheduled_time is Some,
    ensures
        forall|k: int|
            0 <= k < query_result(docs, opts).len() ==> spec_in_waking_hours(
                spec_local_hour(
                    spec_utc_hour(opts.scheduled_time->0 as int),
                    spec_offset_hours(
                        (#[trigger] query_result(docs, opts)[k]).recipient.timezone_offset,
                    ),
                ),
            ),
{
    lemma_query_result_sound(docs, opts);
}

/// One dispatch tick selects at most the batch limit.
pub proof fn lemma_batch_limit(docs: Seq<NotificationView>, priority: crate::notification::Priority, t: i64)
    ensures
        query_result(docs, dispatch_query(priority, t)).len() <= DISPATCH_BATCH_LIMIT,
{
    lemma_query_result_sound(docs, dispatch_query(priority, t));
}

/// The attempts of one send preserve the window spacing of the retained
/// ledger.
pub proof fn lemma_bus_after_attempts_wf(
    msgs: Seq<BusMessageView>,
    n: NotificationView,
    now: int,
    count: int,
)
    requires
        bus_wf(msgs),
    ensures
        bus_wf(bus_after_attempts(msgs, n, now, count)),
    decreases count,
{
    if count > 0 {
        lemma_bus_after_attempts_wf(msgs, n, now, count - 1);
        lemma_publish_step_preserves_wf(
            bus_after_attempts(msgs, n, now, count - 1),
            attempt_message(n, now + count - 1),
        );
    }
}

/// A whole dispatch preserves the window spacing of the retained ledger.
pub proof fn lemma_dispatch_bus_wf(
    msgs: Seq<BusMessageView>,
    batch: Seq<NotificationView>,
    acks: Seq<Seq<bool>>,
    now: int,
    k: int,
)
    requires
        bus_wf(msgs),
    ensures
        bus_wf(dispatch_bus(msgs, batch, acks, now, k)),
    decreases k,
{
    if k > 0 {
        lemma_dispatch_bus_wf(msgs, batch, acks, now, k - 1);
        lemma_bus_after_attempts_wf(
            dispatch_bus(msgs, batch, acks, now, k - 1),
            batch[k - 1],
            now,
            attempts_used(acks[k - 1]),
        );
    }
}

/// After the attempts of one send — however many of them the outcomes
/// demanded — a message with the notification's id is retained within the
/// deduplication window of the last attempt. Together with
/// `lemma_at_most_one_in_window`, this pins the count at exactly one per
/// window, across retries and across overlapping ticks.
pub proof fn lemma_send_retains_key(
    msgs: Seq<BusMessageView>,
    n: NotificationView,
    now: int,
    count: int,
)
    requires
        count >= 1,
    ensures
        key_in_window(bus_after_attempts(msgs, n, now, count), n.id->0, now + count - 1),
{
    let prev = bus_after_attempts(msgs, n, now, count - 1);
    let m = attempt_message(n, now + count - 1);
    let post = bus_after_attempts(msgs, n, now, count);
    if key_in_window(prev, m.dedup_key, m.published_at) {
        assert(post == prev);
    } else {
        assert(post == prev.push(m));
        assert(post[prev.len() as int].dedup_key == n.id->0 && -(DEDUP_WINDOW_SECS as int) < (now
            + count - 1) - post[prev.len() as int].published_at < DEDUP_WINDOW_SECS as int);
    }
}

/// Attempts made while a message with the key is already retained inside
/// the window retain nothing new: a second dispatch of a notification
/// within the window is collapsed entirely.
pub proof fn lemma_resend_within_window_collapsed(
    msgs: Seq<BusMessageView>,
    n: NotificationView,
    now: int,
    count: int,
)
    requires
        forall|k: int| 0 <= k < count ==> #[trigger] key_in_window(msgs, n.id->0, now + k),
    ensures
        bus_after_attempts(msgs, n, now, count) == msgs,
    decreases count,
{
    if count > 0 {
        lemma_resend_within_window_collapsed(msgs, n, now, count - 1);
    }
}

/// Whether one of the first `k` batch entries is stored at position `j`.
pub open spec fn touched_by(
    docs: Seq<NotificationView>,
    batch: Seq<NotificationView>,
    k: int,
    j: int,
) -> bool {
    exists|m: int| 0 <= m < k && find_id(docs, (#[trigger] batch[m]).id->0) == j
}

/// The master account of what one dispatch tick writes: every selected
/// notification's document takes the terminal status its acknowledgement
/// outcomes demand, and every other document is untouched.
pub proof fn lemma_dispatch_outcomes(
    docs: Seq<NotificationView>,
    opts: GetMessagesOptions,
    acks: Seq<Seq<bool>>,
    k: int,
)
    requires
        ids_unique(docs),
        forall|j: int| 0 <= j < docs.len() ==> (#[trigger] docs[j]).id is Some,
        opts.status == Some(Status::Pending),
        0 <= k <= query_result(docs, opts).len(),
    ensures
        ({
            let batch = query_result(docs, opts);
            let post = dispatch_docs(docs, batch, acks, k);
            &&& post.len() == docs.len()
            &&& forall|j: int| 0 <= j < docs.len() ==> (#[trigger] post[j]).id == docs[j].id
            &&& forall|m: int|
                0 <= m < k ==> {
                    let jm = find_id(docs, (#[trigger] batch[m]).id->0);
                    &&& 0 <= jm < docs.len()
                    &&& docs[jm] == batch[m]
                    &&& post[jm] == with_status(batch[m], outcome_status(acks[m]))
                }
            &&& forall|j: int|
                0 <= j < docs.len() && !touched_by(docs, batch, k, j) ==> (#[trigger] post[j])
                    == docs[j]
        }),
    decreases k,
{
    let batch = query_result(docs, opts);
    lemma_query_result_sound(docs, opts);
    lemma_query_result_distinct_ids(docs, opts);
    if k <= 0 {
    } else {
        lemma_dispatch_outcomes(docs, opts, acks, k - 1);
        let prev = dispatch_docs(docs, batch, acks, k - 1);
        let post = dispatch_docs(docs, batch, acks, k);
        let key = batch[k - 1].id->0;
        // the selected entry stands in the store, under its unique id
        let j0 = choose|j: int| 0 <= j < docs.len() && docs[j] == batch[k - 1];
        assert(batch[k - 1].id is Some);
        assert(docs[j0].id == Some(key));
        lemma_find_id_unique(docs, key, j0);
        let jk = find_id(docs, key);
        assert(jk == j0 && docs[jk] == batch[k - 1]);
        // it was not touched by the earlier entries
        assert(!touched_by(docs, batch, k - 1, jk)) by {
            if touched_by(docs, batch, k - 1, jk) {
                let m = choose|m: int|
                    0 <= m < k - 1 && find_id(docs, (#[trigger] batch[m]).id->0) == jk;
                lemma_find_id_spec(docs, batch[m].id->0, 0);
                assert(docs[jk].id == Some(batch[m].id->0));
                assert(batch[m].id == batch[k - 1].id);
                assert(batch[m].id != batch[k - 1].id);
            }
        }
        assert(prev[jk] == docs[jk]);
        assert(batch[k - 1].status == Status::Pending);
        // the step finds the same position and writes the terminal status
        lemma_find_id_same_ids(prev, docs, key, 0);
        assert(find_id(prev, key) == jk);
        assert(post == prev.update(jk, with_status(prev[jk], outcome_status(acks[k - 1]))));
        assert forall|m: int| 0 <= m < k implies {
            let jm = find_id(docs, (#[trigger] batch[m]).id->0);
            &&& 0 <= jm < docs.len()
            &&& docs[jm] == batch[m]
            &&& post[jm] == with_status(batch[m], outcome_status(acks[m]))
        } by {
            let jm = find_id(docs, batch[m].id->0);
            if m < k - 1 {
                if jm == jk {
                    lemma_find_id_spec(docs, batch[m].id->0, 0);
                    assert(docs[jk].id == Some(batch[m].id->0));
                    assert(batch[m].id == batch[k - 1].id);
                    assert(false);
                }
                assert(post[jm] == prev[jm]);
            }
        }
        assert forall|j: int|
            0 <= j < docs.len() && !touched_by(docs, batch, k, j) implies (#[trigger] post[j])
            == docs[j] by {
            assert(!touched_by(docs, batch, k - 1, j)) by {
                if touched_by(docs, batch, k - 1, j) {
                    let m = choose|m: int|
                        0 <= m < k - 1 && find_id(docs, (#[trigger] batch[m]).id->0) == j;
                    assert(touched_by(docs, batch, k, j));
                }
            }
            assert(j != jk) by {
                if j == jk {
                    assert(find_id(docs, batch[k - 1].id->0) == j);
                    assert(touched_by(docs, batch, k, j));
                }
            }
        }
    }
}

/// When every send of a dispatch fails, every selected notification's
/// document ends `failed` — and none of the others moved.
pub proof fn lemma_all_failed_end_failed(
    docs: Seq<NotificationView>,
    opts: GetMessagesOptions,
    acks: Seq<Seq<bool>>,
)
    requires
        ids_unique(docs),
        forall|j: int| 0 <= j < docs.len() ==> (#[trigger] docs[j]).id is Some,
        opts.status == Some(Status::Pending),
        forall|m: int|
            0 <= m < query_result(docs, opts).len() ==> !send_succeeds(#[trigger] acks[m]),
    ensures
        ({
            let batch = query_result(docs, opts);
            let post = dispatch_docs(docs, batch, acks, batch.len() as int);
            forall|m: int|
                0 <= m < batch.len() ==> {
                    let jm = find_id(docs, (#[trigger] batch[m]).id->0);
                    &&& 0 <= jm < docs.len()
                    &&& post[jm].status == Status::Failed
                }
        }),
{
    let batch = query_result(docs, opts);
    lemma_dispatch_outcomes(docs, opts, acks, batch.len() as int);
}

/// A terminal notification is never selected by the dispatch query: its id
/// appears in no due set.
pub proof fn lemma_terminal_never_selected(
    docs: Seq<NotificationView>,
    opts: GetMessagesOptions,
    j: int,
)
    requires
        ids_unique(docs),
        opts.status == Some(Status::Pending),
        0 <= j < docs.len(),
        docs[j].status.spec_is_terminal(),
    ensures
        forall|k: int|
            0 <= k < query_result(docs, opts).len() ==> (#[trigger] query_result(
                docs,
                opts,
            )[k]).id != docs[j].id,
{
    lemma_query_result_sound(docs, opts);
    let r = query_result(docs, opts);
    assert forall|k: int| 0 <= k < r.len() implies (#[trigger] r[k]).id != docs[j].id by {
        let j2 = choose|j2: int| 0 <= j2 < docs.len() && docs[j2] == r[k];
        assert(r[k].status == Status::Pending);
        assert(j2 != j);
    }
}

/// A created notification lists back with every field as given and the
/// assigned id.
pub proof fn lemma_create_round_trips(
    pre: Seq<NotificationView>,
    post: Seq<NotificationView>,
    n: NotificationView,
    assigned: Seq<char>,
)
    requires
        appended_with_fresh_id(pre, post, n, assigned),
    ensures
        post.len() == pre.len() + 1,
        post.last().id == Some(assigned),
        post.last().content == n.content,
        post.last().channel == n.channel,
        post.last().recipient == n.recipient,
        post.last().scheduled_time == n.scheduled_time,
        post.last().priority == n.priority,
        post.last().status == n.status,
        post.last().retry_count == n.retry_count,
        forall|i: int| 0 <= i < pre.len() ==> post[i] == pre[i],
{
}

} // verus!
