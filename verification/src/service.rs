//! The dispatch service: create with optional synchronous force-send,
//! cancel, list, and the scheduler-facing dispatch of due notifications.
//!
//! Each selected notification runs the send state machine: up to three
//! publish attempts, one second apart, then a single terminal status write
//! — `sent` on the first acknowledged attempt, `failed` when all three went
//! unacknowledged. Acknowledgement outcomes come from the transport, so
//! they are inputs here: the surrounding process performs each publish and
//! hands the outcomes in, and every contract holds whatever the outcomes
//! were.

use vstd::prelude::*;

use crate::bus::BusMessageView;
use crate::bus::MessageBus;
use crate::bus::publish_step;
use crate::errors::AppError;
use crate::errors::AppResult;
use crate::notification::all_statuses_advanced;
use crate::notification::Notification;
use crate::notification::NotificationView;
use crate::notification::Priority;
use crate::notification::Status;
use crate::notification::transition_allowed;
use crate::notification::with_status;
use crate::store::find_id;
use crate::store::GetMessagesOptions;
use crate::store::lemma_find_id_unique;
use crate::store::lemma_query_result_sound;
use crate::store::NotificationStore;
use crate::store::query_result;

verus! {

/// Most notifications one dispatch tick may select.
pub const DISPATCH_BATCH_LIMIT: usize = 10;

/// Most publish attempts for one notification in one dispatch.
pub const MAX_SEND_ATTEMPTS: usize = 3;

/// Gap between two publish attempts for one notification, in seconds.
pub const RETRY_GAP_SECS: i64 = 1;

/// Period of the periodic dispatch loop of a tier, in seconds.
pub open spec fn spec_tick_period_secs(priority: Priority) -> u64 {
    match priority {
        Priority::High => 1u64,
        Priority::Low => 5u64,
    }
}

/// Period of the periodic dispatch loop of a tier, in seconds.
pub fn tick_period_secs(priority: Priority) -> (p: u64)
    ensures
        p == spec_tick_period_secs(priority),
{
    match priority {
        Priority::High => 1,
        Priority::Low => 5,
    }
}

/// How many of the (up to three) attempts the state machine uses: it stops
/// at the first acknowledged one.
pub open spec fn attempts_used(acks: Seq<bool>) -> int {
    if acks[0] {
        1int
    } else if acks[1] {
        2int
    } else {
        3int
    }
}

/// Whether some of the three attempts is acknowledged.
pub open spec fn send_succeeds(acks: Seq<bool>) -> bool {
    acks[0] || acks[1] || acks[2]
}

/// The terminal status the state machine writes.
pub open spec fn outcome_status(acks: Seq<bool>) -> Status {
    if send_succeeds(acks) {
        Status::Sent
    } else {
        Status::Failed
    }
}

/// The message one attempt hands the bus: the notification itself is the
/// payload, its id the deduplication key, its recipient the subject.
pub open spec fn attempt_message(n: NotificationView, t: int) -> BusMessageView {
    BusMessageView {
        channel: n.channel,
        recipient_id: n.recipient.id,
        payload: n,
        dedup_key: n.id->0,
        published_at: t,
    }
}

/// The retained ledger after `count` attempts for one notification,
/// starting at `now`, one second apart.
pub open spec fn bus_after_attempts(
    msgs: Seq<BusMessageView>,
    n: NotificationView,
    now: int,
    count: int,
) -> Seq<BusMessageView>
    decreases count,
{
    if count <= 0 {
        msgs
    } else {
        publish_step(bus_after_attempts(msgs, n, now, count - 1), attempt_message(n, now + count - 1))
    }
}

/// The received ledger after `count` attempts for one notification: the
/// bus records every attempt, collapsed or not.
pub open spec fn received_after_attempts(
    msgs: Seq<BusMessageView>,
    n: NotificationView,
    now: int,
    count: int,
) -> Seq<BusMessageView>
    decreases count,
{
    if count <= 0 {
        msgs
    } else {
        received_after_attempts(msgs, n, now, count - 1).push(attempt_message(n, now + count - 1))
    }
}

/// The store after the send state machine ran for the notifications of
/// `batch`, in order, with the acknowledgement outcomes of `acks`: each
/// step writes the terminal status of its notification where that document
/// is still pending.
pub open spec fn dispatch_docs(
    docs: Seq<NotificationView>,
    batch: Seq<NotificationView>,
    acks: Seq<Seq<bool>>,
    k: int,
) -> Seq<NotificationView>
    decreases k,
{
    if k <= 0 {
        docs
    } else {
        let prev = dispatch_docs(docs, batch, acks, k - 1);
        let j = find_id(prev, batch[k - 1].id->0);
        if j >= 0 && prev[j].status == Status::Pending {
            prev.update(j, with_status(prev[j], outcome_status(acks[k - 1])))
        } else {
            prev
        }
    }
}

/// The retained ledger after the send state machine ran for the
/// notifications of `batch`, in order.
pub open spec fn dispatch_bus(
    msgs: Seq<BusMessageView>,
    batch: Seq<NotificationView>,
    acks: Seq<Seq<bool>>,
    now: int,
    k: int,
) -> Seq<BusMessageView>
    decreases k,
{
    if k <= 0 {
        msgs
    } else {
        bus_after_attempts(
            dispatch_bus(msgs, batch, acks, now, k - 1),
            batch[k - 1],
            now,
            attempts_used(acks[k - 1]),
        )
    }
}

/// The received ledger after the send state machine ran for the
/// notifications of `batch`, in order.
pub open spec fn dispatch_received(
    msgs: Seq<BusMessageView>,
    batch: Seq<NotificationView>,
    acks: Seq<Seq<bool>>,
    now: int,
    k: int,
) -> Seq<BusMessageView>
    decreases k,
{
    if k <= 0 {
        msgs
    } else {
        received_after_attempts(
            dispatch_received(msgs, batch, acks, now, k - 1),
            batch[k - 1],
            now,
            attempts_used(acks[k - 1]),
        )
    }
}

/// The query one dispatch tick runs: due pending notifications of the
/// tier, quiet hours respected, at most the batch limit.
pub open spec fn dispatch_query(priority: Priority, scheduled_time: i64) -> GetMessagesOptions {
    GetMessagesOptions {
        priority: Some(priority),
        status: Some(Status::Pending),
        limit: Some(DISPATCH_BATCH_LIMIT),
        scheduled_time: Some(scheduled_time),
        respect_nighttime: Some(true),
    }
}

/// What one dispatch tick at instant `now` does to the store and to the
/// retained ledger of the bus.
pub open spec fn dispatch_effect(
    pre_docs: Seq<NotificationView>,
    pre_received: Seq<BusMessageView>,
    pre_retained: Seq<BusMessageView>,
    post_docs: Seq<NotificationView>,
    post_received: Seq<BusMessageView>,
    post_retained: Seq<BusMessageView>,
    priority: Priority,
    now: i64,
    acks: Seq<Seq<bool>>,
) -> bool {
    let batch = query_result(pre_docs, dispatch_query(priority, now));
    &&& batch.len() <= DISPATCH_BATCH_LIMIT
    &&& post_docs == dispatch_docs(pre_docs, batch, acks, batch.len() as int)
    &&& post_received == dispatch_received(pre_received, batch, acks, now as int, batch.len() as int)
    &&& post_retained == dispatch_bus(pre_retained, batch, acks, now as int, batch.len() as int)
}

/// The store grew by the given notification under a fresh id.
pub open spec fn appended_with_fresh_id(
    pre: Seq<NotificationView>,
    post: Seq<NotificationView>,
    n: NotificationView,
    assigned: Seq<char>,
) -> bool {
    &&& post == pre.push(NotificationView { id: Some(assigned), ..n })
    &&& forall|j: int| 0 <= j < pre.len() ==> (#[trigger] pre[j]).id != Some(assigned)
}

/// The store grew by the given notification under a fresh id, and the new
/// document then took the given terminal status.
pub open spec fn appended_then_terminal(
    pre: Seq<NotificationView>,
    post: Seq<NotificationView>,
    n: NotificationView,
    assigned: Seq<char>,
    terminal: Status,
) -> bool {
    let stored = NotificationView { id: Some(assigned), ..n };
    &&& post == pre.push(stored).update(pre.len() as int, with_status(stored, terminal))
    &&& forall|j: int| 0 <= j < pre.len() ==> (#[trigger] pre[j]).id != Some(assigned)
}

/// A forced create whose terminal write failed: the notification was
/// created and published, but its status — not `pending` to begin with —
/// stayed as given.
pub open spec fn forced_create_unwritten(
    pre_docs: Seq<NotificationView>,
    post_docs: Seq<NotificationView>,
    pre_received: Seq<BusMessageView>,
    post_received: Seq<BusMessageView>,
    pre_retained: Seq<BusMessageView>,
    post_retained: Seq<BusMessageView>,
    n: NotificationView,
    acks: Seq<bool>,
    now: i64,
    assigned: Seq<char>,
) -> bool {
    let stored = NotificationView { id: Some(assigned), ..n };
    &&& appended_with_fresh_id(pre_docs, post_docs, n, assigned)
    &&& post_received == received_after_attempts(pre_received, stored, now as int, attempts_used(acks))
    &&& post_retained == bus_after_attempts(pre_retained, stored, now as int, attempts_used(acks))
}

/// The dispatch service over the store and the bus.
pub struct NotificationServiceImpl {
    pub repository: NotificationStore,
    pub broker: MessageBus,
}

impl NotificationServiceImpl {
    /// A service over the given store and bus.
    pub fn new(repository: NotificationStore, broker: MessageBus) -> (s: Self)
        ensures
            s.repository == repository,
            s.broker == broker,
    {
        NotificationServiceImpl { repository, broker }
    }

    /// Forward a status write to the store.
    pub fn update_message_status(&mut self, id: String, status: Status) -> (r: AppResult<()>)
        requires
            old(self).repository.wf(),
        ensures
            final(self).repository.wf(),
            final(self).broker == old(self).broker,
            final(self).repository.id_budget() == old(self).repository.id_budget(),
            ({
                let j = find_id(old(self).repository@, id@);
                if j >= 0 && transition_allowed(old(self).repository@[j].status, status) {
                    &&& r is Ok
                    &&& final(self).repository@ == old(self).repository@.update(
                        j,
                        with_status(old(self).repository@[j], status),
                    )
                } else {
                    &&& r is Err
                    &&& final(self).repository@ == old(self).repository@
                }
            }),
            r matches Err(e) ==> e is RepositoryError,
            all_statuses_advanced(old(self).repository@, final(self).repository@),
    {
        self.repository.update_message_status(id, status)
    }

    /// One publish attempt for one notification: the bus records it,
    /// dedupes it against its window, and the acknowledgement outcome
    /// decides the result.
    fn send_individual_message(&mut self, message: &Notification, now: i64, ack_ok: bool) -> (r:
        AppResult<()>)
        requires
            old(self).broker.wf(),
            message@.id is Some,
        ensures
            final(self).broker.wf(),
            final(self).repository == old(self).repository,
            final(self).broker.received_log() == old(self).broker.received_log().push(
                attempt_message(message@, now as int),
            ),
            final(self).broker.retained_log() == publish_step(
                old(self).broker.retained_log(),
                attempt_message(message@, now as int),
            ),
            r is Ok <==> ack_ok,
            r matches Err(e) ==> e is ServiceError,
    {
        let dedup_key: String = match &message.id {
            Some(s) => s.clone(),
            None => {
                proof {
                    assert(false);
                }
                String::new()
            },
        };
        self.broker.send_message(
            message.channel,
            message.recipient.id.clone(),
            message.clone(),
            dedup_key,
            now,
            ack_ok,
        )
    }

    /// The send state machine for one notification: up to three attempts,
    /// stopping at the first acknowledged one, then the terminal status
    /// write. `acks[a]` is the acknowledgement outcome the transport gives
    /// attempt `a`. The result reports whether the send succeeded, or the
    /// failure of the status write.
    pub fn try_send_message(&mut self, message: &Notification, acks: &Vec<bool>, now: i64) -> (r:
        AppResult<bool>)
        requires
            old(self).repository.wf(),
            old(self).broker.wf(),
            message@.id is Some,
            acks@.len() >= MAX_SEND_ATTEMPTS,
            now <= i64::MAX - 2,
        ensures
            final(self).repository.wf(),
            final(self).broker.wf(),
            final(self).repository.id_budget() == old(self).repository.id_budget(),
            final(self).broker.received_log().len() == old(self).broker.received_log().len()
                + attempts_used(acks@),
            final(self).broker.received_log() == received_after_attempts(
                old(self).broker.received_log(),
                message@,
                now as int,
                attempts_used(acks@),
            ),
            final(self).broker.retained_log() == bus_after_attempts(
                old(self).broker.retained_log(),
                message@,
                now as int,
                attempts_used(acks@),
            ),
            ({
                let j = find_id(old(self).repository@, message@.id->0);
                if j >= 0 && old(self).repository@[j].status == Status::Pending {
                    &&& r == Ok::<bool, AppError>(send_succeeds(acks@))
                    &&& final(self).repository@ == old(self).repository@.update(
                        j,
                        with_status(old(self).repository@[j], outcome_status(acks@)),
                    )
                } else {
                    &&& r is Err
                    &&& final(self).repository@ == old(self).repository@
                }
            }),
            r matches Err(e) ==> e is RepositoryError,
            all_statuses_advanced(old(self).repository@, final(self).repository@),
    {
        let ghost retained0 = self.broker.retained_log();
        let ghost received0 = self.broker.received_log();
        let mut attempts: usize = 0;
        let mut sent = false;
        while attempts < MAX_SEND_ATTEMPTS && !sent
            invariant
                attempts <= MAX_SEND_ATTEMPTS,
                acks@.len() >= MAX_SEND_ATTEMPTS,
                now <= i64::MAX - 2,
                message@.id is Some,
                self.repository == old(self).repository,
                self.broker.wf(),
                self.broker.retained_log() == bus_after_attempts(
                    retained0,
                    message@,
                    now as int,
                    attempts as int,
                ),
                self.broker.received_log().len() == received0.len() + attempts,
                self.broker.received_log() == received_after_attempts(
                    received0,
                    message@,
                    now as int,
                    attempts as int,
                ),
                sent ==> attempts >= 1 && acks@[attempts - 1] && forall|k: int|
                    0 <= k < attempts - 1 ==> !acks@[k],
                !sent ==> forall|k: int| 0 <= k < attempts ==> !acks@[k],
            decreases MAX_SEND_ATTEMPTS - attempts,
        {
            let ack_ok = acks[attempts];
            let res = self.send_individual_message(message, now + attempts as i64, ack_ok);
            attempts += 1;
            if res.is_ok() {
                sent = true;
            }
        }
        proof {
            assert(sent == send_succeeds(acks@));
            assert(attempts as int == attempts_used(acks@));
        }
        let status = if sent {
            Status::Sent
        } else {
            Status::Failed
        };
        let id: String = match &message.id {
            Some(s) => s.clone(),
            None => {
                proof {
                    assert(false);
                }
                String::new()
            },
        };
        match self.repository.update_message_status(id, status) {
            Ok(_) => Ok(sent),
            Err(e) => Err(e),
        }
    }

    /// Create a notification, optionally force-sending it at once. The
    /// returned id is the one the store assigned; a forced send runs the
    /// full state machine synchronously — `acks` holding its outcomes, `now`
    /// its instant — and a failing terminal write is surfaced, but the
    /// creation itself is never rolled back.
    pub fn create_notification(
        &mut self,
        notification: Notification,
        force: Option<bool>,
        acks: &Vec<bool>,
        now: i64,
    ) -> (r: AppResult<String>)
        requires
            old(self).repository.wf(),
            old(self).broker.wf(),
            acks@.len() >= MAX_SEND_ATTEMPTS,
            now <= i64::MAX - 2,
        ensures
            final(self).repository.wf(),
            final(self).broker.wf(),
            r is Ok <==> old(self).repository.id_budget() > 0 && (force == Some(true)
                ==> notification@.status == Status::Pending),
            old(self).repository.id_budget() <= 0 ==> {
                &&& final(self).repository@ == old(self).repository@
                &&& final(self).broker == old(self).broker
            },
            r matches Ok(id) ==> force != Some(true) ==> {
                &&& appended_with_fresh_id(
                    old(self).repository@,
                    final(self).repository@,
                    notification@,
                    id@,
                )
                &&& final(self).broker == old(self).broker
            },
            r matches Ok(id) ==> force == Some(true) ==> {
                &&& appended_then_terminal(
                    old(self).repository@,
                    final(self).repository@,
                    notification@,
                    id@,
                    outcome_status(acks@),
                )
                &&& final(self).broker.received_log() == received_after_attempts(
                    old(self).broker.received_log(),
                    NotificationView { id: Some(id@), ..notification@ },
                    now as int,
                    attempts_used(acks@),
                )
                &&& final(self).broker.retained_log() == bus_after_attempts(
                    old(self).broker.retained_log(),
                    NotificationView { id: Some(id@), ..notification@ },
                    now as int,
                    attempts_used(acks@),
                )
            },
            r is Err && old(self).repository.id_budget() > 0 ==> exists|assigned: Seq<char>|
                forced_create_unwritten(
                    old(self).repository@,
                    final(self).repository@,
                    old(self).broker.received_log(),
                    final(self).broker.received_log(),
                    old(self).broker.retained_log(),
                    final(self).broker.retained_log(),
                    notification@,
                    acks@,
                    now,
                    assigned,
                ),
            r matches Err(e) ==> e is RepositoryError,
    {
        let ghost docs0 = self.repository@;
        let ghost received0 = self.broker.received_log();
        let ghost retained0 = self.broker.retained_log();
        let ghost n_view = notification@;
        let stored = match self.repository.create(notification) {
            Ok(stored) => stored,
            Err(e) => {
                return Err(e);
            },
        };
        let ghost assigned = stored@.id->0;
        proof {
            assert(stored@ == NotificationView { id: Some(assigned), ..n_view });
        }
        let forced = match force {
            Some(true) => true,
            _ => false,
        };
        if forced {
            proof {
                self.repository.lemma_wf_ids();
                lemma_find_id_unique(self.repository@, assigned, docs0.len() as int);
            }
            match self.try_send_message(&stored, acks, now) {
                Ok(_) => {},
                Err(e) => {
                    proof {
                        assert(forced_create_unwritten(
                            docs0,
                            self.repository@,
                            received0,
                            self.broker.received_log(),
                            retained0,
                            self.broker.retained_log(),
                            n_view,
                            acks@,
                            now,
                            assigned,
                        ));
                    }
                    return Err(e);
                },
            }
        }
        let id: String = match stored.id {
            Some(s) => s,
            None => {
                proof {
                    assert(false);
                }
                String::new()
            },
        };
        Ok(id)
    }

    /// Cancel a notification: set its status to `cancelled`. The call
    /// succeeds exactly when the notification exists and is still pending;
    /// a notification already in a terminal status reports the store's
    /// zero-match failure.
    pub fn cancel_notification(&mut self, id: String) -> (r: AppResult<()>)
        requires
            old(self).repository.wf(),
        ensures
            final(self).repository.wf(),
            final(self).broker == old(self).broker,
            ({
                let j = find_id(old(self).repository@, id@);
                if j >= 0 && old(self).repository@[j].status == Status::Pending {
                    &&& r is Ok
                    &&& final(self).repository@ == old(self).repository@.update(
                        j,
                        with_status(old(self).repository@[j], Status::Cancelled),
                    )
                } else {
                    &&& r is Err
                    &&& final(self).repository@ == old(self).repository@
                }
            }),
            r matches Err(e) ==> e is RepositoryError,
            all_statuses_advanced(old(self).repository@, final(self).repository@),
    {
        self.repository.update_message_status(id, Status::Cancelled)
    }

    /// List every stored notification.
    pub fn get_all(&self) -> (r: AppResult<Vec<Notification>>)
        ensures
            r matches Ok(v) && v.deep_view() == self.repository@,
    {
        let all = match self.repository.get_messages(GetMessagesOptions::default()) {
            Ok(v) => v,
            Err(e) => {
                return Err(e);
            },
        };
        proof {
            crate::store::lemma_query_filter_no_predicates(
                self.repository@,
                GetMessagesOptions::spec_default(),
            );
        }
        Ok(all)
    }

    /// One dispatch tick: select up to the batch limit of due pending
    /// notifications of the tier — quiet hours respected — and run the send
    /// state machine for each. `acks[k][a]` is the acknowledgement outcome
    /// of attempt `a` for the `k`-th selected notification: one row per
    /// possible selection. Per-notification failures never fail the tick.
    pub fn send_messages(
        &mut self,
        priority: Priority,
        scheduled_time: i64,
        acks: &Vec<Vec<bool>>,
    ) -> (r: AppResult<()>)
        requires
            old(self).repository.wf(),
            old(self).broker.wf(),
            acks@.len() >= DISPATCH_BATCH_LIMIT,
            forall|k: int| 0 <= k < acks@.len() ==> (#[trigger] acks@[k])@.len()
                >= MAX_SEND_ATTEMPTS,
            scheduled_time <= i64::MAX - 2,
        ensures
            r is Ok,
            final(self).repository.wf(),
            final(self).broker.wf(),
            final(self).repository.id_budget() == old(self).repository.id_budget(),
            dispatch_effect(
                old(self).repository@,
                old(self).broker.received_log(),
                old(self).broker.retained_log(),
                final(self).repository@,
                final(self).broker.received_log(),
                final(self).broker.retained_log(),
                priority,
                scheduled_time,
                acks.deep_view(),
            ),
            all_statuses_advanced(old(self).repository@, final(self).repository@),
    {
        let ghost docs0 = self.repository@;
        let ghost received0 = self.broker.received_log();
        let ghost retained0 = self.broker.retained_log();
        let opts = GetMessagesOptions {
            priority: Some(priority),
            status: Some(Status::Pending),
            limit: Some(DISPATCH_BATCH_LIMIT),
            scheduled_time: Some(scheduled_time),
            respect_nighttime: Some(true),
        };
        let batch = match self.repository.get_messages(opts) {
            Ok(v) => v,
            Err(e) => {
                return Err(e);
            },
        };
        let ghost batch_view = batch.deep_view();
        proof {
            lemma_query_result_sound(docs0, opts);
            self.repository.lemma_wf_ids();
            assert forall|k: int| 0 <= k < batch_view.len() implies (
            #[trigger] batch_view[k]).id is Some by {
                let j = choose|j: int| 0 <= j < docs0.len() && docs0[j] == batch_view[k];
            }
        }
        let n = batch.len();
        let mut i: usize = 0;
        while i < n
            invariant
                i <= n,
                n == batch.len(),
                batch.deep_view() == batch_view,
                batch_view.len() <= DISPATCH_BATCH_LIMIT,
                acks@.len() >= DISPATCH_BATCH_LIMIT,
                forall|k: int| 0 <= k < acks@.len() ==> (#[trigger] acks@[k])@.len()
                    >= MAX_SEND_ATTEMPTS,
                scheduled_time <= i64::MAX - 2,
                forall|k: int| 0 <= k < batch_view.len() ==> (#[trigger] batch_view[k]).id
                    is Some,
                self.repository.wf(),
                self.broker.wf(),
                self.repository.id_budget() == old(self).repository.id_budget(),
                self.repository@ == dispatch_docs(docs0, batch_view, acks.deep_view(), i as int),
                self.broker.received_log() == dispatch_received(
                    received0,
                    batch_view,
                    acks.deep_view(),
                    scheduled_time as int,
                    i as int,
                ),
                self.broker.retained_log() == dispatch_bus(
                    retained0,
                    batch_view,
                    acks.deep_view(),
                    scheduled_time as int,
                    i as int,
                ),
                all_statuses_advanced(docs0, self.repository@),
            decreases n - i,
        {
            let ghost docs_pre = self.repository@;
            let message = &batch[i];
            let ack_row = &acks[i];
            proof {
                assert(message@ == batch_view[i as int]);
                assert(ack_row@ =~= acks.deep_view()[i as int]);
                assert(ack_row@.len() >= MAX_SEND_ATTEMPTS);
            }
            let _ = self.try_send_message(message, ack_row, scheduled_time);
            i += 1;
            proof {
                assert(all_statuses_advanced(docs0, self.repository@)) by {
                    assert(all_statuses_advanced(docs_pre, self.repository@));
                }
            }
        }
        Ok(())
    }

    /// One scheduler tick: capture the current UTC instant and dispatch the
    /// tier at it. Whatever instant the clock gave, the tick has the
    /// dispatch effect at some representable instant.
    pub fn run_tick(&mut self, priority: Priority, acks: &Vec<Vec<bool>>) -> (r: AppResult<()>)
        requires
            old(self).repository.wf(),
            old(self).broker.wf(),
            acks@.len() >= DISPATCH_BATCH_LIMIT,
            forall|k: int| 0 <= k < acks@.len() ==> (#[trigger] acks@[k])@.len()
                >= MAX_SEND_ATTEMPTS,
        ensures
            r is Ok,
            final(self).repository.wf(),
            final(self).broker.wf(),
            final(self).repository.id_budget() == old(self).repository.id_budget(),
            exists|now: i64|
                #![auto]
                now <= i64::MAX - 2 && dispatch_effect(
                    old(self).repository@,
                    old(self).broker.received_log(),
                    old(self).broker.retained_log(),
                    final(self).repository@,
                    final(self).broker.received_log(),
                    final(self).broker.retained_log(),
                    priority,
                    now,
                    acks.deep_view(),
                ),
            all_statuses_advanced(old(self).repository@, final(self).repository@),
    {
        let clock = utc_now_seconds();
        // keep the instants of the two retries representable
        let now = if clock > i64::MAX - 2 {
            i64::MAX - 2
        } else {
            clock
        };
        let r = self.send_messages(priority, now, acks);
        proof {
            assert(now <= i64::MAX - 2 && dispatch_effect(
                old(self).repository@,
                old(self).broker.received_log(),
                old(self).broker.retained_log(),
                self.repository@,
                self.broker.received_log(),
                self.broker.retained_log(),
                priority,
                now,
                acks.deep_view(),
            ));
        }
        r
    }
}

/// Relies on `chrono::Utc::now` for the current instant, reduced to whole
/// seconds since the Unix epoch by chrono's `DateTime::timestamp`. Nothing
/// is promised of a clock reading.
#[verifier::external_body]
fn utc_now_seconds() -> i64 {
    chrono::Utc::now().timestamp()
}

} // verus!
