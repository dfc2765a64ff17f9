//! The durable message bus, as the dispatcher relies on it: per-channel
//! streams, per-recipient subjects, and deduplication by message key inside
//! a fixed window.
//!
//! `MessageBus` keeps two ledgers. `received` holds every publish the bus
//! ever saw — one entry per attempt. `retained` holds what the bus kept for
//! delivery: a publish whose deduplication key already stands in the
//! retained ledger within the deduplication window is collapsed into the
//! prior message and retains nothing new. The acknowledgement outcome of a
//! publish is an input here; a missing acknowledgement fails the call but
//! the broker may have retained the message all the same, which is the
//! at-least-once behaviour the dispatcher must tolerate.

use vstd::prelude::*;
use vstd::string::StringExecFns;

use crate::errors::AppError;
use crate::errors::AppResult;
use crate::notification::Channel;
use crate::notification::Notification;
use crate::notification::NotificationView;

verus! {

/// Width of the broker's deduplication window, in seconds.
pub const DEDUP_WINDOW_SECS: i64 = 60;

/// Age after which a stream drops an undelivered message, in seconds.
pub const STREAM_MAX_AGE_SECS: i64 = 86400;

/// One message as the bus saw it.
pub struct BusMessage {
    pub channel: Channel,
    pub recipient_id: String,
    pub payload: Notification,
    pub dedup_key: String,
    pub published_at: i64,
}

/// Mathematical image of a bus message.
pub ghost struct BusMessageView {
    pub channel: Channel,
    pub recipient_id: Seq<char>,
    pub payload: NotificationView,
    pub dedup_key: Seq<char>,
    pub published_at: int,
}

impl View for BusMessage {
    type V = BusMessageView;

    open spec fn view(&self) -> BusMessageView {
        BusMessageView {
            channel: self.channel,
            recipient_id: self.recipient_id@,
            payload: self.payload@,
            dedup_key: self.dedup_key@,
            published_at: self.published_at as int,
        }
    }
}

impl DeepView for BusMessage {
    type V = BusMessageView;

    open spec fn deep_view(&self) -> BusMessageView {
        self.view()
    }
}

impl Clone for BusMessage {
    fn clone(&self) -> (r: Self)
        ensures
            r@ == self@,
    {
        BusMessage {
            channel: self.channel,
            recipient_id: self.recipient_id.clone(),
            payload: self.payload.clone(),
            dedup_key: self.dedup_key.clone(),
            published_at: self.published_at,
        }
    }
}

/// The name of the per-channel stream.
pub open spec fn spec_stream_name(channel: Channel) -> Seq<char> {
    "notifications_"@ + channel.spec_name()
}

/// The name of the per-channel stream.
pub fn stream_name(channel: Channel) -> (s: String)
    ensures
        s@ == spec_stream_name(channel),
{
    let mut s = String::from_str("notifications_");
    let n = channel.name();
    s.append(n.as_str());
    s
}

/// The subject a message for one recipient on one channel is published to.
pub open spec fn spec_subject(channel: Channel, recipient_id: Seq<char>) -> Seq<char> {
    spec_stream_name(channel) + "."@ + recipient_id
}

/// The subject a message for one recipient on one channel is published to.
pub fn subject_for(channel: Channel, recipient_id: &str) -> (s: String)
    ensures
        s@ == spec_subject(channel, recipient_id@),
{
    let mut s = stream_name(channel);
    s.append(".");
    s.append(recipient_id);
    s
}

/// A message with this key is already retained within the deduplication
/// window around instant `t`.
pub open spec fn key_in_window(msgs: Seq<BusMessageView>, key: Seq<char>, t: int) -> bool {
    exists|i: int|
        0 <= i < msgs.len() && (#[trigger] msgs[i]).dedup_key == key && -(DEDUP_WINDOW_SECS as int)
            < t - msgs[i].published_at < DEDUP_WINDOW_SECS as int
}

/// What one publish retains: nothing when the key is already in the window,
/// the message otherwise.
pub open spec fn publish_step(msgs: Seq<BusMessageView>, m: BusMessageView) -> Seq<
    BusMessageView,
> {
    if key_in_window(msgs, m.dedup_key, m.published_at) {
        msgs
    } else {
        msgs.push(m)
    }
}

/// The retained ledger never holds two messages with one key within the
/// deduplication window of each other.
pub open spec fn bus_wf(msgs: Seq<BusMessageView>) -> bool {
    forall|i: int, j: int|
        0 <= i < j < msgs.len() && (#[trigger] msgs[i]).dedup_key == (
        #[trigger] msgs[j]).dedup_key ==> (msgs[j].published_at - msgs[i].published_at
            >= DEDUP_WINDOW_SECS as int || msgs[i].published_at - msgs[j].published_at
            >= DEDUP_WINDOW_SECS as int)
}

/// One publish preserves the spacing invariant of the retained ledger.
pub proof fn lemma_publish_step_preserves_wf(msgs: Seq<BusMessageView>, m: BusMessageView)
    requires
        bus_wf(msgs),
    ensures
        bus_wf(publish_step(msgs, m)),
{
    if !key_in_window(msgs, m.dedup_key, m.published_at) {
        let post = msgs.push(m);
        assert forall|i: int, j: int|
            0 <= i < j < post.len() && (#[trigger] post[i]).dedup_key == (
            #[trigger] post[j]).dedup_key implies (post[j].published_at - post[i].published_at
            >= DEDUP_WINDOW_SECS as int || post[i].published_at - post[j].published_at
            >= DEDUP_WINDOW_SECS as int) by {
            if j == msgs.len() {
                assert(post[i] == msgs[i]);
                assert(!(0 <= i < msgs.len() && msgs[i].dedup_key == m.dedup_key && -(
                DEDUP_WINDOW_SECS as int) < m.published_at - msgs[i].published_at
                    < DEDUP_WINDOW_SECS as int));
            } else {
                assert(post[i] == msgs[i] && post[j] == msgs[j]);
            }
        }
    }
}

/// Within any window of the dedup width, the retained ledger holds at most
/// one message with a given key.
pub proof fn lemma_at_most_one_in_window(msgs: Seq<BusMessageView>, key: Seq<char>, a: int)
    requires
        bus_wf(msgs),
    ensures
        forall|i: int, j: int|
            0 <= i < j < msgs.len() && (#[trigger] msgs[i]).dedup_key == key && (
            #[trigger] msgs[j]).dedup_key == key && a <= msgs[i].published_at < a
                + DEDUP_WINDOW_SECS as int && a <= msgs[j].published_at < a
                + DEDUP_WINDOW_SECS as int ==> false,
{
}

/// The bus. The ledgers are observable through `received_log` and
/// `retained_log`, and through counting accessors for callers outside the
/// proofs.
pub struct MessageBus {
    received: Vec<BusMessage>,
    retained: Vec<BusMessage>,
}

impl MessageBus {
    /// Every publish the bus saw, in order of arrival.
    pub closed spec fn received_log(&self) -> Seq<BusMessageView> {
        self.received.deep_view()
    }

    /// Every message the bus retained for delivery, in order of arrival.
    pub closed spec fn retained_log(&self) -> Seq<BusMessageView> {
        self.retained.deep_view()
    }

    /// The bus invariant: retained messages with one key keep the window
    /// spacing.
    pub open spec fn wf(&self) -> bool {
        bus_wf(self.retained_log())
    }

    /// A bus with empty ledgers.
    pub fn new() -> (b: Self)
        ensures
            b.wf(),
            b.received_log() == Seq::<BusMessageView>::empty(),
            b.retained_log() == Seq::<BusMessageView>::empty(),
    {
        let b = MessageBus { received: Vec::new(), retained: Vec::new() };
        proof {
            assert(b.received_log() =~= Seq::<BusMessageView>::empty());
            assert(b.retained_log() =~= Seq::<BusMessageView>::empty());
        }
        b
    }

    /// How many publishes the bus saw.
    pub fn received_count(&self) -> (n: usize)
        ensures
            n == self.received_log().len(),
    {
        self.received.len()
    }

    /// The retained ledger, for callers outside the proofs.
    pub fn retained_messages(&self) -> (v: &Vec<BusMessage>)
        ensures
            v.deep_view() == self.retained_log(),
    {
        &self.retained
    }

    /// Publish one message: the bus records the attempt, retains the
    /// message unless its key is already retained within the deduplication
    /// window, and reports the acknowledgement outcome.
    pub fn send_message(
        &mut self,
        channel: Channel,
        recipient_id: String,
        payload: Notification,
        dedup_key: String,
        now: i64,
        ack_ok: bool,
    ) -> (r: AppResult<()>)
        requires
            old(self).wf(),
        ensures
            final(self).wf(),
            ({
                let m = BusMessageView {
                    channel: channel,
                    recipient_id: recipient_id@,
                    payload: payload@,
                    dedup_key: dedup_key@,
                    published_at: now as int,
                };
                &&& final(self).received_log() == old(self).received_log().push(m)
                &&& final(self).retained_log() == publish_step(old(self).retained_log(), m)
            }),
            r is Ok <==> ack_ok,
            r matches Err(e) ==> e is ServiceError,
    {
        let ghost m_view = BusMessageView {
            channel: channel,
            recipient_id: recipient_id@,
            payload: payload@,
            dedup_key: dedup_key@,
            published_at: now as int,
        };
        let ghost pre_retained = self.retained_log();
        let n = self.retained.len();
        let mut i: usize = 0;
        let mut dup = false;
        while i < n
            invariant
                i <= n,
                n == self.retained.len(),
                pre_retained == self.retained_log(),
                pre_retained.len() == n,
                dup ==> key_in_window(pre_retained, dedup_key@, now as int),
                !dup ==> forall|j: int|
                    0 <= j < i ==> !((#[trigger] pre_retained[j]).dedup_key == dedup_key@ && -(
                    DEDUP_WINDOW_SECS as int) < now - pre_retained[j].published_at
                        < DEDUP_WINDOW_SECS as int),
            decreases n - i,
        {
            if !dup {
                let msg = &self.retained[i];
                if msg.dedup_key == dedup_key {
                    let gap = (now as i128) - (msg.published_at as i128);
                    if -(DEDUP_WINDOW_SECS as i128) < gap && gap < DEDUP_WINDOW_SECS as i128 {
                        proof {
                            assert(pre_retained[i as int] == msg@);
                            assert(pre_retained[i as int].dedup_key == dedup_key@ && -(
                            DEDUP_WINDOW_SECS as int) < now - pre_retained[i as int].published_at
                                < DEDUP_WINDOW_SECS as int);
                        }
                        dup = true;
                    }
                }
            }
            i += 1;
        }
        let message = BusMessage {
            channel: channel,
            recipient_id: recipient_id,
            payload: payload,
            dedup_key: dedup_key,
            published_at: now,
        };
        proof {
            assert(message@ == m_view);
            assert(dup == key_in_window(pre_retained, dedup_key@, now as int));
            lemma_publish_step_preserves_wf(pre_retained, m_view);
        }
        if !dup {
            let copy = message.clone();
            let ghost pre = self.retained.deep_view();
            self.retained.push(copy);
            proof {
                assert(self.retained.deep_view() =~= pre.push(m_view));
            }
        }
        let ghost pre_recv = self.received.deep_view();
        self.received.push(message);
        proof {
            assert(self.received.deep_view() =~= pre_recv.push(m_view));
        }
        if ack_ok {
            Ok(())
        } else {
            Err(AppError::ServiceError(String::from_str("publish was not acknowledged")))
        }
    }
}

} // verus!
