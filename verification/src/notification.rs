//! The notification aggregate: channel, priority, status, recipient, and
//! the status state machine. A notification is created `pending` and moves
//! exactly once to one of the terminal statuses `sent`, `failed` or
//! `cancelled`.

use vstd::prelude::*;
use vstd::string::StringExecFns;

verus! {

/// The transport family of a notification; it selects the bus stream.
#[derive(Clone, Copy, PartialEq, Eq, Structural, Debug)]
pub enum Channel {
    Push,
    Email,
}

/// The lifecycle status of a notification.
#[derive(Clone, Copy, PartialEq, Eq, Structural, Debug)]
pub enum Status {
    Pending,
    Sent,
    Failed,
    Cancelled,
}

/// The scheduling tier of a notification.
#[derive(Clone, Copy, PartialEq, Eq, Structural, Debug)]
pub enum Priority {
    High,
    Low,
}

impl Channel {
    /// The wire name of the channel.
    pub open spec fn spec_name(self) -> Seq<char> {
        match self {
            Channel::Push => "push"@,
            Channel::Email => "email"@,
        }
    }

    /// The wire name of the channel.
    pub fn name(&self) -> (s: String)
        ensures
            s@ == self.spec_name(),
    {
        match self {
            Channel::Push => String::from_str("push"),
            Channel::Email => String::from_str("email"),
        }
    }

    /// The channel a wire name denotes, if any.
    pub open spec fn spec_parse(s: Seq<char>) -> Option<Channel> {
        if s == "push"@ {
            Some(Channel::Push)
        } else if s == "email"@ {
            Some(Channel::Email)
        } else {
            None
        }
    }

    /// Parse a wire name into a channel.
    pub fn parse(s: &str) -> (r: Option<Channel>)
        ensures
            r == Channel::spec_parse(s@),
    {
        let t = s.to_owned();
        if t == String::from_str("push") {
            Some(Channel::Push)
        } else if t == String::from_str("email") {
            Some(Channel::Email)
        } else {
            None
        }
    }
}

impl Status {
    /// A terminal status never transitions again.
    pub open spec fn spec_is_terminal(self) -> bool {
        self != Status::Pending
    }

    /// A terminal status never transitions again.
    pub fn is_terminal(&self) -> (b: bool)
        ensures
            b == self.spec_is_terminal(),
    {
        !matches!(self, Status::Pending)
    }

    /// The wire name of the status.
    pub open spec fn spec_name(self) -> Seq<char> {
        match self {
            Status::Pending => "pending"@,
            Status::Sent => "sent"@,
            Status::Failed => "failed"@,
            Status::Cancelled => "cancelled"@,
        }
    }

    /// The wire name of the status.
    pub fn name(&self) -> (s: String)
        ensures
            s@ == self.spec_name(),
    {
        match self {
            Status::Pending => String::from_str("pending"),
            Status::Sent => String::from_str("sent"),
            Status::Failed => String::from_str("failed"),
            Status::Cancelled => String::from_str("cancelled"),
        }
    }

    /// The status a wire name denotes, if any.
    pub open spec fn spec_parse(s: Seq<char>) -> Option<Status> {
        if s == "pending"@ {
            Some(Status::Pending)
        } else if s == "sent"@ {
            Some(Status::Sent)
        } else if s == "failed"@ {
            Some(Status::Failed)
        } else if s == "cancelled"@ {
            Some(Status::Cancelled)
        } else {
            None
        }
    }

    /// Parse a wire name into a status.
    pub fn parse(s: &str) -> (r: Option<Status>)
        ensures
            r == Status::spec_parse(s@),
    {
        let t = s.to_owned();
        if t == String::from_str("pending") {
            Some(Status::Pending)
        } else if t == String::from_str("sent") {
            Some(Status::Sent)
        } else if t == String::from_str("failed") {
            Some(Status::Failed)
        } else if t == String::from_str("cancelled") {
            Some(Status::Cancelled)
        } else {
            None
        }
    }
}

impl Priority {
    /// The wire name of the priority.
    pub open spec fn spec_name(self) -> Seq<char> {
        match self {
            Priority::High => "high"@,
            Priority::Low => "low"@,
        }
    }

    /// The wire name of the priority.
    pub fn name(&self) -> (s: String)
        ensures
            s@ == self.spec_name(),
    {
        match self {
            Priority::High => String::from_str("high"),
            Priority::Low => String::from_str("low"),
        }
    }

    /// The priority a wire name denotes, if any.
    pub open spec fn spec_parse(s: Seq<char>) -> Option<Priority> {
        if s == "high"@ {
            Some(Priority::High)
        } else if s == "low"@ {
            Some(Priority::Low)
        } else {
            None
        }
    }

    /// Parse a wire name into a priority.
    pub fn parse(s: &str) -> (r: Option<Priority>)
        ensures
            r == Priority::spec_parse(s@),
    {
        let t = s.to_owned();
        if t == String::from_str("high") {
            Some(Priority::High)
        } else if t == String::from_str("low") {
            Some(Priority::Low)
        } else {
            None
        }
    }
}

/// The only permitted status transitions: from `pending` to a terminal
/// status.
pub open spec fn transition_allowed(from: Status, to: Status) -> bool {
    from == Status::Pending && to != Status::Pending
}

/// The addressee of a notification.
#[derive(Debug)]
pub struct Recipient {
    pub id: String,
    pub timezone_offset: String,
}

/// Mathematical image of a recipient.
pub ghost struct RecipientView {
    pub id: Seq<char>,
    pub timezone_offset: Seq<char>,
}

impl View for Recipient {
    type V = RecipientView;

    open spec fn view(&self) -> RecipientView {
        RecipientView { id: self.id@, timezone_offset: self.timezone_offset@ }
    }
}

impl DeepView for Recipient {
    type V = RecipientView;

    open spec fn deep_view(&self) -> RecipientView {
        self.view()
    }
}

impl Clone for Recipient {
    fn clone(&self) -> (r: Self)
        ensures
            r@ == self@,
    {
        Recipient { id: self.id.clone(), timezone_offset: self.timezone_offset.clone() }
    }
}

/// The notification aggregate. `scheduled_time` is a UTC instant in seconds
/// since the Unix epoch; `id` is assigned by the store on create.
/// `retry_count` is advisory and reserved: the dispatcher carries it but
/// never increments it.
#[derive(Debug)]
pub struct Notification {
    pub id: Option<String>,
    pub content: String,
    pub channel: Channel,
    pub recipient: Recipient,
    pub scheduled_time: i64,
    pub priority: Priority,
    pub status: Status,
    pub retry_count: u32,
}

/// Mathematical image of a notification.
pub ghost struct NotificationView {
    pub id: Option<Seq<char>>,
    pub content: Seq<char>,
    pub channel: Channel,
    pub recipient: RecipientView,
    pub scheduled_time: int,
    pub priority: Priority,
    pub status: Status,
    pub retry_count: int,
}

impl View for Notification {
    type V = NotificationView;

    open spec fn view(&self) -> NotificationView {
        NotificationView {
            id: match self.id {
                Some(s) => Some(s@),
                None => None,
            },
            content: self.content@,
            channel: self.channel,
            recipient: self.recipient@,
            scheduled_time: self.scheduled_time as int,
            priority: self.priority,
            status: self.status,
            retry_count: self.retry_count as int,
        }
    }
}

impl DeepView for Notification {
    type V = NotificationView;

    open spec fn deep_view(&self) -> NotificationView {
        self.view()
    }
}

impl Clone for Notification {
    fn clone(&self) -> (r: Self)
        ensures
            r@ == self@,
    {
        Notification {
            id: match &self.id {
                Some(s) => Some(s.clone()),
                None => None,
            },
            content: self.content.clone(),
            channel: self.channel,
            recipient: self.recipient.clone(),
            scheduled_time: self.scheduled_time,
            priority: self.priority,
            status: self.status,
            retry_count: self.retry_count,
        }
    }
}

/// The same notification with another status.
pub open spec fn with_status(n: NotificationView, status: Status) -> NotificationView {
    NotificationView { status: status, ..n }
}

/// A single notification either kept its value or advanced from `pending`
/// to a terminal status.
pub open spec fn status_advanced(pre: NotificationView, post: NotificationView) -> bool {
    ||| post == pre
    ||| {
        &&& post == with_status(pre, post.status)
        &&& pre.status == Status::Pending
        &&& post.status.spec_is_terminal()
    }
}

/// Pointwise status advance over a whole store image.
pub open spec fn all_statuses_advanced(pre: Seq<NotificationView>, post: Seq<NotificationView>) -> bool {
    &&& post.len() == pre.len()
    &&& forall|i: int| 0 <= i < pre.len() ==> status_advanced(pre[i], #[trigger] post[i])
}

/// Advancing is transitive: a terminal status never moves again, so two
/// legal advances in a row are one legal advance.
pub proof fn lemma_status_advanced_trans(a: NotificationView, b: NotificationView, c: NotificationView)
    requires
        status_advanced(a, b),
        status_advanced(b, c),
    ensures
        status_advanced(a, c),
{
}

/// Pointwise transitivity over a whole store image.
pub proof fn lemma_all_statuses_advanced_trans(
    a: Seq<NotificationView>,
    b: Seq<NotificationView>,
    c: Seq<NotificationView>,
)
    requires
        all_statuses_advanced(a, b),
        all_statuses_advanced(b, c),
    ensures
        all_statuses_advanced(a, c),
{
    assert forall|i: int| 0 <= i < a.len() implies status_advanced(a[i], #[trigger] c[i]) by {
        lemma_status_advanced_trans(a[i], b[i], c[i]);
    }
}

} // verus!
