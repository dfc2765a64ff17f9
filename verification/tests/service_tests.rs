use notifier::bus::MessageBus;
use notifier::notification::Channel;
use notifier::notification::Notification;
use notifier::notification::Priority;
use notifier::notification::Recipient;
use notifier::notification::Status;
use notifier::service::tick_period_secs;
use notifier::service::NotificationServiceImpl;
use notifier::store::NotificationStore;
use notifier::AppError;

// noon, so a +00:00 recipient is inside the waking window
const NOON: i64 = 12 * 3600;

fn notification(
    content: &str,
    channel: Channel,
    recipient: &str,
    tz: &str,
    scheduled_time: i64,
    priority: Priority,
) -> Notification {
    Notification {
        id: None,
        content: content.to_string(),
        channel,
        recipient: Recipient { id: recipient.to_string(), timezone_offset: tz.to_string() },
        scheduled_time,
        priority,
        status: Status::Pending,
        retry_count: 0,
    }
}

fn service() -> NotificationServiceImpl {
    NotificationServiceImpl::new(NotificationStore::new(), MessageBus::new())
}

fn all_acked() -> Vec<Vec<bool>> {
    (0..10).map(|_| vec![true, true, true]).collect()
}

fn none_acked() -> Vec<Vec<bool>> {
    (0..10).map(|_| vec![false, false, false]).collect()
}

fn statuses(service: &NotificationServiceImpl) -> Vec<Status> {
    service.get_all().unwrap().iter().map(|n| n.status).collect()
}

#[test]
fn happy_path_high_priority_due_now() {
    let mut svc = service();
    let dummy = vec![false, false, false];
    let id = svc
        .create_notification(
            notification("hi", Channel::Push, "u1", "+00:00", NOON, Priority::High),
            None,
            &dummy,
            0,
        )
        .unwrap();
    svc.send_messages(Priority::High, NOON + 1, &all_acked()).unwrap();
    assert_eq!(statuses(&svc), vec![Status::Sent]);
    let retained = svc.broker.retained_messages();
    assert_eq!(retained.len(), 1);
    assert_eq!(retained[0].dedup_key, id);
    assert_eq!(retained[0].recipient_id, "u1");
    assert_eq!(retained[0].channel, Channel::Push);
    assert_eq!(retained[0].payload.content, "hi");
    assert_eq!(svc.broker.received_count(), 1);
}

#[test]
fn quiet_hours_suppress_delivery() {
    let mut svc = service();
    let dummy = vec![false, false, false];
    // recipient-local hour of the dispatch instant is 2
    svc.create_notification(
        notification("hi", Channel::Push, "u1", "-10:00", NOON, Priority::High),
        None,
        &dummy,
        0,
    )
    .unwrap();
    svc.send_messages(Priority::High, NOON + 1, &all_acked()).unwrap();
    assert_eq!(statuses(&svc), vec![Status::Pending]);
    assert_eq!(svc.broker.received_count(), 0);
    assert_eq!(svc.broker.retained_messages().len(), 0);
}

#[test]
fn retry_exhaustion_marks_failed_after_three_attempts() {
    let mut svc = service();
    let dummy = vec![false, false, false];
    let id = svc
        .create_notification(
            notification("hi", Channel::Email, "u2", "+00:00", NOON, Priority::High),
            None,
            &dummy,
            0,
        )
        .unwrap();
    svc.send_messages(Priority::High, NOON + 1, &none_acked()).unwrap();
    assert_eq!(statuses(&svc), vec![Status::Failed]);
    // the publisher saw exactly three attempts, all with the same key
    assert_eq!(svc.broker.received_count(), 3);
    // the broker collapsed them to one retained message
    let retained = svc.broker.retained_messages();
    assert_eq!(retained.len(), 1);
    assert_eq!(retained[0].dedup_key, id);
}

#[test]
fn dispatch_succeeds_even_when_every_send_fails() {
    let mut svc = service();
    let dummy = vec![false, false, false];
    for i in 0..3 {
        svc.create_notification(
            notification(&format!("n{}", i), Channel::Push, "u", "+00:00", NOON, Priority::High),
            None,
            &dummy,
            0,
        )
        .unwrap();
    }
    let r = svc.send_messages(Priority::High, NOON + 1, &none_acked());
    assert!(r.is_ok());
    assert_eq!(statuses(&svc), vec![Status::Failed, Status::Failed, Status::Failed]);
}

#[test]
fn cancel_beats_dispatch() {
    let mut svc = service();
    let dummy = vec![false, false, false];
    let id = svc
        .create_notification(
            notification("hi", Channel::Push, "u1", "+00:00", NOON + 10, Priority::High),
            None,
            &dummy,
            0,
        )
        .unwrap();
    assert!(svc.cancel_notification(id.clone()).is_ok());
    assert_eq!(statuses(&svc), vec![Status::Cancelled]);
    // later ticks never select it
    svc.send_messages(Priority::High, NOON + 15, &all_acked()).unwrap();
    assert_eq!(statuses(&svc), vec![Status::Cancelled]);
    assert_eq!(svc.broker.received_count(), 0);
    // cancelling a terminal notification reports the zero-match failure
    let again = svc.cancel_notification(id);
    assert!(matches!(again, Err(AppError::RepositoryError(_))));
}

#[test]
fn force_send_publishes_synchronously() {
    let mut svc = service();
    let acks = vec![true, true, true];
    let id = svc
        .create_notification(
            notification("now", Channel::Push, "u1", "+00:00", NOON, Priority::High),
            Some(true),
            &acks,
            NOON,
        )
        .unwrap();
    assert_eq!(statuses(&svc), vec![Status::Sent]);
    let retained = svc.broker.retained_messages();
    assert_eq!(retained.len(), 1);
    assert_eq!(retained[0].dedup_key, id);
    assert_eq!(svc.broker.received_count(), 1);
}

#[test]
fn forced_send_failure_keeps_the_creation() {
    let mut svc = service();
    let acks = vec![false, false, false];
    let id = svc
        .create_notification(
            notification("now", Channel::Push, "u1", "+00:00", NOON, Priority::High),
            Some(true),
            &acks,
            NOON,
        )
        .unwrap();
    assert!(!id.is_empty());
    // all three attempts failed: the notification is failed, not rolled back
    assert_eq!(statuses(&svc), vec![Status::Failed]);
    assert_eq!(svc.broker.received_count(), 3);
}

#[test]
fn priority_tiers_dispatch_independently() {
    let mut svc = service();
    let dummy = vec![false, false, false];
    for i in 0..20 {
        svc.create_notification(
            notification(&format!("h{}", i), Channel::Push, "u", "+00:00", NOON, Priority::High),
            None,
            &dummy,
            0,
        )
        .unwrap();
        svc.create_notification(
            notification(&format!("l{}", i), Channel::Push, "u", "+00:00", NOON, Priority::Low),
            None,
            &dummy,
            0,
        )
        .unwrap();
    }
    svc.send_messages(Priority::High, NOON + 1, &all_acked()).unwrap();
    let sent_high = svc
        .get_all()
        .unwrap()
        .iter()
        .filter(|n| matches!(n.priority, Priority::High) && matches!(n.status, Status::Sent))
        .count();
    let sent_low = svc
        .get_all()
        .unwrap()
        .iter()
        .filter(|n| matches!(n.priority, Priority::Low) && matches!(n.status, Status::Sent))
        .count();
    assert_eq!((sent_high, sent_low), (10, 0));
    svc.send_messages(Priority::Low, NOON + 1, &all_acked()).unwrap();
    let sent_low_after = svc
        .get_all()
        .unwrap()
        .iter()
        .filter(|n| matches!(n.priority, Priority::Low) && matches!(n.status, Status::Sent))
        .count();
    assert_eq!(sent_low_after, 10);
}

#[test]
fn overlapping_ticks_deliver_once_per_window() {
    let mut svc = service();
    let dummy = vec![false, false, false];
    svc.create_notification(
        notification("a", Channel::Push, "u1", "+00:00", NOON, Priority::High),
        None,
        &dummy,
        0,
    )
    .unwrap();
    svc.send_messages(Priority::High, NOON + 1, &all_acked()).unwrap();
    assert_eq!(svc.broker.retained_messages().len(), 1);
    // an overlapping tick that had fetched the notification before the first
    // tick's terminal write replays the send: the broker collapses the
    // publish, and the terminal write matches nothing
    let replayed = svc.get_all().unwrap()[0].clone();
    let acks = vec![true, true, true];
    let r = svc.try_send_message(&replayed, &acks, NOON + 2);
    assert!(matches!(r, Err(AppError::RepositoryError(_))));
    assert_eq!(svc.broker.received_count(), 2);
    assert_eq!(svc.broker.retained_messages().len(), 1);
    assert_eq!(statuses(&svc), vec![Status::Sent]);
}

#[test]
fn run_tick_on_an_empty_store_does_nothing() {
    let mut svc = service();
    let r = svc.run_tick(Priority::High, &all_acked());
    assert!(r.is_ok());
    assert_eq!(svc.get_all().unwrap().len(), 0);
    assert_eq!(svc.broker.received_count(), 0);
}

#[test]
fn tick_periods_per_tier() {
    assert_eq!(tick_period_secs(Priority::High), 1);
    assert_eq!(tick_period_secs(Priority::Low), 5);
}

#[test]
fn forced_create_of_a_non_pending_notification_surfaces_the_write_failure() {
    let mut svc = service();
    let acks = vec![true, true, true];
    let mut n = notification("odd", Channel::Push, "u1", "+00:00", NOON, Priority::High);
    n.status = Status::Sent;
    let r = svc.create_notification(n, Some(true), &acks, NOON);
    // the terminal write matched nothing, but the creation stands and the
    // message went out
    assert!(matches!(r, Err(AppError::RepositoryError(_))));
    assert_eq!(statuses(&svc), vec![Status::Sent]);
    assert_eq!(svc.broker.received_count(), 1);
}

#[test]
fn a_notification_created_terminal_is_never_dispatched() {
    let mut svc = service();
    let dummy = vec![false, false, false];
    let mut n = notification("done", Channel::Push, "u1", "+00:00", NOON, Priority::High);
    n.status = Status::Failed;
    svc.create_notification(n, None, &dummy, 0).unwrap();
    svc.send_messages(Priority::High, NOON + 1, &all_acked()).unwrap();
    assert_eq!(statuses(&svc), vec![Status::Failed]);
    assert_eq!(svc.broker.received_count(), 0);
}
