use notifier::bus::subject_for;
use notifier::bus::stream_name;
use notifier::bus::MessageBus;
use notifier::notification::Channel;
use notifier::notification::Notification;
use notifier::notification::Priority;
use notifier::notification::Recipient;
use notifier::notification::Status;
use notifier::AppError;

fn payload() -> Notification {
    Notification {
        id: Some("k1".to_string()),
        content: "m".to_string(),
        channel: Channel::Push,
        recipient: Recipient { id: "u1".to_string(), timezone_offset: "+00:00".to_string() },
        scheduled_time: 0,
        priority: Priority::High,
        status: Status::Pending,
        retry_count: 0,
    }
}

#[test]
fn subjects_follow_the_stream_and_recipient() {
    assert_eq!(stream_name(Channel::Push), "notifications_push");
    assert_eq!(stream_name(Channel::Email), "notifications_email");
    assert_eq!(subject_for(Channel::Push, "u1"), "notifications_push.u1");
    assert_eq!(subject_for(Channel::Email, "bob"), "notifications_email.bob");
}

#[test]
fn duplicate_keys_inside_the_window_collapse() {
    let mut bus = MessageBus::new();
    bus.send_message(Channel::Push, "u1".to_string(), payload(), "k1".to_string(), 100, true)
        .unwrap();
    bus.send_message(Channel::Push, "u1".to_string(), payload(), "k1".to_string(), 159, true)
        .unwrap();
    assert_eq!(bus.received_count(), 2);
    assert_eq!(bus.retained_messages().len(), 1);
    assert_eq!(bus.retained_messages()[0].published_at, 100);
}

#[test]
fn the_same_key_outside_the_window_is_retained_again() {
    let mut bus = MessageBus::new();
    bus.send_message(Channel::Push, "u1".to_string(), payload(), "k1".to_string(), 100, true)
        .unwrap();
    bus.send_message(Channel::Push, "u1".to_string(), payload(), "k1".to_string(), 160, true)
        .unwrap();
    assert_eq!(bus.retained_messages().len(), 2);
}

#[test]
fn distinct_keys_never_collapse() {
    let mut bus = MessageBus::new();
    bus.send_message(Channel::Push, "u1".to_string(), payload(), "k1".to_string(), 100, true)
        .unwrap();
    bus.send_message(Channel::Push, "u2".to_string(), payload(), "k2".to_string(), 101, true)
        .unwrap();
    assert_eq!(bus.retained_messages().len(), 2);
}

#[test]
fn a_missing_acknowledgement_is_a_service_error() {
    let mut bus = MessageBus::new();
    let r = bus.send_message(Channel::Push, "u1".to_string(), payload(), "k1".to_string(), 100, false);
    assert!(matches!(r, Err(AppError::ServiceError(_))));
    // the broker may have retained the message all the same
    assert_eq!(bus.retained_messages().len(), 1);
}
