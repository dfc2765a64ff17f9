use notifier::digits::u64_to_dec_string;
use notifier::notification::Channel;
use notifier::notification::Notification;
use notifier::notification::Priority;
use notifier::notification::Recipient;
use notifier::notification::Status;
use notifier::store::GetMessagesOptions;
use notifier::store::NotificationStore;
use notifier::AppError;

fn sample(content: &str, priority: Priority, scheduled_time: i64, tz: &str) -> Notification {
    Notification {
        id: None,
        content: content.to_string(),
        channel: Channel::Push,
        recipient: Recipient { id: "u1".to_string(), timezone_offset: tz.to_string() },
        scheduled_time,
        priority,
        status: Status::Pending,
        retry_count: 0,
    }
}

#[test]
fn decimal_ids_print_as_expected() {
    assert_eq!(u64_to_dec_string(0), "0");
    assert_eq!(u64_to_dec_string(7), "7");
    assert_eq!(u64_to_dec_string(1234567), "1234567");
}

#[test]
fn create_assigns_id_and_keeps_fields() {
    let mut store = NotificationStore::new();
    let stored = store.create(sample("hello", Priority::High, 42, "+00:00")).unwrap();
    assert!(stored.id.is_some());
    assert_eq!(stored.content, "hello");
    assert_eq!(stored.scheduled_time, 42);
    assert_eq!(stored.status, Status::Pending);
    assert_eq!(stored.retry_count, 0);
    // the stored form lists back byte-identical
    let all = store.get_messages(GetMessagesOptions::default()).unwrap();
    assert_eq!(all.len(), 1);
    assert_eq!(all[0].id, stored.id);
    assert_eq!(all[0].content, "hello");
    assert_eq!(all[0].recipient.id, "u1");
    assert_eq!(all[0].recipient.timezone_offset, "+00:00");
}

#[test]
fn create_assigns_distinct_ids() {
    let mut store = NotificationStore::new();
    let a = store.create(sample("a", Priority::High, 1, "+00:00")).unwrap();
    let b = store.create(sample("b", Priority::Low, 2, "+00:00")).unwrap();
    assert_ne!(a.id, b.id);
}

#[test]
fn update_status_moves_pending_to_terminal_once() {
    let mut store = NotificationStore::new();
    let stored = store.create(sample("x", Priority::High, 1, "+00:00")).unwrap();
    let id = stored.id.clone().unwrap();
    assert!(store.update_message_status(id.clone(), Status::Sent).is_ok());
    // a terminal document never transitions again
    let again = store.update_message_status(id, Status::Cancelled);
    assert!(matches!(again, Err(AppError::RepositoryError(_))));
}

#[test]
fn update_status_rejects_pending_to_pending() {
    let mut store = NotificationStore::new();
    let stored = store.create(sample("x", Priority::High, 1, "+00:00")).unwrap();
    let id = stored.id.clone().unwrap();
    assert!(store.update_message_status(id, Status::Pending).is_err());
}

#[test]
fn update_status_fails_on_unknown_id() {
    let mut store = NotificationStore::new();
    let r = store.update_message_status("missing".to_string(), Status::Sent);
    assert!(matches!(r, Err(AppError::RepositoryError(_))));
}

#[test]
fn query_filters_conjunctively_and_keeps_insertion_order() {
    let mut store = NotificationStore::new();
    store.create(sample("a", Priority::High, 10, "+00:00")).unwrap();
    store.create(sample("b", Priority::Low, 10, "+00:00")).unwrap();
    store.create(sample("c", Priority::High, 100, "+00:00")).unwrap();
    let picked = store
        .get_messages(GetMessagesOptions {
            priority: Some(Priority::High),
            status: Some(Status::Pending),
            limit: None,
            scheduled_time: Some(12 * 3600),
            respect_nighttime: Some(false),
        })
        .unwrap();
    let contents: Vec<&str> = picked.iter().map(|n| n.content.as_str()).collect();
    assert_eq!(contents, vec!["a", "c"]);
}

#[test]
fn query_limit_caps_the_result() {
    let mut store = NotificationStore::new();
    for i in 0..5 {
        store.create(sample(&format!("n{}", i), Priority::High, 1, "+00:00")).unwrap();
    }
    let picked = store
        .get_messages(GetMessagesOptions {
            priority: None,
            status: None,
            limit: Some(3),
            scheduled_time: None,
            respect_nighttime: None,
        })
        .unwrap();
    assert_eq!(picked.len(), 3);
    assert_eq!(picked[0].content, "n0");
    assert_eq!(picked[2].content, "n2");
}

#[test]
fn quiet_hours_filter_suppresses_sleeping_recipients() {
    let mut store = NotificationStore::new();
    // upper bound has UTC hour 12; recipient-local hours 12 and 2
    store.create(sample("awake", Priority::High, 0, "+00:00")).unwrap();
    store.create(sample("asleep", Priority::High, 0, "-10:00")).unwrap();
    let picked = store
        .get_messages(GetMessagesOptions {
            priority: None,
            status: Some(Status::Pending),
            limit: None,
            scheduled_time: Some(12 * 3600),
            respect_nighttime: Some(true),
        })
        .unwrap();
    assert_eq!(picked.len(), 1);
    assert_eq!(picked[0].content, "awake");
}

#[test]
fn quiet_hours_only_apply_with_an_upper_bound() {
    let mut store = NotificationStore::new();
    store.create(sample("asleep", Priority::High, 0, "-10:00")).unwrap();
    let picked = store
        .get_messages(GetMessagesOptions {
            priority: None,
            status: None,
            limit: None,
            scheduled_time: None,
            respect_nighttime: Some(true),
        })
        .unwrap();
    assert_eq!(picked.len(), 1);
}

#[test]
fn scheduled_in_the_future_is_not_due() {
    let mut store = NotificationStore::new();
    store.create(sample("later", Priority::High, 1000, "+00:00")).unwrap();
    let picked = store
        .get_messages(GetMessagesOptions {
            priority: None,
            status: None,
            limit: None,
            scheduled_time: Some(999),
            respect_nighttime: Some(false),
        })
        .unwrap();
    assert_eq!(picked.len(), 0);
}
