use notifier::notification::Channel;
use notifier::notification::Priority;
use notifier::notification::Status;
use notifier::AppError;

#[test]
fn channel_names_round_trip() {
    assert_eq!(Channel::Push.name(), "push");
    assert_eq!(Channel::Email.name(), "email");
    assert_eq!(Channel::parse("push"), Some(Channel::Push));
    assert_eq!(Channel::parse("email"), Some(Channel::Email));
    assert_eq!(Channel::parse("sms"), None);
}

#[test]
fn status_names_round_trip() {
    assert_eq!(Status::Pending.name(), "pending");
    assert_eq!(Status::Sent.name(), "sent");
    assert_eq!(Status::Failed.name(), "failed");
    assert_eq!(Status::Cancelled.name(), "cancelled");
    assert_eq!(Status::parse("pending"), Some(Status::Pending));
    assert_eq!(Status::parse("sent"), Some(Status::Sent));
    assert_eq!(Status::parse("failed"), Some(Status::Failed));
    assert_eq!(Status::parse("cancelled"), Some(Status::Cancelled));
    assert_eq!(Status::parse("queued"), None);
}

#[test]
fn priority_names_round_trip() {
    assert_eq!(Priority::High.name(), "high");
    assert_eq!(Priority::Low.name(), "low");
    assert_eq!(Priority::parse("high"), Some(Priority::High));
    assert_eq!(Priority::parse("low"), Some(Priority::Low));
    assert_eq!(Priority::parse("medium"), None);
}

#[test]
fn only_pending_is_not_terminal() {
    assert!(!Status::Pending.is_terminal());
    assert!(Status::Sent.is_terminal());
    assert!(Status::Failed.is_terminal());
    assert!(Status::Cancelled.is_terminal());
}

#[test]
fn errors_map_to_http_status_codes() {
    assert_eq!(AppError::DuplicateKey.status_code(), 409);
    assert_eq!(AppError::ValidationError("v".to_string()).status_code(), 400);
    assert_eq!(AppError::ServiceError("s".to_string()).status_code(), 500);
    assert_eq!(AppError::RepositoryError("r".to_string()).status_code(), 500);
    assert_eq!(AppError::SerialError("d".to_string()).status_code(), 500);
}
