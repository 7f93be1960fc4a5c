use chat_relay::error::Error;
use chat_relay::messages::{Outcome, OutcomeType};

#[test]
fn success_envelope_carries_data_and_200() {
    let out: Outcome<u64> = Outcome::success(OutcomeType::Accept, 42);
    assert!(matches!(out.typ, OutcomeType::Accept));
    assert_eq!(out.status, 200);
    assert!(out.reason.is_none());
    assert_eq!(out.data, Some(42));
}

#[test]
fn error_envelope_carries_status_and_reason() {
    let out: Outcome<u64> = Outcome::error(OutcomeType::ChatMessage, 500, "storage failed".to_string());
    assert!(matches!(out.typ, OutcomeType::ChatMessage));
    assert_eq!(out.status, 500);
    assert_eq!(out.reason, Some("storage failed".to_string()));
    assert!(out.data.is_none());
}

#[test]
fn errors_keep_message_status_and_cause() {
    let e = Error::new("not found".to_string(), 404);
    assert_eq!(e.message, "not found");
    assert_eq!(e.status_code, 404);
    assert!(e.cause.is_none());
    let w = Error::wrap("failed to insert".to_string(), 500, "io: broken pipe".to_string());
    assert_eq!(w.status_code, 500);
    assert_eq!(w.cause, Some("io: broken pipe".to_string()));
}

#[test]
fn describe_appends_the_cause_when_there_is_one() {
    let e = Error::new("not found".to_string(), 404);
    assert_eq!(e.describe(), "not found");
    let w = Error::wrap("failed to insert".to_string(), 500, "io: broken pipe".to_string());
    assert_eq!(w.describe(), "failed to insert: io: broken pipe");
}
