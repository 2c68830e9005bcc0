//! The submission lifecycle: gate, quota, retraction, round trip.

use letterbox::error::ServiceError;
use letterbox::model::ValentineLetter;
use letterbox::service::SubmissionService;

fn letter(sender: &str, sender_id: &str, recipient: &str, body: &str, anon: bool) -> ValentineLetter {
    ValentineLetter {
        sender: sender.to_string(),
        sender_id: sender_id.to_string(),
        recipient: recipient.to_string(),
        letter: body.to_string(),
        anon,
    }
}

#[test]
fn quota_two_per_author_third_rejected() {
    let mut service = SubmissionService::new();
    let first = service
        .intake(&letter("Ayanokoji", "1001", "Karuizawa", "first letter", false), None)
        .expect("first intake succeeds");
    assert_eq!(first.sender_id, "1001");
    service
        .intake(&letter("Ayanokoji", "1001", "Horikita", "second letter", false), None)
        .expect("second intake succeeds");
    let third = service.intake(
        &letter("Ayanokoji", "1001", "Kushida", "third letter", false),
        None,
    );
    assert_eq!(third.unwrap_err(), ServiceError::QuotaExceeded);
    assert_eq!(service.load_all().len(), 2);

    // A different author is counted independently.
    let other = service
        .intake(&letter("Horikita", "2002", "Ayanokoji", "a reply", false), None)
        .expect("other author succeeds");
    assert_eq!(other.sender, "Horikita");
    assert_eq!(service.load_all().len(), 3);
}

#[test]
fn quota_check_reports_before_any_audit() {
    let mut service = SubmissionService::new();
    assert!(service.intake_check("1001").is_ok());
    service
        .intake(&letter("Ayanokoji", "1001", "Karuizawa", "one", false), None)
        .unwrap();
    service
        .intake(&letter("Ayanokoji", "1001", "Karuizawa", "two", false), None)
        .unwrap();
    assert_eq!(service.intake_check("1001").unwrap_err(), ServiceError::QuotaExceeded);
    assert!(service.intake_check("2002").is_ok());
}

#[test]
fn closed_gate_rejects_without_touching_store() {
    let mut service = SubmissionService::new();
    let previous = service.set_intake_allowed(false);
    assert!(previous);
    assert_eq!(
        service.intake_check("1001").unwrap_err(),
        ServiceError::IntakeClosed
    );
    let r = service.intake(&letter("Ayanokoji", "1001", "Karuizawa", "late", false), None);
    assert_eq!(r.unwrap_err(), ServiceError::IntakeClosed);
    assert_eq!(service.load_all().len(), 0);

    let previous = service.set_intake_allowed(true);
    assert!(!previous);
    assert!(service
        .intake(&letter("Ayanokoji", "1001", "Karuizawa", "on time", false), None)
        .is_ok());
    assert_eq!(service.load_all().len(), 1);
}

#[test]
fn retract_unknown_token_not_found() {
    let mut service = SubmissionService::new();
    service
        .intake(&letter("Ayanokoji", "1001", "Karuizawa", "kept", false), None)
        .unwrap();
    let r = service.retract("no-such-token");
    assert_eq!(r.unwrap_err(), ServiceError::NotFound);
    assert_eq!(service.load_all().len(), 1);
}

#[test]
fn retract_twice_succeeds_once_then_not_found() {
    let mut service = SubmissionService::new();
    service
        .intake(
            &letter("Ayanokoji", "1001", "Karuizawa", "audited", false),
            Some("msg-77".to_string()),
        )
        .unwrap();
    service
        .intake(&letter("Horikita", "2002", "Kushida", "unaudited", false), None)
        .unwrap();

    assert!(service.has_token("msg-77"));
    assert!(!service.has_token("msg-78"));

    let deleted = service.retract("msg-77").expect("first retraction succeeds");
    assert!(!service.has_token("msg-77"));
    assert_eq!(deleted.sender, "Ayanokoji");
    assert_eq!(deleted.recipient, "Karuizawa");
    assert_eq!(deleted.content, "audited");
    assert_eq!(deleted.message_id, Some("msg-77".to_string()));
    assert_eq!(service.load_all().len(), 1);

    let again = service.retract("msg-77");
    assert_eq!(again.unwrap_err(), ServiceError::NotFound);
    assert_eq!(service.load_all().len(), 1);
}

#[test]
fn anonymous_flag_and_identity_survive_load_all() {
    let mut service = SubmissionService::new();
    service
        .intake(
            &letter("Ayanokoji", "1001", "Karuizawa", "do not say my name", true),
            Some("msg-9".to_string()),
        )
        .unwrap();
    let loaded = service.load_all();
    assert_eq!(loaded.len(), 1);
    assert!(loaded[0].anon);
    assert_eq!(loaded[0].sender_id, "1001");
    assert_eq!(loaded[0].sender, "Ayanokoji");
    assert_eq!(loaded[0].message_id, Some("msg-9".to_string()));
}

#[test]
fn stored_letters_get_distinct_ids() {
    let mut service = SubmissionService::new();
    let a = service
        .intake(&letter("Ayanokoji", "1001", "Karuizawa", "one", false), None)
        .unwrap();
    let b = service
        .intake(&letter("Horikita", "2002", "Kushida", "two", false), None)
        .unwrap();
    assert_ne!(a.id, b.id);
    assert_eq!(a.id, 1);
    assert_eq!(b.id, 2);
}
