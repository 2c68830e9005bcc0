//! The broadcast plan: pacing, the empty case, and what a rendered message
//! may reveal.

use letterbox::broadcast::{compute_delay, plan_broadcast, record_send};
use letterbox::error::ServiceError;
use letterbox::model::ValentineLetter;
use letterbox::service::SubmissionService;

fn letter(sender: &str, sender_id: &str, recipient: &str, body: &str, anon: bool) -> ValentineLetter {
    ValentineLetter {
        sender: sender.to_string(),
        sender_id: sender_id.to_string(),
        recipient: recipient.to_string(),
        letter: body.to_string(),
        anon,
    }
}

#[test]
fn empty_store_plans_nothing() {
    let service = SubmissionService::new();
    let plan = plan_broadcast(service.load_all(), 600_000, 5_000);
    assert_eq!(plan.messages.len(), 0);
    assert_eq!(plan.delay_ms, 0);
}

#[test]
fn plan_sends_one_message_per_letter_at_the_computed_delay() {
    let mut service = SubmissionService::new();
    service
        .intake(&letter("Ayanokoji", "1001", "Karuizawa", "one", false), None)
        .unwrap();
    service
        .intake(&letter("Horikita", "2002", "Kushida", "two", true), None)
        .unwrap();
    service
        .intake(&letter("Sakura", "3003", "Ayanokoji", "three", false), None)
        .unwrap();

    // An even share of 600 s over 3 letters would be 200 s; the per-item cap
    // of 5 s wins.
    let plan = plan_broadcast(service.load_all(), 600_000, 5_000);
    assert_eq!(plan.messages.len(), 3);
    assert_eq!(plan.delay_ms, 5_000);

    // A tight budget makes the even share win: 100 ms over 3 letters.
    let tight = plan_broadcast(service.load_all(), 100, 5_000);
    assert_eq!(tight.delay_ms, 33);
}

#[test]
fn exact_delay_formula() {
    assert_eq!(compute_delay(100, 50, 7), 14); // min(50, 100 / 7)
    assert_eq!(compute_delay(100, 10, 7), 10); // min(10, 100 / 7)
    assert_eq!(compute_delay(0, 10, 3), 0);
    assert_eq!(compute_delay(9, 10, 3), 3);
}

#[test]
fn anonymous_letters_render_without_their_author() {
    let mut service = SubmissionService::new();
    service
        .intake(&letter("Ayanokoji", "1001", "Karuizawa", "secret", true), None)
        .unwrap();
    service
        .intake(&letter("Horikita", "2002", "Kushida", "signed", false), None)
        .unwrap();

    let plan = plan_broadcast(service.load_all(), 1_000, 5);
    assert_eq!(plan.messages.len(), 2);

    let anon = &plan.messages[0];
    assert_eq!(anon.author, None);
    assert_eq!(anon.recipient, "Karuizawa");
    assert_eq!(anon.content, "secret");

    let signed = &plan.messages[1];
    assert_eq!(signed.author, Some("Horikita".to_string()));
    assert_eq!(signed.recipient, "Kushida");
    assert_eq!(signed.content, "signed");
}

#[test]
fn failed_send_aborts_with_partial_count() {
    let sent = record_send(0, true).unwrap();
    assert_eq!(sent, 1);
    let sent = record_send(sent, true).unwrap();
    assert_eq!(sent, 2);
    let aborted = record_send(sent, false);
    assert_eq!(aborted.unwrap_err(), ServiceError::DispatchFailed(2));
}
