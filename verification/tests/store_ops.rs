//! The flat store on its own: identifiers, per-author counts, deletion by
//! identifier and by correlation token.

use letterbox::error::ServiceError;
use letterbox::model::NewLetter;
use letterbox::store::SubmissionStore;

fn payload<'a>(sender_id: &'a str, token: Option<String>) -> NewLetter<'a> {
    NewLetter {
        recipient: "Karuizawa",
        sender: "Ayanokoji",
        anon: false,
        content: "a letter",
        message_id: token,
        sender_id,
    }
}

#[test]
fn insert_assigns_sequential_ids_and_counts_by_author() {
    let mut store = SubmissionStore::new();
    assert_eq!(store.len(), 0);
    assert_eq!(store.insert(payload("1001", None)).unwrap(), 1);
    assert_eq!(store.insert(payload("1001", None)).unwrap(), 2);
    assert_eq!(store.insert(payload("2002", None)).unwrap(), 3);
    assert_eq!(store.len(), 3);
    assert_eq!(store.count_by_author("1001"), 2);
    assert_eq!(store.count_by_author("2002"), 1);
    assert_eq!(store.count_by_author("3003"), 0);
}

#[test]
fn delete_by_id_removes_exactly_that_letter() {
    let mut store = SubmissionStore::new();
    store.insert(payload("1001", None)).unwrap();
    store.insert(payload("2002", None)).unwrap();

    let deleted = store.delete_by_id(1).unwrap();
    assert_eq!(deleted.id, 1);
    assert_eq!(deleted.sender_id, "1001");
    assert_eq!(store.len(), 1);

    let again = store.delete_by_id(1);
    assert_eq!(again.unwrap_err(), ServiceError::NotFound);
    assert_eq!(store.len(), 1);

    // Identifiers are not reused after a deletion.
    assert_eq!(store.insert(payload("1001", None)).unwrap(), 3);
}

#[test]
fn delete_by_correlation_picks_the_carrying_letter() {
    let mut store = SubmissionStore::new();
    store.insert(payload("1001", None)).unwrap();
    store.insert(payload("2002", Some("msg-5".to_string()))).unwrap();

    let deleted = store.delete_by_correlation("msg-5").unwrap();
    assert_eq!(deleted.id, 2);
    assert_eq!(deleted.message_id, Some("msg-5".to_string()));
    assert_eq!(store.len(), 1);
    assert_eq!(
        store.delete_by_correlation("msg-5").unwrap_err(),
        ServiceError::NotFound
    );
}
