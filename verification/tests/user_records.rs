//! The key-value user record: the two letter slots and their capacity rule.

use letterbox::db::model::{Letter, NoSpaceError, User};

fn sample(content: &str) -> Letter {
    Letter {
        anon: false,
        recipient: "12345".to_string(),
        content: content.to_string(),
    }
}

#[test]
fn letters_fill_the_first_free_slot() {
    let user = User {
        user_id: "54321".to_string(),
        letters: (None, None),
    };
    let user = user.letter_added(sample("first")).unwrap();
    assert_eq!(user.user_id, "54321");
    assert_eq!(user.letters.0.as_ref().unwrap().content, "first");
    assert!(user.letters.1.is_none());

    let user = user.letter_added(sample("second")).unwrap();
    assert_eq!(user.letters.0.as_ref().unwrap().content, "first");
    assert_eq!(user.letters.1.as_ref().unwrap().content, "second");

    let third = user.letter_added(sample("third"));
    assert!(matches!(third, Err(NoSpaceError)));
}

#[test]
fn a_lone_second_slot_keeps_its_letter() {
    let user = User {
        user_id: "54321".to_string(),
        letters: (None, Some(sample("kept"))),
    };
    let user = user.letter_added(sample("new")).unwrap();
    assert_eq!(user.letters.0.as_ref().unwrap().content, "new");
    assert_eq!(user.letters.1.as_ref().unwrap().content, "kept");
}

#[test]
fn id_returns_the_user_identifier() {
    let user = User {
        user_id: "12345".to_string(),
        letters: (None, None),
    };
    assert_eq!(user.id(), "12345");
}
