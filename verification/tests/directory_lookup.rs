//! The recipient directory: bulk replace, unique names, and the
//! case-insensitive capped lookup.

use letterbox::directory::Directory;
use letterbox::error::ServiceError;
use letterbox::text::{contains_ci_exec, str_eq};

#[test]
fn replace_then_search_finds_by_case_insensitive_substring() {
    let mut directory = Directory::new();
    let names = vec!["Alice".to_string(), "Bob".to_string()];
    let count = directory.replace_all(&names, false);
    assert_eq!(count, 2);

    let hits = directory.search("ali", 25);
    assert_eq!(hits, vec!["Alice".to_string()]);

    directory.add_recipient("Carol".to_string(), true).unwrap();
    let hits = directory.search("a", 25);
    assert_eq!(hits.len(), 2);
    assert!(hits.contains(&"Alice".to_string()));
    assert!(hits.contains(&"Carol".to_string()));
    assert!(!hits.contains(&"Bob".to_string()));
}

#[test]
fn duplicate_name_is_refused() {
    let mut directory = Directory::new();
    directory.add_recipient("Alice".to_string(), true).unwrap();
    let second = directory.add_recipient("Alice".to_string(), false);
    assert_eq!(second.unwrap_err(), ServiceError::DuplicateRecipient);
    assert_eq!(directory.len(), 1);
}

#[test]
fn replace_all_empties_before_reinserting() {
    let mut directory = Directory::new();
    directory.add_recipient("Old".to_string(), false).unwrap();
    let count = directory.replace_all(&vec!["New".to_string()], true);
    assert_eq!(count, 1);
    assert_eq!(directory.search("", 25), vec!["New".to_string()]);
    assert_eq!(directory.search("old", 25).len(), 0);
}

#[test]
fn search_respects_its_limit_in_directory_order() {
    let mut directory = Directory::new();
    let names = vec![
        "Anna".to_string(),
        "Arnold".to_string(),
        "Astrid".to_string(),
    ];
    directory.replace_all(&names, false);
    let hits = directory.search("a", 2);
    assert_eq!(hits, vec!["Anna".to_string(), "Arnold".to_string()]);
}

#[test]
fn substring_match_is_ascii_case_insensitive() {
    assert!(contains_ci_exec("Karuizawa", "RUI"));
    assert!(contains_ci_exec("Karuizawa", ""));
    assert!(!contains_ci_exec("Karuizawa", "horikita"));
    assert!(!contains_ci_exec("ab", "abc"));
    assert!(str_eq("same", "same"));
    assert!(!str_eq("same", "same "));
}
