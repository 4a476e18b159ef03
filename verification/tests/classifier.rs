use repostats::classify::{classify_file, is_test_file, is_text_mime, CommitClass, FileClass};
use repostats::history::diff_contains_test_file;
use repostats::repo::RepoError;

#[test]
fn classification_is_pure() {
    let first = classify_file("src/parser.rs", "text/x-rust");
    let second = classify_file("src/parser.rs", "text/x-rust");
    assert_eq!(first, second);
    assert_eq!(first, FileClass::NotTest);
}

#[test]
fn non_text_mime_is_always_ignored() {
    assert_eq!(classify_file("test1.png", "image/png"), FileClass::Ignore);
    assert_eq!(classify_file("tests/archive.zip", "application/zip"), FileClass::Ignore);
    assert_eq!(classify_file("plain.txt", ""), FileClass::Ignore);
}

#[test]
fn po_mime_is_always_ignored() {
    assert_eq!(classify_file("bla.po", "text/x-po"), FileClass::Ignore);
    assert_eq!(classify_file("tests/translations/test.po", "text/x-po"), FileClass::Ignore);
}

#[test]
fn textual_files_classified_by_path() {
    assert_eq!(classify_file("test1.txt", "text/plain"), FileClass::Test);
    assert_eq!(classify_file("a2.txt", "text/plain"), FileClass::NotTest);
    assert_eq!(classify_file("src/tests/mod.rs", "text/x-rust"), FileClass::Test);
    assert_eq!(classify_file("latest_report.txt", "text/plain"), FileClass::Test);
    assert_eq!(classify_file("README.md", "text/markdown"), FileClass::NotTest);
}

#[test]
fn test_path_is_a_plain_substring_check() {
    assert!(is_test_file("test1.txt"));
    assert!(is_test_file("src/latest.rs"));
    assert!(is_test_file("attestation.md"));
    assert!(!is_test_file("src/lib.rs"));
    assert!(!is_test_file("Test.txt"));
}

#[test]
fn text_mime_needs_text_without_po() {
    assert!(is_text_mime("text/plain; charset=us-ascii"));
    assert!(is_text_mime("text/x-rust"));
    assert!(!is_text_mime("application/octet-stream"));
    assert!(!is_text_mime("text/x-po"));
    assert!(!is_text_mime(""));
}

#[test]
fn deltas_with_test_paths() {
    assert!(diff_contains_test_file(&vec![None, Some("tests/foo.rs".to_string())]));
    assert!(!diff_contains_test_file(&vec![Some("a.rs".to_string()), Some("b.rs".to_string())]));
    assert!(!diff_contains_test_file(&vec![]));
}

#[test]
fn deletions_never_mark_a_commit() {
    assert!(!diff_contains_test_file(&vec![None, None]));
}

#[test]
fn class_labels() {
    assert_eq!(FileClass::Ignore.label(), "Ignore");
    assert_eq!(FileClass::Test.label(), "Test");
    assert_eq!(FileClass::NotTest.label(), "NotTest");
    assert_eq!(CommitClass::Test.label(), "Test");
    assert_eq!(CommitClass::NotTest.label(), "NotTest");
}

#[test]
fn error_labels() {
    assert!(RepoError::Head.label().contains("HEAD"));
    assert!(RepoError::Tree.label().contains("tree"));
    assert!(RepoError::Commit.label().contains("commit"));
    assert!(RepoError::Diff.label().contains("diff"));
    assert!(RepoError::Walk.label().contains("history"));
    assert!(RepoError::Sniffer.label().contains("sniffer"));
}
