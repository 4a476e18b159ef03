//! The file classifier: decide `Ignore`, `Test` or `NotTest` from a file's
//! relative path and its sniffed MIME string.

use vstd::prelude::*;
use crate::text::{contains_substr, str_contains};

verus! {

/// Category of a file in the snapshot.
#[derive(Clone, Copy, PartialEq, Eq, Structural, Debug)]
pub enum FileClass {
    Ignore,
    Test,
    NotTest,
}

/// Category of a commit on the first-parent line.
#[derive(Clone, Copy, PartialEq, Eq, Structural, Debug)]
pub enum CommitClass {
    Test,
    NotTest,
}

/// A MIME string denotes textual content worth classifying: it mentions
/// `text` and is not a gettext catalogue (`x-po`).
pub open spec fn mime_is_text(mime: Seq<char>) -> bool {
    contains_substr(mime, "text"@) && !contains_substr(mime, "x-po"@)
}

/// A path counts as a test path when it contains `test` anywhere.
pub open spec fn path_is_test(path: Seq<char>) -> bool {
    contains_substr(path, "test"@)
}

/// The classification of a file, as a function of its relative path and its
/// MIME string alone.
pub open spec fn classify_spec(path: Seq<char>, mime: Seq<char>) -> FileClass {
    if !mime_is_text(mime) {
        FileClass::Ignore
    } else if path_is_test(path) {
        FileClass::Test
    } else {
        FileClass::NotTest
    }
}

/// Does this MIME string denote textual, non-gettext content?
pub fn is_text_mime(mime: &str) -> (b: bool)
    ensures
        b == mime_is_text(mime@),
{
    str_contains(mime, "text") && !str_contains(mime, "x-po")
}

/// Does this relative path name a test file?
pub fn is_test_file(path: &str) -> (b: bool)
    ensures
        b == path_is_test(path@),
{
    str_contains(path, "test")
}

/// Classify one file from its relative path and its MIME string.
pub fn classify_file(path: &str, mime: &str) -> (c: FileClass)
    ensures
        c == classify_spec(path@, mime@),
{
    if !is_text_mime(mime) {
        FileClass::Ignore
    } else if is_test_file(path) {
        FileClass::Test
    } else {
        FileClass::NotTest
    }
}

impl FileClass {
    /// The category's name, as printed in a report.
    pub open spec fn label_spec(self) -> Seq<char> {
        match self {
            FileClass::Ignore => "Ignore"@,
            FileClass::Test => "Test"@,
            FileClass::NotTest => "NotTest"@,
        }
    }

    /// The category's name, as printed in a report.
    pub fn label(&self) -> (s: String)
        ensures
            s@ == self.label_spec(),
    {
        match self {
            FileClass::Ignore => String::from_str("Ignore"),
            FileClass::Test => String::from_str("Test"),
            FileClass::NotTest => String::from_str("NotTest"),
        }
    }
}

impl CommitClass {
    /// The category's name, as printed in a report.
    pub open spec fn label_spec(self) -> Seq<char> {
        match self {
            CommitClass::Test => "Test"@,
            CommitClass::NotTest => "NotTest"@,
        }
    }

    /// The category's name, as printed in a report.
    pub fn label(&self) -> (s: String)
        ensures
            s@ == self.label_spec(),
    {
        match self {
            CommitClass::Test => String::from_str("Test"),
            CommitClass::NotTest => String::from_str("NotTest"),
        }
    }
}

/// A file's classification is a pure function of its relative path and its
/// resolved MIME string: the same inputs give the same category.
pub proof fn lemma_classification_pure(p1: Seq<char>, m1: Seq<char>, p2: Seq<char>, m2: Seq<char>)
    requires
        p1 == p2,
        m1 == m2,
    ensures
        classify_spec(p1, m1) == classify_spec(p2, m2),
{
}

/// A file whose MIME string lacks `text` is always ignored, whatever its path.
pub proof fn lemma_non_text_is_ignored(path: Seq<char>, mime: Seq<char>)
    requires
        !contains_substr(mime, "text"@),
    ensures
        classify_spec(path, mime) == FileClass::Ignore,
{
}

/// A file whose MIME string mentions `x-po` is always ignored, even when it
/// is textual and its path would make it a test file.
pub proof fn lemma_po_is_ignored(path: Seq<char>, mime: Seq<char>)
    requires
        contains_substr(mime, "x-po"@),
    ensures
        classify_spec(path, mime) == FileClass::Ignore,
{
}

/// A textual, non-gettext file is a test file exactly when its path contains
/// `test`, and ordinary source otherwise.
pub proof fn lemma_textual_classified_by_path(path: Seq<char>, mime: Seq<char>)
    requires
        contains_substr(mime, "text"@),
        !contains_substr(mime, "x-po"@),
    ensures
        classify_spec(path, mime) == FileClass::Test <==> path_is_test(path),
        classify_spec(path, mime) == FileClass::NotTest <==> !path_is_test(path),
{
}

} // verus!
