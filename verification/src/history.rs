//! The history walker: classify every commit on the first-parent chain from
//! the tip down to the root.

use vstd::prelude::*;
use crate::classify::{is_test_file, path_is_test, CommitClass};
use crate::repo::{
    commit_first_parent, commit_tree_id, commit_tree_of, diff_new_paths, diff_new_paths_of,
    first_parent_ids, first_parent_of, tree_blobs, RepoError,
};

verus! {

/// One record of the history report: a commit id and its classification.
#[derive(Debug)]
pub struct CommitRecord {
    pub id: String,
    pub class: CommitClass,
}

/// Some change record has a new-file path that names a test file.
pub open spec fn delta_paths_have_test(ps: Seq<Option<Seq<char>>>) -> bool {
    exists|i: int| 0 <= i < ps.len() && #[trigger] ps[i] is Some && path_is_test(ps[i]->Some_0)
}

/// The id of the tree a commit is diffed against: its first parent's tree,
/// or none — the empty tree — for a root commit.
pub open spec fn parent_tree_of(commit_id: Seq<char>) -> Option<Seq<char>> {
    match first_parent_of(commit_id) {
        Some(p) => Some(commit_tree_of(p)),
        None => None,
    }
}

/// Every blob path of this tree decodes cleanly: none shows a replacement
/// character, so each came from well-formed bytes.
pub open spec fn tree_paths_decode_cleanly(tree_id: Seq<char>) -> bool {
    forall|j: int|
        0 <= j < tree_blobs(tree_id).len() ==> !(#[trigger] tree_blobs(tree_id)[j]).0.contains(
            '\u{fffd}',
        )
}

/// Some blob of this tree sits at a path that names a test file.
pub open spec fn tree_has_test_path(tree_id: Seq<char>) -> bool {
    exists|j: int|
        0 <= j < tree_blobs(tree_id).len() && path_is_test((#[trigger] tree_blobs(tree_id)[j]).0)
}

/// A commit's classification: `Test` exactly when the diff against its first
/// parent (or against the empty tree for a root commit) has a change record
/// whose new-file path names a test file.
pub open spec fn commit_class_spec(commit_id: Seq<char>) -> CommitClass {
    if delta_paths_have_test(
        diff_new_paths_of(parent_tree_of(commit_id), commit_tree_of(commit_id)),
    ) {
        CommitClass::Test
    } else {
        CommitClass::NotTest
    }
}

/// Does any change record of this diff have a new-file path that names a
/// test file? A record with no new-file path — a pure deletion — never
/// counts.
pub fn diff_contains_test_file(paths: &Vec<Option<String>>) -> (b: bool)
    ensures
        b == delta_paths_have_test(paths.deep_view()),
{
    let ghost ps = paths.deep_view();
    let mut i: usize = 0;
    while i < paths.len()
        invariant
            ps == paths.deep_view(),
            ps.len() == paths@.len(),
            i <= paths@.len(),
            forall|k: int|
                0 <= k < i ==> !(#[trigger] ps[k] is Some && path_is_test(ps[k]->Some_0)),
        decreases paths@.len() - i,
    {
        proof {
            assert(ps[i as int] == paths@[i as int].deep_view());
        }
        match &paths[i] {
            Some(p) => {
                if is_test_file(p.as_str()) {
                    return true;
                }
            },
            None => {},
        }
        i += 1;
    }
    false
}

/// Classify one commit: does the diff against its first parent (or against
/// the empty tree for a root commit) touch a path that names a test file?
///
/// For a root commit the diff is taken against the empty tree, so every
/// blob of its tree counts as an addition: where the blob paths decode
/// cleanly, a test file anywhere in the tree forces `true`.
pub fn commit_contains_test_file(repo: &git2::Repository, commit_id: &str) -> (r: Result<
    bool,
    RepoError,
>)
    ensures
        r matches Ok(b) ==> b == (commit_class_spec(commit_id@) == CommitClass::Test),
        r matches Ok(b) ==> ((first_parent_of(commit_id@) is None && tree_paths_decode_cleanly(
            commit_tree_of(commit_id@),
        ) && tree_has_test_path(commit_tree_of(commit_id@))) ==> b),
{
    let tree = match commit_tree_id(repo, commit_id) {
        Ok(t) => t,
        Err(_) => {
            return Err(RepoError::Commit);
        },
    };
    let parent = match commit_first_parent(repo, commit_id) {
        Ok(p) => p,
        Err(_) => {
            return Err(RepoError::Commit);
        },
    };
    let old_tree = match parent {
        Some(p) => {
            match commit_tree_id(repo, p.as_str()) {
                Ok(t) => Some(t),
                Err(_) => {
                    return Err(RepoError::Commit);
                },
            }
        },
        None => None,
    };
    let paths = match diff_new_paths(repo, &old_tree, tree.as_str()) {
        Ok(ps) => ps,
        Err(_) => {
            return Err(RepoError::Diff);
        },
    };
    let b = diff_contains_test_file(&paths);
    proof {
        assert(old_tree.deep_view() == parent_tree_of(commit_id@));
        let t = commit_tree_of(commit_id@);
        let ps = paths.deep_view();
        if first_parent_of(commit_id@) is None && tree_paths_decode_cleanly(t) {
            assert(ps == diff_new_paths_of(None, t));
            if tree_has_test_path(t) {
                let j = choose|j: int|
                    0 <= j < tree_blobs(t).len() && path_is_test((#[trigger] tree_blobs(t)[j]).0);
                assert(!(tree_blobs(t)[j]).0.contains('\u{fffd}'));
                let i = choose|i: int|
                    0 <= i < ps.len() && (#[trigger] ps[i]) == Some(tree_blobs(t)[j].0);
                assert(ps[i] is Some && path_is_test(ps[i]->Some_0));
                assert(delta_paths_have_test(ps));
            }
        }
    }
    Ok(b)
}

/// Walk the first-parent chain from the commit `HEAD` refers to down to the
/// root and classify each commit on it.
///
/// On success there is at least one record, the records form a first-parent
/// chain — each record's commit has the next record's commit as its first
/// parent, and the last record's commit has none — and each record carries
/// its commit's classification. A chain with that shape is unique once its
/// head is fixed (`lemma_first_parent_chain_unique`), so the records cover
/// the walked chain completely.
pub fn commit_records(repo: &git2::Repository) -> (r: Result<Vec<CommitRecord>, RepoError>)
    ensures
        r matches Ok(rs) ==> rs@.len() > 0,
        r matches Ok(rs) ==> forall|i: int|
            0 <= i < rs@.len() ==> #[trigger] rs@[i].class == commit_class_spec(rs@[i].id@),
        r matches Ok(rs) ==> forall|i: int|
            0 <= i < rs@.len() - 1 ==> first_parent_of(#[trigger] rs@[i].id@) == Some(
                rs@[i + 1].id@,
            ),
        r matches Ok(rs) ==> (rs@.len() > 0 ==> first_parent_of(rs@.last().id@) is None),
{
    let ids = match first_parent_ids(repo) {
        Ok(v) => v,
        Err(_) => {
            return Err(RepoError::Walk);
        },
    };
    let ghost idv = ids.deep_view();
    let mut out: Vec<CommitRecord> = Vec::new();
    let mut i: usize = 0;
    while i < ids.len()
        invariant
            idv == ids.deep_view(),
            idv.len() == ids@.len(),
            ids@.len() > 0,
            i <= ids@.len(),
            out@.len() == i,
            forall|j: int| 0 <= j < i ==> #[trigger] out@[j].id@ == idv[j],
            forall|j: int| 0 <= j < i ==> #[trigger] out@[j].class == commit_class_spec(idv[j]),
            forall|j: int|
                0 <= j < idv.len() - 1 ==> first_parent_of(#[trigger] idv[j]) == Some(idv[j + 1]),
            idv.len() > 0 ==> first_parent_of(idv.last()) is None,
        decreases ids@.len() - i,
    {
        proof {
            assert(idv[i as int] == ids@[i as int].deep_view());
        }
        let test = match commit_contains_test_file(repo, ids[i].as_str()) {
            Ok(b) => b,
            Err(e) => {
                return Err(e);
            },
        };
        let class = if test {
            CommitClass::Test
        } else {
            CommitClass::NotTest
        };
        out.push(CommitRecord { id: ids[i].clone(), class });
        i += 1;
    }
    Ok(out)
}

/// A root commit — one with no first parent — is classified by diffing its
/// tree against the empty tree, so all of its files count as additions.
pub proof fn lemma_root_commit_diffs_against_empty(commit_id: Seq<char>)
    requires
        first_parent_of(commit_id) is None,
    ensures
        commit_class_spec(commit_id) == (if delta_paths_have_test(
            diff_new_paths_of(None, commit_tree_of(commit_id)),
        ) {
            CommitClass::Test
        } else {
            CommitClass::NotTest
        }),
{
}

/// Two walks that start at the same commit and both follow first parents
/// down to a root visit exactly the same commits, in the same order: the
/// first-parent chain of a tip is unique.
pub proof fn lemma_first_parent_chain_unique(a: Seq<Seq<char>>, b: Seq<Seq<char>>)
    requires
        a.len() > 0,
        b.len() > 0,
        a[0] == b[0],
        forall|i: int| 0 <= i < a.len() - 1 ==> first_parent_of(#[trigger] a[i]) == Some(a[i + 1]),
        forall|i: int| 0 <= i < b.len() - 1 ==> first_parent_of(#[trigger] b[i]) == Some(b[i + 1]),
        first_parent_of(a.last()) is None,
        first_parent_of(b.last()) is None,
    ensures
        a == b,
    decreases a.len(),
{
    if a.len() == 1 {
        if b.len() > 1 {
            assert(first_parent_of(b[0]) == Some(b[1]));
            assert(false);
        }
        assert(a =~= b);
    } else {
        assert(first_parent_of(a[0]) == Some(a[1]));
        if b.len() == 1 {
            assert(false);
        }
        assert(first_parent_of(b[0]) == Some(b[1]));
        assert(a[1] == b[1]);
        let a2 = a.drop_first();
        let b2 = b.drop_first();
        assert(a2.last() == a.last());
        assert(b2.last() == b.last());
        assert forall|i: int| 0 <= i < a2.len() - 1 implies first_parent_of(#[trigger] a2[i])
            == Some(a2[i + 1]) by {
            assert(a2[i] == a[i + 1]);
            assert(a2[i + 1] == a[i + 2]);
        }
        assert forall|i: int| 0 <= i < b2.len() - 1 implies first_parent_of(#[trigger] b2[i])
            == Some(b2[i + 1]) by {
            assert(b2[i] == b[i + 1]);
            assert(b2[i + 1] == b[i + 2]);
        }
        lemma_first_parent_chain_unique(a2, b2);
        assert(a.len() == b.len());
        assert forall|i: int| 0 <= i < a.len() implies a[i] == b[i] by {
            if i > 0 {
                assert(a[i] == a2[i - 1]);
                assert(b[i] == b2[i - 1]);
            }
        }
        assert(a =~= b);
    }
}

} // verus!
