//! The trusted boundary to libgit2.
//!
//! Everything a git object id denotes is determined by the id itself: ids are
//! content hashes, and libgit2 verifies an object's hash when it reads it, so
//! a tree id fixes the tree's entries (and, recursively, every blob under
//! it), and a commit id fixes the commit's tree and the parents recorded in
//! its header. The uninterpreted functions below name those denotations, and
//! the wrapper around each libgit2 call states what the call returns in
//! terms of them. Content addressing also makes the tree hierarchy acyclic,
//! so the recursive expansion of a tree is finite; `tree_weight` names a
//! bound on its size.
//!
//! A repository whose effective ancestry is rewritten outside the objects —
//! a grafts file, a shallow clone's boundary — is outside these contracts;
//! partial repositories are outside the system's scope altogether.

use vstd::prelude::*;
use crate::text::{nul_free, path_join};

verus! {

#[verifier::external_type_specification]
#[verifier::external_body]
pub struct ExRepository(git2::Repository);

#[verifier::external_type_specification]
#[verifier::external_body]
pub struct ExGitError(git2::Error);

/// The `(relative path, byte size)` of every blob reachable from the tree
/// with this id, paths joined with `/`.
pub uninterp spec fn tree_blobs(tree_id: Seq<char>) -> Seq<(Seq<char>, nat)>;

/// A bound on the number of entries in the whole recursive expansion of the
/// tree with this id; finite because trees are content-addressed and acyclic.
pub uninterp spec fn tree_weight(tree_id: Seq<char>) -> nat;

/// The id of the tree of the commit with this id.
pub uninterp spec fn commit_tree_of(commit_id: Seq<char>) -> Seq<char>;

/// The id of the first parent recorded in the header of the commit object
/// with this id, if any is recorded there.
pub uninterp spec fn first_parent_of(commit_id: Seq<char>) -> Option<Seq<char>>;

/// The new-file path of each change record in the diff between the trees
/// with these ids (`None` as the old side means the empty tree; `None` as a
/// path means the record has no resolvable new-file path, as for a pure
/// deletion).
pub uninterp spec fn diff_new_paths_of(
    old_tree_id: Option<Seq<char>>,
    new_tree_id: Seq<char>,
) -> Seq<Option<Seq<char>>>;

/// One immediate entry of a tree: a name together with what it points at.
pub struct TreeEntryInfo {
    pub name: String,
    pub item: TreeItem,
}

/// What a tree entry points at: a blob with its byte size, a subtree with its
/// id, or some other object (a submodule commit, say).
pub enum TreeItem {
    Blob { size: usize },
    Subtree { id: String },
    Other,
}

/// The blobs contributed by one entry, with paths relative to the entry's
/// own tree.
pub open spec fn entry_blobs(e: TreeEntryInfo) -> Seq<(Seq<char>, nat)> {
    match e.item {
        TreeItem::Blob { size } => seq![(e.name@, size as nat)],
        TreeItem::Subtree { id } => tree_blobs(id@).map_values(
            |b: (Seq<char>, nat)| (path_join(e.name@, b.0), b.1),
        ),
        TreeItem::Other => Seq::empty(),
    }
}

/// The blobs contributed by a list of entries, in order.
pub open spec fn entries_blobs(es: Seq<TreeEntryInfo>) -> Seq<(Seq<char>, nat)>
    decreases es.len(),
{
    if es.len() == 0 {
        Seq::empty()
    } else {
        entries_blobs(es.drop_last()) + entry_blobs(es.last())
    }
}

/// The size of the recursive expansion below one entry, the entry included.
pub open spec fn entry_measure(e: TreeEntryInfo) -> nat {
    match e.item {
        TreeItem::Subtree { id } => 1 + tree_weight(id@),
        _ => 1,
    }
}

/// The summed expansion size of a list of entries.
pub open spec fn entries_measure(es: Seq<TreeEntryInfo>) -> nat
    decreases es.len(),
{
    if es.len() == 0 {
        0
    } else {
        entries_measure(es.drop_last()) + entry_measure(es.last())
    }
}

/// Relies on `git2::Repository::revparse_single` and
/// `git2::Object::peel_to_tree`: resolve `HEAD` to a commit and return the id
/// of that commit's tree. What `HEAD` refers to depends on the repository on
/// disk, so nothing more is stated of the result.
#[verifier::external_body]
pub(crate) fn head_tree_id(repo: &git2::Repository) -> Result<String, git2::Error> {
    let tree = repo.revparse_single("HEAD")?.peel_to_tree()?;
    Ok(tree.id().to_string())
}

/// Relies on `git2::Repository::find_tree`, `git2::Tree::iter`,
/// `git2::TreeEntry::{name_bytes, kind, id, to_object}`,
/// `git2::Object::peel_to_blob` and `git2::Blob::content`: list a tree's
/// immediate entries with each blob's byte length and each subtree's id.
/// Entry names in a git tree are never empty, and the tree format ends each
/// name at its NUL terminator, so a name never holds a NUL character. The
/// listed entries carry exactly the blobs that the tree id denotes, and
/// their summed expansion size is bounded by the tree's own, because ids are
/// content hashes.
#[verifier::external_body]
pub(crate) fn tree_entries(repo: &git2::Repository, tree_id: &str) -> (r: Result<
    Vec<TreeEntryInfo>,
    git2::Error,
>)
    ensures
        r matches Ok(es) ==> entries_blobs(es@) == tree_blobs(tree_id@),
        r matches Ok(es) ==> entries_measure(es@) <= tree_weight(tree_id@),
        r matches Ok(es) ==> forall|i: int| 0 <= i < es@.len() ==> es@[i].name@.len() > 0,
        r matches Ok(es) ==> forall|i: int| 0 <= i < es@.len() ==> nul_free(es@[i].name@),
{
    let tree = repo.find_tree(git2::Oid::from_str(tree_id)?)?;
    let mut out = Vec::new();
    for e in tree.iter() {
        let name = String::from_utf8_lossy(e.name_bytes()).into_owned();
        let item = match e.kind() {
            Some(git2::ObjectType::Blob) => TreeItem::Blob {
                size: e.to_object(repo)?.peel_to_blob()?.content().len(),
            },
            Some(git2::ObjectType::Tree) => TreeItem::Subtree { id: e.id().to_string() },
            _ => TreeItem::Other,
        };
        out.push(TreeEntryInfo { name, item });
    }
    Ok(out)
}

/// Relies on `git2::Repository::revwalk`, `git2::Revwalk::push_head` and
/// `git2::Revwalk::simplify_first_parent`: the walk yields the commits on the
/// first-parent chain, from the commit `HEAD` refers to down to the root, and
/// no others. After a successful `push_head` the walk yields at least the
/// commit `HEAD` refers to, or its iteration fails. Which commit the chain
/// starts at depends on the repository on disk; the links of the chain are
/// functions of the ids alone.
#[verifier::external_body]
pub(crate) fn first_parent_ids(repo: &git2::Repository) -> (r: Result<Vec<String>, git2::Error>)
    ensures
        r matches Ok(ids) ==> ids@.len() > 0,
        r matches Ok(ids) ==> forall|i: int|
            0 <= i < ids.deep_view().len() - 1 ==> first_parent_of(ids.deep_view()[i])
                == Some(ids.deep_view()[i + 1]),
        r matches Ok(ids) ==> first_parent_of(ids.deep_view().last()) is None,
{
    let mut walk = repo.revwalk()?;
    walk.push_head()?;
    walk.simplify_first_parent()?;
    walk.map(|id| id.map(|oid| oid.to_string())).collect()
}

/// Relies on `git2::Repository::find_commit` and `git2::Commit::tree_id`: the
/// id of the commit's tree, a function of the commit id because ids are
/// content hashes.
#[verifier::external_body]
pub(crate) fn commit_tree_id(repo: &git2::Repository, commit_id: &str) -> (r: Result<
    String,
    git2::Error,
>)
    ensures
        r matches Ok(t) ==> t@ == commit_tree_of(commit_id@),
{
    let commit = repo.find_commit(git2::Oid::from_str(commit_id)?)?;
    Ok(commit.tree_id().to_string())
}

/// Relies on `git2::Repository::find_commit` and `git2::Commit::parent_id`:
/// the id of the first parent recorded in the commit object's own header, or
/// `None` for a root commit (`parent_id` fails exactly when the index is out
/// of range). The header is part of the hash-verified object, so the answer
/// is a function of the commit id; no object store lookup of the parent is
/// made.
#[verifier::external_body]
pub(crate) fn commit_first_parent(repo: &git2::Repository, commit_id: &str) -> (r: Result<
    Option<String>,
    git2::Error,
>)
    ensures
        r matches Ok(p) ==> p.deep_view() == first_parent_of(commit_id@),
{
    let commit = repo.find_commit(git2::Oid::from_str(commit_id)?)?;
    Ok(commit.parent_id(0).ok().map(|oid| oid.to_string()))
}

/// Relies on `git2::Repository::diff_tree_to_tree` (old side `None` meaning
/// the empty tree, no options), `git2::Diff::deltas`, `git2::DiffDelta::new_file`
/// and `git2::DiffFile::path`: the new-file path of each change record, in the
/// diff's own order, `None` where the record has no resolvable new-file path.
/// A function of the two tree ids alone, because ids are content hashes and
/// the diff is computed without options.
///
/// Against the unset old side the diff lists every blob of the new tree as
/// one added record whose new-file path is the blob's slash-joined path. So
/// each blob whose lossily decoded path shows no replacement character — its
/// bytes were well-formed, so the path resolves — appears in that diff under
/// its own path. (The converse is not stated: a record can also come from a
/// non-blob entry, such as a submodule.)
#[verifier::external_body]
pub(crate) fn diff_new_paths(
    repo: &git2::Repository,
    old_tree_id: &Option<String>,
    new_tree_id: &str,
) -> (r: Result<Vec<Option<String>>, git2::Error>)
    ensures
        r matches Ok(ps) ==> ps.deep_view() == diff_new_paths_of(
            old_tree_id.deep_view(),
            new_tree_id@,
        ),
        r matches Ok(ps) ==> (old_tree_id is None ==> forall|j: int|
            0 <= j < tree_blobs(new_tree_id@).len() && !(#[trigger] tree_blobs(
                new_tree_id@,
            )[j]).0.contains('\u{fffd}') ==> exists|i: int|
                0 <= i < ps.deep_view().len() && (#[trigger] ps.deep_view()[i]) == Some(
                    tree_blobs(new_tree_id@)[j].0,
                )),
{
    let old = match old_tree_id {
        Some(id) => Some(repo.find_tree(git2::Oid::from_str(id)?)?),
        None => None,
    };
    let new = repo.find_tree(git2::Oid::from_str(new_tree_id)?)?;
    let diff = repo.diff_tree_to_tree(old.as_ref(), Some(&new), None)?;
    Ok(diff.deltas().map(
        |d| d.new_file().path().and_then(|p| p.to_str()).map(|s| s.to_string()),
    ).collect())
}

/// Which repository operation failed; the run aborts on any of these.
#[derive(Clone, Copy, PartialEq, Eq, Structural, Debug)]
pub enum RepoError {
    /// `HEAD` could not be resolved to a commit or tree.
    Head,
    /// A tree could not be read.
    Tree,
    /// A commit could not be read.
    Commit,
    /// A diff could not be computed.
    Diff,
    /// The history walk could not be set up.
    Walk,
    /// The MIME sniffer could not be initialised.
    Sniffer,
}

impl RepoError {
    /// The error's name, as printed in a report.
    pub open spec fn label_spec(self) -> Seq<char> {
        match self {
            RepoError::Head => "cannot resolve HEAD"@,
            RepoError::Tree => "cannot read a tree"@,
            RepoError::Commit => "cannot read a commit"@,
            RepoError::Diff => "cannot compute a diff"@,
            RepoError::Walk => "cannot walk the history"@,
            RepoError::Sniffer => "cannot initialise the MIME sniffer"@,
        }
    }

    /// The error's name, as printed in a report.
    pub fn label(&self) -> (s: String)
        ensures
            s@ == self.label_spec(),
    {
        match self {
            RepoError::Head => String::from_str("cannot resolve HEAD"),
            RepoError::Tree => String::from_str("cannot read a tree"),
            RepoError::Commit => String::from_str("cannot read a commit"),
            RepoError::Diff => String::from_str("cannot compute a diff"),
            RepoError::Walk => String::from_str("cannot walk the history"),
            RepoError::Sniffer => String::from_str("cannot initialise the MIME sniffer"),
        }
    }
}

} // verus!
