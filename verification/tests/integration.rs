use git2::{Oid, Repository, Signature, Time};
use repostats::classify::{CommitClass, FileClass};
use repostats::history::{commit_contains_test_file, commit_records};
use repostats::repo::RepoError;
use repostats::snapshot::{snapshot_records, tree_snapshot_records, FileRecord};

fn temp_repo(tag: &str) -> (Repository, String) {
    let nanos = std::time::SystemTime::now()
        .duration_since(std::time::UNIX_EPOCH)
        .unwrap()
        .as_nanos();
    let path = format!("/tmp/repostats-{}-{}", tag, nanos);
    (Repository::init(&path).unwrap(), path)
}

/// Create a commit whose tree holds exactly `files`, each a regular blob at
/// the top level. With `update_head` the commit becomes the new HEAD.
fn add_commit(
    repo: &Repository,
    parents: &[Oid],
    files: &[(&str, &[u8])],
    msg: &str,
    update_head: bool,
) -> Oid {
    let mut tb = repo.treebuilder(None).unwrap();
    for (name, content) in files {
        let blob = repo.blob(content).unwrap();
        tb.insert(*name, blob, 0o100644).unwrap();
    }
    let tree = repo.find_tree(tb.write().unwrap()).unwrap();
    let sig = Signature::new("tester", "tester@example.com", &Time::new(1_700_000_000, 0)).unwrap();
    let parent_commits: Vec<git2::Commit> = parents.iter().map(|p| repo.find_commit(*p).unwrap()).collect();
    let parent_refs: Vec<&git2::Commit> = parent_commits.iter().collect();
    let refname = if update_head { Some("HEAD") } else { None };
    repo.commit(refname, &sig, &sig, msg, &tree, &parent_refs).unwrap()
}

fn checkout(repo: &Repository) {
    let mut co = git2::build::CheckoutBuilder::new();
    co.force();
    repo.checkout_head(Some(&mut co)).unwrap();
}

fn find<'a>(rs: &'a [FileRecord], path: &str) -> &'a FileRecord {
    rs.iter().find(|r| r.path == path).unwrap_or_else(|| panic!("no record for {}", path))
}

#[test]
fn lists_files() {
    let (repo, root) = temp_repo("lists-files");
    add_commit(
        &repo,
        &[],
        &[("a2.txt", b"a2"), ("a33.txt", b"a33"), ("test1.txt", b"test")],
        "a",
        true,
    );
    checkout(&repo);
    let rs = snapshot_records(&repo, &root).unwrap();
    assert_eq!(rs.len(), 3);
    let a2 = find(&rs, "a2.txt");
    assert!(a2.size == 2 && a2.class == FileClass::NotTest);
    let a33 = find(&rs, "a33.txt");
    assert!(a33.size == 3 && a33.class == FileClass::NotTest);
    let t1 = find(&rs, "test1.txt");
    assert!(t1.size == 4 && t1.class == FileClass::Test);
}

#[test]
fn ignores_non_text_files() {
    let (repo, root) = temp_repo("non-text");
    let png: &[u8] = b"\x80PNG\x0d\x0a\x1a\x0a";
    add_commit(
        &repo,
        &[],
        &[("a2.txt", b"a2"), ("test1.png", png), ("bla.png", png)],
        "a",
        true,
    );
    checkout(&repo);
    let rs = snapshot_records(&repo, &root).unwrap();
    assert_eq!(rs.len(), 3);
    let a2 = find(&rs, "a2.txt");
    assert!(a2.size == 2 && a2.class == FileClass::NotTest);
    let t1 = find(&rs, "test1.png");
    assert!(t1.size == 8 && t1.class == FileClass::Ignore);
    let bla = find(&rs, "bla.png");
    assert!(bla.size == 8 && bla.class == FileClass::Ignore);
}

#[test]
fn ignores_po_files() {
    let (repo, root) = temp_repo("po");
    add_commit(
        &repo,
        &[],
        &[("a2.txt", b"a2"), ("bla.po", b"\nmsgid=\"\"\nmsgstr=\"\"")],
        "a",
        true,
    );
    checkout(&repo);
    let rs = snapshot_records(&repo, &root).unwrap();
    assert_eq!(rs.len(), 2);
    let a2 = find(&rs, "a2.txt");
    assert!(a2.size == 2 && a2.class == FileClass::NotTest);
    let po = find(&rs, "bla.po");
    assert!(po.size == 19 && po.class == FileClass::Ignore);
}

#[test]
fn lists_commits() {
    let (repo, _root) = temp_repo("lists-commits");
    let c1 = add_commit(&repo, &[], &[("a.txt", b"a2")], "a", true);
    let c2 = add_commit(&repo, &[c1], &[("a.txt", b"a2"), ("test.txt", b"b2")], "b", true);
    let c3 = add_commit(
        &repo,
        &[c2],
        &[("a.txt", b"a2"), ("test.txt", b"b2more"), ("c.txt", b"c2")],
        "mixed",
        true,
    );
    let rs = commit_records(&repo).unwrap();
    assert_eq!(rs.len(), 3);
    assert!(rs[0].id == c3.to_string() && rs[0].class == CommitClass::Test);
    assert!(rs[1].id == c2.to_string() && rs[1].class == CommitClass::Test);
    assert!(rs[2].id == c1.to_string() && rs[2].class == CommitClass::NotTest);
}

#[test]
fn ignores_non_mainline_commits() {
    let (repo, _root) = temp_repo("non-mainline");
    let a = add_commit(&repo, &[], &[("a.txt", b"a2")], "a", true);
    let b = add_commit(&repo, &[a], &[("a.txt", b"a2"), ("b.txt", b"b2")], "b", true);
    let c = add_commit(
        &repo,
        &[b],
        &[("a.txt", b"a2"), ("b.txt", b"b2"), ("c.txt", b"c2")],
        "c",
        false,
    );
    let d = add_commit(
        &repo,
        &[c],
        &[("a.txt", b"a2"), ("b.txt", b"b2"), ("c.txt", b"c2"), ("test1.txt", b"d2")],
        "d",
        false,
    );
    let m = add_commit(
        &repo,
        &[b, d],
        &[("a.txt", b"a2"), ("b.txt", b"b2"), ("c.txt", b"c2"), ("test1.txt", b"d2")],
        "merge",
        false,
    );
    repo.set_head_detached(m).unwrap();
    let rs = commit_records(&repo).unwrap();
    assert_eq!(rs.len(), 3);
    assert!(rs[0].id == m.to_string() && rs[0].class == CommitClass::Test);
    assert!(rs[1].id == b.to_string() && rs[1].class == CommitClass::NotTest);
    assert!(rs[2].id == a.to_string() && rs[2].class == CommitClass::NotTest);
    assert!(rs.iter().all(|r| r.id != c.to_string() && r.id != d.to_string()));
}

#[test]
fn walks_subdirectories() {
    let (repo, root) = temp_repo("subdirs");
    let blob_a = repo.blob(b"alpha").unwrap();
    let blob_b = repo.blob(b"beta content").unwrap();
    let mut sub = repo.treebuilder(None).unwrap();
    sub.insert("test_b.txt", blob_b, 0o100644).unwrap();
    let sub_id = sub.write().unwrap();
    let mut top = repo.treebuilder(None).unwrap();
    top.insert("a.txt", blob_a, 0o100644).unwrap();
    top.insert("dir", sub_id, 0o040000).unwrap();
    let tree = repo.find_tree(top.write().unwrap()).unwrap();
    let sig = Signature::new("tester", "tester@example.com", &Time::new(1_700_000_000, 0)).unwrap();
    repo.commit(Some("HEAD"), &sig, &sig, "a", &tree, &[]).unwrap();
    checkout(&repo);
    let rs = snapshot_records(&repo, &root).unwrap();
    assert_eq!(rs.len(), 2);
    let a = find(&rs, "a.txt");
    assert!(a.size == 5 && a.class == FileClass::NotTest);
    let b = find(&rs, "dir/test_b.txt");
    assert!(b.size == 12 && b.class == FileClass::Test);
}

#[test]
fn root_commit_diffs_against_empty_tree() {
    let (repo, _root) = temp_repo("root-test");
    add_commit(&repo, &[], &[("test_only.txt", b"x")], "a", true);
    let rs = commit_records(&repo).unwrap();
    assert_eq!(rs.len(), 1);
    assert_eq!(rs[0].class, CommitClass::Test);
}

#[test]
fn empty_repository_fails_cleanly() {
    let (repo, root) = temp_repo("empty");
    assert_eq!(snapshot_records(&repo, &root).unwrap_err(), RepoError::Head);
    assert_eq!(commit_records(&repo).unwrap_err(), RepoError::Walk);
}

#[test]
fn unknown_ids_fail_cleanly() {
    let (repo, root) = temp_repo("bad-ids");
    add_commit(&repo, &[], &[("a.txt", b"a2")], "a", true);
    let missing = "0123456789abcdef0123456789abcdef01234567";
    assert_eq!(
        commit_contains_test_file(&repo, missing).unwrap_err(),
        RepoError::Commit,
    );
    assert_eq!(
        tree_snapshot_records(&repo, &root, missing).unwrap_err(),
        RepoError::Tree,
    );
}
