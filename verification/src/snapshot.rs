//! The snapshot walker: enumerate and classify every blob reachable from a
//! tree, descending through subtrees with an explicit work list.

use vstd::prelude::*;
use vstd::multiset::Multiset;
use vstd::seq_lib::lemma_multiset_commutative;
use crate::classify::{classify_file, path_is_test, FileClass};
use crate::repo::{
    entries_blobs, entries_measure, entry_blobs, entry_measure, head_tree_id, tree_blobs,
    tree_entries, tree_weight, RepoError, TreeEntryInfo, TreeItem,
};
use crate::sniff::MimeSniffer;
use crate::text::{join_path, lemma_path_join_assoc, lemma_path_join_nul_free, nul_free, path_join};

verus! {

broadcast use
    vstd::seq_lib::group_to_multiset_ensures,
    vstd::multiset::group_multiset_axioms,
    vstd::seq_lib::lemma_multiset_commutative;

/// One record of the snapshot report: a blob's relative path, its byte size
/// and its classification.
#[derive(Debug)]
pub struct FileRecord {
    pub path: String,
    pub size: usize,
    pub class: FileClass,
}

/// A record's classification agrees with its path: `Test` only for test
/// paths, `NotTest` only for the others (`Ignore` says nothing of the path).
pub open spec fn record_class_ok(r: FileRecord) -> bool {
    &&& r.class == FileClass::Test ==> path_is_test(r.path@)
    &&& r.class == FileClass::NotTest ==> !path_is_test(r.path@)
}

/// One unit of pending work: a tree entry and the path prefix under which
/// it was found.
struct WorkItem {
    prefix: String,
    entry: TreeEntryInfo,
}

/// Blob records with every path joined under the prefix `q`.
pub open spec fn prefixed_seq(q: Seq<char>, bs: Seq<(Seq<char>, nat)>) -> Seq<(Seq<char>, nat)> {
    bs.map_values(|b: (Seq<char>, nat)| (path_join(q, b.0), b.1))
}

/// The blobs, as a multiset of `(path, size)` pairs, still to be emitted for
/// one entry found under the prefix `q`.
pub open spec fn entry_pending(q: Seq<char>, e: TreeEntryInfo) -> Multiset<(Seq<char>, nat)> {
    match e.item {
        TreeItem::Blob { size } => Multiset::empty().insert((path_join(q, e.name@), size as nat)),
        TreeItem::Subtree { id } => prefixed_seq(
            path_join(q, e.name@),
            tree_blobs(id@),
        ).to_multiset(),
        TreeItem::Other => Multiset::empty(),
    }
}

/// The blobs still to be emitted for one work item.
spec fn item_pending(it: WorkItem) -> Multiset<(Seq<char>, nat)> {
    entry_pending(it.prefix@, it.entry)
}

/// Every pending item's prefix and entry name are NUL-free, so every path
/// assembled from them can be handed to the sniffer.
spec fn work_nul_free(items: Seq<WorkItem>) -> bool {
    forall|j: int|
        0 <= j < items.len() ==> nul_free(#[trigger] items[j].prefix@) && nul_free(
            items[j].entry.name@,
        )
}

/// The blobs still to be emitted for the whole work list.
spec fn pending_blobs(items: Seq<WorkItem>) -> Multiset<(Seq<char>, nat)>
    decreases items.len(),
{
    if items.len() == 0 {
        Multiset::empty()
    } else {
        pending_blobs(items.drop_last()).add(item_pending(items.last()))
    }
}

/// The blobs still to be emitted for a batch of entries that all sit under
/// one prefix `q`.
spec fn batch_pending(q: Seq<char>, es: Seq<TreeEntryInfo>) -> Multiset<(Seq<char>, nat)>
    decreases es.len(),
{
    if es.len() == 0 {
        Multiset::empty()
    } else {
        batch_pending(q, es.drop_last()).add(entry_pending(q, es.last()))
    }
}

/// The summed expansion size of the work list; the walk's termination
/// measure.
spec fn items_measure(items: Seq<WorkItem>) -> nat
    decreases items.len(),
{
    if items.len() == 0 {
        0
    } else {
        items_measure(items.drop_last()) + entry_measure(items.last().entry)
    }
}

/// The `(path, size)` pairs of the records emitted so far, as a multiset.
pub open spec fn emitted_blobs(rs: Seq<FileRecord>) -> Multiset<(Seq<char>, nat)>
    decreases rs.len(),
{
    if rs.len() == 0 {
        Multiset::empty()
    } else {
        emitted_blobs(rs.drop_last()).insert((rs.last().path@, rs.last().size as nat))
    }
}

proof fn lemma_pending_push(s: Seq<WorkItem>, x: WorkItem)
    ensures
        pending_blobs(s.push(x)) == pending_blobs(s).add(item_pending(x)),
        items_measure(s.push(x)) == items_measure(s) + entry_measure(x.entry),
{
    assert(s.push(x).drop_last() =~= s);
    assert(s.push(x).last() == x);
}

proof fn lemma_emitted_push(s: Seq<FileRecord>, r: FileRecord)
    ensures
        emitted_blobs(s.push(r)) == emitted_blobs(s).insert((r.path@, r.size as nat)),
{
    assert(s.push(r).drop_last() =~= s);
    assert(s.push(r).last() == r);
}

proof fn lemma_to_multiset_empty()
    ensures
        Seq::<(Seq<char>, nat)>::empty().to_multiset() == Multiset::<(Seq<char>, nat)>::empty(),
{
    Seq::<(Seq<char>, nat)>::empty().to_multiset_ensures();
    assert(Seq::<(Seq<char>, nat)>::empty().to_multiset() =~= Multiset::<(Seq<char>, nat)>::empty());
}

/// A batch of entries under prefix `q` carries exactly the blobs of those
/// entries, their paths joined under `q`.
proof fn lemma_batch_is_prefixed_entries(q: Seq<char>, es: Seq<TreeEntryInfo>)
    requires
        forall|i: int| 0 <= i < es.len() ==> es[i].name@.len() > 0,
    ensures
        batch_pending(q, es) == prefixed_seq(q, entries_blobs(es)).to_multiset(),
    decreases es.len(),
{
    if es.len() == 0 {
        assert(prefixed_seq(q, entries_blobs(es)) =~= Seq::<(Seq<char>, nat)>::empty());
        lemma_to_multiset_empty();
    } else {
        let front = es.drop_last();
        let e = es.last();
        lemma_batch_is_prefixed_entries(q, front);
        assert(prefixed_seq(q, entries_blobs(front) + entry_blobs(e)) =~= prefixed_seq(
            q,
            entries_blobs(front),
        ) + prefixed_seq(q, entry_blobs(e)));
        lemma_multiset_commutative(
            prefixed_seq(q, entries_blobs(front)),
            prefixed_seq(q, entry_blobs(e)),
        );
        assert(prefixed_seq(q, entry_blobs(e)).to_multiset() == entry_pending(q, e)) by {
            match e.item {
                TreeItem::Blob { size } => {
                    let x = (path_join(q, e.name@), size as nat);
                    assert(prefixed_seq(q, entry_blobs(e)) =~= Seq::<(Seq<char>, nat)>::empty().push(
                        x,
                    ));
                    lemma_to_multiset_empty();
                },
                TreeItem::Subtree { id } => {
                    assert forall|i: int| 0 <= i < tree_blobs(id@).len() implies prefixed_seq(
                        q,
                        entry_blobs(e),
                    )[i] == prefixed_seq(path_join(q, e.name@), tree_blobs(id@))[i] by {
                        lemma_path_join_assoc(q, e.name@, tree_blobs(id@)[i].0);
                    }
                    assert(prefixed_seq(q, entry_blobs(e)) =~= prefixed_seq(
                        path_join(q, e.name@),
                        tree_blobs(id@),
                    ));
                },
                TreeItem::Other => {
                    assert(prefixed_seq(q, entry_blobs(e)) =~= Seq::<(Seq<char>, nat)>::empty());
                    lemma_to_multiset_empty();
                },
            }
        }
    }
}

/// Walk the tree with the given id and classify every blob under it.
///
/// On success the records carry exactly the blobs of that tree — same paths,
/// same sizes, counted with multiplicity — and each record's class agrees
/// with its path.
pub fn tree_snapshot_records(repo: &git2::Repository, repo_root: &str, tree_id: &str) -> (r:
    Result<Vec<FileRecord>, RepoError>)
    requires
        nul_free(repo_root@),
    ensures
        r matches Ok(rs) ==> emitted_blobs(rs@) == tree_blobs(tree_id@).to_multiset(),
        r matches Ok(rs) ==> forall|i: int|
            0 <= i < rs@.len() ==> #[trigger] record_class_ok(rs@[i]),
{
    let sniffer = match MimeSniffer::new() {
        Some(s) => s,
        None => {
            return Err(RepoError::Sniffer);
        },
    };
    let mut seed = match tree_entries(repo, tree_id) {
        Ok(es) => es,
        Err(_) => {
            return Err(RepoError::Tree);
        },
    };
    let ghost root_ms = tree_blobs(tree_id@).to_multiset();
    let ghost seed_all = seed@;
    proof {
        lemma_batch_is_prefixed_entries(Seq::empty(), seed_all);
        assert(prefixed_seq(Seq::empty(), entries_blobs(seed_all)) =~= entries_blobs(seed_all));
        assert(batch_pending(Seq::empty(), seed_all) == root_ms);
    }
    let mut work: Vec<WorkItem> = Vec::new();
    while seed.len() > 0
        invariant
            pending_blobs(work@).add(batch_pending(Seq::empty(), seed@)) == root_ms,
            items_measure(work@) + entries_measure(seed@) == entries_measure(seed_all),
            forall|j: int| 0 <= j < seed@.len() ==> nul_free(#[trigger] seed@[j].name@),
            work_nul_free(work@),
        decreases seed.len(),
    {
        let c = seed.pop().unwrap();
        let ghost w0 = work@;
        let item = WorkItem { prefix: String::new(), entry: c };
        let ghost gitem = item;
        work.push(item);
        proof {
            lemma_pending_push(w0, gitem);
            assert(item_pending(gitem) == entry_pending(Seq::<char>::empty(), gitem.entry));
            assert(pending_blobs(work@).add(batch_pending(Seq::empty(), seed@)) =~= root_ms);
            assert(work_nul_free(work@)) by {
                assert forall|j: int|
                    0 <= j < work@.len() implies nul_free(#[trigger] work@[j].prefix@) && nul_free(
                    work@[j].entry.name@,
                ) by {
                    if j < w0.len() {
                        assert(work@[j] == w0[j]);
                    } else {
                        assert(work@[j] == gitem);
                    }
                }
            }
        }
    }
    let mut out: Vec<FileRecord> = Vec::new();
    proof {
        assert(pending_blobs(work@).add(batch_pending(Seq::empty(), seed@)) == root_ms);
        assert(emitted_blobs(out@).add(pending_blobs(work@)) =~= root_ms);
    }
    while work.len() > 0
        invariant
            nul_free(repo_root@),
            emitted_blobs(out@).add(pending_blobs(work@)) == root_ms,
            forall|i: int| 0 <= i < out@.len() ==> #[trigger] record_class_ok(out@[i]),
            work_nul_free(work@),
        decreases items_measure(work@),
    {
        let ghost m_start = items_measure(work@);
        let ghost w_pre = work@;
        let it = work.pop().unwrap();
        let ghost git_ = it;
        proof {
            assert(git_ == w_pre[w_pre.len() - 1]);
            assert(nul_free(git_.prefix@) && nul_free(git_.entry.name@)) by {
                assert(nul_free(w_pre[w_pre.len() - 1].prefix@));
            }
            assert(work_nul_free(work@)) by {
                assert forall|j: int|
                    0 <= j < work@.len() implies nul_free(#[trigger] work@[j].prefix@) && nul_free(
                    work@[j].entry.name@,
                ) by {
                    assert(work@[j] == w_pre[j]);
                }
            }
        }
        let WorkItem { prefix, entry } = it;
        let TreeEntryInfo { name, item } = entry;
        let full = join_path(prefix.as_str(), name.as_str());
        match item {
            TreeItem::Blob { size } => {
                let abs = join_path(repo_root, full.as_str());
                proof {
                    lemma_path_join_nul_free(git_.prefix@, git_.entry.name@);
                    lemma_path_join_nul_free(repo_root@, full@);
                }
                let mime = sniffer.mime_of(abs.as_str());
                let class = classify_file(full.as_str(), mime.as_str());
                let rec = FileRecord { path: full, size, class };
                let ghost grec = rec;
                let ghost out0 = out@;
                out.push(rec);
                proof {
                    lemma_emitted_push(out0, grec);
                    assert(item_pending(git_) == Multiset::empty().insert(
                        (grec.path@, grec.size as nat),
                    ));
                    assert(emitted_blobs(out@).add(pending_blobs(work@)) =~= root_ms);
                }
            },
            TreeItem::Subtree { id } => {
                let mut children = match tree_entries(repo, id.as_str()) {
                    Ok(es) => es,
                    Err(_) => {
                        return Err(RepoError::Tree);
                    },
                };
                let ghost c_all = children@;
                let ghost m_popped = items_measure(work@);
                proof {
                    lemma_batch_is_prefixed_entries(full@, c_all);
                    assert(item_pending(git_) == batch_pending(full@, c_all));
                    assert(m_popped + entry_measure(git_.entry) == m_start);
                    lemma_path_join_nul_free(git_.prefix@, git_.entry.name@);
                }
                while children.len() > 0
                    invariant
                        nul_free(full@),
                        emitted_blobs(out@).add(pending_blobs(work@)).add(
                            batch_pending(full@, children@),
                        ) == root_ms,
                        items_measure(work@) + entries_measure(children@) == m_popped
                            + entries_measure(c_all),
                        forall|i: int| 0 <= i < out@.len() ==> #[trigger] record_class_ok(out@[i]),
                        forall|j: int| 0 <= j < children@.len() ==> nul_free(
                            #[trigger] children@[j].name@,
                        ),
                        work_nul_free(work@),
                    decreases children.len(),
                {
                    let c = children.pop().unwrap();
                    let ghost w0 = work@;
                    let item_ = WorkItem { prefix: full.clone(), entry: c };
                    let ghost gitem = item_;
                    work.push(item_);
                    proof {
                        lemma_pending_push(w0, gitem);
                        assert(item_pending(gitem) == entry_pending(full@, gitem.entry));
                        assert(emitted_blobs(out@).add(pending_blobs(work@)).add(
                            batch_pending(full@, children@),
                        ) =~= root_ms);
                        assert(work_nul_free(work@)) by {
                            assert forall|j: int|
                                0 <= j < work@.len() implies nul_free(
                                #[trigger] work@[j].prefix@,
                            ) && nul_free(work@[j].entry.name@) by {
                                if j < w0.len() {
                                    assert(work@[j] == w0[j]);
                                } else {
                                    assert(work@[j] == gitem);
                                }
                            }
                        }
                    }
                }
                proof {
                    assert(batch_pending(full@, children@) =~= Multiset::<(
                        Seq<char>,
                        nat,
                    )>::empty());
                    assert(emitted_blobs(out@).add(pending_blobs(work@)) =~= root_ms);
                    assert(entries_measure(c_all) <= tree_weight(id@));
                    assert(items_measure(work@) < m_start);
                }
            },
            TreeItem::Other => {
                proof {
                    assert(item_pending(git_) =~= Multiset::<(Seq<char>, nat)>::empty());
                    assert(emitted_blobs(out@).add(pending_blobs(work@)) =~= root_ms);
                }
            },
        }
    }
    proof {
        assert(emitted_blobs(out@) =~= root_ms);
    }
    Ok(out)
}

/// Walk the current snapshot — the tree of the commit `HEAD` refers to —
/// and classify every blob in it.
pub fn snapshot_records(repo: &git2::Repository, repo_root: &str) -> (r: Result<
    Vec<FileRecord>,
    RepoError,
>)
    requires
        nul_free(repo_root@),
    ensures
        r matches Ok(rs) ==> exists|tid: Seq<char>|
            emitted_blobs(rs@) == tree_blobs(tid).to_multiset(),
        r matches Ok(rs) ==> forall|i: int|
            0 <= i < rs@.len() ==> #[trigger] record_class_ok(rs@[i]),
{
    let tid = match head_tree_id(repo) {
        Ok(t) => t,
        Err(_) => {
            return Err(RepoError::Head);
        },
    };
    match tree_snapshot_records(repo, repo_root, tid.as_str()) {
        Ok(rs) => {
            proof {
                assert(emitted_blobs(rs@) == tree_blobs(tid@).to_multiset());
            }
            Ok(rs)
        },
        Err(e) => Err(e),
    }
}

} // verus!
