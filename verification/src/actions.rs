//! The mutations of one run, as data.
//!
//! Nothing here touches a filesystem.  Each action computes the new
//! destination tree and returns the operations, in execution order, that
//! carry a real destination from the old tree to the new one.  Directory
//! creations come shallow-first (listing order), removals of directories
//! deepest-first (reverse listing order), and files are removed before the
//! directories that held them.

use vstd::prelude::*;

use crate::paths::PathKey;
use crate::paths::RelPath;
use crate::paths::contains_key;
use crate::paths::keys_of;
use crate::sync::SyncData;
use crate::tree::FileEntry;
use crate::tree::FileModel;
use crate::tree::TreeModel;
use crate::tree::TreeView;

verus! {

/// One filesystem operation of a plan, named by the root-relative path it
/// touches.  Copies and replacements always go from the source tree to the
/// destination tree at the same relative path.
pub enum SyncOp {
    /// Create this directory under the destination.
    CreateDir(RelPath),
    /// Copy the source file to the destination, which lacks it.
    CopyFile(RelPath),
    /// Remove the destination file and copy the source file over it.
    ReplaceFile(RelPath),
    /// Remove this destination file.
    RemoveFile(RelPath),
    /// Remove this destination directory, by then empty.
    RemoveDir(RelPath),
}

/// The mathematical value of a `SyncOp`.
pub enum OpView {
    CreateDir(PathKey),
    CopyFile(PathKey),
    ReplaceFile(PathKey),
    RemoveFile(PathKey),
    RemoveDir(PathKey),
}

impl View for SyncOp {
    type V = OpView;

    open spec fn view(&self) -> OpView {
        match self {
            SyncOp::CreateDir(p) => OpView::CreateDir(p@),
            SyncOp::CopyFile(p) => OpView::CopyFile(p@),
            SyncOp::ReplaceFile(p) => OpView::ReplaceFile(p@),
            SyncOp::RemoveFile(p) => OpView::RemoveFile(p@),
            SyncOp::RemoveDir(p) => OpView::RemoveDir(p@),
        }
    }
}

/// The mathematical value of a plan.
pub open spec fn ops_of(plan: Seq<SyncOp>) -> Seq<OpView> {
    plan.map_values(|o: SyncOp| o@)
}

/// The source directories the destination knows nothing of, listing order.
pub open spec fn missing_dirs(src: TreeView, dest: TreeView) -> Seq<PathKey> {
    src.dirs.filter(|k: PathKey| !dest.has_path(k))
}

/// The source files the destination knows nothing of, listing order.
pub open spec fn missing_files(src: TreeView, dest: TreeView) -> Seq<FileModel> {
    src.files.filter(|f: FileModel| !dest.has_path(f.path))
}

/// The destination files the source also has, listing order.
pub open spec fn kept_files(src: TreeView, dest: TreeView) -> Seq<FileModel> {
    dest.files.filter(|f: FileModel| src.has_file(f.path))
}

/// The destination files the source lacks, listing order.
pub open spec fn extra_files(src: TreeView, dest: TreeView) -> Seq<FileModel> {
    dest.files.filter(|f: FileModel| !src.has_file(f.path))
}

/// The destination directories the source also has, listing order.
pub open spec fn kept_dirs(src: TreeView, dest: TreeView) -> Seq<PathKey> {
    dest.dirs.filter(|k: PathKey| src.has_dir(k))
}

/// The destination directories the source lacks, listing order.
pub open spec fn extra_dirs(src: TreeView, dest: TreeView) -> Seq<PathKey> {
    dest.dirs.filter(|k: PathKey| !src.has_dir(k))
}

/// The operations that copy the missing part of the source across:
/// directory creations shallow-first, then file copies, listing order.
pub open spec fn copy_ops(src: TreeView, dest: TreeView) -> Seq<OpView> {
    missing_dirs(src, dest).map_values(|k: PathKey| OpView::CreateDir(k)) + missing_files(
        src,
        dest,
    ).map_values(|f: FileModel| OpView::CopyFile(f.path))
}

/// The operations that replace the destination copy of every listed path
/// the source has a file for, in list order.
pub open spec fn replace_ops(names: Seq<PathKey>, src: TreeView) -> Seq<OpView> {
    names.filter(|k: PathKey| src.has_file(k)).map_values(|k: PathKey| OpView::ReplaceFile(k))
}

/// The operations that drop what the source does not have: extraneous file
/// removals in listing order, then extraneous directories deepest-first.
pub open spec fn prune_ops(src: TreeView, dest: TreeView) -> Seq<OpView> {
    extra_files(src, dest).map_values(|f: FileModel| OpView::RemoveFile(f.path)) + extra_dirs(
        src,
        dest,
    ).reverse().map_values(|k: PathKey| OpView::RemoveDir(k))
}

/// The operations that empty the destination: every file in listing order,
/// then every directory deepest-first.
pub open spec fn delete_ops(dest: TreeView) -> Seq<OpView> {
    dest.files.map_values(|f: FileModel| OpView::RemoveFile(f.path)) + dest.dirs.reverse()
        .map_values(|k: PathKey| OpView::RemoveDir(k))
}

/// How an update leaves the destination: every file whose path is listed
/// and present in the source carries the source's time and bytes, every
/// other entry stays as it was, order and directories untouched.
pub open spec fn updated_files_post(
    names: Seq<PathKey>,
    src: TreeView,
    old_dest: TreeView,
    new_dest: TreeView,
) -> bool {
    &&& new_dest.dirs == old_dest.dirs
    &&& new_dest.files.len() == old_dest.files.len()
    &&& forall|i: int|
        0 <= i < old_dest.files.len() ==> #[trigger] new_dest.files[i] == (if names.contains(
            old_dest.files[i].path,
        ) && src.has_file(old_dest.files[i].path) {
            src.file_at(old_dest.files[i].path)
        } else {
            old_dest.files[i]
        })
}

/// A filter of a duplicate-free key sequence is duplicate-free.
proof fn lemma_filter_no_dup_keys(s: Seq<PathKey>, cl: spec_fn(PathKey) -> bool)
    requires
        s.no_duplicates(),
    ensures
        s.filter(cl).no_duplicates(),
    decreases s.len(),
{
    reveal(Seq::filter);
    if s.len() > 0 {
        let rest = s.drop_last();
        assert(rest.no_duplicates());
        lemma_filter_no_dup_keys(rest, cl);
        if cl(s.last()) {
            assert(s.filter(cl) == rest.filter(cl).push(s.last()));
            assert forall|i: int| 0 <= i < rest.filter(cl).len() implies rest.filter(cl)[i]
                != s.last() by {
                assert(rest.filter(cl).contains(rest.filter(cl)[i]));
                rest.lemma_filter_contains_rev(cl, rest.filter(cl)[i]);
                let j = choose|j: int| 0 <= j < rest.len() && rest[j] == rest.filter(cl)[i];
                assert(s[j] != s.last());
            }
        }
    }
}

/// A filter of a file list with duplicate-free keys has duplicate-free keys.
proof fn lemma_filter_no_dup_file_keys(s: Seq<FileModel>, cl: spec_fn(FileModel) -> bool)
    requires
        s.map_values(|f: FileModel| f.path).no_duplicates(),
    ensures
        s.filter(cl).map_values(|f: FileModel| f.path).no_duplicates(),
    decreases s.len(),
{
    reveal(Seq::filter);
    let keys = |t: Seq<FileModel>| t.map_values(|f: FileModel| f.path);
    if s.len() > 0 {
        let rest = s.drop_last();
        assert(keys(rest).no_duplicates()) by {
            assert(forall|i: int| 0 <= i < rest.len() ==> #[trigger] keys(rest)[i] == keys(s)[i]);
        }
        lemma_filter_no_dup_file_keys(rest, cl);
        if cl(s.last()) {
            assert(s.filter(cl) == rest.filter(cl).push(s.last()));
            assert(keys(s.filter(cl)) =~= keys(rest.filter(cl)).push(s.last().path));
            assert forall|i: int| 0 <= i < rest.filter(cl).len() implies rest.filter(cl)[i].path
                != s.last().path by {
                assert(rest.filter(cl).contains(rest.filter(cl)[i]));
                rest.lemma_filter_contains_rev(cl, rest.filter(cl)[i]);
                let j = choose|j: int| 0 <= j < rest.len() && rest[j] == rest.filter(cl)[i];
                assert(keys(s)[j] != keys(s)[s.len() - 1]);
            }
            assert forall|a: int, b: int|
                0 <= a < keys(s.filter(cl)).len() && 0 <= b < keys(s.filter(cl)).len() && a
                != b implies #[trigger] keys(s.filter(cl))[a] != #[trigger] keys(
                s.filter(cl),
            )[b] by {
                assert(keys(rest.filter(cl)).no_duplicates());
            }
        } else {
            assert(s.filter(cl) == rest.filter(cl));
        }
    }
}

impl SyncData {
    /// Creates under the destination every directory the source has and the
    /// destination lacks, then copies every such file; an entry whose path
    /// the destination already knows is left untouched.
    pub fn copy_src_to_dest(&self, src: &TreeModel, dest: &mut TreeModel) -> (plan: Vec<SyncOp>)
        requires
            src@.wf(),
            old(dest)@.wf(),
        ensures
            final(dest)@.dirs == old(dest)@.dirs + missing_dirs(src@, old(dest)@),
            final(dest)@.files == old(dest)@.files + missing_files(src@, old(dest)@),
            final(dest)@.wf(),
            ops_of(plan@) == copy_ops(src@, old(dest)@),
    {
        broadcast use Seq::lemma_push_map_commute;

        let ghost dv = dest@;
        let mut plan: Vec<SyncOp> = Vec::new();
        let mut new_dirs: Vec<RelPath> = Vec::new();
        let mut i: usize = 0;
        while i < src.dirs.len()
            invariant
                src@.wf(),
                dv.wf(),
                dest@ == dv,
                i <= src.dirs.len(),
                keys_of(new_dirs@) =~= src@.dirs.take(i as int).filter(
                    |k: PathKey| !dv.has_path(k),
                ),
                ops_of(plan@) =~= keys_of(new_dirs@).map_values(|k: PathKey| OpView::CreateDir(k)),
            decreases src.dirs.len() - i,
        {
            let ghost cl = |k: PathKey| !dv.has_path(k);
            let ghost prefix = src@.dirs.take(i as int);
            proof {
                prefix.lemma_filter_push(src@.dirs[i as int], cl);
                assert(src@.dirs.take(i as int + 1) =~= prefix.push(src@.dirs[i as int]));
            }
            if !dest.contains_path(&src.dirs[i]) {
                let ghost nk = keys_of(new_dirs@);
                let ghost np = ops_of(plan@);
                new_dirs.push(src.dirs[i].clone());
                plan.push(SyncOp::CreateDir(src.dirs[i].clone()));
                proof {
                    assert(keys_of(new_dirs@) =~= nk.push(src@.dirs[i as int]));
                    assert(ops_of(plan@) =~= np.push(OpView::CreateDir(src@.dirs[i as int])));
                    assert(nk.push(src@.dirs[i as int]).map_values(
                        |k: PathKey| OpView::CreateDir(k),
                    ) =~= nk.map_values(|k: PathKey| OpView::CreateDir(k)).push(
                        OpView::CreateDir(src@.dirs[i as int]),
                    ));
                }
            }
            i += 1;
        }
        proof {
            assert(src@.dirs.take(src@.dirs.len() as int) =~= src@.dirs);
        }
        let mut new_files: Vec<FileEntry> = Vec::new();
        let mut j: usize = 0;
        while j < src.files.len()
            invariant
                src@.wf(),
                dv.wf(),
                dest@ == dv,
                j <= src.files.len(),
                keys_of(new_dirs@) =~= missing_dirs(src@, dv),
                ops_of(plan@) =~= missing_dirs(src@, dv).map_values(
                    |k: PathKey| OpView::CreateDir(k),
                ) + src@.files.take(j as int).filter(|f: FileModel| !dv.has_path(f.path)).map_values(
                    |f: FileModel| OpView::CopyFile(f.path),
                ),
                new_files@.map_values(|f: FileEntry| f@) =~= src@.files.take(
                    j as int,
                ).filter(|f: FileModel| !dv.has_path(f.path)),
            decreases src.files.len() - j,
        {
            let ghost cl = |f: FileModel| !dv.has_path(f.path);
            let ghost prefix = src@.files.take(j as int);
            proof {
                prefix.lemma_filter_push(src@.files[j as int], cl);
                assert(src@.files.take(j as int + 1) =~= prefix.push(src@.files[j as int]));
            }
            if !dest.contains_path(&src.files[j].path) {
                let ghost nf = new_files@.map_values(|f: FileEntry| f@);
                let ghost np = ops_of(plan@);
                new_files.push(src.files[j].clone());
                plan.push(SyncOp::CopyFile(src.files[j].path.clone()));
                proof {
                    assert(new_files@.map_values(|f: FileEntry| f@) =~= nf.push(
                        src@.files[j as int],
                    ));
                    assert(ops_of(plan@) =~= np.push(OpView::CopyFile(src@.files[j as int].path)));
                    assert(prefix.filter(cl).push(src@.files[j as int]).map_values(
                        |f: FileModel| OpView::CopyFile(f.path),
                    ) =~= prefix.filter(cl).map_values(
                        |f: FileModel| OpView::CopyFile(f.path),
                    ).push(OpView::CopyFile(src@.files[j as int].path)));
                }
            }
            j += 1;
        }
        proof {
            assert(src@.files.take(src@.files.len() as int) =~= src@.files);
        }
        let ghost added_dirs = missing_dirs(src@, dv);
        let ghost added_files = missing_files(src@, dv);
        dest.dirs.append(&mut new_dirs);
        dest.files.append(&mut new_files);
        proof {
            assert(dest@.dirs =~= dv.dirs + added_dirs);
            assert(dest@.files =~= dv.files + added_files);
            lemma_filter_no_dup_keys(src@.dirs, |k: PathKey| !dv.has_path(k));
            lemma_filter_no_dup_file_keys(src@.files, |f: FileModel| !dv.has_path(f.path));
            assert forall|b: int| 0 <= b < added_dirs.len() implies !dv.has_path(
                added_dirs[b],
            ) by {
                src@.dirs.lemma_filter_pred(|k: PathKey| !dv.has_path(k), b);
            }
            assert forall|a: int, b: int|
                0 <= a < dv.dirs.len() && 0 <= b < added_dirs.len() implies dv.dirs[a]
                != added_dirs[b] by {
                if dv.dirs[a] == added_dirs[b] {
                    assert(dv.has_dir(added_dirs[b]));
                }
            }
            vstd::seq_lib::lemma_no_dup_in_concat(dv.dirs, added_dirs);
            let added_keys = added_files.map_values(|f: FileModel| f.path);
            assert(dest@.file_keys() =~= dv.file_keys() + added_keys);
            assert forall|b: int| 0 <= b < added_files.len() implies !dv.has_path(
                added_files[b].path,
            ) by {
                src@.files.lemma_filter_pred(|f: FileModel| !dv.has_path(f.path), b);
            }
            assert forall|a: int, b: int|
                0 <= a < dv.file_keys().len() && 0 <= b < added_keys.len() implies dv.file_keys()[a]
                != added_keys[b] by {
                if dv.file_keys()[a] == added_keys[b] {
                    assert(dv.has_file(added_files[b].path));
                }
            }
            vstd::seq_lib::lemma_no_dup_in_concat(dv.file_keys(), added_keys);
            assert(dest@.wf());
        }
        plan
    }

    /// For every listed path that names a source file, removes the
    /// destination copy and copies the source version over it.  The
    /// destination keeps its listing order; every other entry stays as it
    /// was.
    pub fn update_dest_file(
        &self,
        file_names: &Vec<RelPath>,
        src: &TreeModel,
        dest: &mut TreeModel,
    ) -> (plan: Vec<SyncOp>)
        requires
            src@.wf(),
            old(dest)@.wf(),
            forall|a: int|
                0 <= a < keys_of(file_names@).len() && src@.has_file(
                    #[trigger] keys_of(file_names@)[a],
                ) ==> old(dest)@.has_file(keys_of(file_names@)[a]),
        ensures
            updated_files_post(keys_of(file_names@), src@, old(dest)@, final(dest)@),
            final(dest)@.wf(),
            ops_of(plan@) == replace_ops(keys_of(file_names@), src@),
    {
        let ghost dv = dest@;
        let ghost names = keys_of(file_names@);
        let mut plan: Vec<SyncOp> = Vec::new();
        let mut a: usize = 0;
        while a < file_names.len()
            invariant
                a <= file_names.len(),
                names == keys_of(file_names@),
                ops_of(plan@) =~= names.take(a as int).filter(
                    |k: PathKey| src@.has_file(k),
                ).map_values(|k: PathKey| OpView::ReplaceFile(k)),
            decreases file_names.len() - a,
        {
            let ghost cl = |k: PathKey| src@.has_file(k);
            let ghost prefix = names.take(a as int);
            proof {
                prefix.lemma_filter_push(names[a as int], cl);
                assert(names.take(a as int + 1) =~= prefix.push(names[a as int]));
            }
            if src.contains_file(&file_names[a]) {
                let ghost np = ops_of(plan@);
                plan.push(SyncOp::ReplaceFile(file_names[a].clone()));
                proof {
                    assert(ops_of(plan@) =~= np.push(OpView::ReplaceFile(names[a as int])));
                    assert(prefix.filter(cl).push(names[a as int]).map_values(
                        |k: PathKey| OpView::ReplaceFile(k),
                    ) =~= prefix.filter(cl).map_values(|k: PathKey| OpView::ReplaceFile(k)).push(
                        OpView::ReplaceFile(names[a as int]),
                    ));
                }
            }
            a += 1;
        }
        proof {
            assert(names.take(names.len() as int) =~= names);
        }
        let mut new_files: Vec<FileEntry> = Vec::new();
        let mut i: usize = 0;
        while i < dest.files.len()
            invariant
                src@.wf(),
                dv.wf(),
                dest@ == dv,
                names == keys_of(file_names@),
                i <= dest.files.len(),
                new_files@.len() == i,
                forall|t: int|
                    0 <= t < i ==> (#[trigger] new_files@[t])@ == (if names.contains(
                        dv.files[t].path,
                    ) && src@.has_file(dv.files[t].path) {
                        src@.file_at(dv.files[t].path)
                    } else {
                        dv.files[t]
                    }),
                forall|t: int| 0 <= t < i ==> (#[trigger] new_files@[t])@.path == dv.files[t].path,
            decreases dest.files.len() - i,
        {
            let hit = contains_key(file_names, &dest.files[i].path);
            let mut replaced = false;
            if hit {
                match src.find_file(&dest.files[i].path) {
                    Some(si) => {
                        proof {
                            src@.lemma_file_at(si as int);
                        }
                        new_files.push(src.files[si].clone());
                        replaced = true;
                    },
                    None => {},
                }
            }
            if !replaced {
                let copy = dest.files[i].clone();
                new_files.push(copy);
            }
            i += 1;
        }
        dest.files = new_files;
        proof {
            assert(dest@.files == dest.files@.map_values(|f: FileEntry| f@));
            assert forall|t: int| 0 <= t < dv.files.len() implies #[trigger] dest@.file_keys()[t]
                == dv.file_keys()[t] by {
                assert(dest@.files[t].path == dv.files[t].path);
            }
            assert(dest@.file_keys() =~= dv.file_keys());
            assert(dest@.wf());
        }
        plan
    }

    /// Removes from the destination every file and directory the source
    /// does not have: all extraneous files first, in listing order, then the
    /// extraneous directories deepest-first.
    pub fn remove_dest_file(&self, src: &TreeModel, dest: &mut TreeModel) -> (plan: Vec<SyncOp>)
        requires
            src@.wf(),
            old(dest)@.wf(),
        ensures
            final(dest)@.dirs == kept_dirs(src@, old(dest)@),
            final(dest)@.files == kept_files(src@, old(dest)@),
            final(dest)@.wf(),
            ops_of(plan@) == prune_ops(src@, old(dest)@),
    {
        let ghost dv = dest@;
        let mut plan: Vec<SyncOp> = Vec::new();
        let mut kept: Vec<FileEntry> = Vec::new();
        let mut i: usize = 0;
        while i < dest.files.len()
            invariant
                src@.wf(),
                dv.wf(),
                dest@ == dv,
                i <= dest.files.len(),
                kept@.map_values(|f: FileEntry| f@) =~= dv.files.take(i as int).filter(
                    |f: FileModel| src@.has_file(f.path),
                ),
                ops_of(plan@) =~= dv.files.take(i as int).filter(
                    |f: FileModel| !src@.has_file(f.path),
                ).map_values(|f: FileModel| OpView::RemoveFile(f.path)),
            decreases dest.files.len() - i,
        {
            let ghost keep_cl = |f: FileModel| src@.has_file(f.path);
            let ghost drop_cl = |f: FileModel| !src@.has_file(f.path);
            let ghost prefix = dv.files.take(i as int);
            proof {
                prefix.lemma_filter_push(dv.files[i as int], keep_cl);
                prefix.lemma_filter_push(dv.files[i as int], drop_cl);
                assert(dv.files.take(i as int + 1) =~= prefix.push(dv.files[i as int]));
            }
            if src.contains_file(&dest.files[i].path) {
                let ghost kv = kept@.map_values(|f: FileEntry| f@);
                let copy = dest.files[i].clone();
                kept.push(copy);
                proof {
                    assert(kept@.map_values(|f: FileEntry| f@) =~= kv.push(dv.files[i as int]));
                }
            } else {
                let ghost np = ops_of(plan@);
                plan.push(SyncOp::RemoveFile(dest.files[i].path.clone()));
                proof {
                    assert(ops_of(plan@) =~= np.push(OpView::RemoveFile(dv.files[i as int].path)));
                    assert(prefix.filter(drop_cl).push(dv.files[i as int]).map_values(
                        |f: FileModel| OpView::RemoveFile(f.path),
                    ) =~= prefix.filter(drop_cl).map_values(
                        |f: FileModel| OpView::RemoveFile(f.path),
                    ).push(OpView::RemoveFile(dv.files[i as int].path)));
                }
            }
            i += 1;
        }
        proof {
            assert(dv.files.take(dv.files.len() as int) =~= dv.files);
        }
        let mut kept_dir_list: Vec<RelPath> = Vec::new();
        let mut extra_dir_list: Vec<RelPath> = Vec::new();
        let mut j: usize = 0;
        while j < dest.dirs.len()
            invariant
                src@.wf(),
                dv.wf(),
                dest@ == dv,
                j <= dest.dirs.len(),
                keys_of(kept_dir_list@) =~= dv.dirs.take(j as int).filter(
                    |k: PathKey| src@.has_dir(k),
                ),
                keys_of(extra_dir_list@) =~= dv.dirs.take(j as int).filter(
                    |k: PathKey| !src@.has_dir(k),
                ),
            decreases dest.dirs.len() - j,
        {
            let ghost keep_cl = |k: PathKey| src@.has_dir(k);
            let ghost drop_cl = |k: PathKey| !src@.has_dir(k);
            let ghost prefix = dv.dirs.take(j as int);
            proof {
                prefix.lemma_filter_push(dv.dirs[j as int], keep_cl);
                prefix.lemma_filter_push(dv.dirs[j as int], drop_cl);
                assert(dv.dirs.take(j as int + 1) =~= prefix.push(dv.dirs[j as int]));
            }
            if src.contains_dir(&dest.dirs[j]) {
                let ghost kv = keys_of(kept_dir_list@);
                kept_dir_list.push(dest.dirs[j].clone());
                proof {
                    assert(keys_of(kept_dir_list@) =~= kv.push(dv.dirs[j as int]));
                }
            } else {
                let ghost ev = keys_of(extra_dir_list@);
                extra_dir_list.push(dest.dirs[j].clone());
                proof {
                    assert(keys_of(extra_dir_list@) =~= ev.push(dv.dirs[j as int]));
                }
            }
            j += 1;
        }
        proof {
            assert(dv.dirs.take(dv.dirs.len() as int) =~= dv.dirs);
        }
        let ghost file_ops = extra_files(src@, dv).map_values(
            |f: FileModel| OpView::RemoveFile(f.path),
        );
        let ghost extras = extra_dirs(src@, dv);
        let mut t: usize = 0;
        while t < extra_dir_list.len()
            invariant
                t <= extra_dir_list.len(),
                keys_of(extra_dir_list@) == extras,
                ops_of(plan@) =~= file_ops + extras.reverse().take(t as int).map_values(
                    |k: PathKey| OpView::RemoveDir(k),
                ),
            decreases extra_dir_list.len() - t,
        {
            let pick = extra_dir_list.len() - 1 - t;
            let ghost np = ops_of(plan@);
            let ghost rv = extras.reverse().take(t as int).map_values(
                |k: PathKey| OpView::RemoveDir(k),
            );
            plan.push(SyncOp::RemoveDir(extra_dir_list[pick].clone()));
            proof {
                assert(extras.reverse()[t as int] == extras[pick as int]);
                assert(ops_of(plan@) =~= np.push(OpView::RemoveDir(extras[pick as int])));
                assert(extras.reverse().take(t as int + 1) =~= extras.reverse().take(
                    t as int,
                ).push(extras.reverse()[t as int]));
                assert(extras.reverse().take(t as int + 1).map_values(
                    |k: PathKey| OpView::RemoveDir(k),
                ) =~= rv.push(OpView::RemoveDir(extras[pick as int])));
                assert(ops_of(plan@) =~= file_ops + extras.reverse().take(t as int + 1).map_values(
                    |k: PathKey| OpView::RemoveDir(k),
                ));
            }
            t += 1;
        }
        dest.files = kept;
        dest.dirs = kept_dir_list;
        proof {
            assert(extras.reverse().take(extras.len() as int) =~= extras.reverse());
            assert(dest@.files =~= kept_files(src@, dv));
            assert(dest@.dirs =~= kept_dirs(src@, dv));
            lemma_filter_no_dup_keys(dv.dirs, |k: PathKey| src@.has_dir(k));
            lemma_filter_no_dup_file_keys(dv.files, |f: FileModel| src@.has_file(f.path));
            assert(dest@.file_keys() =~= kept_files(src@, dv).map_values(|f: FileModel| f.path));
            assert(dest@.wf());
        }
        plan
    }

    /// Removes every destination file, then every destination directory in
    /// reverse listing order, and reports whether anything was there to
    /// remove.
    pub fn remove_all_dest_files(&self, dest: &mut TreeModel) -> (r: (Vec<SyncOp>, bool))
        ensures
            final(dest)@.is_empty(),
            r.1 == !old(dest)@.is_empty(),
            ops_of(r.0@) == delete_ops(old(dest)@),
    {
        let ghost dv = dest@;
        let mut plan: Vec<SyncOp> = Vec::new();
        let mut i: usize = 0;
        while i < dest.files.len()
            invariant
                dest@ == dv,
                i <= dest.files.len(),
                ops_of(plan@) =~= dv.files.take(i as int).map_values(
                    |f: FileModel| OpView::RemoveFile(f.path),
                ),
            decreases dest.files.len() - i,
        {
            let ghost np = ops_of(plan@);
            plan.push(SyncOp::RemoveFile(dest.files[i].path.clone()));
            proof {
                assert(ops_of(plan@) =~= np.push(OpView::RemoveFile(dv.files[i as int].path)));
                assert(dv.files.take(i as int + 1) =~= dv.files.take(i as int).push(
                    dv.files[i as int],
                ));
                assert(dv.files.take(i as int + 1).map_values(
                    |f: FileModel| OpView::RemoveFile(f.path),
                ) =~= dv.files.take(i as int).map_values(
                    |f: FileModel| OpView::RemoveFile(f.path),
                ).push(OpView::RemoveFile(dv.files[i as int].path)));
            }
            i += 1;
        }
        proof {
            assert(dv.files.take(dv.files.len() as int) =~= dv.files);
        }
        let ghost file_ops = dv.files.map_values(|f: FileModel| OpView::RemoveFile(f.path));
        let mut t: usize = 0;
        while t < dest.dirs.len()
            invariant
                dest@ == dv,
                t <= dest.dirs.len(),
                ops_of(plan@) =~= file_ops + dv.dirs.reverse().take(t as int).map_values(
                    |k: PathKey| OpView::RemoveDir(k),
                ),
            decreases dest.dirs.len() - t,
        {
            let pick = dest.dirs.len() - 1 - t;
            let ghost np = ops_of(plan@);
            let ghost rv = dv.dirs.reverse().take(t as int).map_values(
                |k: PathKey| OpView::RemoveDir(k),
            );
            plan.push(SyncOp::RemoveDir(dest.dirs[pick].clone()));
            proof {
                assert(dv.dirs.reverse()[t as int] == dv.dirs[pick as int]);
                assert(ops_of(plan@) =~= np.push(OpView::RemoveDir(dv.dirs[pick as int])));
                assert(dv.dirs.reverse().take(t as int + 1) =~= dv.dirs.reverse().take(
                    t as int,
                ).push(dv.dirs.reverse()[t as int]));
                assert(dv.dirs.reverse().take(t as int + 1).map_values(
                    |k: PathKey| OpView::RemoveDir(k),
                ) =~= rv.push(OpView::RemoveDir(dv.dirs[pick as int])));
            }
            t += 1;
        }
        let removed = dest.files.len() > 0 || dest.dirs.len() > 0;
        dest.files = Vec::new();
        dest.dirs = Vec::new();
        proof {
            assert(dv.dirs.reverse().take(dv.dirs.len() as int) =~= dv.dirs.reverse());
            assert(dest@.files =~= Seq::<FileModel>::empty());
            assert(dest@.dirs =~= Seq::<PathKey>::empty());
        }
        (plan, removed)
    }
}

} // verus!
