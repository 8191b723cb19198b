//! Change detection between the two trees.
//!
//! An entry present on only one side counts as created there.  A file
//! present on both sides counts as modified on the side with the strictly
//! newer timestamp, but only when the bytes differ too: timestamp drift
//! alone is not modification, and equal timestamps are left alone whatever
//! the bytes say.

use vstd::prelude::*;

use crate::paths::PathKey;
use crate::paths::RelPath;
use crate::sync::SyncData;
use crate::tree::FileModel;
use crate::tree::TreeModel;
use crate::tree::TreeView;

verus! {

/// Whether the source holds any entry, directory or file, that the
/// destination lacks.
pub open spec fn new_in_src(src: TreeView, dest: TreeView) -> bool {
    ||| exists|i: int| 0 <= i < src.dirs.len() && !dest.has_path(src.dirs[i])
    ||| exists|i: int| 0 <= i < src.files.len() && !dest.has_path(src.files[i].path)
}

/// Whether the destination holds any entry that the source lacks.
pub open spec fn new_in_dest(src: TreeView, dest: TreeView) -> bool {
    ||| exists|i: int| 0 <= i < dest.dirs.len() && !src.has_path(dest.dirs[i])
    ||| exists|i: int| 0 <= i < dest.files.len() && !src.has_path(dest.files[i].path)
}

/// Whether the source file `f` counts as modified against the destination:
/// the destination has the file, the source copy is strictly newer, and the
/// bytes differ.
pub open spec fn src_modified_pred(dest: TreeView, f: FileModel) -> bool {
    &&& dest.has_file(f.path)
    &&& f.mtime > dest.file_at(f.path).mtime
    &&& f.data != dest.file_at(f.path).data
}

/// The source files that count as modified, in listing order.
pub open spec fn src_modified_files(src: TreeView, dest: TreeView) -> Seq<FileModel> {
    src.files.filter(|f: FileModel| src_modified_pred(dest, f))
}

/// Whether the destination file `f` counts as modified against the source.
pub open spec fn dest_modified_pred(src: TreeView, f: FileModel) -> bool {
    &&& src.has_file(f.path)
    &&& f.mtime > src.file_at(f.path).mtime
    &&& f.data != src.file_at(f.path).data
}

/// The destination files that count as modified, in listing order.
pub open spec fn dest_modified_files(src: TreeView, dest: TreeView) -> Seq<FileModel> {
    dest.files.filter(|f: FileModel| dest_modified_pred(src, f))
}

/// The identity keys of a modified-file list.
pub open spec fn paths_of(files: Seq<FileModel>) -> Seq<PathKey> {
    files.map_values(|f: FileModel| f.path)
}

impl SyncData {
    /// Whether anything was created under the source that the destination
    /// does not know yet.
    pub fn src_file_created(&self, src: &TreeModel, dest: &TreeModel) -> (r: bool)
        ensures
            r == new_in_src(src@, dest@),
    {
        let mut i: usize = 0;
        while i < src.dirs.len()
            invariant
                i <= src.dirs.len(),
                forall|j: int| 0 <= j < i ==> dest@.has_path(src@.dirs[j]),
            decreases src.dirs.len() - i,
        {
            if !dest.contains_path(&src.dirs[i]) {
                proof {
                    assert(!dest@.has_path(src@.dirs[i as int]));
                }
                return true;
            }
            i += 1;
        }
        let mut i: usize = 0;
        while i < src.files.len()
            invariant
                i <= src.files.len(),
                forall|j: int| 0 <= j < src@.dirs.len() ==> dest@.has_path(src@.dirs[j]),
                forall|j: int| 0 <= j < i ==> dest@.has_path(src@.files[j].path),
            decreases src.files.len() - i,
        {
            if !dest.contains_path(&src.files[i].path) {
                proof {
                    assert(!dest@.has_path(src@.files[i as int].path));
                }
                return true;
            }
            i += 1;
        }
        false
    }

    /// Whether anything was created under the destination that the source
    /// does not know.
    pub fn dest_file_created(&self, src: &TreeModel, dest: &TreeModel) -> (r: bool)
        ensures
            r == new_in_dest(src@, dest@),
    {
        let mut i: usize = 0;
        while i < dest.dirs.len()
            invariant
                i <= dest.dirs.len(),
                forall|j: int| 0 <= j < i ==> src@.has_path(dest@.dirs[j]),
            decreases dest.dirs.len() - i,
        {
            if !src.contains_path(&dest.dirs[i]) {
                proof {
                    assert(!src@.has_path(dest@.dirs[i as int]));
                }
                return true;
            }
            i += 1;
        }
        let mut i: usize = 0;
        while i < dest.files.len()
            invariant
                i <= dest.files.len(),
                forall|j: int| 0 <= j < dest@.dirs.len() ==> src@.has_path(dest@.dirs[j]),
                forall|j: int| 0 <= j < i ==> src@.has_path(dest@.files[j].path),
            decreases dest.files.len() - i,
        {
            if !src.contains_path(&dest.files[i].path) {
                proof {
                    assert(!src@.has_path(dest@.files[i as int].path));
                }
                return true;
            }
            i += 1;
        }
        false
    }

    /// The source files that are newer than their destination copy and hold
    /// different bytes, with a flag that says whether there is any.
    pub fn src_file_modified(&self, src: &TreeModel, dest: &TreeModel) -> (r: (
        Vec<RelPath>,
        bool,
    ))
        requires
            dest@.wf(),
        ensures
            r.0@.map_values(|p: RelPath| p@) == paths_of(src_modified_files(src@, dest@)),
            r.1 <==> src_modified_files(src@, dest@).len() > 0,
    {
        broadcast use Seq::lemma_filter_push;
        broadcast use Seq::lemma_push_map_commute;
        broadcast use vstd::seq_lib::group_filter_ensures;

        let mut out: Vec<RelPath> = Vec::new();
        let mut i: usize = 0;
        while i < src.files.len()
            invariant
                dest@.wf(),
                i <= src.files.len(),
                out@.map_values(|p: RelPath| p@) =~= paths_of(
                    src@.files.take(i as int).filter(|f: FileModel| src_modified_pred(dest@, f)),
                ),
            decreases src.files.len() - i,
        {
            let entry = &src.files[i];
            let mut hit = false;
            match dest.find_file(&entry.path) {
                Some(j) => {
                    proof {
                        dest@.lemma_file_at(j as int);
                    }
                    if entry.mtime > dest.files[j].mtime {
                        if !self.files_are_equal(&entry.data, &dest.files[j].data) {
                            hit = true;
                        }
                    }
                },
                None => {},
            }
            proof {
                assert(hit == src_modified_pred(dest@, src@.files[i as int]));
                assert(src@.files.take(i as int + 1) =~= src@.files.take(i as int).push(
                    src@.files[i as int],
                ));
            }
            let ghost before = out@.map_values(|p: RelPath| p@);
            if hit {
                out.push(entry.path.clone());
                proof {
                    assert(out@.map_values(|p: RelPath| p@) =~= before.push(
                        src@.files[i as int].path,
                    ));
                }
            }
            proof {
                let cl = |f: FileModel| src_modified_pred(dest@, f);
                let fi = src@.files[i as int];
                let prefix = src@.files.take(i as int);
                prefix.lemma_filter_push(fi, cl);
                assert(prefix.push(fi).filter(cl) == if cl(fi) {
                    prefix.filter(cl).push(fi)
                } else {
                    prefix.filter(cl)
                });
                if hit {
                    assert(prefix.filter(cl).push(fi).map_values(|f: FileModel| f.path)
                        =~= paths_of(prefix.filter(cl)).push(fi.path));
                }
                assert(out@.map_values(|p: RelPath| p@) =~= paths_of(
                    src@.files.take(i as int + 1).filter(cl),
                ));
            }
            i += 1;
        }
        proof {
            assert(src@.files.take(src@.files.len() as int) =~= src@.files);
            assert(out@.map_values(|p: RelPath| p@) =~= paths_of(src_modified_files(src@, dest@)));
        }
        let any = out.len() > 0;
        (out, any)
    }

    /// The destination files that are newer than their source copy and hold
    /// different bytes, with a flag that says whether there is any.
    pub fn dest_file_modified(&self, src: &TreeModel, dest: &TreeModel) -> (r: (
        Vec<RelPath>,
        bool,
    ))
        requires
            src@.wf(),
        ensures
            r.0@.map_values(|p: RelPath| p@) == paths_of(dest_modified_files(src@, dest@)),
            r.1 <==> dest_modified_files(src@, dest@).len() > 0,
    {
        broadcast use Seq::lemma_filter_push;
        broadcast use Seq::lemma_push_map_commute;
        broadcast use vstd::seq_lib::group_filter_ensures;

        let mut out: Vec<RelPath> = Vec::new();
        let mut i: usize = 0;
        while i < dest.files.len()
            invariant
                src@.wf(),
                i <= dest.files.len(),
                out@.map_values(|p: RelPath| p@) =~= paths_of(
                    dest@.files.take(i as int).filter(|f: FileModel| dest_modified_pred(src@, f)),
                ),
            decreases dest.files.len() - i,
        {
            let entry = &dest.files[i];
            let mut hit = false;
            match src.find_file(&entry.path) {
                Some(j) => {
                    proof {
                        src@.lemma_file_at(j as int);
                    }
                    if entry.mtime > src.files[j].mtime {
                        if !self.files_are_equal(&entry.data, &src.files[j].data) {
                            hit = true;
                        }
                    }
                },
                None => {},
            }
            proof {
                assert(hit == dest_modified_pred(src@, dest@.files[i as int]));
                assert(dest@.files.take(i as int + 1) =~= dest@.files.take(i as int).push(
                    dest@.files[i as int],
                ));
            }
            let ghost before = out@.map_values(|p: RelPath| p@);
            if hit {
                out.push(entry.path.clone());
                proof {
                    assert(out@.map_values(|p: RelPath| p@) =~= before.push(
                        dest@.files[i as int].path,
                    ));
                }
            }
            proof {
                let cl = |f: FileModel| dest_modified_pred(src@, f);
                let fi = dest@.files[i as int];
                let prefix = dest@.files.take(i as int);
                prefix.lemma_filter_push(fi, cl);
                assert(prefix.push(fi).filter(cl) == if cl(fi) {
                    prefix.filter(cl).push(fi)
                } else {
                    prefix.filter(cl)
                });
                if hit {
                    assert(prefix.filter(cl).push(fi).map_values(|f: FileModel| f.path)
                        =~= paths_of(prefix.filter(cl)).push(fi.path));
                }
                assert(out@.map_values(|p: RelPath| p@) =~= paths_of(
                    dest@.files.take(i as int + 1).filter(cl),
                ));
            }
            i += 1;
        }
        proof {
            assert(dest@.files.take(dest@.files.len() as int) =~= dest@.files);
            assert(out@.map_values(|p: RelPath| p@) =~= paths_of(
                dest_modified_files(src@, dest@),
            ));
        }
        let any = out.len() > 0;
        (out, any)
    }
}

} // verus!
