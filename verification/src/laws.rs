//! Laws of the apply-changes action.
//!
//! These theorems hold of every run that satisfies the engine's contract:
//! a first sync into an empty destination reproduces the source exactly and
//! a second run over the result does nothing, and a shared file whose
//! timestamps drifted apart without a byte changing is never copied.

use vstd::prelude::*;

use crate::actions::OpView;
use crate::actions::copy_ops;
use crate::actions::extra_dirs;
use crate::actions::extra_files;
use crate::actions::kept_files;
use crate::actions::missing_dirs;
use crate::actions::missing_files;
use crate::actions::prune_ops;
use crate::actions::replace_ops;
use crate::paths::PathKey;
use crate::changes::dest_modified_files;
use crate::changes::dest_modified_pred;
use crate::changes::new_in_dest;
use crate::changes::new_in_src;
use crate::changes::paths_of;
use crate::changes::src_modified_files;
use crate::changes::src_modified_pred;
use crate::state::FileState;
use crate::state::changed_only_post;
use crate::state::classified_state;
use crate::tree::FileModel;
use crate::tree::TreeView;

verus! {

/// A filter that accepts every element changes nothing.
proof fn lemma_filter_all<A>(s: Seq<A>, cl: spec_fn(A) -> bool)
    requires
        forall|i: int| 0 <= i < s.len() ==> #[trigger] cl(s[i]),
    ensures
        s.filter(cl) == s,
    decreases s.len(),
{
    reveal(Seq::filter);
    if s.len() > 0 {
        let rest = s.drop_last();
        assert(forall|i: int| 0 <= i < rest.len() ==> #[trigger] cl(rest[i]));
        lemma_filter_all(rest, cl);
        assert(cl(s.last()));
        assert(rest.push(s.last()) =~= s);
    }
}

/// A filter that rejects every element leaves nothing.
proof fn lemma_filter_none<A>(s: Seq<A>, cl: spec_fn(A) -> bool)
    requires
        forall|i: int| 0 <= i < s.len() ==> !#[trigger] cl(s[i]),
    ensures
        s.filter(cl) == Seq::<A>::empty(),
    decreases s.len(),
{
    reveal(Seq::filter);
    if s.len() > 0 {
        let rest = s.drop_last();
        assert(forall|i: int| 0 <= i < rest.len() ==> !#[trigger] cl(rest[i]));
        lemma_filter_none(rest, cl);
        assert(!cl(s.last()));
    }
}

/// An apply-changes run into an empty destination reproduces the source
/// exactly: same directories, same files, same paths, times and bytes.
pub proof fn lemma_first_sync_fills_empty_destination(
    src: TreeView,
    old_dest: TreeView,
    new_dest: TreeView,
    plan: Seq<OpView>,
)
    requires
        old_dest.is_empty(),
        changed_only_post(src, old_dest, new_dest, plan),
    ensures
        new_dest.dirs == src.dirs,
        new_dest.files == src.files,
{
    assert forall|k: PathKey| !#[trigger] old_dest.has_path(k) by {
        assert(old_dest.dirs.len() == 0);
        assert(old_dest.file_keys().len() == 0);
    }
    if src.dirs.len() == 0 && src.files.len() == 0 {
        assert(!new_in_src(src, old_dest));
        assert(!new_in_dest(src, old_dest));
        lemma_filter_none(src.files, |f: FileModel| src_modified_pred(old_dest, f));
        lemma_filter_none(old_dest.files, |f: FileModel| dest_modified_pred(src, f));
        assert(classified_state(src, old_dest) == FileState::NoChange);
        assert(new_dest.dirs =~= src.dirs);
        assert(new_dest.files =~= src.files);
    } else {
        if src.dirs.len() > 0 {
            assert(!old_dest.has_path(src.dirs[0]));
        } else {
            assert(!old_dest.has_path(src.files[0].path));
        }
        assert(new_in_src(src, old_dest));
        assert(classified_state(src, old_dest) == FileState::SrcCreated);
        lemma_filter_all(src.dirs, |k: PathKey| !old_dest.has_path(k));
        lemma_filter_all(src.files, |f: FileModel| !old_dest.has_path(f.path));
        assert(missing_dirs(src, old_dest) == src.dirs);
        assert(missing_files(src, old_dest) == src.files);
        assert(new_dest.dirs =~= src.dirs);
        assert(new_dest.files =~= src.files);
    }
}

/// An apply-changes run over two trees that already agree is classified
/// `NoChange` and does nothing: the destination stays as it is and the plan
/// is empty.
pub proof fn lemma_sync_of_identical_trees_is_noop(
    src: TreeView,
    old_dest: TreeView,
    new_dest: TreeView,
    plan: Seq<OpView>,
)
    requires
        src.wf(),
        old_dest.dirs == src.dirs,
        old_dest.files == src.files,
        changed_only_post(src, old_dest, new_dest, plan),
    ensures
        classified_state(src, old_dest) == FileState::NoChange,
        new_dest.dirs == old_dest.dirs,
        new_dest.files == old_dest.files,
        plan == Seq::<OpView>::empty(),
{
    assert(old_dest.file_keys() =~= src.file_keys());
    assert(old_dest.wf());
    assert forall|i: int| 0 <= i < src.dirs.len() implies #[trigger] old_dest.has_path(
        src.dirs[i],
    ) by {
        assert(old_dest.dirs[i] == src.dirs[i]);
    }
    assert forall|i: int| 0 <= i < src.files.len() implies #[trigger] old_dest.has_path(
        src.files[i].path,
    ) by {
        assert(old_dest.file_keys()[i] == src.files[i].path);
    }
    assert forall|i: int| 0 <= i < old_dest.dirs.len() implies #[trigger] src.has_path(
        old_dest.dirs[i],
    ) by {
        assert(src.dirs[i] == old_dest.dirs[i]);
    }
    assert forall|i: int| 0 <= i < old_dest.files.len() implies #[trigger] src.has_path(
        old_dest.files[i].path,
    ) by {
        assert(src.file_keys()[i] == old_dest.files[i].path);
    }
    assert(!new_in_src(src, old_dest));
    assert(!new_in_dest(src, old_dest));
    assert forall|i: int| 0 <= i < src.files.len() implies !#[trigger] src_modified_pred(
        old_dest,
        src.files[i],
    ) by {
        let f = src.files[i];
        assert(old_dest.files[i] == f);
        old_dest.lemma_file_at(i);
        assert(old_dest.file_at(f.path) == f);
    }
    lemma_filter_none(src.files, |f: FileModel| src_modified_pred(old_dest, f));
    assert forall|i: int| 0 <= i < old_dest.files.len() implies !#[trigger] dest_modified_pred(
        src,
        old_dest.files[i],
    ) by {
        let f = old_dest.files[i];
        assert(src.files[i] == f);
        src.lemma_file_at(i);
        assert(src.file_at(f.path) == f);
    }
    lemma_filter_none(old_dest.files, |f: FileModel| dest_modified_pred(src, f));
    assert(classified_state(src, old_dest) == FileState::NoChange);
}

/// A destination file whose source copy is newer but byte-for-byte
/// identical is never copied: no operation of the plan copies or replaces
/// its path, and the destination still holds the entry unchanged.
pub proof fn lemma_no_spurious_churn(
    src: TreeView,
    old_dest: TreeView,
    new_dest: TreeView,
    plan: Seq<OpView>,
    i: int,
)
    requires
        src.wf(),
        old_dest.wf(),
        changed_only_post(src, old_dest, new_dest, plan),
        0 <= i < old_dest.files.len(),
        src.has_file(old_dest.files[i].path),
        src.file_at(old_dest.files[i].path).mtime > old_dest.files[i].mtime,
        src.file_at(old_dest.files[i].path).data == old_dest.files[i].data,
    ensures
        exists|j: int|
            0 <= j < new_dest.files.len() && new_dest.files[j] == old_dest.files[i],
        forall|t: int|
            0 <= t < plan.len() ==> #[trigger] plan[t] != OpView::CopyFile(
                old_dest.files[i].path,
            ) && plan[t] != OpView::ReplaceFile(old_dest.files[i].path),
{
    broadcast use vstd::seq_lib::group_filter_ensures;

    let k = old_dest.files[i].path;
    let e = old_dest.files[i];
    old_dest.lemma_file_at(i);
    assert(old_dest.has_file(k));
    src.lemma_has_file_at(k);
    let s = src.file_at(k);
    // Any source file with key `k` is `s`, and any destination file with
    // key `k` is `e`.
    assert forall|f: FileModel| src.files.contains(f) && f.path == k implies f == s by {
        let j = choose|j: int| 0 <= j < src.files.len() && src.files[j] == f;
        src.lemma_file_at(j);
    }
    assert forall|f: FileModel| old_dest.files.contains(f) && f.path == k implies f == e by {
        let j = choose|j: int| 0 <= j < old_dest.files.len() && old_dest.files[j] == f;
        old_dest.lemma_file_at(j);
    }
    match classified_state(src, old_dest) {
        FileState::SrcCreated => {
            let miss_cl = |f: FileModel| !old_dest.has_path(f.path);
            assert(new_dest.files[i] == e) by {
                assert(new_dest.files == old_dest.files + missing_files(src, old_dest));
            }
            assert forall|t: int|
                0 <= t < plan.len() implies #[trigger] plan[t] != OpView::CopyFile(k) && plan[t]
                != OpView::ReplaceFile(k) by {
                let dir_part = missing_dirs(src, old_dest).map_values(
                    |d: PathKey| OpView::CreateDir(d),
                );
                let file_part = missing_files(src, old_dest).map_values(
                    |f: FileModel| OpView::CopyFile(f.path),
                );
                assert(plan == copy_ops(src, old_dest));
                if t < dir_part.len() {
                    assert(plan[t] == dir_part[t]);
                } else {
                    let u = t - dir_part.len();
                    assert(plan[t] == file_part[u]);
                    assert(file_part[u] == OpView::CopyFile(missing_files(src, old_dest)[u].path));
                    src.files.lemma_filter_pred(miss_cl, u);
                    assert(!old_dest.has_path(missing_files(src, old_dest)[u].path));
                }
            }
        },
        FileState::SrcModified => {
            let names = paths_of(src_modified_files(src, old_dest));
            let mod_cl = |f: FileModel| src_modified_pred(old_dest, f);
            assert(!names.contains(k)) by {
                if names.contains(k) {
                    let t = choose|t: int| 0 <= t < names.len() && names[t] == k;
                    assert(src_modified_files(src, old_dest)[t].path == k);
                    assert(src_modified_files(src, old_dest).contains(
                        src_modified_files(src, old_dest)[t],
                    ));
                    src.files.lemma_filter_contains_rev(
                        mod_cl,
                        src_modified_files(src, old_dest)[t],
                    );
                    assert(src.files.contains(src_modified_files(src, old_dest)[t]));
                    assert(src_modified_files(src, old_dest)[t] == s);
                    src.files.lemma_filter_pred(mod_cl, t);
                    assert(src_modified_pred(old_dest, s));
                    assert(old_dest.file_at(k) == e);
                    assert(false);
                }
            }
            assert(new_dest.files[i] == e);
            lemma_no_replace_of_unlisted(names, src, plan, k);
        },
        FileState::DestCreated => {
            let keep_cl = |f: FileModel| src.has_file(f.path);
            assert(kept_files(src, old_dest).contains(e)) by {
                assert(keep_cl(old_dest.files[i]));
                old_dest.files.lemma_filter_contains(keep_cl, i);
            }
            assert(new_dest.files == kept_files(src, old_dest));
            let j = choose|j: int|
                0 <= j < kept_files(src, old_dest).len() && kept_files(src, old_dest)[j] == e;
            assert(new_dest.files[j] == e);
            assert forall|t: int|
                0 <= t < plan.len() implies #[trigger] plan[t] != OpView::CopyFile(k) && plan[t]
                != OpView::ReplaceFile(k) by {
                let file_part = extra_files(src, old_dest).map_values(
                    |f: FileModel| OpView::RemoveFile(f.path),
                );
                let dir_part = extra_dirs(src, old_dest).reverse().map_values(
                    |d: PathKey| OpView::RemoveDir(d),
                );
                assert(plan == prune_ops(src, old_dest));
                if t < file_part.len() {
                    assert(plan[t] == file_part[t]);
                } else {
                    assert(plan[t] == dir_part[t - file_part.len()]);
                }
            }
        },
        FileState::DestModified => {
            let names = paths_of(dest_modified_files(src, old_dest));
            let mod_cl = |f: FileModel| dest_modified_pred(src, f);
            assert(!names.contains(k)) by {
                if names.contains(k) {
                    let t = choose|t: int| 0 <= t < names.len() && names[t] == k;
                    assert(dest_modified_files(src, old_dest)[t].path == k);
                    assert(dest_modified_files(src, old_dest).contains(
                        dest_modified_files(src, old_dest)[t],
                    ));
                    old_dest.files.lemma_filter_contains_rev(
                        mod_cl,
                        dest_modified_files(src, old_dest)[t],
                    );
                    assert(dest_modified_files(src, old_dest)[t] == e);
                    old_dest.files.lemma_filter_pred(mod_cl, t);
                    assert(dest_modified_pred(src, e));
                    assert(src.file_at(k) == s);
                    assert(false);
                }
            }
            assert(new_dest.files[i] == e);
            lemma_no_replace_of_unlisted(names, src, plan, k);
        },
        FileState::NoChange => {
            assert(new_dest.files[i] == e);
        },
    }
}

/// If `k` is not among the listed names, a replacement plan for those
/// names holds no operation on `k`.
proof fn lemma_no_replace_of_unlisted(
    names: Seq<PathKey>,
    src: TreeView,
    plan: Seq<OpView>,
    k: PathKey,
)
    requires
        !names.contains(k),
        plan == replace_ops(names, src),
    ensures
        forall|t: int|
            0 <= t < plan.len() ==> #[trigger] plan[t] != OpView::CopyFile(k) && plan[t]
                != OpView::ReplaceFile(k),
{
    broadcast use vstd::seq_lib::group_filter_ensures;

    let has_cl = |n: PathKey| src.has_file(n);
    assert forall|t: int|
        0 <= t < plan.len() implies #[trigger] plan[t] != OpView::CopyFile(k) && plan[t]
        != OpView::ReplaceFile(k) by {
        assert(plan[t] == OpView::ReplaceFile(names.filter(has_cl)[t]));
        assert(names.filter(has_cl).contains(names.filter(has_cl)[t]));
        names.lemma_filter_contains_rev(has_cl, names.filter(has_cl)[t]);
        assert(names.filter(has_cl)[t] != k);
    }
}

/// The first property in full: one apply-changes run into an empty
/// destination reproduces the source, and a second run over the result is a
/// no-op with an empty plan.
pub proof fn lemma_apply_changes_idempotent(
    src: TreeView,
    empty_dest: TreeView,
    first: TreeView,
    first_plan: Seq<OpView>,
    second: TreeView,
    second_plan: Seq<OpView>,
)
    requires
        src.wf(),
        empty_dest.is_empty(),
        changed_only_post(src, empty_dest, first, first_plan),
        changed_only_post(src, first, second, second_plan),
    ensures
        first.dirs == src.dirs,
        first.files == src.files,
        second.dirs == first.dirs,
        second.files == first.files,
        second_plan == Seq::<OpView>::empty(),
{
    lemma_first_sync_fills_empty_destination(src, empty_dest, first, first_plan);
    lemma_sync_of_identical_trees_is_noop(src, first, second, second_plan);
}

} // verus!
