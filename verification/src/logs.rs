//! The data behind the verbose report.
//!
//! A verbose run performs the same mutation as a plain apply, but first
//! gathers the full listing of both trees and, afterwards, the set of paths
//! the plan touches.  The filter helpers below bring raw listings into the
//! reported form: directories relative to their root, files by bare name.

use vstd::prelude::*;

use crate::actions::OpView;
use crate::actions::SyncOp;
use crate::actions::ops_of;
use crate::paths::PathKey;
use crate::paths::RelPath;
use crate::paths::keys_of;
use crate::paths::take_strip;

verus! {

/// The listings a verbose run reports: both trees in full, and the paths
/// the plan touched.
pub struct LogData {
    /// Directory keys under the source root, listing order.
    pub src_dirs: Vec<RelPath>,
    /// Directory keys under the destination root, before the mutation.
    pub dest_dirs: Vec<RelPath>,
    /// File keys under the source root, listing order.
    pub src_files: Vec<RelPath>,
    /// File keys under the destination root, before the mutation.
    pub dest_files: Vec<RelPath>,
    /// The paths the plan touches, in plan order.
    pub affected: Vec<RelPath>,
}

/// The path an operation touches.
pub open spec fn op_path(o: OpView) -> PathKey {
    match o {
        OpView::CreateDir(k) => k,
        OpView::CopyFile(k) => k,
        OpView::ReplaceFile(k) => k,
        OpView::RemoveFile(k) => k,
        OpView::RemoveDir(k) => k,
    }
}

/// The paths a plan touches, in plan order.
pub fn plan_paths(plan: &Vec<SyncOp>) -> (r: Vec<RelPath>)
    ensures
        keys_of(r@) == ops_of(plan@).map_values(|o: OpView| op_path(o)),
{
    let mut out: Vec<RelPath> = Vec::new();
    let mut i: usize = 0;
    while i < plan.len()
        invariant
            i <= plan.len(),
            keys_of(out@) =~= ops_of(plan@).take(i as int).map_values(|o: OpView| op_path(o)),
        decreases plan.len() - i,
    {
        let ghost before = keys_of(out@);
        let p = match &plan[i] {
            SyncOp::CreateDir(p) => p.clone(),
            SyncOp::CopyFile(p) => p.clone(),
            SyncOp::ReplaceFile(p) => p.clone(),
            SyncOp::RemoveFile(p) => p.clone(),
            SyncOp::RemoveDir(p) => p.clone(),
        };
        out.push(p);
        proof {
            assert(ops_of(plan@)[i as int] == plan@[i as int]@);
            assert(keys_of(out@) =~= before.push(op_path(ops_of(plan@)[i as int])));
            assert(ops_of(plan@).take(i as int + 1) =~= ops_of(plan@).take(i as int).push(
                ops_of(plan@)[i as int],
            ));
            assert(ops_of(plan@).take(i as int + 1).map_values(|o: OpView| op_path(o)) =~= ops_of(
                plan@,
            ).take(i as int).map_values(|o: OpView| op_path(o)).push(
                op_path(ops_of(plan@)[i as int]),
            ));
        }
        i += 1;
    }
    proof {
        assert(ops_of(plan@).take(ops_of(plan@).len() as int) =~= ops_of(plan@));
    }
    out
}

/// Root-relative directory keys: drops the root itself and strips the root
/// prefix from the rest.
pub fn filter_src_dir(src_dirs: &Vec<RelPath>, source: &RelPath) -> (r: Vec<RelPath>)
    requires
        forall|i: int|
            0 <= i < keys_of(src_dirs@).len() ==> (#[trigger] keys_of(src_dirs@)[i] == source@
                || source@.is_prefix_of(keys_of(src_dirs@)[i])),
    ensures
        keys_of(r@) == keys_of(src_dirs@).filter(|k: PathKey| k != source@).map_values(
            |k: PathKey| k.skip(source@.len() as int),
        ),
{
    let ghost ks = keys_of(src_dirs@);
    let mut out: Vec<RelPath> = Vec::new();
    let mut i: usize = 0;
    while i < src_dirs.len()
        invariant
            i <= src_dirs.len(),
            ks == keys_of(src_dirs@),
            forall|t: int|
                0 <= t < ks.len() ==> (#[trigger] ks[t] == source@ || source@.is_prefix_of(ks[t])),
            keys_of(out@) =~= ks.take(i as int).filter(|k: PathKey| k != source@).map_values(
                |k: PathKey| k.skip(source@.len() as int),
            ),
        decreases src_dirs.len() - i,
    {
        let ghost cl = |k: PathKey| k != source@;
        let ghost mv = |k: PathKey| k.skip(source@.len() as int);
        let ghost prefix = ks.take(i as int);
        proof {
            prefix.lemma_filter_push(ks[i as int], cl);
            assert(ks.take(i as int + 1) =~= prefix.push(ks[i as int]));
        }
        if !src_dirs[i].eq_path(source) {
            proof {
                assert(ks[i as int] == src_dirs@[i as int]@);
            }
            let ghost before = keys_of(out@);
            let stripped = take_strip(&src_dirs[i], source);
            out.push(stripped);
            proof {
                assert(keys_of(out@) =~= before.push(mv(ks[i as int])));
                assert(prefix.filter(cl).push(ks[i as int]).map_values(mv) =~= prefix.filter(
                    cl,
                ).map_values(mv).push(mv(ks[i as int])));
            }
        }
        i += 1;
    }
    proof {
        assert(ks.take(ks.len() as int) =~= ks);
    }
    out
}

/// Root-relative directory keys of the destination listing.
pub fn filter_dest_dir(dest_dirs: &Vec<RelPath>, destination: &RelPath) -> (r: Vec<RelPath>)
    requires
        forall|i: int|
            0 <= i < keys_of(dest_dirs@).len() ==> (#[trigger] keys_of(dest_dirs@)[i]
                == destination@ || destination@.is_prefix_of(keys_of(dest_dirs@)[i])),
    ensures
        keys_of(r@) == keys_of(dest_dirs@).filter(|k: PathKey| k != destination@).map_values(
            |k: PathKey| k.skip(destination@.len() as int),
        ),
{
    filter_src_dir(dest_dirs, destination)
}

/// The bare name of every listed file, in order.
pub fn filter_src_file(src_files: &Vec<RelPath>) -> (r: Vec<RelPath>)
    requires
        forall|i: int| 0 <= i < keys_of(src_files@).len() ==> #[trigger] keys_of(
            src_files@,
        )[i].len() > 0,
    ensures
        keys_of(r@) == keys_of(src_files@).map_values(|k: PathKey| seq![k.last()]),
{
    let ghost ks = keys_of(src_files@);
    let mut out: Vec<RelPath> = Vec::new();
    let mut i: usize = 0;
    while i < src_files.len()
        invariant
            i <= src_files.len(),
            ks == keys_of(src_files@),
            forall|t: int| 0 <= t < ks.len() ==> #[trigger] ks[t].len() > 0,
            keys_of(out@) =~= ks.take(i as int).map_values(|k: PathKey| seq![k.last()]),
        decreases src_files.len() - i,
    {
        let ghost mv = |k: PathKey| seq![k.last()];
        proof {
            assert(ks[i as int] == src_files@[i as int]@);
        }
        let ghost before = keys_of(out@);
        let name = src_files[i].base_name();
        let mut parts: Vec<String> = Vec::new();
        parts.push(name);
        let one = RelPath { parts };
        proof {
            assert(one@ =~= seq![ks[i as int].last()]);
        }
        out.push(one);
        proof {
            assert(keys_of(out@) =~= before.push(mv(ks[i as int])));
            assert(ks.take(i as int + 1) =~= ks.take(i as int).push(ks[i as int]));
            assert(ks.take(i as int + 1).map_values(mv) =~= ks.take(i as int).map_values(mv).push(
                mv(ks[i as int]),
            ));
        }
        i += 1;
    }
    proof {
        assert(ks.take(ks.len() as int) =~= ks);
    }
    out
}

/// The bare name of every listed destination file, in order.
pub fn filter_dest_file(dest_files: &Vec<RelPath>) -> (r: Vec<RelPath>)
    requires
        forall|i: int| 0 <= i < keys_of(dest_files@).len() ==> #[trigger] keys_of(
            dest_files@,
        )[i].len() > 0,
    ensures
        keys_of(r@) == keys_of(dest_files@).map_values(|k: PathKey| seq![k.last()]),
{
    filter_src_file(dest_files)
}

} // verus!
