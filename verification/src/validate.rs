//! Pre-flight checks: roots, flag selection, identity uniqueness.
//!
//! All three run before any mutation; a failure aborts the run with the
//! destination untouched.

use vstd::prelude::*;

use crate::paths::RelPath;
use crate::paths::keys_of;
use crate::sync::SyncData;
use crate::tree::FileEntry;
use crate::tree::TreeModel;

verus! {

/// What a caller's probe of one root path reported.
#[derive(Clone, Copy, PartialEq, Eq, Structural, Debug)]
pub struct DirStatus {
    /// The path names something on disk.
    pub exists: bool,
    /// The path names a directory.
    pub is_dir: bool,
}

impl SyncData {
    /// Both roots exist, are directories, and have non-empty path strings.
    pub open spec fn roots_present(self, src_status: DirStatus, dest_status: DirStatus) -> bool {
        &&& src_status.exists
        &&& src_status.is_dir
        &&& self.source@.len() > 0
        &&& dest_status.exists
        &&& dest_status.is_dir
        &&& self.destination@.len() > 0
    }

    /// Checks that both roots are usable directories, given what the caller
    /// probed about each path.
    pub fn src_dest_dir_present(&self, src_status: &DirStatus, dest_status: &DirStatus) -> (r:
        bool)
        ensures
            r == self.roots_present(*src_status, *dest_status),
    {
        if !src_status.exists || !dest_status.exists {
            return false;
        }
        if !src_status.is_dir || !dest_status.is_dir {
            return false;
        }
        !self.source.as_str().is_empty() && !self.destination.as_str().is_empty()
    }

    /// Exactly one of the four action flags is set.
    pub fn single_command_selected(&self) -> (r: bool)
        ensures
            r == (self.flags_selected() == 1),
    {
        let mut count: u32 = 0;
        if self.changed_only {
            count += 1;
        }
        if self.delete {
            count += 1;
        }
        if self.dry_run {
            count += 1;
        }
        if self.verbose {
            count += 1;
        }
        count == 1
    }

    /// The identity keys of every entry under the source root: the
    /// directory keys and the file keys, in listing order.
    pub fn get_file_names(&self, src: &TreeModel) -> (r: (Vec<RelPath>, Vec<RelPath>))
        ensures
            keys_of(r.0@) == src@.dirs,
            keys_of(r.1@) == src@.file_keys(),
    {
        let mut dir_list: Vec<RelPath> = Vec::new();
        let mut i: usize = 0;
        while i < src.dirs.len()
            invariant
                i <= src.dirs.len(),
                keys_of(dir_list@) =~= src@.dirs.take(i as int),
            decreases src.dirs.len() - i,
        {
            let ghost before = keys_of(dir_list@);
            dir_list.push(src.dirs[i].clone());
            proof {
                assert(keys_of(dir_list@) =~= before.push(src@.dirs[i as int]));
                assert(keys_of(dir_list@) =~= src@.dirs.take(i as int + 1));
            }
            i += 1;
        }
        let mut file_list: Vec<RelPath> = Vec::new();
        let mut j: usize = 0;
        while j < src.files.len()
            invariant
                j <= src.files.len(),
                keys_of(dir_list@) =~= src@.dirs,
                keys_of(file_list@) =~= src@.file_keys().take(j as int),
            decreases src.files.len() - j,
        {
            let ghost before = keys_of(file_list@);
            file_list.push(src.files[j].path.clone());
            proof {
                assert(src@.file_keys()[j as int] == src@.files[j as int].path);
                assert(keys_of(file_list@) =~= before.push(src@.file_keys()[j as int]));
                assert(keys_of(file_list@) =~= src@.file_keys().take(j as int + 1));
            }
            j += 1;
        }
        proof {
            assert(src@.dirs.take(src@.dirs.len() as int) =~= src@.dirs);
            assert(src@.file_keys().take(src@.file_keys().len() as int) =~= src@.file_keys());
        }
        (dir_list, file_list)
    }

    /// Whether any identity key repeats under the source root.
    pub fn has_duplicates(&self, src: &TreeModel) -> (r: bool)
        ensures
            r == !src@.wf(),
    {
        !src.identities_unique()
    }
}

} // verus!
