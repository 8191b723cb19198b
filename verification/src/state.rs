//! Classification of one run.
//!
//! The four "anything there?" signals of the change detector collapse into
//! one state per invocation, in the fixed priority order source-created,
//! source-modified, destination-created, destination-modified, no change.
//! Only the winning category is acted on; the rest wait for a later run.

use vstd::prelude::*;

use crate::actions::OpView;
use crate::actions::copy_ops;
use crate::actions::kept_dirs;
use crate::actions::kept_files;
use crate::actions::missing_dirs;
use crate::actions::missing_files;
use crate::actions::prune_ops;
use crate::actions::replace_ops;
use crate::actions::updated_files_post;
use crate::changes::dest_modified_files;
use crate::changes::new_in_dest;
use crate::changes::new_in_src;
use crate::changes::paths_of;
use crate::changes::src_modified_files;
use crate::paths::RelPath;
use crate::sync::SyncData;
use crate::tree::TreeModel;
use crate::tree::TreeView;

verus! {

/// The one classification that drives an invocation.
#[derive(Clone, Copy, PartialEq, Eq, Structural, Debug)]
pub enum FileState {
    /// Something was created under the source.
    SrcCreated,
    /// Source files were modified.
    SrcModified,
    /// Something was created under the destination.
    DestCreated,
    /// Destination files were modified.
    DestModified,
    /// The trees agree.
    NoChange,
}

/// The action mode chosen for an invocation.
#[derive(Clone, Copy, PartialEq, Eq, Structural, Debug)]
pub enum FileAction {
    /// Propagate the winning change category to the destination.
    ChangedOnly,
    /// As `ChangedOnly`, with detailed logs.
    Verbose,
    /// Report the decision without touching anything.
    DryRun,
    /// Remove everything under the destination.
    Delete,
}

/// The state of the pair of trees, in priority order.
pub open spec fn classified_state(src: TreeView, dest: TreeView) -> FileState {
    if new_in_src(src, dest) {
        FileState::SrcCreated
    } else if src_modified_files(src, dest).len() > 0 {
        FileState::SrcModified
    } else if new_in_dest(src, dest) {
        FileState::DestCreated
    } else if dest_modified_files(src, dest).len() > 0 {
        FileState::DestModified
    } else {
        FileState::NoChange
    }
}

/// What one apply-changes run does to the destination tree, by winning
/// state: it fills in what the source created, carries modifications over,
/// prunes what only the destination has, and otherwise leaves the tree as
/// it was.  `plan` is the operations performed, in execution order.
pub open spec fn changed_only_post(
    src: TreeView,
    old_dest: TreeView,
    new_dest: TreeView,
    plan: Seq<OpView>,
) -> bool {
    match classified_state(src, old_dest) {
        FileState::SrcCreated => {
            &&& new_dest.dirs == old_dest.dirs + missing_dirs(src, old_dest)
            &&& new_dest.files == old_dest.files + missing_files(src, old_dest)
            &&& plan == copy_ops(src, old_dest)
        },
        FileState::SrcModified => {
            &&& updated_files_post(
                paths_of(src_modified_files(src, old_dest)),
                src,
                old_dest,
                new_dest,
            )
            &&& plan == replace_ops(paths_of(src_modified_files(src, old_dest)), src)
        },
        FileState::DestCreated => {
            &&& new_dest.dirs == kept_dirs(src, old_dest)
            &&& new_dest.files == kept_files(src, old_dest)
            &&& plan == prune_ops(src, old_dest)
        },
        FileState::DestModified => {
            &&& updated_files_post(
                paths_of(dest_modified_files(src, old_dest)),
                src,
                old_dest,
                new_dest,
            )
            &&& plan == replace_ops(paths_of(dest_modified_files(src, old_dest)), src)
        },
        FileState::NoChange => {
            &&& new_dest.dirs == old_dest.dirs
            &&& new_dest.files == old_dest.files
            &&& plan == Seq::<OpView>::empty()
        },
    }
}

impl SyncData {
    /// The action mode the flags select, `Verbose` when none is set.
    pub open spec fn selected_action(self) -> FileAction {
        if self.changed_only {
            FileAction::ChangedOnly
        } else if self.verbose {
            FileAction::Verbose
        } else if self.dry_run {
            FileAction::DryRun
        } else if self.delete {
            FileAction::Delete
        } else {
            FileAction::Verbose
        }
    }

    /// Picks the action mode from the flags.
    pub fn to_action(&self) -> (r: FileAction)
        ensures
            r == self.selected_action(),
    {
        if self.changed_only {
            FileAction::ChangedOnly
        } else if self.verbose {
            FileAction::Verbose
        } else if self.dry_run {
            FileAction::DryRun
        } else if self.delete {
            FileAction::Delete
        } else {
            FileAction::Verbose
        }
    }

    /// Collapses the four change signals into one state, first hit wins.
    pub fn to_state(&self, condition: &[bool; 4]) -> (r: FileState)
        ensures
            r == (if condition[0] {
                FileState::SrcCreated
            } else if condition[1] {
                FileState::SrcModified
            } else if condition[2] {
                FileState::DestCreated
            } else if condition[3] {
                FileState::DestModified
            } else {
                FileState::NoChange
            }),
    {
        if condition[0] {
            FileState::SrcCreated
        } else if condition[1] {
            FileState::SrcModified
        } else if condition[2] {
            FileState::DestCreated
        } else if condition[3] {
            FileState::DestModified
        } else {
            FileState::NoChange
        }
    }

    /// Runs the whole detection once: the modified-file lists of both sides
    /// and the winning state.
    pub fn file_status(&self, src: &TreeModel, dest: &TreeModel) -> (r: (
        Vec<RelPath>,
        Vec<RelPath>,
        FileState,
    ))
        requires
            src@.wf(),
            dest@.wf(),
        ensures
            r.0@.map_values(|p: RelPath| p@) == paths_of(src_modified_files(src@, dest@)),
            r.1@.map_values(|p: RelPath| p@) == paths_of(dest_modified_files(src@, dest@)),
            r.2 == classified_state(src@, dest@),
    {
        let src_created = self.src_file_created(src, dest);
        let (modified_src_file, src_modified) = self.src_file_modified(src, dest);
        let dest_created = self.dest_file_created(src, dest);
        let (modified_dest_file, dest_modified) = self.dest_file_modified(src, dest);
        let condition: [bool; 4] = [src_created, src_modified, dest_created, dest_modified];
        let state = self.to_state(&condition);
        (modified_src_file, modified_dest_file, state)
    }
}

} // verus!
