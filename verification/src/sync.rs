//! The sync engine: validation, classification, and one action per run.
//!
//! `sync_output` is the whole invocation: it validates the configuration,
//! classifies the pair of trees into one state, performs the selected
//! action on the destination model, and returns the outcome together with
//! the operations a caller must run against the real destination.  A
//! validation failure returns an error before anything is touched.

use vstd::prelude::*;

use crate::actions::OpView;
use crate::actions::SyncOp;

use crate::actions::delete_ops;
use crate::actions::ops_of;
use crate::changes::dest_modified_files;
use crate::changes::dest_modified_pred;
use crate::changes::paths_of;
use crate::changes::src_modified_files;
use crate::changes::src_modified_pred;
use crate::logs::LogData;
use crate::logs::op_path;
use crate::logs::plan_paths;
use crate::paths::RelPath;
use crate::paths::keys_of;
use crate::state::FileAction;
use crate::state::FileState;
use crate::state::changed_only_post;
use crate::state::classified_state;
use crate::tree::FileModel;
use crate::tree::TreeModel;
use crate::tree::TreeView;
use crate::validate::DirStatus;

verus! {

/// Configuration of one sync run: the two root paths as the caller wrote
/// them, and the four mutually exclusive action flags.
pub struct SyncData {
    /// Path of the source root.
    pub source: String,
    /// Path of the destination root.
    pub destination: String,
    /// Copy only the changed files.
    pub changed_only: bool,
    /// Remove every destination file.
    pub delete: bool,
    /// Report what would happen without touching anything.
    pub dry_run: bool,
    /// Act as `changed_only` does, with detailed logs.
    pub verbose: bool,
}

/// Why a run was refused before any mutation.
#[derive(Clone, Copy, PartialEq, Eq, Structural, Debug)]
pub enum SyncError {
    /// A root is missing, not a directory, or written as an empty path.
    MissingDirs,
    /// Zero or several of the four action flags are set.
    BadActionSelection,
    /// An identity key repeats inside one of the trees.
    DuplicateIdentity,
}

/// What a completed run did.
pub enum SyncOutcome {
    /// One apply-changes run: the winning state and the operations done.
    Applied {
        /// The winning classification.
        state: FileState,
        /// The operations performed, in order.
        plan: Vec<SyncOp>,
    },
    /// As `Applied`, with the listings a verbose run reports.
    Logged {
        /// The winning classification.
        state: FileState,
        /// The operations performed, in order.
        plan: Vec<SyncOp>,
        /// Both trees before the mutation, and the paths touched.
        log: LogData,
    },
    /// A dry run: the decision and its announcement, nothing done.
    Planned {
        /// The winning classification.
        state: FileState,
        /// The line a dry run reports for that state.
        message: String,
    },
    /// A delete-all run: what was removed.
    Deleted {
        /// Whether anything was there to remove.
        removed: bool,
        /// The operations performed, in order.
        plan: Vec<SyncOp>,
    },
}

/// Both trees as they were: nothing changed.
pub open spec fn tree_unchanged(old_dest: TreeView, new_dest: TreeView) -> bool {
    new_dest.dirs == old_dest.dirs && new_dest.files == old_dest.files
}

/// The line a dry run prints for each state.
pub open spec fn dry_run_text(state: FileState) -> Seq<char> {
    match state {
        FileState::SrcCreated => "[DRY RUN]: will copy the source file(s) to destination"@,
        FileState::SrcModified => "[DRY RUN]: will update the destination file(s)"@,
        FileState::DestCreated => "[DRY RUN]: will prevent the creation of destination file(s)"@,
        FileState::DestModified => "[DRY RUN]: will overwrite the destination file(s) with source file(s)"@,
        FileState::NoChange => "[DRY RUN]: will give the 'no changes detected' message"@,
    }
}

/// The announcement of a dry run for `state`.
pub fn dry_run_message(state: FileState) -> (r: String)
    ensures
        r@ == dry_run_text(state),
{
    match state {
        FileState::SrcCreated => String::from_str(
            "[DRY RUN]: will copy the source file(s) to destination",
        ),
        FileState::SrcModified => String::from_str(
            "[DRY RUN]: will update the destination file(s)",
        ),
        FileState::DestCreated => String::from_str(
            "[DRY RUN]: will prevent the creation of destination file(s)",
        ),
        FileState::DestModified => String::from_str(
            "[DRY RUN]: will overwrite the destination file(s) with source file(s)",
        ),
        FileState::NoChange => String::from_str(
            "[DRY RUN]: will give the 'no changes detected' message",
        ),
    }
}

/// The line each refusal prints.
pub open spec fn error_text(e: SyncError) -> Seq<char> {
    match e {
        SyncError::MissingDirs => "[ERROR]: missing source or destination directories"@,
        SyncError::BadActionSelection => "[ERROR]: no or multiple option(s) are selected"@,
        SyncError::DuplicateIdentity => "[ERROR]: duplicate files and directories are not allowed"@,
    }
}

impl SyncError {
    /// The line this refusal prints.
    pub fn message(&self) -> (r: String)
        ensures
            r@ == error_text(*self),
    {
        match self {
            SyncError::MissingDirs => String::from_str(
                "[ERROR]: missing source or destination directories",
            ),
            SyncError::BadActionSelection => String::from_str(
                "[ERROR]: no or multiple option(s) are selected",
            ),
            SyncError::DuplicateIdentity => String::from_str(
                "[ERROR]: duplicate files and directories are not allowed",
            ),
        }
    }
}

/// What a verbose run's log holds: both trees as they were before the
/// mutation, and the paths the plan touches, in plan order.
pub open spec fn log_post(log: LogData, src: TreeView, old_dest: TreeView, plan: Seq<
    OpView,
>) -> bool {
    &&& keys_of(log.src_dirs@) == src.dirs
    &&& keys_of(log.src_files@) == src.file_keys()
    &&& keys_of(log.dest_dirs@) == old_dest.dirs
    &&& keys_of(log.dest_files@) == old_dest.file_keys()
    &&& keys_of(log.affected@) == plan.map_values(|o: OpView| op_path(o))
}

/// The whole contract of one run: which refusal comes on which
/// configuration, and, when the run goes ahead, how the destination tree
/// and the returned plan relate to the inputs for every action mode.
pub open spec fn sync_post(
    data: SyncData,
    src_status: DirStatus,
    dest_status: DirStatus,
    src: TreeView,
    old_dest: TreeView,
    new_dest: TreeView,
    r: Result<SyncOutcome, SyncError>,
) -> bool {
    if !data.roots_present(src_status, dest_status) {
        &&& r == Err::<SyncOutcome, SyncError>(SyncError::MissingDirs)
        &&& tree_unchanged(old_dest, new_dest)
    } else if data.flags_selected() != 1 {
        &&& r == Err::<SyncOutcome, SyncError>(SyncError::BadActionSelection)
        &&& tree_unchanged(old_dest, new_dest)
    } else if !src.wf() || !old_dest.wf() {
        &&& r == Err::<SyncOutcome, SyncError>(SyncError::DuplicateIdentity)
        &&& tree_unchanged(old_dest, new_dest)
    } else {
        match r {
            Ok(outcome) => match data.selected_action() {
                FileAction::ChangedOnly => match outcome {
                    SyncOutcome::Applied { state, plan } => {
                        &&& state == classified_state(src, old_dest)
                        &&& changed_only_post(src, old_dest, new_dest, ops_of(plan@))
                    },
                    _ => false,
                },
                FileAction::Verbose => match outcome {
                    SyncOutcome::Logged { state, plan, log } => {
                        &&& state == classified_state(src, old_dest)
                        &&& changed_only_post(src, old_dest, new_dest, ops_of(plan@))
                        &&& log_post(log, src, old_dest, ops_of(plan@))
                    },
                    _ => false,
                },
                FileAction::DryRun => match outcome {
                    SyncOutcome::Planned { state, message } => {
                        &&& state == classified_state(src, old_dest)
                        &&& message@ == dry_run_text(state)
                        &&& tree_unchanged(old_dest, new_dest)
                    },
                    _ => false,
                },
                FileAction::Delete => match outcome {
                    SyncOutcome::Deleted { removed, plan } => {
                        &&& new_dest.is_empty()
                        &&& removed == !old_dest.is_empty()
                        &&& ops_of(plan@) == delete_ops(old_dest)
                    },
                    _ => false,
                },
            },
            Err(_) => false,
        }
    }
}

impl SyncData {
    /// How many of the four action flags are set.
    pub open spec fn flags_selected(self) -> int {
        (if self.changed_only { 1 as int } else { 0 }) + (if self.delete { 1 as int } else { 0 })
            + (if self.dry_run { 1 as int } else { 0 }) + (if self.verbose { 1 as int } else { 0 })
    }

    /// Performs the apply-changes mutation for the already classified state
    /// and returns the operations done.
    fn act_changed_only(&self, state: FileState, modified_src: &Vec<RelPath>,
        modified_dest: &Vec<RelPath>, src: &TreeModel, dest: &mut TreeModel) -> (plan:
        Vec<SyncOp>)
        requires
            src@.wf(),
            old(dest)@.wf(),
            state == classified_state(src@, old(dest)@),
            keys_of(modified_src@) == paths_of(src_modified_files(src@, old(dest)@)),
            keys_of(modified_dest@) == paths_of(dest_modified_files(src@, old(dest)@)),
        ensures
            changed_only_post(src@, old(dest)@, final(dest)@, ops_of(plan@)),
            final(dest)@.wf(),
    {
        let ghost dv = dest@;
        match state {
            FileState::SrcCreated => self.copy_src_to_dest(src, dest),
            FileState::SrcModified => {
                proof {
                    assert forall|a: int|
                        0 <= a < keys_of(modified_src@).len() && src@.has_file(
                            #[trigger] keys_of(modified_src@)[a],
                        ) implies dv.has_file(keys_of(modified_src@)[a]) by {
                        src@.files.lemma_filter_pred(
                            |f: FileModel| src_modified_pred(dv, f),
                            a,
                        );
                    }
                }
                self.update_dest_file(modified_src, src, dest)
            },
            FileState::DestCreated => self.remove_dest_file(src, dest),
            FileState::DestModified => {
                proof {
                    assert forall|a: int|
                        0 <= a < keys_of(modified_dest@).len() && src@.has_file(
                            #[trigger] keys_of(modified_dest@)[a],
                        ) implies dv.has_file(keys_of(modified_dest@)[a]) by {
                        let fs = dest_modified_files(src@, dv);
                        assert(fs.contains(fs[a]));
                        dv.files.lemma_filter_contains_rev(
                            |f: FileModel| dest_modified_pred(src@, f),
                            fs[a],
                        );
                        let j = choose|j: int| 0 <= j < dv.files.len() && dv.files[j] == fs[a];
                        assert(dv.file_keys()[j] == fs[a].path);
                    }
                }
                self.update_dest_file(modified_dest, src, dest)
            },
            FileState::NoChange => {
                let plan: Vec<SyncOp> = Vec::new();
                proof {
                    assert(ops_of(plan@) =~= Seq::<OpView>::empty());
                }
                plan
            },
        }
    }

    /// One whole sync run over the given trees: validates, classifies,
    /// performs the selected action on the destination model, and returns
    /// what happened and the operations to run against the real
    /// destination.  On an error nothing is changed.
    pub fn sync_output(&self, src_status: &DirStatus, dest_status: &DirStatus, src: &TreeModel,
        dest: &mut TreeModel) -> (r: Result<SyncOutcome, SyncError>)
        ensures
            sync_post(*self, *src_status, *dest_status, src@, old(dest)@, final(dest)@, r),
    {
        if !self.src_dest_dir_present(src_status, dest_status) {
            return Err(SyncError::MissingDirs);
        }
        if !self.single_command_selected() {
            return Err(SyncError::BadActionSelection);
        }
        if self.has_duplicates(src) || !dest.identities_unique() {
            return Err(SyncError::DuplicateIdentity);
        }
        match self.to_action() {
            FileAction::ChangedOnly => {
                let (modified_src, modified_dest, state) = self.file_status(src, dest);
                let plan = self.act_changed_only(state, &modified_src, &modified_dest, src, dest);
                Ok(SyncOutcome::Applied { state, plan })
            },
            FileAction::Verbose => {
                let (src_dir_list, src_file_list) = self.get_file_names(src);
                let (dest_dir_list, dest_file_list) = self.get_file_names(dest);
                let (modified_src, modified_dest, state) = self.file_status(src, dest);
                let plan = self.act_changed_only(state, &modified_src, &modified_dest, src, dest);
                let affected = plan_paths(&plan);
                let log = LogData {
                    src_dirs: src_dir_list,
                    dest_dirs: dest_dir_list,
                    src_files: src_file_list,
                    dest_files: dest_file_list,
                    affected,
                };
                Ok(SyncOutcome::Logged { state, plan, log })
            },
            FileAction::DryRun => {
                let (_, _, state) = self.file_status(src, dest);
                let message = dry_run_message(state);
                Ok(SyncOutcome::Planned { state, message })
            },
            FileAction::Delete => {
                let (plan, removed) = self.remove_all_dest_files(dest);
                Ok(SyncOutcome::Deleted { removed, plan })
            },
        }
    }

    /// Runs the selected sync option; the same contract as `sync_output`.
    pub fn sync_options(&self, src_status: &DirStatus, dest_status: &DirStatus, src: &TreeModel,
        dest: &mut TreeModel) -> (r: Result<SyncOutcome, SyncError>)
        ensures
            sync_post(*self, *src_status, *dest_status, src@, old(dest)@, final(dest)@, r),
    {
        self.sync_output(src_status, dest_status, src, dest)
    }
}

} // verus!
