//! Verified core of a two-tree directory synchronizer.
//!
//! The crate models a source and a destination directory tree, detects which
//! side changed (by timestamps confirmed with byte-level content comparison),
//! classifies the run into a single sync state, and computes the mutation
//! plan for one of four mutually exclusive action modes.  All filesystem
//! access (listing, metadata, copying, removing) is left to the caller, which
//! hands the library plain values and executes the plan it gets back.

pub mod actions;
pub mod changes;
pub mod compare;
pub mod laws;
pub mod logs;
pub mod options;
pub mod paths;
pub mod state;
pub mod sync;
pub mod timestamp;
pub mod tree;
pub mod validate;

pub use actions::OpView;
pub use actions::SyncOp;
pub use compare::ChunkVerdict;
pub use compare::chunk_step;
pub use logs::LogData;
pub use logs::filter_dest_dir;
pub use logs::filter_dest_file;
pub use logs::filter_src_dir;
pub use logs::filter_src_file;
pub use options::ArchiveData;
pub use options::CleanData;
pub use options::Command;
pub use options::Cover;
pub use options::ListData;
pub use options::RestoreData;
pub use options::ScheduleData;
pub use paths::PathKey;
pub use paths::RelPath;
pub use paths::take_strip;
pub use state::FileAction;
pub use state::FileState;
pub use sync::SyncData;
pub use sync::SyncError;
pub use sync::SyncOutcome;
pub use timestamp::TimestampIndex;
pub use tree::FileEntry;
pub use tree::FileModel;
pub use tree::TreeModel;
pub use tree::TreeView;
pub use validate::DirStatus;
