use cover::DirStatus;
use cover::FileEntry;
use cover::FileState;
use cover::RelPath;
use cover::SyncData;
use cover::SyncError;
use cover::SyncOp;
use cover::SyncOutcome;
use cover::TreeModel;

fn rp(path: &str) -> RelPath {
    RelPath { parts: path.split('/').map(|c| c.to_string()).collect() }
}

fn file(path: &str, mtime: u64, data: &str) -> FileEntry {
    FileEntry { path: rp(path), mtime, data: data.as_bytes().to_vec() }
}

fn tree(dirs: &[&str], files: &[(&str, u64, &str)]) -> TreeModel {
    TreeModel {
        dirs: dirs.iter().map(|d| rp(d)).collect(),
        files: files.iter().map(|(p, t, d)| file(p, *t, d)).collect(),
    }
}

fn sync_flags(changed_only: bool, delete: bool, dry_run: bool, verbose: bool) -> SyncData {
    SyncData {
        source: "source_directory".to_string(),
        destination: "destination_directory".to_string(),
        changed_only,
        delete,
        dry_run,
        verbose,
    }
}

fn present() -> DirStatus {
    DirStatus { exists: true, is_dir: true }
}

fn absent() -> DirStatus {
    DirStatus { exists: false, is_dir: false }
}

fn parts(path: &str) -> Vec<String> {
    path.split('/').map(|c| c.to_string()).collect()
}

#[test]
fn edge_test_no_dir_present() {
    let sync = SyncData {
        source: String::new(),
        destination: String::new(),
        changed_only: true,
        delete: false,
        verbose: false,
        dry_run: false,
    };

    assert!(!sync.src_dest_dir_present(&absent(), &absent()), "No directory is detected");
}

#[test]
fn test_dir_not_present() {
    let sync = SyncData {
        source: String::new(),
        destination: String::new(),
        changed_only: true,
        delete: false,
        verbose: false,
        dry_run: false,
    };

    assert!(!sync.src_dest_dir_present(&absent(), &absent()), "No directory is detected");
}

#[test]
fn apply_copies_one_file_into_empty_destination() {
    let sync = sync_flags(true, false, false, false);
    let src = tree(&[], &[("f.txt", 5, "A")]);
    let mut dest = tree(&[], &[]);
    let r = sync.sync_output(&present(), &present(), &src, &mut dest);
    match r {
        Ok(SyncOutcome::Applied { state, plan }) => {
            assert!(matches!(state, FileState::SrcCreated));
            assert_eq!(plan.len(), 1);
            assert!(matches!(&plan[0], SyncOp::CopyFile(p) if p.parts == parts("f.txt")));
        }
        _ => panic!("expected an applied outcome"),
    }
    assert_eq!(dest.files.len(), 1);
    assert_eq!(dest.files[0].path.parts, parts("f.txt"));
    assert_eq!(dest.files[0].data, b"A".to_vec());
}

#[test]
fn apply_updates_outdated_destination_file() {
    let sync = sync_flags(true, false, false, false);
    let src = tree(&[], &[("f.txt", 2, "B")]);
    let mut dest = tree(&[], &[("f.txt", 1, "A")]);
    let r = sync.sync_output(&present(), &present(), &src, &mut dest);
    match r {
        Ok(SyncOutcome::Applied { state, plan }) => {
            assert!(matches!(state, FileState::SrcModified));
            assert_eq!(plan.len(), 1);
            assert!(matches!(&plan[0], SyncOp::ReplaceFile(p) if p.parts == parts("f.txt")));
        }
        _ => panic!("expected an applied outcome"),
    }
    assert_eq!(dest.files.len(), 1);
    assert_eq!(dest.files[0].data, b"B".to_vec());
    assert_eq!(dest.files[0].mtime, 2);
}

#[test]
fn apply_removes_file_created_in_destination() {
    let sync = sync_flags(true, false, false, false);
    let src = tree(&[], &[]);
    let mut dest = tree(&[], &[("g.txt", 3, "X")]);
    let r = sync.sync_output(&present(), &present(), &src, &mut dest);
    match r {
        Ok(SyncOutcome::Applied { state, plan }) => {
            assert!(matches!(state, FileState::DestCreated));
            assert_eq!(plan.len(), 1);
            assert!(matches!(&plan[0], SyncOp::RemoveFile(p) if p.parts == parts("g.txt")));
        }
        _ => panic!("expected an applied outcome"),
    }
    assert_eq!(dest.files.len(), 0);
    assert_eq!(dest.dirs.len(), 0);
}

#[test]
fn apply_discards_unauthorized_destination_edit() {
    let sync = sync_flags(true, false, false, false);
    let src = tree(&[], &[("f.txt", 1, "keep")]);
    let mut dest = tree(&[], &[("f.txt", 9, "edited")]);
    let r = sync.sync_output(&present(), &present(), &src, &mut dest);
    match r {
        Ok(SyncOutcome::Applied { state, .. }) => {
            assert!(matches!(state, FileState::DestModified));
        }
        _ => panic!("expected an applied outcome"),
    }
    assert_eq!(dest.files[0].data, b"keep".to_vec());
    assert_eq!(dest.files[0].mtime, 1);
}

#[test]
fn conflicting_flags_are_a_validation_error() {
    let sync = sync_flags(true, true, false, false);
    let src = tree(&[], &[("f.txt", 1, "A")]);
    let mut dest = tree(&[], &[]);
    let r = sync.sync_output(&present(), &present(), &src, &mut dest);
    assert!(matches!(r, Err(SyncError::BadActionSelection)));
    assert_eq!(dest.files.len(), 0);
    assert_eq!(dest.dirs.len(), 0);
}

#[test]
fn no_flag_at_all_is_a_validation_error() {
    let sync = sync_flags(false, false, false, false);
    let src = tree(&[], &[]);
    let mut dest = tree(&[], &[]);
    let r = sync.sync_output(&present(), &present(), &src, &mut dest);
    assert!(matches!(r, Err(SyncError::BadActionSelection)));
}

#[test]
fn duplicate_source_identities_abort_before_mutation() {
    let sync = sync_flags(true, false, false, false);
    let src = tree(&[], &[("f.txt", 1, "A"), ("f.txt", 2, "B")]);
    let mut dest = tree(&[], &[("old.txt", 1, "keep")]);
    let r = sync.sync_output(&present(), &present(), &src, &mut dest);
    assert!(matches!(r, Err(SyncError::DuplicateIdentity)));
    assert_eq!(dest.files.len(), 1);
    assert_eq!(dest.files[0].data, b"keep".to_vec());
}

#[test]
fn missing_roots_abort_before_mutation() {
    let sync = sync_flags(true, false, false, false);
    let src = tree(&[], &[("f.txt", 1, "A")]);
    let mut dest = tree(&[], &[]);
    let r = sync.sync_output(&absent(), &present(), &src, &mut dest);
    assert!(matches!(r, Err(SyncError::MissingDirs)));
    assert_eq!(dest.files.len(), 0);
}

#[test]
fn delete_all_empties_the_destination() {
    let sync = sync_flags(false, true, false, false);
    let src = tree(&[], &[("f.txt", 1, "A")]);
    let mut dest = tree(&["a", "a/b"], &[("f.txt", 1, "A"), ("a/g.txt", 2, "B")]);
    let r = sync.sync_output(&present(), &present(), &src, &mut dest);
    match r {
        Ok(SyncOutcome::Deleted { removed, plan }) => {
            assert!(removed);
            assert_eq!(plan.len(), 4);
            assert!(matches!(&plan[0], SyncOp::RemoveFile(p) if p.parts == parts("f.txt")));
            assert!(matches!(&plan[1], SyncOp::RemoveFile(p) if p.parts == parts("a/g.txt")));
            assert!(matches!(&plan[2], SyncOp::RemoveDir(p) if p.parts == parts("a/b")));
            assert!(matches!(&plan[3], SyncOp::RemoveDir(p) if p.parts == parts("a")));
        }
        _ => panic!("expected a deleted outcome"),
    }
    assert_eq!(dest.files.len(), 0);
    assert_eq!(dest.dirs.len(), 0);
}

#[test]
fn delete_all_on_empty_destination_reports_nothing_removed() {
    let sync = sync_flags(false, true, false, false);
    let src = tree(&[], &[]);
    let mut dest = tree(&[], &[]);
    let r = sync.sync_output(&present(), &present(), &src, &mut dest);
    match r {
        Ok(SyncOutcome::Deleted { removed, plan }) => {
            assert!(!removed);
            assert_eq!(plan.len(), 0);
        }
        _ => panic!("expected a deleted outcome"),
    }
}

#[test]
fn dry_run_never_mutates_the_destination() {
    let sync = sync_flags(false, false, true, false);
    let src = tree(&["d"], &[("f.txt", 5, "new")]);
    let mut dest = tree(&[], &[("g.txt", 1, "old")]);
    let r = sync.sync_output(&present(), &present(), &src, &mut dest);
    match r {
        Ok(SyncOutcome::Planned { state, message }) => {
            assert!(matches!(state, FileState::SrcCreated));
            assert_eq!(message, "[DRY RUN]: will copy the source file(s) to destination");
        }
        _ => panic!("expected a planned outcome"),
    }
    assert_eq!(dest.dirs.len(), 0);
    assert_eq!(dest.files.len(), 1);
    assert_eq!(dest.files[0].path.parts, parts("g.txt"));
    assert_eq!(dest.files[0].mtime, 1);
    assert_eq!(dest.files[0].data, b"old".to_vec());
}

#[test]
fn newer_timestamp_with_identical_bytes_copies_nothing() {
    let sync = sync_flags(true, false, false, false);
    let src = tree(&[], &[("f.txt", 9, "same")]);
    let mut dest = tree(&[], &[("f.txt", 1, "same")]);
    let r = sync.sync_output(&present(), &present(), &src, &mut dest);
    match r {
        Ok(SyncOutcome::Applied { state, plan }) => {
            assert!(matches!(state, FileState::NoChange));
            assert_eq!(plan.len(), 0);
        }
        _ => panic!("expected an applied outcome"),
    }
    assert_eq!(dest.files[0].mtime, 1);
    assert_eq!(dest.files[0].data, b"same".to_vec());
}

#[test]
fn equal_timestamps_count_as_unmodified_even_when_bytes_differ() {
    let sync = sync_flags(true, false, false, false);
    let src = tree(&[], &[("f.txt", 4, "one")]);
    let mut dest = tree(&[], &[("f.txt", 4, "two")]);
    let r = sync.sync_output(&present(), &present(), &src, &mut dest);
    match r {
        Ok(SyncOutcome::Applied { state, plan }) => {
            assert!(matches!(state, FileState::NoChange));
            assert_eq!(plan.len(), 0);
        }
        _ => panic!("expected an applied outcome"),
    }
    assert_eq!(dest.files[0].data, b"two".to_vec());
}

#[test]
fn first_sync_reproduces_source_and_second_is_a_noop() {
    let sync = sync_flags(true, false, false, false);
    let src = tree(&["a"], &[("f.txt", 1, "A"), ("a/g.txt", 2, "BB"), ("a/h.txt", 3, "CCC")]);
    let mut dest = tree(&[], &[]);
    let first = sync.sync_output(&present(), &present(), &src, &mut dest);
    assert!(matches!(first, Ok(SyncOutcome::Applied { state: FileState::SrcCreated, .. })));
    assert_eq!(dest.dirs.len(), 1);
    assert_eq!(dest.files.len(), 3);
    for (ours, theirs) in dest.files.iter().zip(src.files.iter()) {
        assert_eq!(ours.path.parts, theirs.path.parts);
        assert_eq!(ours.mtime, theirs.mtime);
        assert_eq!(ours.data, theirs.data);
    }
    let second = sync.sync_output(&present(), &present(), &src, &mut dest);
    match second {
        Ok(SyncOutcome::Applied { state, plan }) => {
            assert!(matches!(state, FileState::NoChange));
            assert_eq!(plan.len(), 0);
        }
        _ => panic!("expected an applied outcome"),
    }
    assert_eq!(dest.files.len(), 3);
}

#[test]
fn apply_creates_missing_directories_shallow_first() {
    let sync = sync_flags(true, false, false, false);
    let src = tree(&["a", "a/b"], &[("a/b/f.txt", 1, "deep")]);
    let mut dest = tree(&[], &[]);
    let r = sync.sync_output(&present(), &present(), &src, &mut dest);
    match r {
        Ok(SyncOutcome::Applied { state, plan }) => {
            assert!(matches!(state, FileState::SrcCreated));
            assert_eq!(plan.len(), 3);
            assert!(matches!(&plan[0], SyncOp::CreateDir(p) if p.parts == parts("a")));
            assert!(matches!(&plan[1], SyncOp::CreateDir(p) if p.parts == parts("a/b")));
            assert!(matches!(&plan[2], SyncOp::CopyFile(p) if p.parts == parts("a/b/f.txt")));
        }
        _ => panic!("expected an applied outcome"),
    }
    assert_eq!(dest.dirs.len(), 2);
    assert_eq!(dest.files.len(), 1);
}

#[test]
fn apply_removes_extraneous_directories_deepest_first() {
    let sync = sync_flags(true, false, false, false);
    let src = tree(&[], &[]);
    let mut dest = tree(&["a", "a/b"], &[("a/b/f.txt", 1, "x")]);
    let r = sync.sync_output(&present(), &present(), &src, &mut dest);
    match r {
        Ok(SyncOutcome::Applied { state, plan }) => {
            assert!(matches!(state, FileState::DestCreated));
            assert_eq!(plan.len(), 3);
            assert!(matches!(&plan[0], SyncOp::RemoveFile(p) if p.parts == parts("a/b/f.txt")));
            assert!(matches!(&plan[1], SyncOp::RemoveDir(p) if p.parts == parts("a/b")));
            assert!(matches!(&plan[2], SyncOp::RemoveDir(p) if p.parts == parts("a")));
        }
        _ => panic!("expected an applied outcome"),
    }
    assert_eq!(dest.dirs.len(), 0);
    assert_eq!(dest.files.len(), 0);
}

#[test]
fn apply_never_overwrites_untouched_destination_files() {
    let sync = sync_flags(true, false, false, false);
    let src = tree(&[], &[("f.txt", 9, "source"), ("new.txt", 1, "fresh")]);
    let mut dest = tree(&[], &[("f.txt", 9, "mine")]);
    let r = sync.sync_output(&present(), &present(), &src, &mut dest);
    match r {
        Ok(SyncOutcome::Applied { state, plan }) => {
            assert!(matches!(state, FileState::SrcCreated));
            assert_eq!(plan.len(), 1);
            assert!(matches!(&plan[0], SyncOp::CopyFile(p) if p.parts == parts("new.txt")));
        }
        _ => panic!("expected an applied outcome"),
    }
    assert_eq!(dest.files.len(), 2);
    assert_eq!(dest.files[0].data, b"mine".to_vec());
    assert_eq!(dest.files[1].data, b"fresh".to_vec());
}

#[test]
fn verbose_reports_listings_and_affected_paths() {
    let sync = sync_flags(false, false, false, true);
    let src = tree(&["a"], &[("f.txt", 1, "A")]);
    let mut dest = tree(&["b"], &[("g.txt", 2, "B")]);
    let r = sync.sync_output(&present(), &present(), &src, &mut dest);
    match r {
        Ok(SyncOutcome::Logged { state, plan, log }) => {
            assert!(matches!(state, FileState::SrcCreated));
            assert_eq!(log.src_dirs.len(), 1);
            assert_eq!(log.src_dirs[0].parts, parts("a"));
            assert_eq!(log.src_files.len(), 1);
            assert_eq!(log.src_files[0].parts, parts("f.txt"));
            assert_eq!(log.dest_dirs.len(), 1);
            assert_eq!(log.dest_dirs[0].parts, parts("b"));
            assert_eq!(log.dest_files.len(), 1);
            assert_eq!(log.dest_files[0].parts, parts("g.txt"));
            assert_eq!(log.affected.len(), plan.len());
            assert_eq!(log.affected[0].parts, parts("a"));
            assert_eq!(log.affected[1].parts, parts("f.txt"));
        }
        _ => panic!("expected a logged outcome"),
    }
    assert_eq!(dest.dirs.len(), 2);
    assert_eq!(dest.files.len(), 2);
}

#[test]
fn no_selected_flag_error_message_text() {
    let sync = sync_flags(false, false, false, false);
    let src = tree(&[], &[]);
    let mut dest = tree(&[], &[]);
    let r = sync.sync_output(&present(), &present(), &src, &mut dest);
    match r {
        Err(e) => assert_eq!(e.message(), "[ERROR]: no or multiple option(s) are selected"),
        Ok(_) => panic!("expected an error"),
    }
}
