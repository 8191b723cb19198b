use cover::ArchiveData;
use cover::ChunkVerdict;
use cover::CleanData;
use cover::DirStatus;
use cover::FileAction;
use cover::FileEntry;
use cover::FileState;
use cover::ListData;
use cover::RelPath;
use cover::RestoreData;
use cover::ScheduleData;
use cover::SyncData;
use cover::TreeModel;
use cover::chunk_step;
use cover::filter_dest_file;
use cover::filter_src_dir;
use cover::filter_src_file;
use cover::sync::dry_run_message;
use cover::take_strip;

fn rp(path: &str) -> RelPath {
    RelPath { parts: path.split('/').map(|c| c.to_string()).collect() }
}

fn file(path: &str, mtime: u64, data: &str) -> FileEntry {
    FileEntry { path: rp(path), mtime, data: data.as_bytes().to_vec() }
}

fn tree(dirs: &[&str], files: &[(&str, u64, &str)]) -> TreeModel {
    TreeModel {
        dirs: dirs.iter().map(|d| rp(d)).collect(),
        files: files.iter().map(|(p, t, d)| file(p, *t, d)).collect(),
    }
}

fn sync_flags(changed_only: bool, delete: bool, dry_run: bool, verbose: bool) -> SyncData {
    SyncData {
        source: "source_directory".to_string(),
        destination: "destination_directory".to_string(),
        changed_only,
        delete,
        dry_run,
        verbose,
    }
}

#[test]
fn eq_path_compares_by_components() {
    assert!(rp("a/b").eq_path(&rp("a/b")));
    assert!(!rp("a/b").eq_path(&rp("a/c")));
    assert!(!rp("a").eq_path(&rp("a/b")));
}

#[test]
fn take_strip_removes_the_base_prefix() {
    let stripped = take_strip(&rp("root/a/f.txt"), &rp("root"));
    assert_eq!(stripped.parts, vec!["a".to_string(), "f.txt".to_string()]);
}

#[test]
fn base_name_is_the_last_component() {
    assert_eq!(rp("a/b/f.txt").base_name(), "f.txt");
}

#[test]
fn starts_with_checks_the_prefix() {
    assert!(rp("a/b/c").starts_with(&rp("a/b")));
    assert!(!rp("a/b").starts_with(&rp("a/b/c")));
    assert!(!rp("x/b").starts_with(&rp("a")));
}

#[test]
fn chunk_step_judges_one_chunk_pair() {
    assert!(matches!(chunk_step(b"abc", b"abc"), ChunkVerdict::KeepReading));
    assert!(matches!(chunk_step(b"abc", b"abd"), ChunkVerdict::Differ));
    assert!(matches!(chunk_step(b"abc", b"ab"), ChunkVerdict::Differ));
    assert!(matches!(chunk_step(b"", b""), ChunkVerdict::AllRead));
}

#[test]
fn files_are_equal_compares_bytes() {
    let sync = sync_flags(true, false, false, false);
    assert!(sync.files_are_equal(&b"same".to_vec(), &b"same".to_vec()));
    assert!(!sync.files_are_equal(&b"one".to_vec(), &b"two".to_vec()));
    assert!(!sync.files_are_equal(&b"short".to_vec(), &b"shorter".to_vec()));
    assert!(sync.files_are_equal(&Vec::new(), &Vec::new()));
}

#[test]
fn files_are_equal_crosses_chunk_boundaries() {
    let sync = sync_flags(true, false, false, false);
    let a: Vec<u8> = (0..20000u32).map(|i| (i % 251) as u8).collect();
    let mut b = a.clone();
    assert!(sync.files_are_equal(&a, &b));
    b[16000] = b[16000].wrapping_add(1);
    assert!(!sync.files_are_equal(&a, &b));
}

#[test]
fn src_file_created_spots_a_missing_entry() {
    let sync = sync_flags(true, false, false, false);
    let src = tree(&["d"], &[("f.txt", 1, "A")]);
    let dest_missing_dir = tree(&[], &[("f.txt", 1, "A")]);
    let dest_full = tree(&["d"], &[("f.txt", 1, "A")]);
    assert!(sync.src_file_created(&src, &dest_missing_dir));
    assert!(!sync.src_file_created(&src, &dest_full));
}

#[test]
fn dest_file_created_spots_an_extraneous_entry() {
    let sync = sync_flags(true, false, false, false);
    let src = tree(&[], &[]);
    let dest = tree(&[], &[("g.txt", 1, "X")]);
    assert!(sync.dest_file_created(&src, &dest));
    assert!(!sync.dest_file_created(&src, &tree(&[], &[])));
}

#[test]
fn src_file_modified_needs_newer_time_and_different_bytes() {
    let sync = sync_flags(true, false, false, false);
    let dest = tree(&[], &[("f.txt", 1, "old"), ("g.txt", 5, "same")]);
    let src = tree(&[], &[("f.txt", 2, "new"), ("g.txt", 9, "same")]);
    let (modified, any) = sync.src_file_modified(&src, &dest);
    assert!(any);
    assert_eq!(modified.len(), 1);
    assert_eq!(modified[0].parts, vec!["f.txt".to_string()]);
}

#[test]
fn dest_file_modified_mirrors_the_source_check() {
    let sync = sync_flags(true, false, false, false);
    let src = tree(&[], &[("f.txt", 1, "old")]);
    let dest = tree(&[], &[("f.txt", 2, "edited")]);
    let (modified, any) = sync.dest_file_modified(&src, &dest);
    assert!(any);
    assert_eq!(modified.len(), 1);
    assert_eq!(modified[0].parts, vec!["f.txt".to_string()]);
    let (none, no) = sync.src_file_modified(&src, &dest);
    assert!(!no);
    assert_eq!(none.len(), 0);
}

#[test]
fn to_state_picks_by_fixed_priority() {
    let sync = sync_flags(true, false, false, false);
    assert!(matches!(sync.to_state(&[true, true, true, true]), FileState::SrcCreated));
    assert!(matches!(sync.to_state(&[false, true, true, true]), FileState::SrcModified));
    assert!(matches!(sync.to_state(&[false, false, true, true]), FileState::DestCreated));
    assert!(matches!(sync.to_state(&[false, false, false, true]), FileState::DestModified));
    assert!(matches!(sync.to_state(&[false, false, false, false]), FileState::NoChange));
}

#[test]
fn to_action_prefers_changed_only_and_defaults_to_verbose() {
    assert!(matches!(sync_flags(true, true, true, true).to_action(), FileAction::ChangedOnly));
    assert!(matches!(sync_flags(false, true, true, true).to_action(), FileAction::Verbose));
    assert!(matches!(sync_flags(false, true, true, false).to_action(), FileAction::DryRun));
    assert!(matches!(sync_flags(false, true, false, false).to_action(), FileAction::Delete));
    assert!(matches!(sync_flags(false, false, false, false).to_action(), FileAction::Verbose));
}

#[test]
fn single_command_selected_counts_the_flags() {
    assert!(sync_flags(true, false, false, false).single_command_selected());
    assert!(sync_flags(false, false, true, false).single_command_selected());
    assert!(!sync_flags(false, false, false, false).single_command_selected());
    assert!(!sync_flags(true, false, true, false).single_command_selected());
    assert!(!sync_flags(true, true, true, true).single_command_selected());
}

#[test]
fn src_dest_dir_present_needs_both_roots() {
    let ok = DirStatus { exists: true, is_dir: true };
    let file_only = DirStatus { exists: true, is_dir: false };
    let sync = sync_flags(true, false, false, false);
    assert!(sync.src_dest_dir_present(&ok, &ok));
    assert!(!sync.src_dest_dir_present(&ok, &file_only));
    assert!(!sync.src_dest_dir_present(&file_only, &ok));
    let empty_source = SyncData { source: String::new(), ..sync_flags(true, false, false, false) };
    assert!(!empty_source.src_dest_dir_present(&ok, &ok));
}

#[test]
fn get_file_names_returns_every_identity_key() {
    let sync = sync_flags(true, false, false, false);
    let src = tree(&["a", "a/b"], &[("f.txt", 1, "A"), ("a/g.txt", 2, "B")]);
    let (dirs, files) = sync.get_file_names(&src);
    assert_eq!(dirs.len(), 2);
    assert_eq!(dirs[1].parts, vec!["a".to_string(), "b".to_string()]);
    assert_eq!(files.len(), 2);
    assert_eq!(files[0].parts, vec!["f.txt".to_string()]);
}

#[test]
fn test_has_duplicates() {
    let sync = sync_flags(true, false, false, false);
    let clean = tree(&["a"], &[("f.txt", 1, "A"), ("a/f.txt", 1, "B")]);
    assert!(!sync.has_duplicates(&clean));
    let dup_files = tree(&[], &[("f.txt", 1, "A"), ("f.txt", 2, "B")]);
    assert!(sync.has_duplicates(&dup_files));
    let dup_dirs = tree(&["a", "a"], &[]);
    assert!(sync.has_duplicates(&dup_dirs));
}

#[test]
fn file_timestamp_strips_the_root_and_keeps_times() {
    let sync = sync_flags(true, false, false, false);
    let listed = vec![(rp("root/f.txt"), 7u64), (rp("root/a/g.txt"), 0u64)];
    let index = sync.file_timestamp(&listed, &rp("root"));
    assert_eq!(index.entries.len(), 2);
    assert_eq!(index.entries[0].0.parts, vec!["f.txt".to_string()]);
    assert_eq!(index.entries[0].1, 7);
    assert_eq!(index.entries[1].0.parts, vec!["a".to_string(), "g.txt".to_string()]);
    assert_eq!(index.entries[1].1, 0);
    assert_eq!(index.get(&rp("f.txt")), Some(7));
    assert_eq!(index.get(&rp("missing.txt")), None);
}

#[test]
fn test_filter_src_dirs() {
    let dirs = vec![rp("root"), rp("root/a"), rp("root/a/b")];
    let filtered = filter_src_dir(&dirs, &rp("root"));
    assert_eq!(filtered.len(), 2);
    assert_eq!(filtered[0].parts, vec!["a".to_string()]);
    assert_eq!(filtered[1].parts, vec!["a".to_string(), "b".to_string()]);
}

#[test]
fn test_filter_src_files() {
    let files = vec![rp("root/a/f.txt"), rp("root/g.txt")];
    let filtered = filter_src_file(&files);
    assert_eq!(filtered.len(), 2);
    assert_eq!(filtered[0].parts, vec!["f.txt".to_string()]);
    assert_eq!(filtered[1].parts, vec!["g.txt".to_string()]);
}

#[test]
fn test_filter_dest_files() {
    let files = vec![rp("dest/deep/nested/h.txt")];
    let filtered = filter_dest_file(&files);
    assert_eq!(filtered.len(), 1);
    assert_eq!(filtered[0].parts, vec!["h.txt".to_string()]);
}

#[test]
fn dry_run_messages_match_each_state() {
    assert_eq!(
        dry_run_message(FileState::SrcModified),
        "[DRY RUN]: will update the destination file(s)"
    );
    assert_eq!(
        dry_run_message(FileState::NoChange),
        "[DRY RUN]: will give the 'no changes detected' message"
    );
}

#[test]
fn archive_options_reports_the_configured_fields() {
    let archive = ArchiveData {
        zip: Some(true),
        tar: Some(false),
        encrypt: Some(false),
        timestamp: Some(true),
    };
    assert_eq!(archive.archive_options(), (true, false, false, true));
}

#[test]
fn clean_options_reports_the_configured_fields() {
    let clean = CleanData { keep_last: Some(12), older_than: Some(30), dry_run: Some(true) };
    assert_eq!(clean.clean_options(), (12, 30, true));
}

#[test]
fn list_options_reports_the_configured_fields() {
    let list = ListData { archives: true, schedules: false, details: true };
    assert_eq!(list.list_options(), (true, false, true));
}

#[test]
fn restore_options_reports_the_configured_fields() {
    let restore = RestoreData {
        overwrite: true,
        to: Some("to_directory".to_string()),
        select: Some("specific_file".to_string()),
    };
    let (overwrite, to, select) = restore.restore_options();
    assert!(overwrite);
    assert_eq!(to, "to_directory");
    assert_eq!(select, "specific_file");
}

#[test]
fn schedule_options_reports_the_configured_fields() {
    let schedule = ScheduleData {
        daily: "09:00".to_string(),
        weekly: Some("monday".to_string()),
        interval: Some(15),
        command: Some("backup".to_string()),
    };
    let (daily, weekly, interval, command) = schedule.schedule_options();
    assert_eq!(daily, "09:00");
    assert_eq!(weekly, "monday");
    assert_eq!(interval, 15);
    assert_eq!(command, "backup");
}

#[test]
fn tree_identities_unique_checks_both_kinds() {
    let good = tree(&["a"], &[("f.txt", 1, "A")]);
    assert!(good.identities_unique());
    let bad = tree(&[], &[("x", 1, "A"), ("x", 1, "A")]);
    assert!(!bad.identities_unique());
}

#[test]
fn take_strip_of_the_root_itself_is_empty() {
    let stripped = take_strip(&rp("root"), &rp("root"));
    assert_eq!(stripped.parts.len(), 0);
}

#[test]
fn files_are_equal_at_exactly_one_chunk() {
    let sync = sync_flags(true, false, false, false);
    let a: Vec<u8> = vec![7u8; 8192];
    let b: Vec<u8> = vec![7u8; 8192];
    assert!(sync.files_are_equal(&a, &b));
    let mut c = b.clone();
    c[8191] = 8;
    assert!(!sync.files_are_equal(&a, &c));
}

#[test]
fn missing_dirs_error_message_text() {
    let sync = sync_flags(true, false, false, false);
    let src = tree(&[], &[]);
    let mut dest = tree(&[], &[]);
    let gone = DirStatus { exists: false, is_dir: false };
    let here = DirStatus { exists: true, is_dir: true };
    match sync.sync_output(&gone, &here, &src, &mut dest) {
        Err(e) => assert_eq!(e.message(), "[ERROR]: missing source or destination directories"),
        Ok(_) => panic!("expected an error"),
    }
}

#[test]
fn duplicate_identity_error_message_text() {
    let sync = sync_flags(true, false, false, false);
    let src = tree(&["a", "a"], &[]);
    let mut dest = tree(&[], &[]);
    let here = DirStatus { exists: true, is_dir: true };
    match sync.sync_output(&here, &here, &src, &mut dest) {
        Err(e) => {
            assert_eq!(e.message(), "[ERROR]: duplicate files and directories are not allowed")
        }
        Ok(_) => panic!("expected an error"),
    }
}

#[test]
fn dry_run_announces_a_removal_decision() {
    let sync = sync_flags(false, false, true, false);
    let src = tree(&[], &[]);
    let mut dest = tree(&[], &[("g.txt", 1, "X")]);
    let here = DirStatus { exists: true, is_dir: true };
    match sync.sync_output(&here, &here, &src, &mut dest) {
        Ok(cover::SyncOutcome::Planned { state, message }) => {
            assert!(matches!(state, FileState::DestCreated));
            assert_eq!(
                message,
                "[DRY RUN]: will prevent the creation of destination file(s)"
            );
        }
        _ => panic!("expected a planned outcome"),
    }
    assert_eq!(dest.files.len(), 1);
}
