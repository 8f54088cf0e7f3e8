use autosaver::fs::abs::AbsPathStr;
use autosaver::fs::path::PathErrorKind;
use autosaver::fs::{
    compare_chunks, next_parent_to_remove, worth_comparing, CompareStep, CreatePlan, EntryAction,
    EntryType, FindCache, FindCtx, FindOpts, PathKind, PurgeAction, WalkStep,
};
use std::str::FromStr;

fn abs(s: &str) -> AbsPathStr {
    AbsPathStr::from_str(s).unwrap()
}

#[test]
fn options_hold_what_they_were_given() {
    let o = FindOpts::new(true, false);
    assert!(o.follow_symlinks());
    assert!(!o.keep_dotfiles());
    let d = FindOpts::default();
    assert!(!d.follow_symlinks());
    assert!(!d.keep_dotfiles());
}

#[test]
fn dotfiles_are_skipped_unless_kept() {
    let o = FindOpts::new(true, false);
    assert_eq!(o.entry_action(".git", EntryType::Dir, false), EntryAction::Skip);
    assert_eq!(o.entry_action(".bashrc", EntryType::Other, false), EntryAction::Skip);
    let k = FindOpts::new(false, true);
    assert_eq!(k.entry_action(".git", EntryType::Dir, false), EntryAction::Descend);
    assert_eq!(k.entry_action(".bashrc", EntryType::Other, false), EntryAction::Report);
}

#[test]
fn directories_are_walked_into() {
    let o = FindOpts::new(false, false);
    assert_eq!(o.entry_action("d", EntryType::Dir, false), EntryAction::Descend);
    assert_eq!(o.entry_action("f", EntryType::Other, false), EntryAction::Report);
    assert_eq!(o.entry_action("l", EntryType::Symlink, true), EntryAction::Report);
    let f = FindOpts::new(true, false);
    assert_eq!(f.entry_action("l", EntryType::Symlink, true), EntryAction::Descend);
    assert_eq!(f.entry_action("l", EntryType::Symlink, false), EntryAction::Report);
}

#[test]
fn walk_lists_root_then_found_dirs_last_first() {
    let opts = FindOpts::default();
    let mut cache = FindCache::new();
    cache.clear();
    assert!(matches!(cache.next_step(false), WalkStep::ListRoot));
    let d1 = FindCtx::new(abs("/r/d1"), "d1".to_string(), 1);
    let d2 = FindCtx::new(abs("/r/d2"), "d2".to_string(), 1);
    let f = FindCtx::new(abs("/r/f"), "f".to_string(), 1);
    let hidden = FindCtx::new(abs("/r/.h"), ".h".to_string(), 1);
    assert!(cache.handle_entry(&opts, d1, EntryType::Dir, false).is_none());
    assert!(cache.handle_entry(&opts, d2, EntryType::Dir, false).is_none());
    let reported = cache.handle_entry(&opts, f, EntryType::Other, false).unwrap();
    assert_eq!(reported.file_name, "f");
    assert!(cache.handle_entry(&opts, hidden, EntryType::Other, false).is_none());
    match cache.next_step(true) {
        WalkStep::ListDir { dir, depth } => {
            assert_eq!(dir.path.path(), "/r/d2");
            assert_eq!(dir.depth, 1);
            assert_eq!(depth, 2);
        }
        other => panic!("unexpected step {:?}", other),
    }
    match cache.next_step(true) {
        WalkStep::ListDir { dir, depth } => {
            assert_eq!(dir.file_name, "d1");
            assert_eq!(depth, 2);
        }
        other => panic!("unexpected step {:?}", other),
    }
    assert!(matches!(cache.next_step(true), WalkStep::Done));
    assert!(matches!(cache.next_step(true), WalkStep::Done));
}

#[test]
fn found_dir_is_listed_next() {
    let opts = FindOpts::default();
    let mut cache = FindCache::default();
    let d = FindCtx::new(abs("/r/d"), "d".to_string(), 3);
    assert!(cache.handle_entry(&opts, d, EntryType::Dir, false).is_none());
    match cache.next_step(true) {
        WalkStep::ListDir { dir, depth } => {
            assert_eq!(dir.path.path(), "/r/d");
            assert_eq!(depth, 4);
        }
        other => panic!("unexpected step {:?}", other),
    }
}

#[test]
fn purge_decisions() {
    let p = abs("/h/x");
    assert_eq!(p.purge_path_opts(PathKind::Missing, true).unwrap(), PurgeAction::Nothing);
    assert_eq!(p.purge_path_opts(PathKind::Symlink, false).unwrap(), PurgeAction::RemoveFile);
    assert_eq!(p.purge_path_opts(PathKind::File, false).unwrap(), PurgeAction::RemoveFile);
    assert_eq!(p.purge_path_opts(PathKind::Dir, true).unwrap(), PurgeAction::RemoveDirAll);
    assert_eq!(p.purge_path_opts(PathKind::Dir, false).unwrap(), PurgeAction::RemoveDir);
    let e = p.purge_path_opts(PathKind::Other, true).unwrap_err();
    assert_eq!(e.kind, PathErrorKind::CannotDelete);
    assert_eq!(e.path, "/h/x");
}

#[test]
fn purge_path_is_never_recursive() {
    let p = abs("/h/x");
    for k in [PathKind::Missing, PathKind::Symlink, PathKind::File, PathKind::Dir] {
        assert_ne!(p.purge_path(k).unwrap(), PurgeAction::RemoveDirAll);
    }
    assert_eq!(p.purge_path(PathKind::Dir).unwrap(), PurgeAction::RemoveDir);
    assert!(p.purge_path(PathKind::Other).is_err());
}

#[test]
fn cleanup_climbs_parents_until_a_removal_fails() {
    assert_eq!(next_parent_to_remove("/a/b/c", true), Some("/a/b".to_string()));
    assert_eq!(next_parent_to_remove("/a", true), Some("/".to_string()));
    assert_eq!(next_parent_to_remove("/", true), None);
    assert_eq!(next_parent_to_remove("/a/b", false), None);
}

#[test]
fn create_file_plans() {
    let p = abs("/a/b/f.txt");
    assert!(matches!(p.create_file(true).unwrap(), CreatePlan::Exists));
    match p.create_file(false).unwrap() {
        CreatePlan::Create { parent } => assert_eq!(parent, "/a/b"),
        other => panic!("unexpected plan {:?}", other),
    }
    let root = abs("/");
    let e = root.create_file(false).unwrap_err();
    assert_eq!(e.kind, PathErrorKind::NotAFile);
    assert_eq!(e.path, "/");
}

#[test]
fn only_files_are_read() {
    let p = abs("/a");
    assert!(p.check_readable(true).is_ok());
    let e = p.check_readable(false).unwrap_err();
    assert_eq!(e.kind, PathErrorKind::NotReadable);
}

#[test]
fn chunk_comparison() {
    assert_eq!(compare_chunks(b"abc", b"abc"), CompareStep::Continue);
    assert_eq!(compare_chunks(b"abc", b"abd"), CompareStep::Differ);
    assert_eq!(compare_chunks(b"abc", b"ab"), CompareStep::Differ);
    assert_eq!(compare_chunks(b"", b""), CompareStep::Equal);
    assert_eq!(compare_chunks(b"", b"a"), CompareStep::Differ);
}

#[test]
fn only_files_of_equal_length_are_compared() {
    assert!(worth_comparing(true, 4, true, 4));
    assert!(!worth_comparing(true, 4, true, 5));
    assert!(!worth_comparing(false, 4, true, 4));
    assert!(!worth_comparing(true, 4, false, 4));
}
