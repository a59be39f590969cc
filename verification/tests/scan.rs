use lstr::app::InteractiveArgs;
use lstr::entry::FileStatus;
use lstr::scan::{
    format_permission_column, scan_directory, scan_entry, Columns, FileMeta, ScanError, WalkEntry,
    WalkItem,
};
use lstr::tui::AppState;
use lstr::utils::format_permissions;

fn found(path: &str, depth: usize, is_dir: bool) -> WalkItem {
    WalkItem::Found(WalkEntry {
        path: path.to_string(),
        depth,
        is_dir,
        metadata: Some(FileMeta { len: 2048, is_dir, mode: Some(if is_dir { 0o755 } else { 0o644 }) }),
        git_status: Some(FileStatus::Modified),
    })
}

fn failed(depth: usize) -> WalkItem {
    WalkItem::Failed { depth: Some(depth) }
}

fn all_columns() -> Columns {
    Columns { size: true, permissions: true, git_status: true }
}

fn no_columns() -> Columns {
    Columns { size: false, permissions: false, git_status: false }
}

fn args(expand_level: Option<usize>) -> InteractiveArgs {
    InteractiveArgs {
        path: "root".to_string(),
        all: false,
        gitignore: false,
        git_status: false,
        icons: false,
        size: false,
        permissions: false,
        expand_level,
    }
}

#[test]
fn format_permissions_writes_nine_letters() {
    assert_eq!(format_permissions(0o550), "r-xr-x---");
    assert_eq!(format_permissions(0o777), "rwxrwxrwx");
    assert_eq!(format_permissions(0), "---------");
    assert_eq!(format_permissions(0o644), "rw-r--r--");
    assert_eq!(format_permissions(0o421), "r---w---x");
    assert_eq!(format_permissions(0o124), "--x-w-r--");
}

#[test]
fn format_permissions_looks_at_the_low_nine_bits_only() {
    assert_eq!(format_permissions(0o100644), "rw-r--r--");
    assert_eq!(format_permissions(0o040755), "rwxr-xr-x");
    assert_eq!(format_permissions(0o7000), "---------");
    assert_eq!(format_permissions(u32::MAX), "rwxrwxrwx");
}

#[test]
fn permission_column_starts_with_the_kind() {
    assert_eq!(
        format_permission_column(&FileMeta { len: 0, is_dir: true, mode: Some(0o755) }),
        "drwxr-xr-x"
    );
    assert_eq!(
        format_permission_column(&FileMeta { len: 0, is_dir: false, mode: Some(0o550) }),
        "-r-xr-x---"
    );
    assert_eq!(
        format_permission_column(&FileMeta { len: 0, is_dir: true, mode: None }),
        "----------"
    );
}

#[test]
fn scan_leaves_out_the_root_and_what_could_not_be_read() {
    let items = vec![
        found("root", 0, true),
        found("root/a", 1, true),
        failed(2),
        found("root/a/b", 2, false),
        WalkItem::Failed { depth: None },
        found("root/c", 1, false),
        failed(1),
    ];
    let entries = scan_directory(&items, &"root".to_string(), no_columns()).unwrap();
    assert_eq!(entries.len(), 3);
    assert_eq!(entries[0].path, "root/a");
    assert_eq!(entries[1].path, "root/a/b");
    assert_eq!(entries[2].path, "root/c");
    assert_eq!(entries[0].depth, 1);
    assert_eq!(entries[1].depth, 2);
    assert!(entries[0].is_dir);
    assert!(!entries[1].is_dir);
    for e in &entries {
        assert!(!e.is_expanded);
        assert_eq!(e.size, None);
        assert_eq!(e.permissions, None);
        assert_eq!(e.git_status, None);
    }
}

#[test]
fn scan_of_nothing_is_empty() {
    assert_eq!(scan_directory(&Vec::new(), &"root".to_string(), all_columns()).unwrap().len(), 0);
    // the root was read, something below it was not
    let items = vec![found("root", 0, true), failed(1)];
    assert_eq!(scan_directory(&items, &"root".to_string(), all_columns()).unwrap().len(), 0);
}

#[test]
fn scan_fails_when_the_root_cannot_be_read() {
    let root = "root".to_string();
    // the failure is all that the walk reports
    let items = vec![failed(0)];
    assert_eq!(scan_directory(&items, &root, no_columns()).err(), Some(ScanError::RootFailed));
    // the root was found, but could not be read
    let items = vec![found("root", 0, true), failed(0)];
    assert_eq!(scan_directory(&items, &root, no_columns()).err(), Some(ScanError::RootFailed));
    // whatever else was found, before or after
    let items = vec![
        found("root", 0, true),
        found("root/a", 1, true),
        failed(1),
        failed(0),
        found("root/b", 1, false),
    ];
    assert_eq!(scan_directory(&items, &root, all_columns()).err(), Some(ScanError::RootFailed));
}

#[test]
fn scan_passes_over_failures_below_the_root() {
    let root = "root".to_string();
    let items = vec![
        found("root", 0, true),
        failed(1),
        found("root/a", 1, false),
        failed(7),
        WalkItem::Failed { depth: None },
        failed(usize::MAX),
    ];
    let entries = scan_directory(&items, &root, no_columns()).unwrap();
    assert_eq!(entries.len(), 1);
    assert_eq!(entries[0].path, "root/a");
}

#[test]
fn root_failure_is_a_failed_step_at_depth_zero() {
    assert!(failed(0).root_failure());
    assert!(!failed(1).root_failure());
    assert!(!WalkItem::Failed { depth: None }.root_failure());
    assert!(!found("root", 0, true).root_failure());
}

#[test]
fn no_session_on_a_walk_that_could_not_read_its_root() {
    let root = "root".to_string();
    assert_eq!(
        AppState::from_scan(&vec![failed(0)], &root, &args(None)).err(),
        Some(ScanError::RootFailed)
    );
    let items = vec![found("root", 0, true), found("root/a", 1, false), failed(0)];
    assert_eq!(AppState::from_scan(&items, &root, &args(None)).err(), Some(ScanError::RootFailed));
    // the failure of the root comes before the shape of the rest
    let items = vec![found("root", 0, true), found("root/a/b", 2, false), failed(0)];
    assert_eq!(AppState::from_scan(&items, &root, &args(Some(3))).err(), Some(ScanError::RootFailed));
}

#[test]
fn scan_fills_the_columns_that_were_asked_for() {
    let dir = found("root/a", 1, true);
    let file = found("root/f", 1, false);
    let root = "root".to_string();

    let e = scan_entry(&file, &root, all_columns()).unwrap();
    assert_eq!(e.size, Some(2048));
    assert_eq!(e.permissions, Some("-rw-r--r--".to_string()));
    assert_eq!(e.git_status, Some(FileStatus::Modified));

    // a directory has no size
    let e = scan_entry(&dir, &root, all_columns()).unwrap();
    assert_eq!(e.size, None);
    assert_eq!(e.permissions, Some("drwxr-xr-x".to_string()));

    let only_size = Columns { size: true, permissions: false, git_status: false };
    let e = scan_entry(&file, &root, only_size).unwrap();
    assert_eq!(e.size, Some(2048));
    assert_eq!(e.permissions, None);
    assert_eq!(e.git_status, None);

    let only_status = Columns { size: false, permissions: false, git_status: true };
    let e = scan_entry(&file, &root, only_status).unwrap();
    assert_eq!(e.size, None);
    assert_eq!(e.git_status, Some(FileStatus::Modified));
}

#[test]
fn scan_without_metadata_has_no_size_and_no_permissions() {
    let item = WalkItem::Found(WalkEntry {
        path: "root/f".to_string(),
        depth: 1,
        is_dir: false,
        metadata: None,
        git_status: None,
    });
    let e = scan_entry(&item, &"root".to_string(), all_columns()).unwrap();
    assert_eq!(e.size, None);
    assert_eq!(e.permissions, None);
    assert_eq!(e.git_status, None);
}

#[test]
fn scan_entry_skips_root_and_failures() {
    let root = "root".to_string();
    assert!(scan_entry(&found("root", 0, true), &root, no_columns()).is_none());
    assert!(scan_entry(&failed(1), &root, no_columns()).is_none());
    assert!(scan_entry(&failed(0), &root, no_columns()).is_none());
    assert!(scan_entry(&WalkItem::Failed { depth: None }, &root, no_columns()).is_none());
    assert!(scan_entry(&found("root/", 1, true), &root, no_columns()).is_some());
}

#[test]
fn columns_need_metadata_for_sizes_and_permissions() {
    assert!(all_columns().needs_metadata());
    assert!(!no_columns().needs_metadata());
    assert!(Columns { size: true, permissions: false, git_status: false }.needs_metadata());
    assert!(Columns { size: false, permissions: true, git_status: false }.needs_metadata());
    assert!(!Columns { size: false, permissions: false, git_status: true }.needs_metadata());
}

#[test]
fn session_from_a_walk() {
    let items = vec![
        found("root", 0, true),
        found("root/a", 1, true),
        found("root/a/b", 2, false),
        failed(2),
        found("root/c", 1, false),
    ];
    let state = AppState::from_scan(&items, &"root".to_string(), &args(None)).unwrap();
    assert_eq!(state.master_entries().len(), 3);
    assert_eq!(state.visible_entries().len(), 2);
    assert_eq!(state.selected(), Some(0));
    assert_eq!(state.master_entries()[1].size, None);

    let state = AppState::from_scan(&items, &"root".to_string(), &args(Some(2))).unwrap();
    assert_eq!(state.visible_entries().len(), 3);
    assert!(state.master_entries()[0].is_expanded);

    let mut with_columns = args(None);
    with_columns.size = true;
    with_columns.permissions = true;
    with_columns.git_status = true;
    let state = AppState::from_scan(&items, &"root".to_string(), &with_columns).unwrap();
    assert_eq!(state.master_entries()[1].size, Some(2048));
    assert_eq!(state.master_entries()[0].permissions, Some("drwxr-xr-x".to_string()));
    assert_eq!(state.master_entries()[2].git_status, Some(FileStatus::Modified));
}

#[test]
fn session_from_an_empty_walk() {
    let items = vec![found("root", 0, true)];
    let state = AppState::from_scan(&items, &"root".to_string(), &args(None)).unwrap();
    assert_eq!(state.visible_entries().len(), 0);
    assert_eq!(state.selected(), None);
}

#[test]
fn no_session_from_a_walk_that_is_not_in_preorder() {
    // a second entry at depth 0
    let items = vec![found("root", 0, true), found("elsewhere", 0, true)];
    assert_eq!(
        AppState::from_scan(&items, &"root".to_string(), &args(None)).err(),
        Some(ScanError::NotATree)
    );
    // a child without its directory
    let items = vec![found("root", 0, true), found("root/a/b", 2, false)];
    assert_eq!(
        AppState::from_scan(&items, &"root".to_string(), &args(None)).err(),
        Some(ScanError::NotATree)
    );
}
