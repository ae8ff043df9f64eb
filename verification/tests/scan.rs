use dusort::aggregate::{aggregate, sat_add, ErrorLine};
use dusort::classify::should_visit;
use dusort::model::{marker_file_name, DirContent, FileKind, FsTree, Meta};
use dusort::render::render_error_line;
use dusort::report::summarize;

fn file_meta(len: u64) -> Meta {
    Meta { kind: FileKind::Regular, dev: 1, len }
}

fn dir_meta() -> Meta {
    Meta { kind: FileKind::Directory, dev: 1, len: 4096 }
}

fn file_leaf(path: &str, len: u64) -> FsTree {
    FsTree::Leaf { path: path.to_string(), meta: Ok(file_meta(len)) }
}

#[test]
fn should_visit_plain_directory() {
    let meta: Result<Meta, String> = Ok(dir_meta());
    assert!(should_visit(&meta, None));
}

#[test]
fn should_visit_refuses_symlink() {
    let meta: Result<Meta, String> = Ok(Meta { kind: FileKind::Symlink, dev: 1, len: 11 });
    assert!(!should_visit(&meta, None));
    assert!(!should_visit(&meta, Some(1)));
}

#[test]
fn should_visit_refuses_regular_file() {
    let meta: Result<Meta, String> = Ok(file_meta(10));
    assert!(!should_visit(&meta, None));
}

#[test]
fn should_visit_refuses_unreadable_metadata() {
    let meta: Result<Meta, String> = Err("permission denied".to_string());
    assert!(!should_visit(&meta, None));
}

#[test]
fn should_visit_honours_containment_device() {
    let same: Result<Meta, String> = Ok(Meta { kind: FileKind::Directory, dev: 7, len: 4096 });
    let other: Result<Meta, String> = Ok(Meta { kind: FileKind::Directory, dev: 8, len: 4096 });
    assert!(should_visit(&same, Some(7)));
    assert!(!should_visit(&other, Some(7)));
    assert!(should_visit(&other, None));
}

#[test]
fn aggregate_sums_nested_files() {
    let sub = FsTree::Dir {
        path: "root/sub".to_string(),
        meta: dir_meta(),
        content: DirContent::Children(vec![
            file_leaf("root/sub/c", 2_000_000),
        ]),
    };
    let root = FsTree::Dir {
        path: "root".to_string(),
        meta: dir_meta(),
        content: DirContent::Children(vec![
            file_leaf("root/a", 500),
            file_leaf("root/b", 1_500),
            sub,
        ]),
    };
    let (total, errors) = aggregate(&root);
    assert_eq!(total, 2_002_000);
    assert!(errors.is_empty());
}

#[test]
fn aggregate_marker_truncates_to_marker_size() {
    let marked = FsTree::Dir {
        path: "root/cache".to_string(),
        meta: dir_meta(),
        content: DirContent::Marker(7),
    };
    let (total, errors) = aggregate(&marked);
    assert_eq!(total, 7);
    assert!(errors.is_empty());
}

#[test]
fn aggregate_unlistable_directory_is_zero_with_error() {
    let bad = FsTree::Dir {
        path: "root/bad".to_string(),
        meta: dir_meta(),
        content: DirContent::Unlisted("permission denied".to_string()),
    };
    let (total, errors) = aggregate(&bad);
    assert_eq!(total, 0);
    assert_eq!(errors.len(), 1);
    assert_eq!(errors[0].path, "root/bad");
    assert_eq!(errors[0].msg, "permission denied");
}

#[test]
fn aggregate_unreadable_child_counts_zero_and_continues() {
    let root = FsTree::Dir {
        path: "root".to_string(),
        meta: dir_meta(),
        content: DirContent::Children(vec![
            file_leaf("root/a", 10),
            FsTree::Leaf { path: "root/ghost".to_string(), meta: Err("io error".to_string()) },
            file_leaf("root/b", 32),
        ]),
    };
    let (total, errors) = aggregate(&root);
    assert_eq!(total, 42);
    assert_eq!(errors.len(), 1);
    assert_eq!(errors[0].path, "root/ghost");
}

#[test]
fn aggregate_on_non_directory_reports_invalid_input() {
    let leaf = file_leaf("root/a", 500);
    let (total, errors) = aggregate(&leaf);
    assert_eq!(total, 0);
    assert_eq!(errors.len(), 1);
    assert_eq!(errors[0].path, "root/a");
    assert_eq!(errors[0].msg, "invalid input: not a directory");
}

#[test]
fn aggregate_symlink_leaf_is_sized_by_its_own_length() {
    let root = FsTree::Dir {
        path: "root".to_string(),
        meta: dir_meta(),
        content: DirContent::Children(vec![
            FsTree::Leaf {
                path: "root/link".to_string(),
                meta: Ok(Meta { kind: FileKind::Symlink, dev: 1, len: 11 }),
            },
        ]),
    };
    let (total, errors) = aggregate(&root);
    assert_eq!(total, 11);
    assert!(errors.is_empty());
}

#[test]
fn aggregate_foreign_device_directory_is_sized_not_traversed() {
    // With containment on, the walk records a directory on another device
    // as a leaf: only its own metadata length contributes.
    let root = FsTree::Dir {
        path: "root".to_string(),
        meta: dir_meta(),
        content: DirContent::Children(vec![
            FsTree::Leaf {
                path: "root/mnt".to_string(),
                meta: Ok(Meta { kind: FileKind::Directory, dev: 9, len: 4096 }),
            },
            file_leaf("root/a", 4),
        ]),
    };
    let (total, errors) = aggregate(&root);
    assert_eq!(total, 4100);
    assert!(errors.is_empty());
}

#[test]
fn aggregate_clips_at_the_counter_maximum() {
    let root = FsTree::Dir {
        path: "root".to_string(),
        meta: dir_meta(),
        content: DirContent::Children(vec![
            file_leaf("root/a", u64::MAX),
            file_leaf("root/b", 1),
        ]),
    };
    let (total, errors) = aggregate(&root);
    assert_eq!(total, u64::MAX);
    assert!(errors.is_empty());
}

#[test]
fn sat_add_is_plain_addition_until_the_maximum() {
    assert_eq!(sat_add(2, 3), 5);
    assert_eq!(sat_add(u64::MAX - 1, 1), u64::MAX);
    assert_eq!(sat_add(u64::MAX, 7), u64::MAX);
}

#[test]
fn summarize_orders_ascending_and_totals_exactly() {
    let sub = FsTree::Dir {
        path: "root/sub".to_string(),
        meta: dir_meta(),
        content: DirContent::Children(vec![
            file_leaf("root/sub/c", 2_000_000),
        ]),
    };
    let children = vec![
        sub,
        file_leaf("root/b", 1_500),
        file_leaf("root/a", 500),
    ];
    let report = summarize(&children);
    assert_eq!(report.entries.len(), 3);
    assert_eq!(report.entries[0].path, "root/a");
    assert_eq!(report.entries[0].size, 500);
    assert_eq!(report.entries[1].path, "root/b");
    assert_eq!(report.entries[1].size, 1_500);
    assert_eq!(report.entries[2].path, "root/sub");
    assert_eq!(report.entries[2].size, 2_000_000);
    assert_eq!(report.total, 2_002_000);
    assert!(report.errors.is_empty());
}

#[test]
fn summarize_keeps_both_entries_on_a_size_tie() {
    let children = vec![
        file_leaf("root/x", 100),
        file_leaf("root/y", 100),
        file_leaf("root/z", 50),
    ];
    let report = summarize(&children);
    assert_eq!(report.entries.len(), 3);
    assert_eq!(report.entries[0].path, "root/z");
    assert_eq!(report.entries[0].size, 50);
    assert_eq!(report.entries[1].size, 100);
    assert_eq!(report.entries[2].size, 100);
    let mut tied: Vec<&str> = vec![&report.entries[1].path, &report.entries[2].path];
    tied.sort();
    assert_eq!(tied, vec!["root/x", "root/y"]);
    assert_eq!(report.total, 250);
}

#[test]
fn summarize_unreadable_child_directory_ranks_at_zero() {
    let children = vec![
        file_leaf("root/a", 500),
        FsTree::Dir {
            path: "root/bad".to_string(),
            meta: dir_meta(),
            content: DirContent::Unlisted("permission denied".to_string()),
        },
    ];
    let report = summarize(&children);
    assert_eq!(report.entries.len(), 2);
    assert_eq!(report.entries[0].path, "root/bad");
    assert_eq!(report.entries[0].size, 0);
    assert_eq!(report.entries[1].path, "root/a");
    assert_eq!(report.total, 500);
    assert_eq!(report.errors.len(), 1);
    assert_eq!(report.errors[0].path, "root/bad");
    assert_eq!(report.errors[0].msg, "permission denied");
}

#[test]
fn summarize_sizes_a_plain_child_by_its_own_metadata() {
    let children = vec![
        FsTree::Leaf {
            path: "root/link".to_string(),
            meta: Ok(Meta { kind: FileKind::Symlink, dev: 1, len: 11 }),
        },
        FsTree::Leaf { path: "root/ghost".to_string(), meta: Err("io error".to_string()) },
    ];
    let report = summarize(&children);
    assert_eq!(report.entries.len(), 2);
    assert_eq!(report.entries[0].path, "root/ghost");
    assert_eq!(report.entries[0].size, 0);
    assert_eq!(report.entries[1].path, "root/link");
    assert_eq!(report.entries[1].size, 11);
    assert_eq!(report.total, 11);
    assert_eq!(report.errors.len(), 1);
    assert_eq!(report.errors[0].path, "root/ghost");
    assert_eq!(report.errors[0].msg, "io error");
}

#[test]
fn summarize_of_nothing_is_an_empty_report() {
    let children: Vec<FsTree> = Vec::new();
    let report = summarize(&children);
    assert!(report.entries.is_empty());
    assert_eq!(report.total, 0);
    assert!(report.errors.is_empty());
}

#[test]
fn error_lines_render_as_path_colon_description() {
    let e = ErrorLine { path: "root/bad".to_string(), msg: "permission denied".to_string() };
    assert_eq!(render_error_line(&e), "root/bad: permission denied");
}

#[test]
fn marker_name_is_nobackup() {
    assert_eq!(marker_file_name(), ".nobackup");
}
