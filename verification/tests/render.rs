use dusort::model::{DirContent, FileKind, FsTree, Meta};
use dusort::render::{bytes_to_humanreadable, bytes_to_string, render_report};
use dusort::report::summarize;

#[test]
fn humanreadable_keeps_small_sizes_in_bytes() {
    assert_eq!(bytes_to_humanreadable(0), "      0B");
    assert_eq!(bytes_to_humanreadable(500), "    500B");
    assert_eq!(bytes_to_humanreadable(999), "    999B");
}

#[test]
fn humanreadable_truncates_when_scaling() {
    assert_eq!(bytes_to_humanreadable(1_000), "      1K");
    assert_eq!(bytes_to_humanreadable(1_500), "      1K");
    assert_eq!(bytes_to_humanreadable(999_999), "    999K");
    assert_eq!(bytes_to_humanreadable(2_000_000), "      2M");
    assert_eq!(bytes_to_humanreadable(2_002_000), "      2M");
    assert_eq!(bytes_to_humanreadable(3_000_000_000), "      3G");
    assert_eq!(bytes_to_humanreadable(4_000_000_000_000), "      4T");
}

#[test]
fn humanreadable_stops_scaling_at_the_largest_suffix() {
    assert_eq!(bytes_to_humanreadable(1_000_000_000_000_000), "1T");
    assert_eq!(bytes_to_humanreadable(u64::MAX), "18446T");
}

#[test]
fn bytes_format_is_a_wide_plain_count() {
    assert_eq!(bytes_to_string(0), "           0");
    assert_eq!(bytes_to_string(123_456_789), "   123456789");
    assert_eq!(bytes_to_string(18_446_744_073_709_551_615), "18446744073709551615");
}

fn example_report() -> dusort::report::Report {
    let sub = FsTree::Dir {
        path: "root/sub".to_string(),
        meta: Meta { kind: FileKind::Directory, dev: 1, len: 4096 },
        content: DirContent::Children(vec![
            FsTree::Leaf {
                path: "root/sub/c".to_string(),
                meta: Ok(Meta { kind: FileKind::Regular, dev: 1, len: 2_000_000 }),
            },
        ]),
    };
    let children = vec![
        FsTree::Leaf {
            path: "root/a".to_string(),
            meta: Ok(Meta { kind: FileKind::Regular, dev: 1, len: 500 }),
        },
        FsTree::Leaf {
            path: "root/b".to_string(),
            meta: Ok(Meta { kind: FileKind::Regular, dev: 1, len: 1_500 }),
        },
        sub,
    ];
    summarize(&children)
}

#[test]
fn report_renders_ranked_rows_blank_line_and_total() {
    let report = example_report();
    let lines = render_report(&report, false);
    assert_eq!(
        lines,
        vec![
            "    500B root/a".to_string(),
            "      1K root/b".to_string(),
            "      2M root/sub".to_string(),
            "".to_string(),
            "      2M total".to_string(),
        ]
    );
}

#[test]
fn report_renders_raw_bytes_when_asked() {
    let report = example_report();
    let lines = render_report(&report, true);
    assert_eq!(
        lines,
        vec![
            "         500 root/a".to_string(),
            "        1500 root/b".to_string(),
            "     2000000 root/sub".to_string(),
            "".to_string(),
            "     2002000 total".to_string(),
        ]
    );
}

#[test]
fn unreadable_child_still_appears_in_the_rows_at_zero() {
    let children = vec![
        FsTree::Leaf {
            path: "root/a".to_string(),
            meta: Ok(Meta { kind: FileKind::Regular, dev: 1, len: 500 }),
        },
        FsTree::Dir {
            path: "root/bad".to_string(),
            meta: Meta { kind: FileKind::Directory, dev: 1, len: 4096 },
            content: DirContent::Unlisted("permission denied".to_string()),
        },
    ];
    let report = summarize(&children);
    let lines = render_report(&report, false);
    assert_eq!(
        lines,
        vec![
            "      0B root/bad".to_string(),
            "    500B root/a".to_string(),
            "".to_string(),
            "    500B total".to_string(),
        ]
    );
}

#[test]
fn short_overflow_rendering_is_padded_in_the_rows() {
    let children = vec![
        FsTree::Leaf {
            path: "root/huge".to_string(),
            meta: Ok(Meta { kind: FileKind::Regular, dev: 1, len: 1_000_000_000_000_000 }),
        },
    ];
    let report = summarize(&children);
    let lines = render_report(&report, false);
    assert_eq!(
        lines,
        vec![
            "     1T root/huge".to_string(),
            "".to_string(),
            "     1T total".to_string(),
        ]
    );
}
