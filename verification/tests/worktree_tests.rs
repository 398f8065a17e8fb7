use compaction::worktree::WorktreeSnapshot;
use compaction::worktree::compute_external_changed_paths;
use compaction::worktree::fingerprint_paths;
use compaction::worktree::format_warning_message;
use compaction::worktree::parse_porcelain_v2_entry_path;
use compaction::worktree::parse_porcelain_v2_z_paths;
use compaction::worktree::should_pause;
use compaction::worktree::should_warn_external_change;
use compaction::worktree::snapshot_from_status_output;

#[test]
fn parse_porcelain_v2_z_extracts_paths() {
    let input = b"1 .M N... 100644 100644 100644 abcdef0 abcdef1 file_a\0? file_b\0! file_c\0";
    let paths = parse_porcelain_v2_z_paths(input, 10);
    assert_eq!(paths, vec!["file_a".to_string(), "file_b".to_string()]);
}

#[test]
fn format_warning_message_truncates_and_uses_ellipsis() {
    let paths = vec![
        "a".to_string(),
        "b".to_string(),
        "c".to_string(),
        "d".to_string(),
        "e".to_string(),
        "f".to_string(),
    ];
    let msg = format_warning_message(&paths);
    assert!(msg.contains("- a"));
    assert!(msg.contains("- b"));
    assert!(msg.contains("- c"));
    assert!(msg.contains("- d"));
    assert!(msg.contains("- ..."));
    assert!(!msg.contains("- e"));
    assert!(!msg.contains("- f"));
}

#[test]
fn compute_external_changed_paths_subtracts_baseline_and_codex_touched() {
    let baseline = WorktreeSnapshot {
        dirty_paths: vec!["a".to_string(), "b".to_string()],
        fingerprint: "x".to_string(),
    };
    let current = WorktreeSnapshot {
        dirty_paths: vec!["a".to_string(), "b".to_string(), "c".to_string()],
        fingerprint: "y".to_string(),
    };

    let external = compute_external_changed_paths(&baseline, &current, &["c".to_string()]);
    assert!(external.is_empty());

    let external = compute_external_changed_paths(&baseline, &current, &[]);
    assert_eq!(external, vec!["c".to_string()]);
}

#[test]
fn should_warn_for_fingerprint_change_when_now_clean() {
    let baseline = WorktreeSnapshot {
        dirty_paths: vec!["a".to_string()],
        fingerprint: "old".to_string(),
    };
    let current = WorktreeSnapshot {
        dirty_paths: vec![],
        fingerprint: "new".to_string(),
    };

    assert!(should_warn_external_change(&baseline, &current, &[]));
}

#[test]
fn soft_pause_triggers_when_external_change_detected() {
    let baseline = WorktreeSnapshot {
        dirty_paths: vec!["a".to_string()],
        fingerprint: "old".to_string(),
    };
    let current = WorktreeSnapshot {
        dirty_paths: vec!["a".to_string(), "README.md".to_string()],
        fingerprint: "new".to_string(),
    };

    assert!(should_pause(false, &baseline, &current));
}

#[test]
fn soft_pause_is_suppressed_once_when_bypassed() {
    let baseline = WorktreeSnapshot {
        dirty_paths: vec!["a".to_string()],
        fingerprint: "old".to_string(),
    };
    let current = WorktreeSnapshot {
        dirty_paths: vec!["a".to_string(), "README.md".to_string()],
        fingerprint: "new".to_string(),
    };

    assert!(!should_pause(true, &baseline, &current));
    assert!(should_pause(false, &baseline, &current));
}

#[test]
fn fingerprint_is_the_sha1_hex_of_joined_paths() {
    assert_eq!(
        fingerprint_paths(&vec![]),
        "da39a3ee5e6b4b0d3255bfef95601890afd80709".to_string()
    );
    assert_eq!(
        fingerprint_paths(&vec!["a".to_string(), "b".to_string()]),
        "fcd127ffa1016069006ad91f3f361248f9bdf272".to_string()
    );
}

#[test]
fn snapshot_sorts_paths_and_fingerprints_them() {
    let input = b"? file_b\0? file_a\0";
    let snap = snapshot_from_status_output(input);
    assert_eq!(
        snap.dirty_paths,
        vec!["file_a".to_string(), "file_b".to_string()]
    );
    assert_eq!(
        snap.fingerprint,
        "5e7d4667483873050112a314d79ef24f2996047a".to_string()
    );
}

#[test]
fn entry_paths_follow_the_porcelain_kinds() {
    assert_eq!(
        parse_porcelain_v2_entry_path(b"2 R. N... 100644 100644 100644 abc def R100 new_name"),
        Some("new_name".to_string())
    );
    assert_eq!(parse_porcelain_v2_entry_path(b"! ignored_file"), None);
    assert_eq!(parse_porcelain_v2_entry_path(b""), None);
    assert_eq!(parse_porcelain_v2_entry_path(b"?"), None);
    assert_eq!(parse_porcelain_v2_entry_path(b"1_no_space"), None);
    // Non-UTF-8 entries are skipped entirely.
    assert_eq!(parse_porcelain_v2_entry_path(b"? \xff\xfe"), None);
    assert_eq!(
        parse_porcelain_v2_entry_path(b"? caf\xc3\xa9"),
        Some("caf\u{e9}".to_string())
    );
}

#[test]
fn z_paths_respects_the_collect_then_check_limit() {
    let input = b"? a\0? b\0? c\0";
    assert_eq!(parse_porcelain_v2_z_paths(input, 2).len(), 2);
    // A zero limit still admits the first collected path.
    assert_eq!(parse_porcelain_v2_z_paths(input, 0).len(), 1);
}

#[test]
fn warning_message_sorts_the_displayed_paths() {
    let msg = format_warning_message(&["b".to_string(), "a".to_string()]);
    let a_at = msg.find("- a").unwrap();
    let b_at = msg.find("- b").unwrap();
    assert!(a_at < b_at);
    assert!(msg.starts_with("Working tree changed outside this session since last turn."));
}
