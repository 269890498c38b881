use noteworm::detect::{differs, differs_lenient};
use noteworm::reconcile::{is_protected_path, reconcile, SyncAction};
use noteworm::tree::{Tree, TreeFile};

fn tree(files: Vec<(&str, Vec<u8>)>) -> Tree {
    Tree {
        files: files
            .into_iter()
            .map(|(p, contents)| TreeFile { rel_path: p.to_string(), contents })
            .collect(),
    }
}

fn find_contents<'a>(t: &'a Tree, path: &str) -> Option<&'a Vec<u8>> {
    t.files
        .iter()
        .find(|f| f.rel_path == path)
        .map(|f| &f.contents)
}

#[test]
fn differs_detects_any_byte_change() {
    // Equal size, one byte changed, at several offsets.
    let a: Vec<u8> = (0..=255u8).cycle().take(30000).collect();
    for offset in [0usize, 1, 9999, 10000, 15000, 29999] {
        let mut b = a.clone();
        b[offset] ^= 0x01;
        assert!(differs(&a, &b), "offset {offset}");
        assert!(differs(&b, &a), "offset {offset}");
    }
    assert!(!differs(&a, &a.clone()));
}

#[test]
fn differs_short_circuits_on_size() {
    let a = vec![1u8, 2, 3];
    let b = vec![1u8, 2, 3, 4];
    assert!(differs(&a, &b));
    assert!(!differs(&Vec::new(), &Vec::new()));
}

#[test]
fn differs_lenient_treats_unreadable_as_identical() {
    let a = Some(vec![1u8, 2]);
    let b = Some(vec![9u8, 9]);
    assert!(differs_lenient(&a, &b));
    assert!(!differs_lenient(&None, &b));
    assert!(!differs_lenient(&a, &None));
    assert!(!differs_lenient(&None, &None));
}

#[test]
fn protected_prefix_is_component_wise() {
    assert!(is_protected_path(&".git".to_string()));
    assert!(is_protected_path(&".git/config".to_string()));
    assert!(!is_protected_path(&".gitignore".to_string()));
    assert!(!is_protected_path(&"x/.git".to_string()));
    assert!(!is_protected_path(&"notes/a.md".to_string()));
}

#[test]
fn backup_into_empty_destination() {
    // Source has notes/a.md (10 bytes) and notes/b.png (500 bytes);
    // destination is empty.
    let src = tree(vec![
        ("notes/a.md", vec![b'a'; 10]),
        ("notes/b.png", vec![7u8; 500]),
    ]);
    let dst = tree(vec![]);
    let out = reconcile(&src, dst, false);

    assert_eq!(
        find_contents(&out.destination, "notes/a.md"),
        Some(&vec![b'a'; 10])
    );
    assert_eq!(
        find_contents(&out.destination, "notes/b.png"),
        Some(&vec![7u8; 500])
    );
    assert_eq!(out.destination.files.len(), 2);

    let copies = out
        .report
        .decisions
        .iter()
        .filter(|d| d.action == SyncAction::Copied)
        .count();
    let deletes = out
        .report
        .decisions
        .iter()
        .filter(|d| d.action == SyncAction::Deleted)
        .count();
    assert_eq!(copies, 2);
    assert_eq!(deletes, 0);
}

#[test]
fn backup_prunes_stale_and_skips_identical() {
    // Source has notes/a.md; destination has an identical notes/a.md and a
    // stale notes/stale.md.
    let src = tree(vec![("notes/a.md", b"hello".to_vec())]);
    let dst = tree(vec![
        ("notes/a.md", b"hello".to_vec()),
        ("notes/stale.md", b"old".to_vec()),
    ]);
    let out = reconcile(&src, dst, false);

    assert_eq!(
        find_contents(&out.destination, "notes/a.md"),
        Some(&b"hello".to_vec())
    );
    assert_eq!(find_contents(&out.destination, "notes/stale.md"), None);

    assert_eq!(out.report.decisions.len(), 2);
    assert_eq!(out.report.decisions[0].rel_path, "notes/a.md");
    assert_eq!(out.report.decisions[0].action, SyncAction::Skipped);
    assert_eq!(out.report.decisions[1].rel_path, "notes/stale.md");
    assert_eq!(out.report.decisions[1].action, SyncAction::Deleted);
}

#[test]
fn backup_preserves_protected_subtree() {
    // Destination has .git/config; source has no .git directory.
    let src = tree(vec![("readme.md", b"r".to_vec())]);
    let dst = tree(vec![(".git/config", b"[core]".to_vec())]);
    let out = reconcile(&src, dst, false);

    assert_eq!(
        find_contents(&out.destination, ".git/config"),
        Some(&b"[core]".to_vec())
    );
    let deletes = out
        .report
        .decisions
        .iter()
        .filter(|d| d.action == SyncAction::Deleted)
        .count();
    assert_eq!(deletes, 0);
}

#[test]
fn backup_copies_changed_contents() {
    let src = tree(vec![("f", vec![1u8, 2, 3])]);
    let dst = tree(vec![("f", vec![1u8, 2, 4])]);
    let out = reconcile(&src, dst, false);
    assert_eq!(find_contents(&out.destination, "f"), Some(&vec![1u8, 2, 3]));
    assert_eq!(out.report.decisions.len(), 1);
    assert_eq!(out.report.decisions[0].action, SyncAction::Copied);
}

#[test]
fn dry_run_reports_without_mutating() {
    let src = tree(vec![("a", vec![1u8]), ("b", vec![2u8])]);
    let dst = tree(vec![("a", vec![1u8]), ("stale", vec![3u8])]);
    let wet = reconcile(&src, tree(vec![("a", vec![1u8]), ("stale", vec![3u8])]), false);
    let dry = reconcile(&src, dst, true);

    // The destination is untouched by a dry run.
    assert_eq!(dry.destination.files.len(), 2);
    assert_eq!(find_contents(&dry.destination, "a"), Some(&vec![1u8]));
    assert_eq!(find_contents(&dry.destination, "stale"), Some(&vec![3u8]));
    assert_eq!(find_contents(&dry.destination, "b"), None);

    // The decision trail is the same as the non-dry run's.
    assert_eq!(dry.report.decisions.len(), wet.report.decisions.len());
    for (d, w) in dry.report.decisions.iter().zip(wet.report.decisions.iter()) {
        assert_eq!(d.rel_path, w.rel_path);
        assert_eq!(d.action, w.action);
    }
}

#[test]
fn second_run_changes_nothing() {
    let src = tree(vec![
        ("notes/a.md", b"alpha".to_vec()),
        ("notes/b.md", b"beta".to_vec()),
    ]);
    let dst = tree(vec![
        ("notes/a.md", b"stale".to_vec()),
        ("gone.txt", b"x".to_vec()),
        (".git/HEAD", b"ref".to_vec()),
    ]);
    let first = reconcile(&src, dst, false);
    let second = reconcile(&src, first.destination, false);

    // Idempotence: the second run copies and deletes nothing.
    assert_eq!(second.report.decisions.len(), 2);
    for d in &second.report.decisions {
        assert_eq!(d.action, SyncAction::Skipped);
    }
}
