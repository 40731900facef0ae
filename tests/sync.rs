use dirmirror::driver::{check_pair, copy_step, pairs_to_sync, plan_pass, CopyStep, ParentPolicy, StructuralError};
use dirmirror::listing::{collect_files, ListingMode, WalkItem};
use dirmirror::meta::{is_stale, FileMeta, Timestamp};
use dirmirror::reconcile::{classify, plan_sync, Outcome, SyncPlan};
use dirmirror::relpath::same_path;
use dirmirror::snapshot::{FileEntry, Snapshot};

fn meta(size: u64, secs: i64) -> FileMeta {
    FileMeta::new(size, Timestamp::new(secs, 0))
}

fn snap(files: &[(&str, u64, i64)]) -> Snapshot {
    let mut s = Snapshot::new();
    for (p, size, secs) in files {
        s.insert(p.as_bytes().to_vec(), meta(*size, *secs));
    }
    s
}

fn sorted(v: &[Vec<u8>]) -> Vec<String> {
    let mut out: Vec<String> = v.iter().map(|p| String::from_utf8(p.clone()).unwrap()).collect();
    out.sort();
    out
}

fn file(p: &str, size: u64, secs: i64) -> WalkItem {
    WalkItem::File(FileEntry { path: p.as_bytes().to_vec(), meta: meta(size, secs) })
}

/// Applies a plan to a destination snapshot, copying the source's metadata.
fn apply(src: &Snapshot, dst: &Snapshot, plan: &SyncPlan) -> Snapshot {
    let mut out = Snapshot::new();
    for e in &dst.entries {
        if !plan.to_delete.iter().any(|p| p == &e.path) {
            out.insert(e.path.clone(), e.meta);
        }
    }
    for p in &plan.to_copy {
        out.insert(p.clone(), src.get(p).unwrap());
    }
    out
}

#[test]
fn example_scenario() {
    let src = snap(&[("a.txt", 10, 2), ("b.txt", 5, 1)]);
    let dst = snap(&[("a.txt", 10, 1), ("c.txt", 3, 1)]);
    let plan = plan_sync(&src, &dst);
    assert_eq!(sorted(&plan.to_delete), vec!["a.txt", "c.txt"]);
    assert_eq!(sorted(&plan.to_copy), vec!["a.txt", "b.txt"]);
    let after = apply(&src, &dst, &plan);
    let names: Vec<Vec<u8>> = after.entries.iter().map(|e| e.path.clone()).collect();
    assert_eq!(sorted(&names), vec!["a.txt", "b.txt"]);
    assert_eq!(after.get(&b"a.txt".to_vec()), Some(meta(10, 2)));
}

#[test]
fn disjoint_trees_replace_destination() {
    let src = snap(&[("x", 1, 5), ("d/y", 2, 5)]);
    let dst = snap(&[("z", 3, 9)]);
    let plan = plan_sync(&src, &dst);
    assert_eq!(sorted(&plan.to_delete), vec!["z"]);
    assert_eq!(sorted(&plan.to_copy), vec!["d/y", "x"]);
    for p in &plan.to_delete {
        assert!(src.get(p).is_none());
    }
}

#[test]
fn same_size_destination_not_older_is_unchanged() {
    let src = snap(&[("f", 7, 3)]);
    let equal = snap(&[("f", 7, 3)]);
    let newer = snap(&[("f", 7, 4)]);
    let p = b"f".to_vec();
    assert_eq!(classify(&src, &equal, &p), Some(Outcome::Unchanged));
    assert_eq!(classify(&src, &newer, &p), Some(Outcome::Unchanged));
    assert!(plan_sync(&src, &newer).is_empty());
}

#[test]
fn same_size_newer_source_is_refreshed() {
    let src = snap(&[("f", 7, 5)]);
    let dst = snap(&[("f", 7, 4)]);
    assert_eq!(classify(&src, &dst, &b"f".to_vec()), Some(Outcome::Refresh));
    let plan = plan_sync(&src, &dst);
    assert_eq!(sorted(&plan.to_delete), vec!["f"]);
    assert_eq!(sorted(&plan.to_copy), vec!["f"]);
}

#[test]
fn nanoseconds_decide_newer() {
    let a = Timestamp::new(5, 2);
    let b = Timestamp::new(5, 1);
    assert!(a.is_newer_than(&b));
    assert!(!b.is_newer_than(&a));
    assert!(!a.is_newer_than(&a));
    assert!(Timestamp::new(6, 0).is_newer_than(&Timestamp::new(5, 999_999_999)));
    assert!(Timestamp::new(-1, 0).is_newer_than(&Timestamp::new(-2, 500)));
}

#[test]
fn different_size_is_refreshed_whatever_the_times() {
    let src = snap(&[("f", 8, 1)]);
    let dst = snap(&[("f", 7, 9)]);
    assert_eq!(classify(&src, &dst, &b"f".to_vec()), Some(Outcome::Refresh));
    assert!(is_stale(&meta(8, 1), &meta(7, 1)));
    let plan = plan_sync(&src, &dst);
    let after = apply(&src, &dst, &plan);
    assert_eq!(after.get(&b"f".to_vec()).unwrap().size, 8);
}

#[test]
fn classify_one_sided_and_absent_paths() {
    let src = snap(&[("s", 1, 1)]);
    let dst = snap(&[("d", 1, 1)]);
    assert_eq!(classify(&src, &dst, &b"s".to_vec()), Some(Outcome::Copy));
    assert_eq!(classify(&src, &dst, &b"d".to_vec()), Some(Outcome::Delete));
    assert_eq!(classify(&src, &dst, &b"n".to_vec()), None);
}

#[test]
fn second_pass_does_nothing() {
    let src = snap(&[("a", 10, 2), ("b", 5, 1), ("k", 4, 1)]);
    let dst = snap(&[("a", 10, 1), ("c", 3, 1), ("k", 4, 3)]);
    let first = plan_sync(&src, &dst);
    assert!(!first.is_empty());
    let after = apply(&src, &dst, &first);
    let second = plan_sync(&src, &after);
    assert!(second.is_empty());
    assert!(second.to_delete.is_empty());
    assert!(second.to_copy.is_empty());
}

#[test]
fn empty_trees_plan_nothing() {
    let plan = plan_sync(&Snapshot::new(), &Snapshot::new());
    assert!(plan.is_empty());
}

#[test]
fn self_sync_is_refused_first() {
    assert_eq!(check_pair(true, true, true), Err(StructuralError::SameEntry));
    assert_eq!(check_pair(true, false, false), Err(StructuralError::SameEntry));
    assert_eq!(check_pair(false, false, true), Err(StructuralError::SourceNotDirectory));
    assert_eq!(check_pair(false, true, false), Err(StructuralError::DestinationNotDirectory));
    assert_eq!(check_pair(false, true, true), Ok(()));
}

#[test]
fn copy_step_follows_policy() {
    assert_eq!(ParentPolicy::default_policy(), ParentPolicy::CreateMissing);
    assert_eq!(copy_step(ParentPolicy::CreateMissing, true), CopyStep::Copy);
    assert_eq!(copy_step(ParentPolicy::SkipIfMissing, true), CopyStep::Copy);
    assert_eq!(copy_step(ParentPolicy::CreateMissing, false), CopyStep::CreateParentThenCopy);
    assert_eq!(copy_step(ParentPolicy::SkipIfMissing, false), CopyStep::Skip);
}

#[test]
fn dispatcher_picks_matched_subdirectories() {
    let names = vec![b"one".to_vec(), b"two".to_vec(), b"three".to_vec()];
    let r = pairs_to_sync(&names, &vec![true, false, true]);
    assert_eq!(r, vec![b"one".to_vec(), b"three".to_vec()]);
    assert!(pairs_to_sync(&Vec::new(), &Vec::new()).is_empty());
}

#[test]
fn lenient_listing_skips_and_records() {
    let items = vec![
        WalkItem::Other,
        file("a", 1, 1),
        WalkItem::Unreadable { path: b"bad".to_vec(), at_root: false },
        file("b", 2, 1),
        file("a", 9, 9),
    ];
    let l = collect_files(&items, ListingMode::Lenient).unwrap();
    assert_eq!(l.snapshot.len(), 2);
    assert_eq!(l.snapshot.get(&b"a".to_vec()), Some(meta(1, 1)));
    assert_eq!(l.skipped, vec![b"bad".to_vec()]);
}

#[test]
fn strict_listing_fails_on_first_unreadable() {
    let items = vec![
        file("a", 1, 1),
        WalkItem::Unreadable { path: b"bad".to_vec(), at_root: false },
        WalkItem::Unreadable { path: b"worse".to_vec(), at_root: false },
    ];
    let e = collect_files(&items, ListingMode::Strict).unwrap_err();
    assert_eq!(e.path, b"bad".to_vec());
}

#[test]
fn unreadable_root_fails_in_either_mode() {
    let items = vec![WalkItem::Unreadable { path: Vec::new(), at_root: true }];
    assert!(collect_files(&items, ListingMode::Lenient).is_err());
    assert!(collect_files(&items, ListingMode::Strict).is_err());
}

#[test]
fn plan_pass_lists_then_reconciles() {
    let src = vec![file("a", 10, 2), file("b", 5, 1)];
    let dst = vec![WalkItem::Other, file("a", 10, 1), file("c", 3, 1)];
    let plan = plan_pass(&src, &dst, ListingMode::Lenient).unwrap();
    assert_eq!(sorted(&plan.to_delete), vec!["a", "c"]);
    assert_eq!(sorted(&plan.to_copy), vec!["a", "b"]);
    let broken = vec![WalkItem::Unreadable { path: b"x".to_vec(), at_root: true }];
    assert_eq!(plan_pass(&broken, &dst, ListingMode::Lenient).unwrap_err().path, b"x".to_vec());
}

#[test]
fn snapshot_keeps_first_of_duplicate_paths() {
    let mut s = Snapshot::new();
    assert!(s.insert(b"p".to_vec(), meta(1, 1)));
    assert!(!s.insert(b"p".to_vec(), meta(2, 2)));
    assert_eq!(s.len(), 1);
    assert_eq!(s.get(&b"p".to_vec()), Some(meta(1, 1)));
    assert!(same_path(&b"p".to_vec(), &b"p".to_vec()));
    assert!(!same_path(&b"p".to_vec(), &b"q".to_vec()));
    assert!(!same_path(&b"p".to_vec(), &b"pp".to_vec()));
}
