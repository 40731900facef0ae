use vstd::prelude::*;

use crate::listing::{collect_files, fails, files_upto, EnumerationError, ListingMode, WalkItem};
use crate::reconcile::{copy_set, delete_set, distinct_paths, plan_sync, SyncPlan};

verus! {

/// Why a source/destination pair cannot be synced at all.
#[derive(Clone, Copy, Debug, PartialEq, Eq, Structural)]
pub enum StructuralError {
    /// Both paths name the same file-system entry.
    SameEntry,
    /// The source is missing or not a directory.
    SourceNotDirectory,
    /// The destination is missing or not a directory.
    DestinationNotDirectory,
}

/// The guard run before a pass touches anything: the two paths must be
/// distinct entries, and both must be directories. A shared entry is
/// reported first.
pub fn check_pair(same_entry: bool, src_is_dir: bool, dst_is_dir: bool) -> (r: Result<(), StructuralError>)
    ensures
        same_entry ==> r == Err::<(), StructuralError>(StructuralError::SameEntry),
        !same_entry && !src_is_dir ==> r == Err::<(), StructuralError>(StructuralError::SourceNotDirectory),
        !same_entry && src_is_dir && !dst_is_dir ==> r == Err::<(), StructuralError>(
            StructuralError::DestinationNotDirectory,
        ),
        r is Ok <==> !same_entry && src_is_dir && dst_is_dir,
{
    if same_entry {
        Err(StructuralError::SameEntry)
    } else if !src_is_dir {
        Err(StructuralError::SourceNotDirectory)
    } else if !dst_is_dir {
        Err(StructuralError::DestinationNotDirectory)
    } else {
        Ok(())
    }
}

/// What a copy does when the destination file's parent directory is absent.
#[derive(Clone, Copy, Debug, PartialEq, Eq, Structural)]
pub enum ParentPolicy {
    /// Create the missing directories, then copy. The default: with it a
    /// pass leaves the destination holding every source file.
    CreateMissing,
    /// Skip the copy, so that the pass writes only into directories the
    /// destination already has.
    SkipIfMissing,
}

impl ParentPolicy {
    pub fn default_policy() -> (r: ParentPolicy)
        ensures
            r == ParentPolicy::CreateMissing,
    {
        ParentPolicy::CreateMissing
    }
}

/// The work a single copy calls for.
#[derive(Clone, Copy, Debug, PartialEq, Eq, Structural)]
pub enum CopyStep {
    /// The parent exists: copy.
    Copy,
    /// Create the parent directories, then copy.
    CreateParentThenCopy,
    /// Leave the file out of this pass.
    Skip,
}

/// Decides one copy from the policy and whether the destination's parent
/// directory exists.
pub fn copy_step(policy: ParentPolicy, parent_exists: bool) -> (r: CopyStep)
    ensures
        parent_exists ==> r == CopyStep::Copy,
        !parent_exists && policy == ParentPolicy::CreateMissing ==> r == CopyStep::CreateParentThenCopy,
        !parent_exists && policy == ParentPolicy::SkipIfMissing ==> r == CopyStep::Skip,
{
    if parent_exists {
        CopyStep::Copy
    } else {
        match policy {
            ParentPolicy::CreateMissing => CopyStep::CreateParentThenCopy,
            ParentPolicy::SkipIfMissing => CopyStep::Skip,
        }
    }
}

/// The names among the first `n` that have a source counterpart.
pub open spec fn matched_upto(names: Seq<Vec<u8>>, src_is_dir: Seq<bool>, n: int) -> Seq<Seq<u8>>
    decreases n,
{
    if n <= 0 {
        Seq::empty()
    } else if src_is_dir[n - 1] {
        matched_upto(names, src_is_dir, n - 1).push(names[n - 1]@)
    } else {
        matched_upto(names, src_is_dir, n - 1)
    }
}

/// Picks, among the destination root's subdirectories, those to sync: the
/// ones whose counterpart under the source root is a directory, in the order
/// given. The others are left alone.
pub fn pairs_to_sync(dst_subdirs: &Vec<Vec<u8>>, src_is_dir: &Vec<bool>) -> (r: Vec<Vec<u8>>)
    requires
        dst_subdirs@.len() == src_is_dir@.len(),
    ensures
        r@.map_values(|v: Vec<u8>| v@) == matched_upto(dst_subdirs@, src_is_dir@, dst_subdirs@.len() as int),
{
    let mut r: Vec<Vec<u8>> = Vec::new();
    let mut i: usize = 0;
    while i < dst_subdirs.len()
        invariant
            dst_subdirs@.len() == src_is_dir@.len(),
            0 <= i <= dst_subdirs@.len(),
            r@.map_values(|v: Vec<u8>| v@) == matched_upto(dst_subdirs@, src_is_dir@, i as int),
        decreases dst_subdirs@.len() - i,
    {
        if src_is_dir[i] {
            let ghost before = r@;
            let name = dst_subdirs[i].clone();
            assert(name@ == dst_subdirs@[i as int]@);
            r.push(name);
            assert(r@.map_values(|v: Vec<u8>| v@) =~= before.map_values(|v: Vec<u8>| v@).push(
                dst_subdirs@[i as int]@,
            ));
        }
        i = i + 1;
    }
    r
}

/// Lists both sides of a pair from what their walks reported and reconciles
/// them. Fails with the source's listing error, else the destination's.
pub fn plan_pass(src_items: &Vec<WalkItem>, dst_items: &Vec<WalkItem>, mode: ListingMode) -> (r: Result<SyncPlan, EnumerationError>)
    ensures
        r is Err <==> (exists|i: int| 0 <= i < src_items@.len() && fails(#[trigger] src_items@[i], mode))
            || (exists|i: int| 0 <= i < dst_items@.len() && fails(#[trigger] dst_items@[i], mode)),
        r matches Err(e) ==> (exists|i: int| 0 <= i < src_items@.len() && fails(#[trigger] src_items@[i], mode))
            ==> exists|i: int|
            0 <= i < src_items@.len() && fails(#[trigger] src_items@[i], mode)
                && src_items@[i]->Unreadable_path@ == e.path@
                && forall|j: int| 0 <= j < i ==> !fails(#[trigger] src_items@[j], mode),
        r matches Ok(plan) ==> {
            let s = files_upto(src_items@, src_items@.len() as int);
            let d = files_upto(dst_items@, dst_items@.len() as int);
            &&& plan.deletes() == delete_set(s, d)
            &&& plan.copies() == copy_set(s, d)
            &&& distinct_paths(plan.to_delete@)
            &&& distinct_paths(plan.to_copy@)
        },
{
    let src = match collect_files(src_items, mode) {
        Ok(l) => l,
        Err(e) => return Err(e),
    };
    let dst = match collect_files(dst_items, mode) {
        Ok(l) => l,
        Err(e) => return Err(e),
    };
    Ok(plan_sync(&src.snapshot, &dst.snapshot))
}

} // verus!
