use vstd::prelude::*;

use crate::meta::FileMeta;
use crate::snapshot::{FileEntry, Snapshot};

verus! {

/// One entry met while walking a tree, as the walker reports it.
#[derive(Clone, Debug)]
pub enum WalkItem {
    /// A regular file, with its path relative to the root.
    File(FileEntry),
    /// A directory, a symbolic link or a special file: never listed.
    Other,
    /// An entry that could not be read, with its path relative to the root
    /// (empty when unknown). `at_root` is set when the root itself failed.
    Unreadable { path: Vec<u8>, at_root: bool },
}

/// What listing does with an unreadable entry below the root.
#[derive(Clone, Copy, Debug, PartialEq, Eq, Structural)]
pub enum ListingMode {
    /// Skip it and record its path.
    Lenient,
    /// Fail the listing.
    Strict,
}

/// The listing of a tree could not be completed.
#[derive(Clone, Debug)]
pub struct EnumerationError {
    /// The relative path of the entry that failed (empty for the root).
    pub path: Vec<u8>,
}

/// The files found under a root, and the unreadable entries skipped on the
/// way, in the order they were met.
#[derive(Clone, Debug)]
pub struct Listing {
    pub snapshot: Snapshot,
    pub skipped: Vec<Vec<u8>>,
}

/// `item` ends the listing under `mode`.
pub open spec fn fails(item: WalkItem, mode: ListingMode) -> bool {
    match item {
        WalkItem::Unreadable { path, at_root } => at_root || mode is Strict,
        _ => false,
    }
}

/// The files among the first `n` items; a path met twice keeps its first
/// metadata.
pub open spec fn files_upto(items: Seq<WalkItem>, n: int) -> Map<Seq<u8>, FileMeta>
    decreases n,
{
    if n <= 0 {
        Map::empty()
    } else {
        let m = files_upto(items, n - 1);
        match items[n - 1] {
            WalkItem::File(e) => if m.contains_key(e.path@) {
                m
            } else {
                m.insert(e.path@, e.meta)
            },
            _ => m,
        }
    }
}

/// The paths of the unreadable entries among the first `n` items.
pub open spec fn skipped_upto(items: Seq<WalkItem>, n: int) -> Seq<Seq<u8>>
    decreases n,
{
    if n <= 0 {
        Seq::empty()
    } else {
        let s = skipped_upto(items, n - 1);
        match items[n - 1] {
            WalkItem::Unreadable { path, at_root } => s.push(path@),
            _ => s,
        }
    }
}

/// Turns what a walk reported into a snapshot. A failure at the root always
/// fails the listing; one below it fails it in strict mode and is skipped
/// and recorded in lenient mode. The error names the first failing entry.
pub fn collect_files(items: &Vec<WalkItem>, mode: ListingMode) -> (r: Result<Listing, EnumerationError>)
    ensures
        r is Err <==> exists|i: int| 0 <= i < items@.len() && fails(#[trigger] items@[i], mode),
        r matches Err(e) ==> exists|i: int|
            0 <= i < items@.len() && fails(#[trigger] items@[i], mode)
                && items@[i]->Unreadable_path@ == e.path@
                && forall|j: int| 0 <= j < i ==> !fails(#[trigger] items@[j], mode),
        r matches Ok(l) ==> {
            &&& l.snapshot.wf()
            &&& l.snapshot@ == files_upto(items@, items@.len() as int)
            &&& l.skipped@.map_values(|v: Vec<u8>| v@) == skipped_upto(items@, items@.len() as int)
        },
{
    let mut snapshot = Snapshot::new();
    let mut skipped: Vec<Vec<u8>> = Vec::new();
    let mut i: usize = 0;
    while i < items.len()
        invariant
            0 <= i <= items@.len(),
            snapshot.wf(),
            snapshot@ == files_upto(items@, i as int),
            skipped@.map_values(|v: Vec<u8>| v@) == skipped_upto(items@, i as int),
            forall|j: int| 0 <= j < i ==> !fails(#[trigger] items@[j], mode),
        decreases items@.len() - i,
    {
        match &items[i] {
            WalkItem::File(e) => {
                let p = e.path.clone();
                assert(p@ == e.path@);
                snapshot.insert(p, e.meta);
            },
            WalkItem::Other => {},
            WalkItem::Unreadable { path, at_root } => {
                if *at_root || matches!(mode, ListingMode::Strict) {
                    return Err(EnumerationError { path: path.clone() });
                }
                let ghost before = skipped@;
                let p = path.clone();
                assert(p@ == path@);
                skipped.push(p);
                assert(skipped@.map_values(|v: Vec<u8>| v@) =~= before.map_values(
                    |v: Vec<u8>| v@,
                ).push(path@));
            },
        }
        i = i + 1;
    }
    Ok(Listing { snapshot, skipped })
}

} // verus!
