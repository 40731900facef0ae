use vstd::prelude::*;

use crate::meta::{is_stale, needs_refresh, FileMeta};
use crate::snapshot::Snapshot;

verus! {

/// The set of paths held by a list of byte paths.
pub open spec fn path_set(v: Seq<Vec<u8>>) -> Set<Seq<u8>> {
    Set::new(|p: Seq<u8>| exists|i: int| 0 <= i < v.len() && #[trigger] v[i]@ == p)
}

/// No path occurs twice in the list.
pub open spec fn distinct_paths(v: Seq<Vec<u8>>) -> bool {
    forall|i: int, j: int| 0 <= i < j < v.len() ==> #[trigger] v[i]@ != #[trigger] v[j]@
}

/// A destination path is deleted when the source lacks it or holds a copy
/// that calls for a refresh.
pub open spec fn deleted_at(src: Map<Seq<u8>, FileMeta>, dst: Map<Seq<u8>, FileMeta>, p: Seq<u8>) -> bool {
    dst.contains_key(p) && (!src.contains_key(p) || needs_refresh(src[p], dst[p]))
}

/// A source path is copied when the destination lacks it or holds a copy
/// that calls for a refresh.
pub open spec fn copied_at(src: Map<Seq<u8>, FileMeta>, dst: Map<Seq<u8>, FileMeta>, p: Seq<u8>) -> bool {
    src.contains_key(p) && (!dst.contains_key(p) || needs_refresh(src[p], dst[p]))
}

pub open spec fn delete_set(src: Map<Seq<u8>, FileMeta>, dst: Map<Seq<u8>, FileMeta>) -> Set<Seq<u8>> {
    Set::new(|p: Seq<u8>| deleted_at(src, dst, p))
}

pub open spec fn copy_set(src: Map<Seq<u8>, FileMeta>, dst: Map<Seq<u8>, FileMeta>) -> Set<Seq<u8>> {
    Set::new(|p: Seq<u8>| copied_at(src, dst, p))
}

/// How one relative path fares in a sync pass.
#[derive(Clone, Copy, Debug, PartialEq, Eq, Structural)]
pub enum Outcome {
    /// Only the source has it: copied.
    Copy,
    /// Only the destination has it: deleted.
    Delete,
    /// Both have it and the destination copy is stale: deleted, then copied.
    Refresh,
    /// Both have it and the destination copy is current: left alone.
    Unchanged,
}

impl Outcome {
    /// The destination's file at this path is removed.
    pub open spec fn deletes(self) -> bool {
        self is Delete || self is Refresh
    }

    /// The source's file at this path is copied over.
    pub open spec fn copies(self) -> bool {
        self is Copy || self is Refresh
    }
}

/// The outcome for path `p`, or none when neither side holds it.
pub open spec fn outcome_of(src: Map<Seq<u8>, FileMeta>, dst: Map<Seq<u8>, FileMeta>, p: Seq<u8>) -> Option<Outcome> {
    if src.contains_key(p) && dst.contains_key(p) {
        if needs_refresh(src[p], dst[p]) {
            Some(Outcome::Refresh)
        } else {
            Some(Outcome::Unchanged)
        }
    } else if src.contains_key(p) {
        Some(Outcome::Copy)
    } else if dst.contains_key(p) {
        Some(Outcome::Delete)
    } else {
        None
    }
}

/// The deletions and copies of one sync pass. Deletions are carried out
/// first; neither list has an order that callers may rely on.
#[derive(Clone, Debug)]
pub struct SyncPlan {
    pub to_delete: Vec<Vec<u8>>,
    pub to_copy: Vec<Vec<u8>>,
}

impl SyncPlan {
    pub open spec fn deletes(&self) -> Set<Seq<u8>> {
        path_set(self.to_delete@)
    }

    pub open spec fn copies(&self) -> Set<Seq<u8>> {
        path_set(self.to_copy@)
    }

    /// The plan has nothing to do.
    pub fn is_empty(&self) -> (r: bool)
        ensures
            r == (self.deletes().is_empty() && self.copies().is_empty()),
    {
        let r = self.to_delete.len() == 0 && self.to_copy.len() == 0;
        proof {
            if self.to_delete@.len() > 0 {
                assert(self.deletes().contains(self.to_delete@[0]@));
            }
            if self.to_copy@.len() > 0 {
                assert(self.copies().contains(self.to_copy@[0]@));
            }
            if r {
                assert(self.deletes() =~= Set::<Seq<u8>>::empty());
                assert(self.copies() =~= Set::<Seq<u8>>::empty());
            }
        }
        r
    }
}

/// Classifies one relative path against the two snapshots.
pub fn classify(src: &Snapshot, dst: &Snapshot, path: &Vec<u8>) -> (r: Option<Outcome>)
    requires
        src.wf(),
        dst.wf(),
    ensures
        r == outcome_of(src@, dst@, path@),
        r matches Some(o) ==> (o.deletes() <==> delete_set(src@, dst@).contains(path@)),
        r matches Some(o) ==> (o.copies() <==> copy_set(src@, dst@).contains(path@)),
{
    match (src.get(path), dst.get(path)) {
        (Some(s), Some(d)) => {
            if is_stale(&s, &d) {
                Some(Outcome::Refresh)
            } else {
                Some(Outcome::Unchanged)
            }
        },
        (Some(_), None) => Some(Outcome::Copy),
        (None, Some(_)) => Some(Outcome::Delete),
        (None, None) => None,
    }
}

/// The paths of `side` that the pass acts on: copies when `side` is the
/// source, deletions when it is the destination. They come in the order of
/// `side`'s entries.
fn select_paths(side: &Snapshot, other: &Snapshot, side_is_src: bool) -> (r: Vec<Vec<u8>>)
    requires
        side.wf(),
        other.wf(),
    ensures
        distinct_paths(r@),
        side_is_src ==> path_set(r@) == copy_set(side@, other@),
        !side_is_src ==> path_set(r@) == delete_set(other@, side@),
{
    let ghost want = if side_is_src {
        copy_set(side@, other@)
    } else {
        delete_set(other@, side@)
    };
    let mut r: Vec<Vec<u8>> = Vec::new();
    let ghost mut idx: Seq<int> = Seq::empty();
    let mut i: usize = 0;
    while i < side.entries.len()
        invariant
            side.wf(),
            other.wf(),
            0 <= i <= side.entries@.len(),
            want == (if side_is_src {
                copy_set(side@, other@)
            } else {
                delete_set(other@, side@)
            }),
            idx.len() == r@.len(),
            forall|k: int| 0 <= k < r@.len() ==> 0 <= #[trigger] idx[k] < i,
            forall|k: int| 0 <= k < r@.len() ==> #[trigger] r@[k]@ == side.entries@[idx[k]].path@,
            forall|k: int, l: int| 0 <= k < l < r@.len() ==> #[trigger] idx[k] < #[trigger] idx[l],
            forall|k: int| 0 <= k < r@.len() ==> want.contains(#[trigger] r@[k]@),
            forall|j: int|
                0 <= j < i && want.contains(#[trigger] side.entries@[j].path@) ==> path_set(
                    r@,
                ).contains(side.entries@[j].path@),
        decreases side.entries@.len() - i,
    {
        let e = &side.entries[i];
        proof {
            side.lemma_view_at(i as int);
        }
        let keep = match other.get(&e.path) {
            None => true,
            Some(m) => if side_is_src {
                is_stale(&e.meta, &m)
            } else {
                is_stale(&m, &e.meta)
            },
        };
        if keep {
            let c = e.path.clone();
            assert(c@ == e.path@);
            let ghost before = r@;
            r.push(c);
            proof {
                idx = idx.push(i as int);
                assert(r@[r@.len() - 1]@ == side.entries@[i as int].path@);
                assert forall|j: int|
                    0 <= j <= i && want.contains(#[trigger] side.entries@[j].path@) implies path_set(
                    r@,
                ).contains(side.entries@[j].path@) by {
                    if j < i {
                        let k = choose|k: int| 0 <= k < before.len() && #[trigger] before[k]@ == side.entries@[j].path@;
                        assert(r@[k]@ == side.entries@[j].path@);
                    } else {
                        assert(r@[r@.len() - 1]@ == side.entries@[j].path@);
                    }
                }
            }
        } else {
            assert(!want.contains(side.entries@[i as int].path@));
        }
        i = i + 1;
    }
    proof {
        assert forall|k: int, l: int| 0 <= k < l < r@.len() implies #[trigger] r@[k]@ != #[trigger] r@[l]@ by {
            assert(idx[k] < idx[l]);
            assert(side.entries@[idx[k]].path@ != side.entries@[idx[l]].path@);
        }
        assert forall|p: Seq<u8>| want.contains(p) implies path_set(r@).contains(p) by {
            let j = choose|j: int| 0 <= j < side.entries@.len() && #[trigger] side.entries@[j].path@ == p;
            assert(want.contains(side.entries@[j].path@));
        }
        assert(path_set(r@) =~= want);
    }
    r
}

/// Reconciles two snapshots: deletes every destination file that the source
/// lacks or that is stale, copies every source file that the destination
/// lacks or holds stale. Files present on both sides with the same size and
/// a destination modified no earlier than the source are left alone.
pub fn plan_sync(src: &Snapshot, dst: &Snapshot) -> (r: SyncPlan)
    requires
        src.wf(),
        dst.wf(),
    ensures
        r.deletes() == delete_set(src@, dst@),
        r.copies() == copy_set(src@, dst@),
        distinct_paths(r.to_delete@),
        distinct_paths(r.to_copy@),
{
    let to_delete = select_paths(dst, src, false);
    let to_copy = select_paths(src, dst, true);
    SyncPlan { to_delete, to_copy }
}

} // verus!
