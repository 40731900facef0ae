use vstd::prelude::*;

use crate::meta::{needs_refresh, FileMeta, Timestamp};
use crate::reconcile::{copy_set, delete_set, outcome_of, Outcome};

verus! {

/// A file as the mirror affects it: its bytes and its modification time.
pub struct FileState {
    pub content: Seq<u8>,
    pub modified: Timestamp,
}

/// Every file's length fits the size field of its metadata.
pub open spec fn sizes_fit(t: Map<Seq<u8>, FileState>) -> bool {
    forall|p: Seq<u8>| #[trigger] t.contains_key(p) ==> t[p].content.len() <= u64::MAX
}

/// What a listing of tree `t` records.
pub open spec fn meta_of(t: Map<Seq<u8>, FileState>) -> Map<Seq<u8>, FileMeta> {
    Map::new(
        |p: Seq<u8>| t.contains_key(p),
        |p: Seq<u8>| FileMeta { size: t[p].content.len() as u64, modified: t[p].modified },
    )
}

/// The destination after a pass that deletes `del` and then copies `copy`
/// from `src`; a copied file gets the modification time `stamps[p]` that
/// writing it left.
pub open spec fn after_pass(
    src: Map<Seq<u8>, FileState>,
    dst: Map<Seq<u8>, FileState>,
    del: Set<Seq<u8>>,
    copy: Set<Seq<u8>>,
    stamps: Map<Seq<u8>, Timestamp>,
) -> Map<Seq<u8>, FileState> {
    Map::new(
        |p: Seq<u8>| (dst.contains_key(p) && !del.contains(p)) || copy.contains(p),
        |p: Seq<u8>|
            if copy.contains(p) {
                FileState { content: src[p].content, modified: stamps[p] }
            } else {
                dst[p]
            },
    )
}

/// The destination after the pass that reconciling `src` with `dst` plans.
pub open spec fn synced(
    src: Map<Seq<u8>, FileState>,
    dst: Map<Seq<u8>, FileState>,
    stamps: Map<Seq<u8>, Timestamp>,
) -> Map<Seq<u8>, FileState> {
    after_pass(
        src,
        dst,
        delete_set(meta_of(src), meta_of(dst)),
        copy_set(meta_of(src), meta_of(dst)),
        stamps,
    )
}

/// After any pass the destination holds exactly the source's paths.
pub proof fn lemma_pass_mirrors_paths(
    src: Map<Seq<u8>, FileState>,
    dst: Map<Seq<u8>, FileState>,
    stamps: Map<Seq<u8>, Timestamp>,
)
    ensures
        synced(src, dst, stamps).dom() == src.dom(),
{
    assert(synced(src, dst, stamps).dom() =~= src.dom());
}

/// With no path shared, a pass deletes every destination file, copies every
/// source file, deletes no source path, and leaves the destination holding
/// exactly the source's files and bytes.
pub proof fn lemma_disjoint_trees_sync(
    src: Map<Seq<u8>, FileState>,
    dst: Map<Seq<u8>, FileState>,
    stamps: Map<Seq<u8>, Timestamp>,
)
    requires
        src.dom().disjoint(dst.dom()),
    ensures
        delete_set(meta_of(src), meta_of(dst)) == dst.dom(),
        copy_set(meta_of(src), meta_of(dst)) == src.dom(),
        delete_set(meta_of(src), meta_of(dst)).disjoint(src.dom()),
        synced(src, dst, stamps).dom() == src.dom(),
        forall|p: Seq<u8>| #[trigger] src.contains_key(p) ==> synced(src, dst, stamps)[p].content
            == src[p].content,
{
    assert forall|p: Seq<u8>| dst.contains_key(p) implies !src.contains_key(p) by {
        assert(dst.dom().contains(p));
    }
    assert(delete_set(meta_of(src), meta_of(dst)) =~= dst.dom());
    assert(copy_set(meta_of(src), meta_of(dst)) =~= src.dom());
    assert(synced(src, dst, stamps).dom() =~= src.dom());
}

/// A file on both sides with equal size and a destination modified no
/// earlier than the source is neither deleted nor copied: its bytes and time
/// stay as they were.
pub proof fn lemma_current_file_untouched(
    src: Map<Seq<u8>, FileState>,
    dst: Map<Seq<u8>, FileState>,
    stamps: Map<Seq<u8>, Timestamp>,
    p: Seq<u8>,
)
    requires
        sizes_fit(src),
        sizes_fit(dst),
        src.contains_key(p),
        dst.contains_key(p),
        src[p].content.len() == dst[p].content.len(),
        !src[p].modified.is_after(dst[p].modified),
    ensures
        outcome_of(meta_of(src), meta_of(dst), p) == Some(Outcome::Unchanged),
        !delete_set(meta_of(src), meta_of(dst)).contains(p),
        !copy_set(meta_of(src), meta_of(dst)).contains(p),
        synced(src, dst, stamps).contains_key(p),
        synced(src, dst, stamps)[p] == dst[p],
{
}

/// A file on both sides with equal size and a strictly newer source is
/// deleted and copied again: the destination then holds the source's bytes.
pub proof fn lemma_newer_source_refreshed(
    src: Map<Seq<u8>, FileState>,
    dst: Map<Seq<u8>, FileState>,
    stamps: Map<Seq<u8>, Timestamp>,
    p: Seq<u8>,
)
    requires
        src.contains_key(p),
        dst.contains_key(p),
        src[p].content.len() == dst[p].content.len(),
        src[p].modified.is_after(dst[p].modified),
    ensures
        outcome_of(meta_of(src), meta_of(dst), p) == Some(Outcome::Refresh),
        delete_set(meta_of(src), meta_of(dst)).contains(p),
        copy_set(meta_of(src), meta_of(dst)).contains(p),
        synced(src, dst, stamps).contains_key(p),
        synced(src, dst, stamps)[p].content == src[p].content,
{
}

/// A file on both sides whose sizes differ is deleted and copied again,
/// whatever the times: the destination then has the source's size.
pub proof fn lemma_resized_file_refreshed(
    src: Map<Seq<u8>, FileState>,
    dst: Map<Seq<u8>, FileState>,
    stamps: Map<Seq<u8>, Timestamp>,
    p: Seq<u8>,
)
    requires
        sizes_fit(src),
        sizes_fit(dst),
        src.contains_key(p),
        dst.contains_key(p),
        src[p].content.len() != dst[p].content.len(),
    ensures
        outcome_of(meta_of(src), meta_of(dst), p) == Some(Outcome::Refresh),
        delete_set(meta_of(src), meta_of(dst)).contains(p),
        copy_set(meta_of(src), meta_of(dst)).contains(p),
        synced(src, dst, stamps).contains_key(p),
        synced(src, dst, stamps)[p].content.len() == src[p].content.len(),
{
}

/// A second pass right after the first has nothing to do, provided that
/// each file the first pass wrote was stamped no earlier than its source.
pub proof fn lemma_second_pass_idle(
    src: Map<Seq<u8>, FileState>,
    dst: Map<Seq<u8>, FileState>,
    stamps: Map<Seq<u8>, Timestamp>,
)
    requires
        sizes_fit(src),
        sizes_fit(dst),
        forall|p: Seq<u8>|
            #[trigger] copy_set(meta_of(src), meta_of(dst)).contains(p) ==> stamps.contains_key(p)
                && !src[p].modified.is_after(stamps[p]),
    ensures
        delete_set(meta_of(src), meta_of(synced(src, dst, stamps))).is_empty(),
        copy_set(meta_of(src), meta_of(synced(src, dst, stamps))).is_empty(),
{
    let next = synced(src, dst, stamps);
    let copy = copy_set(meta_of(src), meta_of(dst));
    assert forall|p: Seq<u8>| #[trigger] next.contains_key(p) implies src.contains_key(p)
        && next[p].content.len() == src[p].content.len() && !src[p].modified.is_after(
        next[p].modified,
    ) by {
        if copy.contains(p) {
            assert(src.contains_key(p));
            assert(next[p].modified == stamps[p]);
        } else {
            assert(src.contains_key(p));
            assert(!needs_refresh(meta_of(src)[p], meta_of(dst)[p]));
            assert(src[p].content.len() == dst[p].content.len());
        }
    }
    assert forall|p: Seq<u8>| #[trigger] src.contains_key(p) implies next.contains_key(p) by {
        if !copy.contains(p) {
            assert(dst.contains_key(p));
        }
    }
    assert(delete_set(meta_of(src), meta_of(next)) =~= Set::<Seq<u8>>::empty());
    assert(copy_set(meta_of(src), meta_of(next)) =~= Set::<Seq<u8>>::empty());
}

} // verus!
