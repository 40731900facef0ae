use vstd::prelude::*;

use crate::meta::FileMeta;
use crate::relpath::same_path;

verus! {

/// A regular file found under a tree root: its path relative to the root, as
/// bytes, and its metadata.
#[derive(Clone, Debug)]
pub struct FileEntry {
    pub path: Vec<u8>,
    pub meta: FileMeta,
}

/// The regular files under one root at one moment, each relative path once.
#[derive(Clone, Debug)]
pub struct Snapshot {
    pub entries: Vec<FileEntry>,
}

impl Snapshot {
    /// No relative path occurs twice.
    pub open spec fn wf(&self) -> bool {
        forall|i: int, j: int|
            0 <= i < j < self.entries@.len() ==> #[trigger] self.entries@[i].path@
                != #[trigger] self.entries@[j].path@
    }

    /// Some entry holds path `p`.
    pub open spec fn has_path(&self, p: Seq<u8>) -> bool {
        exists|i: int| 0 <= i < self.entries@.len() && #[trigger] self.entries@[i].path@ == p
    }

    /// The snapshot as a map from relative path to metadata.
    pub open spec fn view(&self) -> Map<Seq<u8>, FileMeta> {
        Map::new(
            |p: Seq<u8>| self.has_path(p),
            |p: Seq<u8>|
                self.entries@[choose|i: int|
                    0 <= i < self.entries@.len() && #[trigger] self.entries@[i].path@ == p].meta,
        )
    }

    /// Entry `i` is what the map gives for its path.
    pub proof fn lemma_view_at(&self, i: int)
        requires
            self.wf(),
            0 <= i < self.entries@.len(),
        ensures
            self@.contains_key(self.entries@[i].path@),
            self@[self.entries@[i].path@] == self.entries@[i].meta,
    {
        let p = self.entries@[i].path@;
        assert(self.has_path(p));
        let j = choose|j: int| 0 <= j < self.entries@.len() && #[trigger] self.entries@[j].path@ == p;
        if j < i {
            assert(self.entries@[j].path@ != self.entries@[i].path@);
        } else if i < j {
            assert(self.entries@[i].path@ != self.entries@[j].path@);
        }
    }

    /// An empty snapshot.
    pub fn new() -> (r: Snapshot)
        ensures
            r.wf(),
            r@ == Map::<Seq<u8>, FileMeta>::empty(),
    {
        let r = Snapshot { entries: Vec::new() };
        assert(r@ =~= Map::<Seq<u8>, FileMeta>::empty());
        r
    }

    /// Number of files in the snapshot.
    pub fn len(&self) -> (r: usize)
        requires
            self.wf(),
        ensures
            r == self@.len(),
    {
        proof {
            self.lemma_len();
        }
        self.entries.len()
    }

    proof fn lemma_len(&self)
        requires
            self.wf(),
        ensures
            self@.dom().len() == self.entries@.len(),
            self@.dom().finite(),
    {
        let n = self.entries@.len() as int;
        self.lemma_prefix_paths_len(n);
        assert(self@.dom() =~= Snapshot::prefix_paths(self.entries@, n));
    }

    /// The paths of the first `k` entries of `s`.
    pub open spec fn prefix_paths(s: Seq<FileEntry>, k: int) -> Set<Seq<u8>> {
        Set::new(|p: Seq<u8>| exists|i: int| 0 <= i < k && #[trigger] s[i].path@ == p)
    }

    proof fn lemma_prefix_paths_len(&self, k: int)
        requires
            self.wf(),
            0 <= k <= self.entries@.len(),
        ensures
            Snapshot::prefix_paths(self.entries@, k).finite(),
            Snapshot::prefix_paths(self.entries@, k).len() == k,
        decreases k,
    {
        let s = self.entries@;
        if k == 0 {
            assert(Snapshot::prefix_paths(s, k) =~= Set::<Seq<u8>>::empty());
        } else {
            self.lemma_prefix_paths_len(k - 1);
            let last = s[k - 1].path@;
            assert(Snapshot::prefix_paths(s, k) =~= Snapshot::prefix_paths(s, k - 1).insert(last));
            if Snapshot::prefix_paths(s, k - 1).contains(last) {
                let i = choose|i: int| 0 <= i < k - 1 && #[trigger] s[i].path@ == last;
                assert(s[i].path@ != s[k - 1].path@);
            }
        }
    }

    /// The index of the entry for `path`, if the snapshot holds it.
    pub fn find(&self, path: &Vec<u8>) -> (r: Option<usize>)
        requires
            self.wf(),
        ensures
            r is None <==> !self@.contains_key(path@),
            r matches Some(i) ==> i < self.entries@.len() && self.entries@[i as int].path@ == path@,
    {
        let mut i: usize = 0;
        while i < self.entries.len()
            invariant
                0 <= i <= self.entries@.len(),
                forall|j: int| 0 <= j < i ==> #[trigger] self.entries@[j].path@ != path@,
            decreases self.entries@.len() - i,
        {
            if same_path(&self.entries[i].path, path) {
                return Some(i);
            }
            i = i + 1;
        }
        None
    }

    /// The metadata recorded for `path`, if the snapshot holds it.
    pub fn get(&self, path: &Vec<u8>) -> (r: Option<FileMeta>)
        requires
            self.wf(),
        ensures
            r is None <==> !self@.contains_key(path@),
            r matches Some(m) ==> m == self@[path@],
    {
        match self.find(path) {
            Some(i) => {
                proof {
                    self.lemma_view_at(i as int);
                }
                Some(self.entries[i].meta)
            },
            None => None,
        }
    }

    /// Adds a file unless its path is already there; says whether it was
    /// added. A path seen twice keeps its first metadata.
    pub fn insert(&mut self, path: Vec<u8>, meta: FileMeta) -> (added: bool)
        requires
            old(self).wf(),
        ensures
            final(self).wf(),
            added == !old(self)@.contains_key(path@),
            added ==> final(self)@ == old(self)@.insert(path@, meta),
            !added ==> final(self)@ == old(self)@,
    {
        if self.find(&path).is_some() {
            return false;
        }
        let ghost before = *self;
        let ghost p = path@;
        self.entries.push(FileEntry { path, meta });
        proof {
            let n = before.entries@.len();
            assert(self.entries@[n as int].path@ == p);
            assert forall|i: int| 0 <= i < n implies #[trigger] self.entries@[i] == before.entries@[i] by {}
            assert(self.wf()) by {
                assert forall|i: int, j: int|
                    0 <= i < j < self.entries@.len() implies #[trigger] self.entries@[i].path@
                    != #[trigger] self.entries@[j].path@ by {
                    if j == n {
                        assert(before.entries@[i].path@ != p);
                    } else {
                        assert(before.entries@[i].path@ != before.entries@[j].path@);
                    }
                }
            }
            assert forall|q: Seq<u8>| self.has_path(q) <==> before.has_path(q) || q == p by {
                if before.has_path(q) {
                    let i = choose|i: int| 0 <= i < n && #[trigger] before.entries@[i].path@ == q;
                    assert(self.entries@[i].path@ == q);
                }
                if self.has_path(q) && q != p {
                    let i = choose|i: int| 0 <= i < n + 1 && #[trigger] self.entries@[i].path@ == q;
                    assert(before.entries@[i].path@ == q);
                }
            }
            assert forall|q: Seq<u8>| #[trigger] self@.contains_key(q) implies self@[q]
                == before@.insert(p, meta)[q] by {
                let i = choose|i: int|
                    0 <= i < self.entries@.len() && #[trigger] self.entries@[i].path@ == q;
                self.lemma_view_at(i);
                if q != p {
                    before.lemma_view_at(i);
                }
            }
            assert(self@ =~= before@.insert(p, meta));
        }
        true
    }
}

} // verus!
