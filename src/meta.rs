use vstd::prelude::*;

verus! {

/// Number of nanoseconds in one second.
pub const NANOS_PER_SEC: u32 = 1_000_000_000;

/// A modification time: whole seconds since the Unix epoch (negative before
/// it) and the nanoseconds within that second.
#[derive(Clone, Copy, Debug, PartialEq, Eq, Structural)]
pub struct Timestamp {
    pub secs: i64,
    pub nanos: u32,
}

impl Timestamp {
    /// The nanosecond part is below one second.
    pub open spec fn wf(self) -> bool {
        self.nanos < NANOS_PER_SEC
    }

    /// The instant as a count of nanoseconds since the epoch.
    pub open spec fn as_nanos(self) -> int {
        self.secs * 1_000_000_000 + self.nanos
    }

    /// `self` is a strictly later instant than `other`.
    pub open spec fn is_after(self, other: Timestamp) -> bool {
        self.secs > other.secs || (self.secs == other.secs && self.nanos > other.nanos)
    }

    pub fn new(secs: i64, nanos: u32) -> (r: Timestamp)
        requires
            nanos < NANOS_PER_SEC,
        ensures
            r.secs == secs,
            r.nanos == nanos,
            r.wf(),
    {
        Timestamp { secs, nanos }
    }

    /// Whether `self` is strictly later than `other`.
    pub fn is_newer_than(&self, other: &Timestamp) -> (r: bool)
        ensures
            r == self.is_after(*other),
    {
        self.secs > other.secs || (self.secs == other.secs && self.nanos > other.nanos)
    }
}

/// On well-formed timestamps, `is_after` is the order of the instants.
pub proof fn lemma_is_after_orders_instants(a: Timestamp, b: Timestamp)
    requires
        a.wf(),
        b.wf(),
    ensures
        a.is_after(b) <==> a.as_nanos() > b.as_nanos(),
{
    if a.secs > b.secs {
        assert(a.secs * 1_000_000_000 >= b.secs * 1_000_000_000 + 1_000_000_000)
            by (nonlinear_arith)
            requires
                a.secs > b.secs,
        ;
    } else if a.secs < b.secs {
        assert(b.secs * 1_000_000_000 >= a.secs * 1_000_000_000 + 1_000_000_000)
            by (nonlinear_arith)
            requires
                a.secs < b.secs,
        ;
    }
}

/// What the mirror reads of a file: its length in bytes and when it was last
/// modified.
#[derive(Clone, Copy, Debug, PartialEq, Eq, Structural)]
pub struct FileMeta {
    pub size: u64,
    pub modified: Timestamp,
}

impl FileMeta {
    pub fn new(size: u64, modified: Timestamp) -> (r: FileMeta)
        ensures
            r.size == size,
            r.modified == modified,
    {
        FileMeta { size, modified }
    }
}

/// A file whose source copy has `src` and whose destination copy has `dst`
/// must be refreshed: the sizes differ, or the source was modified strictly
/// later than the destination.
pub open spec fn needs_refresh(src: FileMeta, dst: FileMeta) -> bool {
    src.size != dst.size || src.modified.is_after(dst.modified)
}

/// Decides whether the destination copy of a file present on both sides is
/// stale. Equal sizes with a destination at least as recent count as
/// unchanged; contents are never read.
pub fn is_stale(src: &FileMeta, dst: &FileMeta) -> (r: bool)
    ensures
        r == needs_refresh(*src, *dst),
{
    src.size != dst.size || src.modified.is_newer_than(&dst.modified)
}

} // verus!
