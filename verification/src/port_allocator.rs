//! The allocator of public ports.

use std::collections::HashSet;
use std::ops::Range;
use vstd::prelude::*;

verus! {

broadcast use vstd::std_specs::hash::group_hash_axioms;

/// Why an allocation request could not be served.
#[derive(Clone, Copy, Debug, PartialEq, Eq, Structural)]
pub enum AllocError {
    /// Every port of the range is either handed out already or could not be bound.
    NoPortsAvailable,
}

/// Hands out public ports from a half-open range `[lo, hi)` and remembers
/// which of them are in use.
pub struct PortAllocator {
    lo: u16,
    hi: u16,
    allocated: HashSet<u16>,
}

impl PortAllocator {
    /// First port of the range.
    pub closed spec fn lo(&self) -> int {
        self.lo as int
    }

    /// First port past the range.
    pub closed spec fn hi(&self) -> int {
        self.hi as int
    }

    /// The ports that this allocator considers busy.
    pub closed spec fn busy(&self) -> Set<u16> {
        self.allocated@
    }

    /// Whether `port` lies in the range.
    pub open spec fn in_range(&self, port: u16) -> bool {
        self.lo() <= port < self.hi()
    }

    /// Every busy port lies in the range, and there are finitely many.
    pub open spec fn wf(&self) -> bool {
        &&& self.busy().finite()
        &&& forall|p: u16| #[trigger] self.busy().contains(p) ==> self.in_range(p)
    }

    /// Whether `port` may be tried: it lies in the range and is not busy.
    pub open spec fn is_candidate(&self, port: u16) -> bool {
        self.in_range(port) && !self.busy().contains(port)
    }

    /// An allocator over `range` with no port busy.
    pub fn new(range: Range<u16>) -> (r: Self)
        ensures
            r.wf(),
            r.lo() == range.start,
            r.hi() == range.end,
            r.busy() == Set::<u16>::empty(),
    {
        PortAllocator { lo: range.start, hi: range.end, allocated: HashSet::new() }
    }

    /// Hands out the lowest port of the range that is not busy and for which
    /// `probe` answers `true`, and marks it busy. `probe` is asked about the
    /// candidates in ascending order and about nothing else; it is where the
    /// caller tries to bind the port. Fails when no candidate passes.
    pub fn allocate<F: Fn(u16) -> bool>(&mut self, probe: F) -> (r: Result<u16, AllocError>)
        requires
            old(self).wf(),
            forall|p: u16| old(self).is_candidate(p) ==> call_requires(probe, (p,)),
        ensures
            final(self).wf(),
            final(self).lo() == old(self).lo(),
            final(self).hi() == old(self).hi(),
            match r {
                Ok(port) => {
                    &&& old(self).is_candidate(port)
                    &&& call_ensures(probe, (port,), true)
                    &&& forall|q: u16|
                        q < port && old(self).is_candidate(q) ==> call_ensures(probe, (q,), false)
                    &&& final(self).busy() == old(self).busy().insert(port)
                    &&& final(self).busy().contains(port)
                },
                Err(e) => {
                    &&& e == AllocError::NoPortsAvailable
                    &&& forall|q: u16|
                        old(self).is_candidate(q) ==> call_ensures(probe, (q,), false)
                    &&& final(self).busy() == old(self).busy()
                },
            },
    {
        let mut port: u16 = self.lo;
        while port < self.hi
            invariant
                self.wf(),
                *self == *old(self),
                self.lo <= port,
                forall|p: u16| self.is_candidate(p) ==> call_requires(probe, (p,)),
                forall|q: u16| q < port && self.is_candidate(q) ==> call_ensures(probe, (q,), false),
            decreases self.hi - port,
        {
            if !self.allocated.contains(&port) {
                assert(self.is_candidate(port));
                if probe(port) {
                    self.allocated.insert(port);
                    return Ok(port);
                }
            }
            port = port + 1;
        }
        Err(AllocError::NoPortsAvailable)
    }

    /// Returns `port` to the pool. Releasing a port that is not busy changes
    /// nothing.
    pub fn release(&mut self, port: u16)
        requires
            old(self).wf(),
        ensures
            final(self).wf(),
            final(self).lo() == old(self).lo(),
            final(self).hi() == old(self).hi(),
            final(self).busy() == old(self).busy().remove(port),
            !final(self).busy().contains(port),
    {
        self.allocated.remove(&port);
    }

    /// Whether `port` is busy.
    pub fn is_allocated(&self, port: u16) -> (r: bool)
        requires
            self.wf(),
        ensures
            r == self.busy().contains(port),
            r ==> self.in_range(port),
    {
        self.allocated.contains(&port)
    }

    /// The number of busy ports.
    pub fn allocated_count(&self) -> (r: usize)
        requires
            self.wf(),
        ensures
            r == self.busy().len(),
    {
        self.allocated.len()
    }
}

/// Every busy port lies in the allocator's range.
pub proof fn lemma_busy_ports_in_range(allocator: PortAllocator, port: u16)
    requires
        allocator.wf(),
        allocator.busy().contains(port),
    ensures
        allocator.lo() <= port < allocator.hi(),
{
}

/// A port of the range that is not busy may be handed out: whoever releases
/// a port makes it a candidate again.
pub proof fn lemma_free_port_is_candidate(allocator: PortAllocator, port: u16)
    requires
        allocator.wf(),
        allocator.in_range(port),
    ensures
        allocator.is_candidate(port) <==> !allocator.busy().contains(port),
{
}

} // verus!
