//! Monotonic port allocation for worker containers.
//!
//! The allocator hands out strictly increasing port numbers, seeded from a
//! configured starting value.  During discovery, ports observed on
//! pre-existing containers are fed back through [`PortAllocator::observe`],
//! which advances the counter past them so that no future allocation can
//! collide with a port already in use.

use vstd::prelude::*;

verus! {

/// Hands out monotonically increasing port numbers.
pub struct PortAllocator {
    next_port: u16,
}

/// One step taken against a [`PortAllocator`]: either an allocation or an
/// observation of a pre-existing port.  Used by the lemmas below to speak
/// about whole histories of allocator use.
pub enum PortOp {
    Alloc,
    Observe(u16),
}

/// The counter value after running `ops` from counter value `start`,
/// mirroring what `allocate` and `observe` do to `next_port`.
pub open spec fn counter_after(start: int, ops: Seq<PortOp>) -> int
    decreases ops.len(),
{
    if ops.len() == 0 {
        start
    } else {
        let prior = counter_after(start, ops.drop_last());
        match ops.last() {
            PortOp::Alloc => prior + 1,
            PortOp::Observe(p) => if p >= prior { p + 1 } else { prior },
        }
    }
}

/// The ports returned by the `Alloc` steps of `ops`, in order.
pub open spec fn ports_returned(start: int, ops: Seq<PortOp>) -> Seq<int>
    decreases ops.len(),
{
    if ops.len() == 0 {
        Seq::empty()
    } else {
        let prior = ports_returned(start, ops.drop_last());
        match ops.last() {
            PortOp::Alloc => prior.push(counter_after(start, ops.drop_last())),
            PortOp::Observe(_) => prior,
        }
    }
}

impl PortAllocator {
    pub closed spec fn next(self) -> int {
        self.next_port as int
    }

    /// A fresh allocator that will hand out `starting_port` first.
    pub fn new(starting_port: u16) -> (r: PortAllocator)
        ensures
            r.next() == starting_port as int,
    {
        PortAllocator { next_port: starting_port }
    }

    /// The port the next allocation will return.
    pub fn peek(&self) -> (r: u16)
        ensures
            r as int == self.next(),
    {
        self.next_port
    }

    /// Returns the current counter and advances it, so no two allocations
    /// ever return the same port.
    pub fn allocate(&mut self) -> (r: u16)
        requires
            old(self).next() < u16::MAX as int,
        ensures
            r as int == old(self).next(),
            final(self).next() == old(self).next() + 1,
    {
        let port = self.next_port;
        self.next_port = self.next_port + 1;
        port
    }

    /// Records a port seen on a pre-existing container: the counter moves
    /// past it, so later allocations can never return `port` again.
    pub fn observe(&mut self, port: u16)
        requires
            port < u16::MAX,
        ensures
            final(self).next() == if port as int >= old(self).next() {
                port as int + 1
            } else {
                old(self).next()
            },
            final(self).next() > port as int,
            final(self).next() >= old(self).next(),
    {
        if port >= self.next_port {
            self.next_port = port + 1;
        }
    }
}

/// The counter never decreases, whatever mix of allocations and
/// observations is run.
pub proof fn lemma_counter_monotone(start: int, ops: Seq<PortOp>)
    ensures
        counter_after(start, ops) >= start,
    decreases ops.len(),
{
    if ops.len() > 0 {
        lemma_counter_monotone(start, ops.drop_last());
    }
}

/// Every port returned by an allocation during `ops` lies strictly below
/// the counter left behind by `ops`.
pub proof fn lemma_returned_below_counter(start: int, ops: Seq<PortOp>)
    ensures
        forall|i: int|
            0 <= i < ports_returned(start, ops).len() ==> ports_returned(start, ops)[i]
                < counter_after(start, ops),
    decreases ops.len(),
{
    if ops.len() > 0 {
        let prior = counter_after(start, ops.drop_last());
        let prior_ret = ports_returned(start, ops.drop_last());
        lemma_returned_below_counter(start, ops.drop_last());
        assert(counter_after(start, ops) >= prior);
        assert forall|i: int| 0 <= i < ports_returned(start, ops).len() implies ports_returned(
            start,
            ops,
        )[i] < counter_after(start, ops) by {
            match ops.last() {
                PortOp::Alloc => {
                    assert(ports_returned(start, ops) == prior_ret.push(prior));
                },
                PortOp::Observe(_) => {
                    assert(ports_returned(start, ops) == prior_ret);
                },
            }
        }
    }
}

/// For every history of `allocate` and `observe` calls, the ports returned
/// by the allocations are strictly increasing, and therefore pairwise
/// distinct.
pub proof fn lemma_allocations_strictly_increase(start: int, ops: Seq<PortOp>)
    ensures
        forall|i: int, j: int|
            0 <= i < j < ports_returned(start, ops).len() ==> ports_returned(start, ops)[i]
                < ports_returned(start, ops)[j],
    decreases ops.len(),
{
    if ops.len() > 0 {
        let prior = counter_after(start, ops.drop_last());
        let prior_ret = ports_returned(start, ops.drop_last());
        lemma_allocations_strictly_increase(start, ops.drop_last());
        lemma_returned_below_counter(start, ops.drop_last());
        assert forall|i: int, j: int|
            0 <= i < j < ports_returned(start, ops).len() implies ports_returned(start, ops)[i]
            < ports_returned(start, ops)[j] by {
            match ops.last() {
                PortOp::Alloc => {
                    assert(ports_returned(start, ops) == prior_ret.push(prior));
                },
                PortOp::Observe(_) => {
                    assert(ports_returned(start, ops) == prior_ret);
                },
            }
        }
    }
}

/// Once `p` has been observed, the counter stays strictly above it.
pub proof fn lemma_counter_above_observed(start: int, p: u16, rest: Seq<PortOp>)
    ensures
        counter_after(start, seq![PortOp::Observe(p)] + rest) > p as int,
    decreases rest.len(),
{
    if rest.len() == 0 {
        assert(seq![PortOp::Observe(p)] + rest =~= seq![PortOp::Observe(p)]);
        assert((seq![PortOp::Observe(p)]).drop_last() =~= Seq::<PortOp>::empty());
    } else {
        let whole = seq![PortOp::Observe(p)] + rest;
        lemma_counter_above_observed(start, p, rest.drop_last());
        assert(whole.drop_last() =~= seq![PortOp::Observe(p)] + rest.drop_last());
    }
}

/// Observing a port `p` and then allocating never returns a value at or
/// below `p`, however many other steps come in between.
pub proof fn lemma_observe_then_allocate(start: int, p: u16, rest: Seq<PortOp>)
    ensures
        forall|i: int|
            0 <= i < ports_returned(start, seq![PortOp::Observe(p)] + rest).len()
                ==> ports_returned(start, seq![PortOp::Observe(p)] + rest)[i] > p as int,
    decreases rest.len(),
{
    let whole = seq![PortOp::Observe(p)] + rest;
    if rest.len() == 0 {
        let e: Seq<PortOp> = Seq::empty();
        assert(whole =~= seq![PortOp::Observe(p)]);
        assert(whole.drop_last() =~= e);
        assert(ports_returned(start, e) =~= Seq::<int>::empty());
        assert(ports_returned(start, whole) =~= Seq::<int>::empty());
    } else {
        let shorter = seq![PortOp::Observe(p)] + rest.drop_last();
        lemma_observe_then_allocate(start, p, rest.drop_last());
        lemma_counter_above_observed(start, p, rest.drop_last());
        assert(whole.drop_last() =~= shorter);
        let prior = counter_after(start, shorter);
        let prior_ret = ports_returned(start, shorter);
        assert forall|i: int| 0 <= i < ports_returned(start, whole).len() implies ports_returned(
            start,
            whole,
        )[i] > p as int by {
            assert(counter_after(start, shorter) > p as int);
            match whole.last() {
                PortOp::Alloc => {
                    assert(ports_returned(start, whole) == prior_ret.push(prior));
                    if i < prior_ret.len() {
                        assert(prior_ret[i] > p as int);
                    }
                },
                PortOp::Observe(_) => {
                    assert(ports_returned(start, whole) == prior_ret);
                    assert(prior_ret[i] > p as int);
                },
            }
        }
    }
}

} // verus!
