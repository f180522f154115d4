//! Bounded FIFO buffer with a two-phase dequeue protocol.
//!
//! A buffer composes a backing `Resource` of its capacity with an ordered
//! payload queue.  `push` reserves a slot through the resource and the
//! payload joins the tail when the grant event fires, so overflow cannot
//! occur; the returned event fires at the moment the slot is held.  The
//! consumer side is two-phase: `peek` reads the head, `pend` locks it for
//! a downstream hand-off (no further peek succeeds while pending), and
//! `pop` — called once the downstream has accepted — releases the slot,
//! removes the head and clears the lock.  The two-phase discipline lets
//! backpressure be modeled without losing a slot or dispatching one head
//! twice.

use vstd::prelude::*;
use crate::mesh::Packet;
use crate::sim::{Simulation, Resource, FifoBuf, Event, BufRec, Action, Fault, QEntry};
use crate::sim::{evolves, faulted_noop};
use crate::resource::buf_fill_below;

verus! {

/// The effect of the payload half of a completed push: `p` joins the
/// tail of buffer `b`, and nothing else moves.
pub open spec fn enqueue_effect(pre: Simulation, post: Simulation, b: int, p: Packet) -> bool {
    &&& post.bufs@.len() == pre.bufs@.len()
    &&& forall|b2: int|
        0 <= b2 < pre.bufs@.len() && b2 != b ==> #[trigger] post.bufs@[b2] == pre.bufs@[b2]
    &&& post.bufs@[b].res == pre.bufs@[b].res
    &&& post.bufs@[b].cap == pre.bufs@[b].cap
    &&& post.bufs@[b].pending == pre.bufs@[b].pending
    &&& post.bufs@[b].q@ == pre.bufs@[b].q@.push(p)
    &&& post.events@ == pre.events@
    &&& post.queue@ == pre.queue@
    &&& post.resources@ == pre.resources@
    &&& post.routers@ == pre.routers@
    &&& post.trace@ == pre.trace@
    &&& post.time == pre.time
    &&& post.nev == pre.nev
    &&& post.fault == pre.fault
}

/// The buffer half of a pop: the head leaves, the lock clears, the rest
/// of the buffer arena is untouched.
pub open spec fn pop_buf_effect(pre: Simulation, post: Simulation, b: int) -> bool {
    &&& post.bufs@.len() == pre.bufs@.len()
    &&& forall|b2: int|
        0 <= b2 < pre.bufs@.len() && b2 != b ==> #[trigger] post.bufs@[b2] == pre.bufs@[b2]
    &&& post.bufs@[b].res == pre.bufs@[b].res
    &&& post.bufs@[b].cap == pre.bufs@[b].cap
    &&& !post.bufs@[b].pending
    &&& post.bufs@[b].q@ == pre.bufs@[b].q@.subrange(1, pre.bufs@[b].q@.len() as int)
}

/// The whole effect of a push completion on buffer `b`: the payload
/// joins the tail, or a missing reservation is a recorded fault.
pub open spec fn buf_enqueue_rel(pre: Simulation, post: Simulation, b: int, p: Packet) -> bool {
    if pre.bufs@[b].q@.len() < pre.resources@[pre.bufs@[b].res as int].val {
        enqueue_effect(pre, post, b, p)
    } else {
        faulted_noop(pre, post)
    }
}

/// The whole effect of popping buffer `b`: the pended head leaves, the
/// lock clears and the slot is given back (to the head waiter if one
/// exists), or popping without a pend is a recorded fault.
pub open spec fn buf_pop_rel(pre: Simulation, post: Simulation, b: int) -> bool {
    let rid = pre.bufs@[b].res as int;
    if pre.bufs@[b].pending {
        &&& pop_buf_effect(pre, post, b)
        &&& if pre.resources@[rid].waiters@.len() > 0 {
            let w = pre.resources@[rid].waiters@[0] as int;
            &&& post.resources@.len() == pre.resources@.len()
            &&& forall|r2: int|
                0 <= r2 < pre.resources@.len() && r2 != rid
                    ==> #[trigger] post.resources@[r2] == pre.resources@[r2]
            &&& post.resources@[rid].max == pre.resources@[rid].max
            &&& post.resources@[rid].val == pre.resources@[rid].val
            &&& post.resources@[rid].waiters@ == pre.resources@[rid].waiters@.subrange(
                1,
                pre.resources@[rid].waiters@.len() as int,
            )
            &&& post.trace@ == pre.trace@
            &&& if !pre.events@[w].queued && !pre.events@[w].fired {
                &&& post.events@.len() == pre.events@.len()
                &&& forall|e: int|
                    0 <= e < pre.events@.len() && e != w
                        ==> #[trigger] post.events@[e] == pre.events@[e]
                &&& post.events@[w].t == Some(pre.time)
                &&& post.events@[w].queued
                &&& !post.events@[w].fired
                &&& post.events@[w].actions@ == pre.events@[w].actions@
                &&& post.queue@ == pre.queue@.push((QEntry { t: pre.time, ev: w as usize }))
                &&& post.fault == pre.fault
            } else {
                &&& post.events@ == pre.events@
                &&& post.queue@ == pre.queue@
                &&& post.fault is Some
            }
        } else {
            &&& post.resources@.len() == pre.resources@.len()
            &&& forall|r2: int|
                0 <= r2 < pre.resources@.len() && r2 != rid
                    ==> #[trigger] post.resources@[r2] == pre.resources@[r2]
            &&& post.resources@[rid].max == pre.resources@[rid].max
            &&& post.resources@[rid].val == pre.resources@[rid].val - 1
            &&& post.resources@[rid].waiters@ == pre.resources@[rid].waiters@
            &&& post.events@ == pre.events@
            &&& post.queue@ == pre.queue@
            &&& post.trace@ == pre.trace@
            &&& post.fault == pre.fault
        }
    } else {
        faulted_noop(pre, post)
    }
}

impl Simulation {
    /// The completion of a granted push: appends the payload.  A missing
    /// reservation (fill already at the granted count) is a fault.
    pub(crate) fn do_buf_enqueue(&mut self, b: usize, p: Packet)
        requires
            old(self).wf(),
            b < old(self).bufs@.len(),
        ensures
            final(self).wf(),
            evolves(*old(self), *final(self)),
            final(self).time == old(self).time,
            final(self).nev == old(self).nev,
            buf_enqueue_rel(*old(self), *final(self), b as int, p),
    {
        let cur = self.bufs[b].q.len();
        let rid = self.bufs[b].res;
        let v = self.resources[rid].val;
        if cur < v {
            let r = &mut self.bufs[b];
            r.q.push(p);
        } else {
            self.set_fault(Fault::EnqueueOverflow);
        }
    }

    /// Pops the pended head of buffer `b`: removes it, clears the lock,
    /// and gives the slot back to the backing resource.  Popping without
    /// a pend is a fault.
    pub(crate) fn do_buf_pop(&mut self, b: usize)
        requires
            old(self).wf(),
            b < old(self).bufs@.len(),
        ensures
            final(self).wf(),
            evolves(*old(self), *final(self)),
            final(self).time == old(self).time,
            final(self).nev == old(self).nev,
            final(self).routers@ == old(self).routers@,
            final(self).trace@ == old(self).trace@,
            buf_pop_rel(*old(self), *final(self), b as int),
    {
        let pending = self.bufs[b].pending;
        if !pending {
            self.set_fault(Fault::PopProtocol);
            return;
        }
        let rid = self.bufs[b].res;
        let r = &mut self.bufs[b];
        let _head = r.q.remove(0);
        r.pending = false;
        proof {
            assert(buf_fill_below(*self, rid as int));
        }
        let _ok = self.do_release(rid);
    }
}

/// A buffer never holds more payloads than its capacity, and a pended
/// buffer always has a head: both hold in every well-formed simulation,
/// and every operation of the library preserves well-formedness.
pub proof fn lemma_fifobuf_bounds(s: Simulation, b: int)
    requires
        s.wf(),
        0 <= b < s.bufs@.len(),
    ensures
        s.bufs@[b].q@.len() <= s.bufs@[b].cap,
        s.bufs@[b].pending ==> s.bufs@[b].q@.len() >= 1,
{
}

/// The two-phase round trip: popping a pended head leaves the buffer
/// with exactly one fewer payload, the former second payload (if any) at
/// the head, and the pending flag clear — ready for the next peek.
pub proof fn lemma_pop_round_trip(pre: Simulation, post: Simulation, b: int)
    requires
        pre.wf(),
        0 <= b < pre.bufs@.len(),
        pre.bufs@[b].pending,
        pop_buf_effect(pre, post, b),
    ensures
        post.bufs@[b].q@.len() == pre.bufs@[b].q@.len() - 1,
        !post.bufs@[b].pending,
        pre.bufs@[b].q@.len() > 1 ==> post.bufs@[b].q@[0] == pre.bufs@[b].q@[1],
{
}

impl FifoBuf {
    /// Creates a buffer of the given capacity, backed by a fresh
    /// resource of the same capacity, with an empty queue and no pending
    /// head.  A capacity of zero admits no payload: every push waits
    /// forever.
    pub fn new(sim: &mut Simulation, capacity: usize) -> (b: FifoBuf)
        requires
            old(sim).wf(),
        ensures
            final(sim).wf(),
            evolves(*old(sim), *final(sim)),
            b.id == old(sim).bufs@.len(),
            final(sim).bufs@.len() == old(sim).bufs@.len() + 1,
            forall|b2: int|
                0 <= b2 < old(sim).bufs@.len()
                    ==> #[trigger] final(sim).bufs@[b2] == old(sim).bufs@[b2],
            final(sim).bufs@[b.id as int].cap == capacity,
            final(sim).bufs@[b.id as int].q@.len() == 0,
            !final(sim).bufs@[b.id as int].pending,
            final(sim).bufs@[b.id as int].res == old(sim).resources@.len(),
            final(sim).resources@.len() == old(sim).resources@.len() + 1,
            forall|r2: int|
                0 <= r2 < old(sim).resources@.len()
                    ==> #[trigger] final(sim).resources@[r2] == old(sim).resources@[r2],
            final(sim).resources@[old(sim).resources@.len() as int].max == capacity,
            final(sim).resources@[old(sim).resources@.len() as int].val == 0,
            final(sim).resources@[old(sim).resources@.len() as int].waiters@.len() == 0,
            final(sim).events@ == old(sim).events@,
            final(sim).queue@ == old(sim).queue@,
            final(sim).routers@ == old(sim).routers@,
            final(sim).trace@ == old(sim).trace@,
            final(sim).time == old(sim).time,
            final(sim).nev == old(sim).nev,
            final(sim).fault == old(sim).fault,
    {
        let r = Resource::new(sim, capacity);
        let id = sim.bufs.len();
        sim.bufs.push(BufRec { res: r.id, cap: capacity, q: Vec::new(), pending: false });
        FifoBuf { id }
    }

    /// Whether the payload queue is empty.
    pub fn empty(self, sim: &Simulation) -> (r: bool)
        requires
            self.id < sim.bufs@.len(),
        ensures
            r == (sim.bufs@[self.id as int].q@.len() == 0),
    {
        sim.bufs[self.id].q.len() == 0
    }

    /// Reserves a slot and returns the event that fires once the slot is
    /// held and the payload has joined the tail.  While the buffer is
    /// full the event waits, in FIFO order, for a slot released by `pop`.
    pub fn push(self, sim: &mut Simulation, p: Packet) -> (ev: Event)
        requires
            old(sim).wf(),
            self.id < old(sim).bufs@.len(),
        ensures
            final(sim).wf(),
            evolves(*old(sim), *final(sim)),
            ev.id == old(sim).events@.len(),
            final(sim).events@.len() == old(sim).events@.len() + 1,
            forall|e: int|
                0 <= e < old(sim).events@.len()
                    ==> #[trigger] final(sim).events@[e] == old(sim).events@[e],
            !final(sim).events@[ev.id as int].fired,
            final(sim).events@[ev.id as int].actions@ == Seq::<Action>::empty().push(
                (Action::BufEnqueue { buf: self, p }),
            ),
            final(sim).bufs@ == old(sim).bufs@,
            final(sim).routers@ == old(sim).routers@,
            final(sim).trace@ == old(sim).trace@,
            final(sim).time == old(sim).time,
            final(sim).nev == old(sim).nev,
            final(sim).fault == old(sim).fault,
            final(sim).resources@.len() == old(sim).resources@.len(),
            ({
                let pre = *old(sim);
                let post = *final(sim);
                let rid = pre.bufs@[self.id as int].res as int;
                let rr = pre.resources@[rid];
                &&& forall|r2: int|
                    0 <= r2 < pre.resources@.len() && r2 != rid
                        ==> #[trigger] post.resources@[r2] == pre.resources@[r2]
                &&& post.resources@[rid].max == rr.max
                &&& if rr.val < rr.max {
                    &&& post.resources@[rid].val == rr.val + 1
                    &&& post.resources@[rid].waiters@ == rr.waiters@
                    &&& post.events@[ev.id as int].queued
                    &&& post.events@[ev.id as int].t == Some(pre.time)
                    &&& post.queue@ == pre.queue@.push((QEntry { t: pre.time, ev: ev.id }))
                } else {
                    &&& post.resources@[rid].val == rr.val
                    &&& post.resources@[rid].waiters@ == rr.waiters@.push(ev.id)
                    &&& !post.events@[ev.id as int].queued
                    &&& post.events@[ev.id as int].t is None
                    &&& post.queue@ == pre.queue@
                }
            }),
    {
        let rid = sim.bufs[self.id].res;
        let res = Resource { id: rid };
        let ev = res.acquire(sim);
        ev.callback(sim, Action::BufEnqueue { buf: self, p });
        ev
    }

    /// Returns the head payload, unless the buffer is empty or its head
    /// is pended for a hand-off already in progress.
    pub fn peek(self, sim: &Simulation) -> (r: Option<Packet>)
        requires
            self.id < sim.bufs@.len(),
        ensures
            r == if !sim.bufs@[self.id as int].pending && sim.bufs@[self.id as int].q@.len() > 0 {
                Some(sim.bufs@[self.id as int].q@[0])
            } else {
                None::<Packet>
            },
    {
        if sim.bufs[self.id].pending {
            return None;
        }
        if sim.bufs[self.id].q.len() == 0 {
            return None;
        }
        Some(sim.bufs[self.id].q[0])
    }

    /// Locks the head for a downstream hand-off.  The buffer must hold a
    /// head and must not be pended already.
    pub fn pend(self, sim: &mut Simulation)
        requires
            old(sim).wf(),
            self.id < old(sim).bufs@.len(),
            !old(sim).bufs@[self.id as int].pending,
            old(sim).bufs@[self.id as int].q@.len() >= 1,
        ensures
            final(sim).wf(),
            evolves(*old(sim), *final(sim)),
            final(sim).bufs@.len() == old(sim).bufs@.len(),
            forall|b2: int|
                0 <= b2 < old(sim).bufs@.len() && b2 != self.id as int
                    ==> #[trigger] final(sim).bufs@[b2] == old(sim).bufs@[b2],
            final(sim).bufs@[self.id as int].res == old(sim).bufs@[self.id as int].res,
            final(sim).bufs@[self.id as int].cap == old(sim).bufs@[self.id as int].cap,
            final(sim).bufs@[self.id as int].q@ == old(sim).bufs@[self.id as int].q@,
            final(sim).bufs@[self.id as int].pending,
            final(sim).events@ == old(sim).events@,
            final(sim).queue@ == old(sim).queue@,
            final(sim).resources@ == old(sim).resources@,
            final(sim).routers@ == old(sim).routers@,
            final(sim).trace@ == old(sim).trace@,
            final(sim).time == old(sim).time,
            final(sim).nev == old(sim).nev,
            final(sim).fault == old(sim).fault,
    {
        let r = &mut sim.bufs[self.id];
        r.pending = true;
    }

    /// Completes a hand-off: removes the pended head, clears the lock
    /// and releases the slot (handing it to the first waiting `push`, if
    /// any).
    pub fn pop(self, sim: &mut Simulation)
        requires
            old(sim).wf(),
            self.id < old(sim).bufs@.len(),
            old(sim).bufs@[self.id as int].pending,
        ensures
            final(sim).wf(),
            evolves(*old(sim), *final(sim)),
            final(sim).time == old(sim).time,
            final(sim).nev == old(sim).nev,
            final(sim).routers@ == old(sim).routers@,
            final(sim).trace@ == old(sim).trace@,
            pop_buf_effect(*old(sim), *final(sim), self.id as int),
            buf_pop_rel(*old(sim), *final(sim), self.id as int),
            ({
                let pre = *old(sim);
                let post = *final(sim);
                let rid = pre.bufs@[self.id as int].res as int;
                if pre.resources@[rid].waiters@.len() > 0 {
                    let w = pre.resources@[rid].waiters@[0] as int;
                    &&& post.resources@.len() == pre.resources@.len()
                    &&& post.resources@[rid].val == pre.resources@[rid].val
                    &&& post.resources@[rid].waiters@ == pre.resources@[rid].waiters@.subrange(
                        1,
                        pre.resources@[rid].waiters@.len() as int,
                    )
                    &&& (!pre.events@[w].queued && !pre.events@[w].fired ==> {
                        &&& post.events@[w].queued
                        &&& post.events@[w].t == Some(pre.time)
                        &&& post.queue@ == pre.queue@.push(
                            (QEntry { t: pre.time, ev: w as usize }),
                        )
                        &&& post.fault == pre.fault
                    })
                } else {
                    &&& post.resources@[rid].val == pre.resources@[rid].val - 1
                    &&& post.resources@[rid].waiters@ == pre.resources@[rid].waiters@
                    &&& post.events@ == pre.events@
                    &&& post.queue@ == pre.queue@
                    &&& post.fault == pre.fault
                }
            }),
    {
        sim.do_buf_pop(self.id);
    }
}

} // verus!
