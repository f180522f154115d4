//! Counted resource with FIFO waiters and zero-delay grants.
//!
//! `acquire` returns an event that fires when one unit is granted.  While
//! units are free the unit is reserved at once and the grant event is
//! scheduled at zero delay; at capacity the event joins a FIFO waiter
//! list, unresolved, and a later `release` transfers the freed unit to
//! the head waiter and schedules its grant at zero delay.  The count
//! therefore never exceeds the capacity — that bound is part of
//! `Simulation::wf` and every operation preserves it.

use vstd::prelude::*;
use crate::sim::{Simulation, Resource, Event, ResourceRec, QEntry, Fault};
use crate::sim::{evolves, faulted_noop};

verus! {

/// Every buffer backed by resource `rid` holds strictly fewer payloads
/// than the units currently granted, so one unit can be given back.
pub open spec fn buf_fill_below(s: Simulation, rid: int) -> bool {
    forall|b: int|
        0 <= b < s.bufs@.len() && (#[trigger] s.bufs@[b]).res == rid
            ==> s.bufs@[b].q@.len() < s.resources@[rid].val
}

/// The effect of a clean release with no waiters: one unit given back,
/// nothing else touched.
pub open spec fn release_decr_effect(pre: Simulation, post: Simulation, rid: int) -> bool {
    &&& post.resources@.len() == pre.resources@.len()
    &&& forall|r2: int|
        0 <= r2 < pre.resources@.len() && r2 != rid
            ==> #[trigger] post.resources@[r2] == pre.resources@[r2]
    &&& post.resources@[rid].max == pre.resources@[rid].max
    &&& post.resources@[rid].val == pre.resources@[rid].val - 1
    &&& post.resources@[rid].waiters@ == pre.resources@[rid].waiters@
    &&& post.events@ == pre.events@
    &&& post.queue@ == pre.queue@
    &&& post.bufs@ == pre.bufs@
    &&& post.routers@ == pre.routers@
    &&& post.trace@ == pre.trace@
    &&& post.time == pre.time
    &&& post.nev == pre.nev
    &&& post.fault == pre.fault
}

/// The effect of a release that hands the freed unit to the head waiter:
/// the count stays, the waiter leaves the list, and — unless the waiter
/// event was meanwhile misused — its grant is scheduled at the current
/// time.
pub open spec fn release_transfer_effect(pre: Simulation, post: Simulation, rid: int, ok: bool) -> bool {
    let w = pre.resources@[rid].waiters@[0] as int;
    &&& post.resources@.len() == pre.resources@.len()
    &&& forall|r2: int|
        0 <= r2 < pre.resources@.len() && r2 != rid
            ==> #[trigger] post.resources@[r2] == pre.resources@[r2]
    &&& post.resources@[rid].max == pre.resources@[rid].max
    &&& post.resources@[rid].val == pre.resources@[rid].val
    &&& post.resources@[rid].waiters@ == pre.resources@[rid].waiters@.subrange(
        1,
        pre.resources@[rid].waiters@.len() as int,
    )
    &&& post.bufs@ == pre.bufs@
    &&& post.routers@ == pre.routers@
    &&& post.trace@ == pre.trace@
    &&& post.time == pre.time
    &&& post.nev == pre.nev
    &&& if !pre.events@[w].queued && !pre.events@[w].fired {
        &&& ok
        &&& post.events@.len() == pre.events@.len()
        &&& forall|e: int|
            0 <= e < pre.events@.len() && e != w
                ==> #[trigger] post.events@[e] == pre.events@[e]
        &&& post.events@[w].t == Some(pre.time)
        &&& post.events@[w].queued
        &&& !post.events@[w].fired
        &&& post.events@[w].actions@ == pre.events@[w].actions@
        &&& post.queue@ == pre.queue@.push((QEntry { t: pre.time, ev: w as usize }))
        &&& post.fault == pre.fault
    } else {
        &&& !ok
        &&& post.events@ == pre.events@
        &&& post.queue@ == pre.queue@
        &&& post.fault is Some
        &&& (pre.fault is Some ==> post.fault == pre.fault)
    }
}

/// The whole effect of giving one unit of resource `rid` back: a
/// transfer to the head waiter, a plain decrement, or a recorded fault.
pub open spec fn release_rel(pre: Simulation, post: Simulation, rid: int) -> bool {
    if pre.resources@[rid].waiters@.len() > 0 {
        let w = pre.resources@[rid].waiters@[0] as int;
        release_transfer_effect(
            pre,
            post,
            rid,
            !pre.events@[w].queued && !pre.events@[w].fired,
        )
    } else if pre.resources@[rid].val > 0 && buf_fill_below(pre, rid) {
        release_decr_effect(pre, post, rid)
    } else {
        faulted_noop(pre, post)
    }
}

impl Simulation {
    /// Gives one unit of resource `rid` back: hands it to the head
    /// waiter if one exists, otherwise decrements the count.  Faults on
    /// an idle resource, on a count needed by a backed buffer's fill, or
    /// on a waiter event that was meanwhile scheduled or fired.
    pub(crate) fn do_release(&mut self, rid: usize) -> (ok: bool)
        requires
            old(self).wf(),
            rid < old(self).resources@.len(),
        ensures
            final(self).wf(),
            evolves(*old(self), *final(self)),
            final(self).time == old(self).time,
            final(self).nev == old(self).nev,
            release_rel(*old(self), *final(self), rid as int),
            ({
                let pre = *old(self);
                let post = *final(self);
                if pre.resources@[rid as int].waiters@.len() > 0 {
                    release_transfer_effect(pre, post, rid as int, ok)
                } else if pre.resources@[rid as int].val > 0 && buf_fill_below(pre, rid as int) {
                    ok && release_decr_effect(pre, post, rid as int)
                } else {
                    !ok && faulted_noop(pre, post)
                }
            }),
    {
        let wlen = self.resources[rid].waiters.len();
        if wlen > 0 {
            let w = self.resources[rid].waiters[0];
            let r = &mut self.resources[rid];
            let _head = r.waiters.remove(0);
            let ok = self.do_schedule(w, 0);
            ok
        } else {
            let v = self.resources[rid].val;
            if v == 0 {
                self.set_fault(Fault::ReleaseUnderflow);
                return false;
            }
            let mut b: usize = 0;
            let mut safe = true;
            while b < self.bufs.len()
                invariant
                    *self == *old(self),
                    rid < self.resources@.len(),
                    v == self.resources@[rid as int].val,
                    b <= self.bufs@.len(),
                    safe == (forall|j: int|
                        0 <= j < b ==> ((#[trigger] self.bufs@[j]).res == rid
                            ==> self.bufs@[j].q@.len() < v)),
                decreases self.bufs@.len() - b,
            {
                if self.bufs[b].res == rid && self.bufs[b].q.len() >= v {
                    safe = false;
                }
                b = b + 1;
            }
            if !safe {
                self.set_fault(Fault::ReleaseUnderflow);
                return false;
            }
            let r = &mut self.resources[rid];
            r.val = v - 1;
            true
        }
    }
}

/// A resource never holds more units than its capacity: the count is
/// bounded between zero and `max` in every well-formed simulation, and
/// every operation of the library preserves well-formedness.
pub proof fn lemma_resource_bounds(s: Simulation, r: int)
    requires
        s.wf(),
        0 <= r < s.resources@.len(),
    ensures
        0 <= s.resources@[r].val <= s.resources@[r].max,
{
}

impl Resource {
    /// Creates a resource of capacity `max` with no unit held and no
    /// waiters.
    pub fn new(sim: &mut Simulation, max: usize) -> (r: Resource)
        requires
            old(sim).wf(),
        ensures
            final(sim).wf(),
            evolves(*old(sim), *final(sim)),
            r.id == old(sim).resources@.len(),
            final(sim).resources@.len() == old(sim).resources@.len() + 1,
            forall|r2: int|
                0 <= r2 < old(sim).resources@.len()
                    ==> #[trigger] final(sim).resources@[r2] == old(sim).resources@[r2],
            final(sim).resources@[r.id as int].max == max,
            final(sim).resources@[r.id as int].val == 0,
            final(sim).resources@[r.id as int].waiters@.len() == 0,
            final(sim).events@ == old(sim).events@,
            final(sim).queue@ == old(sim).queue@,
            final(sim).bufs@ == old(sim).bufs@,
            final(sim).routers@ == old(sim).routers@,
            final(sim).trace@ == old(sim).trace@,
            final(sim).time == old(sim).time,
            final(sim).nev == old(sim).nev,
            final(sim).fault == old(sim).fault,
    {
        let id = sim.resources.len();
        sim.resources.push(ResourceRec { max, val: 0, waiters: Vec::new() });
        Resource { id }
    }

    /// Whether every unit is currently granted.
    pub fn full(self, sim: &Simulation) -> (r: bool)
        requires
            self.id < sim.resources@.len(),
        ensures
            r == (sim.resources@[self.id as int].val >= sim.resources@[self.id as int].max),
    {
        sim.resources[self.id].val >= sim.resources[self.id].max
    }

    /// How many units are currently granted.
    pub fn val(self, sim: &Simulation) -> (v: usize)
        requires
            self.id < sim.resources@.len(),
        ensures
            v == sim.resources@[self.id as int].val,
    {
        sim.resources[self.id].val
    }

    /// Requests one unit.  The returned event fires at the moment the
    /// unit is held: at once (zero delay) while units are free — the
    /// unit is reserved immediately, so a second caller at the same
    /// instant must wait — or, at capacity, when a future `release`
    /// reaches this waiter in FIFO order.
    pub fn acquire(self, sim: &mut Simulation) -> (ev: Event)
        requires
            old(sim).wf(),
            self.id < old(sim).resources@.len(),
        ensures
            final(sim).wf(),
            evolves(*old(sim), *final(sim)),
            ev.id == old(sim).events@.len(),
            final(sim).events@.len() == old(sim).events@.len() + 1,
            forall|e: int|
                0 <= e < old(sim).events@.len()
                    ==> #[trigger] final(sim).events@[e] == old(sim).events@[e],
            !final(sim).events@[ev.id as int].fired,
            final(sim).events@[ev.id as int].actions@.len() == 0,
            final(sim).resources@.len() == old(sim).resources@.len(),
            forall|r2: int|
                0 <= r2 < old(sim).resources@.len() && r2 != self.id as int
                    ==> #[trigger] final(sim).resources@[r2] == old(sim).resources@[r2],
            final(sim).resources@[self.id as int].max == old(sim).resources@[self.id as int].max,
            final(sim).bufs@ == old(sim).bufs@,
            final(sim).routers@ == old(sim).routers@,
            final(sim).trace@ == old(sim).trace@,
            final(sim).time == old(sim).time,
            final(sim).nev == old(sim).nev,
            final(sim).fault == old(sim).fault,
            ({
                let pre = *old(sim);
                let post = *final(sim);
                let rr = pre.resources@[self.id as int];
                if rr.val < rr.max {
                    &&& post.resources@[self.id as int].val == rr.val + 1
                    &&& post.resources@[self.id as int].waiters@ == rr.waiters@
                    &&& post.events@[ev.id as int].t == Some(pre.time)
                    &&& post.events@[ev.id as int].queued
                    &&& post.queue@ == pre.queue@.push((QEntry { t: pre.time, ev: ev.id }))
                } else {
                    &&& post.resources@[self.id as int].val == rr.val
                    &&& post.resources@[self.id as int].waiters@ == rr.waiters@.push(ev.id)
                    &&& post.events@[ev.id as int].t is None
                    &&& !post.events@[ev.id as int].queued
                    &&& post.queue@ == pre.queue@
                }
            }),
    {
        let ev = sim.event(None);
        let cur = sim.resources[self.id].val;
        let mx = sim.resources[self.id].max;
        if cur < mx {
            let r = &mut sim.resources[self.id];
            r.val = cur + 1;
            sim.schedule(ev, 0);
        } else {
            let r = &mut sim.resources[self.id];
            r.waiters.push(ev.id);
        }
        ev
    }

    /// Gives one unit back, or transfers it to the head waiter.  The
    /// resource must hold at least one unit.
    pub fn release(self, sim: &mut Simulation)
        requires
            old(sim).wf(),
            self.id < old(sim).resources@.len(),
            old(sim).resources@[self.id as int].val > 0,
        ensures
            final(sim).wf(),
            evolves(*old(sim), *final(sim)),
            final(sim).time == old(sim).time,
            final(sim).nev == old(sim).nev,
            ({
                let pre = *old(sim);
                let post = *final(sim);
                if pre.resources@[self.id as int].waiters@.len() > 0 {
                    let w = pre.resources@[self.id as int].waiters@[0] as int;
                    release_transfer_effect(
                        pre,
                        post,
                        self.id as int,
                        !pre.events@[w].queued && !pre.events@[w].fired,
                    )
                } else if buf_fill_below(pre, self.id as int) {
                    release_decr_effect(pre, post, self.id as int)
                } else {
                    faulted_noop(pre, post)
                }
            }),
    {
        let _ok = sim.do_release(self.id);
    }
}

} // verus!
