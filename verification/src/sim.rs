//! The discrete-event kernel: a virtual clock, a stable min-queue of
//! events, and a run loop.
//!
//! An `Event` is a future point in virtual time carrying an ordered list
//! of actions.  It may be created already scheduled, or unresolved — its
//! fire time decided later by `schedule` — and it executes exactly once,
//! running its actions in insertion order.  Actions are first-order
//! values (schedule another event, release a resource, enqueue into or
//! pop from a buffer, run a router tick, record a trace mark), so the
//! whole run loop is ordinary verified code.
//!
//! The kernel owns all component state: event records, the pending-event
//! queue, counted resources, FIFO buffers and mesh routers all live in
//! arenas inside `Simulation`, and the public handle types (`Event`,
//! `Resource`, `FifoBuf`, `MeshRouter`) are indices into them.
//!
//! Ordering: events fire in increasing time order, and events with equal
//! times fire in the order they were enqueued (the queue is kept in
//! insertion order and the run loop picks the first minimum), which makes
//! zero-delay cascades deterministic.
//!
//! Protocol violations — releasing an idle resource, popping without a
//! pend, re-scheduling an already queued event, or overflowing the clock
//! or a counter — record a `Fault` and halt the run loop; they are never
//! undefined behaviour.

use vstd::prelude::*;
use crate::mesh::Packet;
use crate::mesh::MeshRouter;
use crate::mesh::RouterRec;
use crate::mesh::router_proc;
use crate::mesh::router_arm;
use crate::mesh::routers_wf;

verus! {

/// Virtual time.  Advanced only by the run loop; unrelated to wall time.
pub type Time = u64;

/// Handle to an event owned by a `Simulation`.
#[derive(Clone, Copy, PartialEq, Eq, Structural)]
pub struct Event {
    pub id: usize,
}

/// Handle to a counted resource owned by a `Simulation`.
#[derive(Clone, Copy, PartialEq, Eq, Structural)]
pub struct Resource {
    pub id: usize,
}

/// Handle to a bounded FIFO buffer owned by a `Simulation`.
#[derive(Clone, Copy, PartialEq, Eq, Structural)]
pub struct FifoBuf {
    pub id: usize,
}

/// A deferred callback: what an event does when it fires.
#[derive(Clone, Copy)]
pub enum Action {
    /// Record `(now, tag)` in the simulation trace.
    Note { tag: u64 },
    /// Schedule another event `delay` units after this one fires.
    Sched { ev: Event, delay: Time },
    /// Release one unit of a resource.
    ResRelease { res: Resource },
    /// Append a payload at the tail of a buffer (the completion of a
    /// granted `push`).
    BufEnqueue { buf: FifoBuf, p: Packet },
    /// Pop the pended head of a buffer.
    BufPop { buf: FifoBuf },
    /// Arm a router's processing tick (used when a deferred push lands
    /// a packet after the router may have gone idle).
    Arm { router: MeshRouter },
    /// Run one processing tick of a mesh router.
    RouterProc { router: MeshRouter },
}

/// Why a run was halted: the programming errors the kernel turns into an
/// immediate stop of the run loop.
#[derive(Clone, Copy, PartialEq, Eq, Structural, Debug)]
pub enum Fault {
    /// The virtual clock would pass `Time::MAX`.
    TimeOverflow,
    /// The fired-event counter would pass `u64::MAX`.
    CountOverflow,
    /// Scheduling an event that is already queued or already fired.
    ScheduleMisuse,
    /// An action named an arena index that does not exist.
    BadHandle,
    /// Releasing a resource with no unit held, or below a buffer's fill.
    ReleaseUnderflow,
    /// A buffer enqueue without a matching reservation.
    EnqueueOverflow,
    /// Popping a buffer whose head was not pended.
    PopProtocol,
    /// A router output with no neighbor wired in that direction.
    MissingNeighbor,
}

/// State of one event: its fire time (unset while unresolved), whether it
/// sits in the pending queue, whether it has executed, and its actions.
pub struct EventRec {
    pub t: Option<Time>,
    pub queued: bool,
    pub fired: bool,
    pub actions: Vec<Action>,
}

/// One entry of the pending queue, kept in insertion order.
#[derive(Clone, Copy)]
pub struct QEntry {
    pub t: Time,
    pub ev: usize,
}

/// A counted resource: capacity, held units, and FIFO waiter events.
pub struct ResourceRec {
    pub max: usize,
    pub val: usize,
    pub waiters: Vec<usize>,
}

/// A bounded FIFO buffer: its backing resource, capacity, payload queue
/// and the two-phase `pending` flag.
pub struct BufRec {
    pub res: usize,
    pub cap: usize,
    pub q: Vec<Packet>,
    pub pending: bool,
}

/// The simulation: virtual clock, fired-event counter, the arenas of all
/// components, the pending queue, a trace of `Note` marks, and the fault
/// that halted the run, if any.
pub struct Simulation {
    pub time: Time,
    pub nev: u64,
    pub events: Vec<EventRec>,
    pub queue: Vec<QEntry>,
    pub resources: Vec<ResourceRec>,
    pub bufs: Vec<BufRec>,
    pub routers: Vec<RouterRec>,
    pub trace: Vec<(Time, u64)>,
    pub fault: Option<Fault>,
}

/// Monotone evolution: arenas only grow, and an event that has fired is
/// never touched again.
pub open spec fn evolves(pre: Simulation, post: Simulation) -> bool {
    &&& post.events@.len() >= pre.events@.len()
    &&& post.resources@.len() >= pre.resources@.len()
    &&& post.bufs@.len() >= pre.bufs@.len()
    &&& post.routers@.len() >= pre.routers@.len()
    &&& forall|e: int|
        0 <= e < pre.events@.len() && (#[trigger] pre.events@[e]).fired
            ==> post.events@[e] == pre.events@[e]
}

/// Evolution composes: growth and the freezing of fired events chain
/// across consecutive operations.
pub broadcast proof fn lemma_evolves_trans(a: Simulation, b: Simulation, c: Simulation)
    requires
        #[trigger] evolves(a, b),
        #[trigger] evolves(b, c),
    ensures
        evolves(a, c),
{
    assert forall|e: int| 0 <= e < a.events@.len() && (#[trigger] a.events@[e]).fired
        implies c.events@[e] == a.events@[e] by {
        assert(b.events@[e] == a.events@[e]);
        assert(b.events@[e].fired);
    }
}

/// A newly created, unresolved event record.
pub open spec fn fresh_unresolved(rec: EventRec) -> bool {
    &&& rec.t is None
    &&& !rec.queued
    &&& !rec.fired
    &&& rec.actions@.len() == 0
}

/// Nothing changed but the fault, which is now set (the first fault is
/// kept).
pub open spec fn faulted_noop(pre: Simulation, post: Simulation) -> bool {
    &&& post.events@ == pre.events@
    &&& post.queue@ == pre.queue@
    &&& post.resources@ == pre.resources@
    &&& post.bufs@ == pre.bufs@
    &&& post.routers@ == pre.routers@
    &&& post.trace@ == pre.trace@
    &&& post.time == pre.time
    &&& post.nev == pre.nev
    &&& post.fault is Some
    &&& (pre.fault is Some ==> post.fault == pre.fault)
}

/// The effect of scheduling event `ev` at `pre.time + delay`: its record
/// gets the fire time and the queued mark, and an entry joins the tail of
/// the pending queue.
pub open spec fn sched_effect(pre: Simulation, post: Simulation, ev: int, delay: Time) -> bool {
    &&& post.events@.len() == pre.events@.len()
    &&& forall|e: int|
        0 <= e < pre.events@.len() && e != ev ==> #[trigger] post.events@[e] == pre.events@[e]
    &&& post.events@[ev].t == Some(((pre.time + delay) as u64))
    &&& post.events@[ev].queued
    &&& !post.events@[ev].fired
    &&& post.events@[ev].actions@ == pre.events@[ev].actions@
    &&& post.queue@ == pre.queue@.push((QEntry { t: ((pre.time + delay) as u64), ev: ev as usize }))
    &&& post.resources@ == pre.resources@
    &&& post.bufs@ == pre.bufs@
    &&& post.routers@ == pre.routers@
    &&& post.trace@ == pre.trace@
    &&& post.time == pre.time
    &&& post.nev == pre.nev
    &&& post.fault == pre.fault
}

/// The whole effect of a deferred schedule of event `ev`: the schedule
/// itself, or a recorded fault when the event is already queued or
/// fired, or the clock would overflow.
pub open spec fn sched_rel(pre: Simulation, post: Simulation, ev: int, delay: Time) -> bool {
    if !pre.events@[ev].queued && !pre.events@[ev].fired && pre.time + delay <= u64::MAX {
        sched_effect(pre, post, ev, delay)
    } else {
        faulted_noop(pre, post)
    }
}

/// The whole effect of one action of a firing event: what each variant
/// does to the simulation, with an out-of-range handle a recorded
/// fault.  The clock and the fired-event counter never move inside an
/// action.
pub open spec fn action_effect(pre: Simulation, post: Simulation, a: Action) -> bool {
    &&& evolves(pre, post)
    &&& post.time == pre.time
    &&& post.nev == pre.nev
    &&& match a {
        Action::Note { tag } => {
            &&& post.trace@ == pre.trace@.push((pre.time, tag))
            &&& post.events@ == pre.events@
            &&& post.queue@ == pre.queue@
            &&& post.resources@ == pre.resources@
            &&& post.bufs@ == pre.bufs@
            &&& post.routers@ == pre.routers@
            &&& post.fault == pre.fault
        },
        Action::Sched { ev, delay } => if ev.id < pre.events@.len() {
            sched_rel(pre, post, ev.id as int, delay)
        } else {
            faulted_noop(pre, post)
        },
        Action::ResRelease { res } => if res.id < pre.resources@.len() {
            crate::resource::release_rel(pre, post, res.id as int)
        } else {
            faulted_noop(pre, post)
        },
        Action::BufEnqueue { buf, p } => if buf.id < pre.bufs@.len() {
            crate::fifobuf::buf_enqueue_rel(pre, post, buf.id as int, p)
        } else {
            faulted_noop(pre, post)
        },
        Action::BufPop { buf } => if buf.id < pre.bufs@.len() {
            crate::fifobuf::buf_pop_rel(pre, post, buf.id as int)
        } else {
            faulted_noop(pre, post)
        },
        Action::Arm { router } => if router.id < pre.routers@.len() {
            crate::mesh::arm_rel(pre, post, router.id as int)
        } else {
            faulted_noop(pre, post)
        },
        Action::RouterProc { router } => if router.id < pre.routers@.len() {
            crate::mesh::proc_rel(pre, post, router.id as int)
        } else {
            faulted_noop(pre, post)
        },
    }
}

/// The effect of the run loop taking queue entry `k`: the entry leaves
/// the queue, the clock moves to its time, and its event is marked
/// executed and no longer queued.  Nothing else moves yet.
pub open spec fn step_mark(pre: Simulation, post: Simulation, k: int) -> bool {
    let ev = pre.queue@[k].ev as int;
    &&& post.queue@ == pre.queue@.subrange(0, k) + pre.queue@.subrange(
        k + 1,
        pre.queue@.len() as int,
    )
    &&& post.events@ == pre.events@.update(
        ev,
        (EventRec {
            t: pre.events@[ev].t,
            queued: false,
            fired: true,
            actions: pre.events@[ev].actions,
        }),
    )
    &&& post.time == pre.queue@[k].t
    &&& post.resources@ == pre.resources@
    &&& post.bufs@ == pre.bufs@
    &&& post.routers@ == pre.routers@
    &&& post.trace@ == pre.trace@
    &&& post.nev == pre.nev
    &&& post.fault == pre.fault
}

/// The whole effect of one `step` of the run loop.  When it progresses
/// it fires exactly the first minimal-time pending event: the clock
/// moves to that time (never backward), the event is unqueued and
/// marked fired, its actions run in insertion order (the witness
/// chain), and the fired-event counter ticks.  It progresses if and
/// only if no fault has been recorded, an event is pending, the counter
/// has room, and (under a limit) some pending event lies at or below
/// the limit; otherwise the state is untouched except that reaching an
/// over-limit event pins the clock to the limit.
pub open spec fn step_rel(
    pre: Simulation,
    post: Simulation,
    limit: Option<Time>,
    progressed: bool,
) -> bool {
    &&& evolves(pre, post)
    &&& post.time >= pre.time
    &&& (progressed ==> pre.nev < u64::MAX && post.nev == pre.nev + 1)
    &&& (!progressed ==> post.nev == pre.nev)
    &&& (pre.queue@.len() == 0 ==> post == pre)
    &&& (pre.fault is Some ==> post == pre && !progressed)
    &&& (progressed ==> forall|j: int|
        0 <= j < pre.queue@.len() ==> (#[trigger] pre.queue@[j]).t >= post.time)
    &&& (progressed ==> exists|k: int|
        0 <= k < pre.queue@.len() && (#[trigger] pre.queue@[k]).t == post.time && (forall|j: int|
            0 <= j < k ==> pre.queue@[j].t > post.time))
    &&& (!progressed ==> post.fault is Some || post.queue@.len() == 0 || (limit matches Some(l)
        && forall|j: int|
        0 <= j < post.queue@.len() ==> (#[trigger] post.queue@[j]).t > l))
    &&& (limit matches Some(l) ==> (pre.time <= l ==> post.time <= l))
    &&& (progressed <==> (pre.fault is None && pre.queue@.len() > 0 && pre.nev < u64::MAX && (
    limit matches Some(l) ==> exists|j: int|
        0 <= j < pre.queue@.len() && (#[trigger] pre.queue@[j]).t <= l)))
    &&& (!progressed && pre.fault is None && pre.queue@.len() > 0 && pre.nev == u64::MAX
        ==> post.fault is Some)
    &&& (!progressed && pre.fault is None && pre.queue@.len() > 0 && pre.nev < u64::MAX ==> (
    limit matches Some(l) ==> post.time == (if pre.time <= l {
        l
    } else {
        pre.time
    })))
    &&& (progressed ==> exists|k: int, chain: Seq<Simulation>|
        {
            let acts = pre.events@[pre.queue@[k].ev as int].actions@;
            &&& 0 <= k < pre.queue@.len()
            &&& chain.len() == acts.len() + 1
            &&& #[trigger] step_mark(pre, chain[0], k)
            &&& forall|i: int|
                0 <= i < acts.len() ==> action_effect(chain[i], chain[i + 1], acts[i])
            &&& post.nev == chain[chain.len() - 1].nev + 1
            &&& ({
                let last = chain[chain.len() - 1];
                &&& post.time == last.time
                &&& post.events@ == last.events@
                &&& post.queue@ == last.queue@
                &&& post.resources@ == last.resources@
                &&& post.bufs@ == last.bufs@
                &&& post.routers@ == last.routers@
                &&& post.trace@ == last.trace@
                &&& post.fault == last.fault
            })
        })
}

/// Fired times never decrease across a run.  Every progressed step
/// fires the earliest pending event after moving the clock to its time
/// (the selection clauses of `step_rel`), and along any chain of run
/// steps — progressed or not — the clock never moves backward, so the
/// sequence of fired times, read off the chain's successive clocks, is
/// non-decreasing.
pub proof fn lemma_fired_times_monotone(
    chain: Seq<Simulation>,
    limit: Option<Time>,
    i: int,
    j: int,
)
    requires
        forall|k: int|
            0 <= k < chain.len() - 1 ==> (step_rel(#[trigger] chain[k], chain[k + 1], limit, true)
                || step_rel(chain[k], chain[k + 1], limit, false)),
        0 <= i <= j < chain.len(),
    ensures
        chain[i].time <= chain[j].time,
    decreases j - i,
{
    if i < j {
        lemma_fired_times_monotone(chain, limit, i, j - 1);
        assert(step_rel(chain[j - 1], chain[j], limit, true) || step_rel(
            chain[j - 1],
            chain[j],
            limit,
            false,
        ));
    }
}

/// The effect of marking event `id` executed: only its `fired` flag is
/// raised; everything else stands still.
pub open spec fn fired_mark(pre: Simulation, post: Simulation, id: int) -> bool {
    &&& post.events@ == pre.events@.update(
        id,
        (EventRec {
            t: pre.events@[id].t,
            queued: pre.events@[id].queued,
            fired: true,
            actions: pre.events@[id].actions,
        }),
    )
    &&& post.queue@ == pre.queue@
    &&& post.resources@ == pre.resources@
    &&& post.bufs@ == pre.bufs@
    &&& post.routers@ == pre.routers@
    &&& post.trace@ == pre.trace@
    &&& post.time == pre.time
    &&& post.nev == pre.nev
    &&& post.fault == pre.fault
}

impl Simulation {
    /// Every entry of the pending queue points at a live, queued, unfired
    /// event whose recorded fire time matches, and no pending time lies
    /// in the past.
    pub open spec fn queue_wf(self) -> bool {
        forall|k: int|
            0 <= k < self.queue@.len() ==> {
                &&& (#[trigger] self.queue@[k]).ev < self.events@.len()
                &&& self.events@[self.queue@[k].ev as int].queued
                &&& !self.events@[self.queue@[k].ev as int].fired
                &&& self.events@[self.queue@[k].ev as int].t == Some(self.queue@[k].t)
                &&& self.queue@[k].t >= self.time
            }
    }

    /// No event sits in the pending queue twice.
    pub open spec fn queue_distinct(self) -> bool {
        forall|k1: int, k2: int|
            0 <= k1 < k2 < self.queue@.len()
                ==> (#[trigger] self.queue@[k1]).ev != (#[trigger] self.queue@[k2]).ev
    }

    /// Every resource holds at most its capacity, and waiter lists name
    /// live events.
    pub open spec fn resources_wf(self) -> bool {
        forall|r: int|
            0 <= r < self.resources@.len() ==> {
                &&& (#[trigger] self.resources@[r]).val <= self.resources@[r].max
                &&& forall|i: int|
                    0 <= i < self.resources@[r].waiters@.len()
                        ==> (#[trigger] self.resources@[r].waiters@[i]) < self.events@.len()
            }
    }

    /// Every buffer is backed by a live resource of the same capacity,
    /// holds no more payloads than units granted, and a pended buffer has
    /// a head to pop.
    pub open spec fn bufs_wf(self) -> bool {
        forall|b: int|
            0 <= b < self.bufs@.len() ==> {
                &&& (#[trigger] self.bufs@[b]).res < self.resources@.len()
                &&& self.bufs@[b].cap == self.resources@[self.bufs@[b].res as int].max
                &&& self.bufs@[b].q@.len() <= self.resources@[self.bufs@[b].res as int].val
                &&& (self.bufs@[b].pending ==> self.bufs@[b].q@.len() >= 1)
            }
    }

    /// No two buffers share a backing resource.
    pub open spec fn bufs_res_distinct(self) -> bool {
        forall|b1: int, b2: int|
            0 <= b1 < b2 < self.bufs@.len()
                ==> (#[trigger] self.bufs@[b1]).res != (#[trigger] self.bufs@[b2]).res
    }

    /// Well-formedness of the whole simulation.
    pub open spec fn wf(self) -> bool {
        &&& self.queue_wf()
        &&& self.queue_distinct()
        &&& self.resources_wf()
        &&& self.bufs_wf()
        &&& self.bufs_res_distinct()
        &&& routers_wf(self)
    }

    /// A fresh simulation: clock at zero, nothing created, no fault.
    pub fn new() -> (s: Simulation)
        ensures
            s.wf(),
            s.time == 0,
            s.nev == 0,
            s.events@.len() == 0,
            s.queue@.len() == 0,
            s.resources@.len() == 0,
            s.bufs@.len() == 0,
            s.routers@.len() == 0,
            s.trace@.len() == 0,
            s.fault is None,
    {
        Simulation {
            time: 0,
            nev: 0,
            events: Vec::new(),
            queue: Vec::new(),
            resources: Vec::new(),
            bufs: Vec::new(),
            routers: Vec::new(),
            trace: Vec::new(),
            fault: None,
        }
    }

    /// The current virtual time.
    pub fn now(&self) -> (t: Time)
        ensures
            t == self.time,
    {
        self.time
    }

    /// How many events have fired.
    pub fn num_events(&self) -> (n: u64)
        ensures
            n == self.nev,
    {
        self.nev
    }

    /// The fault that halted the run, if any.
    pub fn fault(&self) -> (f: Option<Fault>)
        ensures
            f == self.fault,
    {
        self.fault
    }

    /// The trace of `Note` marks recorded so far, each with the time it
    /// fired.
    pub fn trace(&self) -> (tr: &Vec<(Time, u64)>)
        ensures
            tr@ == self.trace@,
    {
        &self.trace
    }

    /// Records a fault; the first one is kept.
    pub(crate) fn set_fault(&mut self, f: Fault)
        requires
            old(self).wf(),
        ensures
            final(self).wf(),
            faulted_noop(*old(self), *final(self)),
    {
        if self.fault.is_none() {
            self.fault = Some(f);
        }
    }

    /// Creates a new event.  With a delay it is scheduled `delay` units
    /// from now (faulting on clock overflow); without one it stays
    /// unresolved until a later `schedule`.
    pub fn event(&mut self, delay: Option<Time>) -> (ev: Event)
        requires
            old(self).wf(),
        ensures
            final(self).wf(),
            evolves(*old(self), *final(self)),
            ev.id == old(self).events@.len(),
            final(self).events@.len() == old(self).events@.len() + 1,
            forall|e: int|
                0 <= e < old(self).events@.len()
                    ==> #[trigger] final(self).events@[e] == old(self).events@[e],
            final(self).resources@ == old(self).resources@,
            final(self).bufs@ == old(self).bufs@,
            final(self).routers@ == old(self).routers@,
            final(self).trace@ == old(self).trace@,
            final(self).time == old(self).time,
            final(self).nev == old(self).nev,
            !final(self).events@[ev.id as int].fired,
            final(self).events@[ev.id as int].actions@.len() == 0,
            match delay {
                None => {
                    &&& fresh_unresolved(final(self).events@[ev.id as int])
                    &&& final(self).queue@ == old(self).queue@
                    &&& final(self).fault == old(self).fault
                },
                Some(d) => {
                    if old(self).time + d <= u64::MAX {
                        &&& final(self).events@[ev.id as int].t == Some(
                            ((old(self).time + d) as u64),
                        )
                        &&& final(self).events@[ev.id as int].queued
                        &&& final(self).queue@ == old(self).queue@.push(
                            (QEntry { t: ((old(self).time + d) as u64), ev: ev.id }),
                        )
                        &&& final(self).fault == old(self).fault
                    } else {
                        &&& fresh_unresolved(final(self).events@[ev.id as int])
                        &&& final(self).queue@ == old(self).queue@
                        &&& final(self).fault is Some
                    }
                },
            },
    {
        let id = self.events.len();
        self.events.push(EventRec { t: None, queued: false, fired: false, actions: Vec::new() });
        let ev = Event { id };
        if let Some(d) = delay {
            let _ok = self.do_schedule(id, d);
        }
        ev
    }

    /// Gives event `ev` the fire time `now + delay` and appends it to the
    /// pending queue.  Faults instead of scheduling an event twice, an
    /// already-fired event, or past the end of the clock.
    pub(crate) fn do_schedule(&mut self, ev: usize, delay: Time) -> (ok: bool)
        requires
            old(self).wf(),
            ev < old(self).events@.len(),
        ensures
            final(self).wf(),
            evolves(*old(self), *final(self)),
            ({
                let pre = *old(self);
                let post = *final(self);
                if !pre.events@[ev as int].queued && !pre.events@[ev as int].fired && pre.time
                    + delay <= u64::MAX {
                    ok && sched_effect(pre, post, ev as int, delay)
                } else {
                    !ok && faulted_noop(pre, post)
                }
            }),
    {
        let was_queued = self.events[ev].queued;
        let was_fired = self.events[ev].fired;
        if was_queued || was_fired {
            self.set_fault(Fault::ScheduleMisuse);
            return false;
        }
        if delay > u64::MAX - self.time {
            self.set_fault(Fault::TimeOverflow);
            return false;
        }
        let t = self.time + delay;
        let r = &mut self.events[ev];
        r.t = Some(t);
        r.queued = true;
        self.queue.push(QEntry { t, ev });
        true
    }

    /// Sets `ev.t = now + delay` and enqueues it.  The event must be
    /// unresolved or at least not currently enqueued, and must not have
    /// fired.
    pub fn schedule(&mut self, ev: Event, delay: Time)
        requires
            old(self).wf(),
            ev.id < old(self).events@.len(),
            !old(self).events@[ev.id as int].queued,
            !old(self).events@[ev.id as int].fired,
            old(self).time + delay <= u64::MAX,
        ensures
            final(self).wf(),
            evolves(*old(self), *final(self)),
            sched_effect(*old(self), *final(self), ev.id as int, delay),
    {
        let _ok = self.do_schedule(ev.id, delay);
    }

    /// Appends an already-timed event to the pending queue.  Its recorded
    /// time must not lie in the past.
    pub fn enqueue(&mut self, ev: Event)
        requires
            old(self).wf(),
            ev.id < old(self).events@.len(),
            !old(self).events@[ev.id as int].queued,
            !old(self).events@[ev.id as int].fired,
            old(self).events@[ev.id as int].t matches Some(t) && t >= old(self).time,
        ensures
            final(self).wf(),
            evolves(*old(self), *final(self)),
            final(self).events@.len() == old(self).events@.len(),
            forall|e: int|
                0 <= e < old(self).events@.len() && e != ev.id as int
                    ==> #[trigger] final(self).events@[e] == old(self).events@[e],
            final(self).events@[ev.id as int].queued,
            final(self).events@[ev.id as int].t == old(self).events@[ev.id as int].t,
            final(self).events@[ev.id as int].fired == old(self).events@[ev.id as int].fired,
            final(self).events@[ev.id as int].actions@ == old(self).events@[ev.id as int].actions@,
            final(self).queue@ == old(self).queue@.push(
                (QEntry {
                    t: old(self).events@[ev.id as int].t->0,
                    ev: ev.id,
                }),
            ),
            final(self).resources@ == old(self).resources@,
            final(self).bufs@ == old(self).bufs@,
            final(self).routers@ == old(self).routers@,
            final(self).trace@ == old(self).trace@,
            final(self).time == old(self).time,
            final(self).nev == old(self).nev,
            final(self).fault == old(self).fault,
    {
        let t = match self.events[ev.id].t {
            Some(t) => t,
            None => 0,
        };
        let r = &mut self.events[ev.id];
        r.queued = true;
        self.queue.push(QEntry { t, ev: ev.id });
    }
}

/// Fired times never decrease: no pending event lies before the current
/// clock, and the run loop fires the soonest pending event after moving
/// the clock to its time — so, with `run`'s guarantee that the clock
/// never moves backward, the times of fired events form a non-decreasing
/// sequence.
pub proof fn lemma_no_pending_in_past(s: Simulation, k: int)
    requires
        s.wf(),
        0 <= k < s.queue@.len(),
    ensures
        s.queue@[k].t >= s.time,
{
}

impl Event {
    /// Creates an event through the simulation: scheduled `delay` units
    /// from now when a delay is given, unresolved otherwise.
    pub fn new(sim: &mut Simulation, delay: Option<Time>) -> (ev: Event)
        requires
            old(sim).wf(),
        ensures
            final(sim).wf(),
            evolves(*old(sim), *final(sim)),
            ev.id == old(sim).events@.len(),
            final(sim).events@.len() == old(sim).events@.len() + 1,
            forall|e: int|
                0 <= e < old(sim).events@.len()
                    ==> #[trigger] final(sim).events@[e] == old(sim).events@[e],
            final(sim).time == old(sim).time,
            final(sim).nev == old(sim).nev,
            !final(sim).events@[ev.id as int].fired,
            final(sim).events@[ev.id as int].actions@.len() == 0,
            final(sim).resources@ == old(sim).resources@,
            final(sim).bufs@ == old(sim).bufs@,
            final(sim).routers@ == old(sim).routers@,
            final(sim).trace@ == old(sim).trace@,
            match delay {
                None => {
                    &&& fresh_unresolved(final(sim).events@[ev.id as int])
                    &&& final(sim).queue@ == old(sim).queue@
                    &&& final(sim).fault == old(sim).fault
                },
                Some(d) => {
                    if old(sim).time + d <= u64::MAX {
                        &&& final(sim).events@[ev.id as int].t == Some(
                            ((old(sim).time + d) as u64),
                        )
                        &&& final(sim).events@[ev.id as int].queued
                        &&& final(sim).queue@ == old(sim).queue@.push(
                            (QEntry { t: ((old(sim).time + d) as u64), ev: ev.id }),
                        )
                        &&& final(sim).fault == old(sim).fault
                    } else {
                        &&& fresh_unresolved(final(sim).events@[ev.id as int])
                        &&& final(sim).queue@ == old(sim).queue@
                        &&& final(sim).fault is Some
                    }
                },
            },
    {
        sim.event(delay)
    }

    /// Runs this event's actions in insertion order and marks it
    /// executed.  The run loop does this for every queued event it
    /// fires; calling it directly is for an event driven by hand, never
    /// for one already pending or fired.
    pub fn exec(self, sim: &mut Simulation)
        requires
            old(sim).wf(),
            self.id < old(sim).events@.len(),
            !old(sim).events@[self.id as int].queued,
            !old(sim).events@[self.id as int].fired,
        ensures
            final(sim).wf(),
            evolves(*old(sim), *final(sim)),
            final(sim).time == old(sim).time,
            final(sim).nev == old(sim).nev,
            final(sim).events@[self.id as int].fired,
            final(sim).events@[self.id as int].t == old(sim).events@[self.id as int].t,
            final(sim).events@[self.id as int].actions@ == old(sim).events@[self.id
                as int].actions@,
            exists|chain: Seq<Simulation>|
                {
                    &&& #[trigger] chain.len() == old(sim).events@[self.id
                        as int].actions@.len() + 1
                    &&& fired_mark(*old(sim), chain[0], self.id as int)
                    &&& chain[chain.len() - 1] == *final(sim)
                    &&& forall|i: int|
                        0 <= i < old(sim).events@[self.id as int].actions@.len()
                            ==> action_effect(
                            chain[i],
                            chain[i + 1],
                            old(sim).events@[self.id as int].actions@[i],
                        )
                },
    {
        let r = &mut sim.events[self.id];
        r.fired = true;
        let ghost mid = *sim;
        proof {
            assert(fired_mark(*old(sim), mid, self.id as int));
        }
        let n = sim.events[self.id].actions.len();
        let ghost acts = sim.events@[self.id as int].actions@;
        let ghost mut snaps: Seq<Simulation> = seq![mid];
        let mut j: usize = 0;
        while j < n
            invariant
                sim.wf(),
                self.id < sim.events@.len(),
                sim.events@[self.id as int].fired,
                sim.events@[self.id as int].actions@ == acts,
                n == acts.len(),
                j <= n,
                evolves(mid, *sim),
                sim.time == mid.time,
                sim.nev == mid.nev,
                snaps.len() == j + 1,
                snaps[0] == mid,
                snaps[j as int] == *sim,
                forall|i: int|
                    0 <= i < j ==> action_effect(#[trigger] snaps[i], snaps[i + 1], acts[i]),
            decreases n - j,
        {
            let a = sim.events[self.id].actions[j];
            sim.exec_action(a);
            j = j + 1;
            proof {
                snaps = snaps.push(*sim);
            }
        }
        proof {
            assert forall|e: int|
                0 <= e < old(sim).events@.len() && (#[trigger] old(sim).events@[e]).fired
                implies sim.events@[e] == old(sim).events@[e] by {
                assert(mid.events@[e] == old(sim).events@[e]);
                assert(mid.events@[e].fired);
            }
            assert(snaps.len() == acts.len() + 1);
            assert(snaps[snaps.len() - 1] == *sim);
        }
    }

    /// Appends an action to this event's list.  Actions run in insertion
    /// order when the event fires; appending after execution is a
    /// protocol violation and is excluded.
    pub fn callback(self, sim: &mut Simulation, a: Action)
        requires
            old(sim).wf(),
            self.id < old(sim).events@.len(),
            !old(sim).events@[self.id as int].fired,
        ensures
            final(sim).wf(),
            evolves(*old(sim), *final(sim)),
            final(sim).events@.len() == old(sim).events@.len(),
            forall|e: int|
                0 <= e < old(sim).events@.len() && e != self.id as int
                    ==> #[trigger] final(sim).events@[e] == old(sim).events@[e],
            final(sim).events@[self.id as int].t == old(sim).events@[self.id as int].t,
            final(sim).events@[self.id as int].queued == old(sim).events@[self.id as int].queued,
            final(sim).events@[self.id as int].fired == old(sim).events@[self.id as int].fired,
            final(sim).events@[self.id as int].actions@ == old(sim).events@[self.id as
                int].actions@.push(a),
            final(sim).queue@ == old(sim).queue@,
            final(sim).resources@ == old(sim).resources@,
            final(sim).bufs@ == old(sim).bufs@,
            final(sim).routers@ == old(sim).routers@,
            final(sim).trace@ == old(sim).trace@,
            final(sim).time == old(sim).time,
            final(sim).nev == old(sim).nev,
            final(sim).fault == old(sim).fault,
    {
        let r = &mut sim.events[self.id];
        r.actions.push(a);
    }

    /// Sets this event's fire time without enqueuing it.
    pub fn set_time(self, sim: &mut Simulation, t: Time)
        requires
            old(sim).wf(),
            self.id < old(sim).events@.len(),
            !old(sim).events@[self.id as int].queued,
            !old(sim).events@[self.id as int].fired,
        ensures
            final(sim).wf(),
            evolves(*old(sim), *final(sim)),
            final(sim).events@.len() == old(sim).events@.len(),
            forall|e: int|
                0 <= e < old(sim).events@.len() && e != self.id as int
                    ==> #[trigger] final(sim).events@[e] == old(sim).events@[e],
            final(sim).events@[self.id as int].t == Some(t),
            final(sim).events@[self.id as int].queued == old(sim).events@[self.id as int].queued,
            final(sim).events@[self.id as int].fired == old(sim).events@[self.id as int].fired,
            final(sim).events@[self.id as int].actions@ == old(sim).events@[self.id as
                int].actions@,
            final(sim).queue@ == old(sim).queue@,
            final(sim).resources@ == old(sim).resources@,
            final(sim).bufs@ == old(sim).bufs@,
            final(sim).routers@ == old(sim).routers@,
            final(sim).trace@ == old(sim).trace@,
            final(sim).time == old(sim).time,
            final(sim).nev == old(sim).nev,
            final(sim).fault == old(sim).fault,
    {
        let r = &mut sim.events[self.id];
        r.t = Some(t);
    }

    /// Returns a new unresolved event that will be scheduled `delay`
    /// units after this one fires.
    pub fn delay(self, sim: &mut Simulation, delay: Time) -> (ev: Event)
        requires
            old(sim).wf(),
            self.id < old(sim).events@.len(),
            !old(sim).events@[self.id as int].fired,
        ensures
            final(sim).wf(),
            evolves(*old(sim), *final(sim)),
            ev.id == old(sim).events@.len(),
            final(sim).events@.len() == old(sim).events@.len() + 1,
            fresh_unresolved(final(sim).events@[ev.id as int]),
            forall|e: int|
                0 <= e < old(sim).events@.len() && e != self.id as int
                    ==> #[trigger] final(sim).events@[e] == old(sim).events@[e],
            final(sim).events@[self.id as int].t == old(sim).events@[self.id as int].t,
            final(sim).events@[self.id as int].queued == old(sim).events@[self.id as int].queued,
            final(sim).events@[self.id as int].fired == old(sim).events@[self.id as int].fired,
            final(sim).events@[self.id as int].actions@ == old(sim).events@[self.id as
                int].actions@.push((Action::Sched { ev, delay })),
            final(sim).queue@ == old(sim).queue@,
            final(sim).resources@ == old(sim).resources@,
            final(sim).bufs@ == old(sim).bufs@,
            final(sim).routers@ == old(sim).routers@,
            final(sim).trace@ == old(sim).trace@,
            final(sim).time == old(sim).time,
            final(sim).nev == old(sim).nev,
            final(sim).fault == old(sim).fault,
    {
        let ev = sim.event(None);
        self.callback(sim, Action::Sched { ev, delay });
        ev
    }
}

impl Simulation {
    /// Executes one action of a firing event.  Keeps the clock and the
    /// fired-event counter; may create, schedule or mutate components,
    /// and may record a fault.
    fn exec_action(&mut self, a: Action)
        requires
            old(self).wf(),
        ensures
            final(self).wf(),
            evolves(*old(self), *final(self)),
            final(self).time == old(self).time,
            final(self).nev == old(self).nev,
            action_effect(*old(self), *final(self), a),
    {
        match a {
            Action::Note { tag } => {
                let t = self.time;
                self.trace.push((t, tag));
            },
            Action::Sched { ev, delay } => {
                if ev.id < self.events.len() {
                    let _ok = self.do_schedule(ev.id, delay);
                } else {
                    self.set_fault(Fault::BadHandle);
                }
            },
            Action::ResRelease { res } => {
                if res.id < self.resources.len() {
                    let _ok = self.do_release(res.id);
                } else {
                    self.set_fault(Fault::BadHandle);
                }
            },
            Action::BufEnqueue { buf, p } => {
                if buf.id < self.bufs.len() {
                    self.do_buf_enqueue(buf.id, p);
                } else {
                    self.set_fault(Fault::BadHandle);
                }
            },
            Action::BufPop { buf } => {
                if buf.id < self.bufs.len() {
                    self.do_buf_pop(buf.id);
                } else {
                    self.set_fault(Fault::BadHandle);
                }
            },
            Action::Arm { router } => {
                if router.id < self.routers.len() {
                    router_arm(self, router.id);
                } else {
                    self.set_fault(Fault::BadHandle);
                }
            },
            Action::RouterProc { router } => {
                if router.id < self.routers.len() {
                    router_proc(self, router.id);
                } else {
                    self.set_fault(Fault::BadHandle);
                }
            },
        }
    }

    /// Fires the soonest pending event, if any: advances the clock to its
    /// time, runs its actions in order, and counts it.  Equal times fire
    /// in insertion order (the queue is kept in insertion order and the
    /// first minimum wins).  With a limit, an event beyond the limit is
    /// left pending and the clock is pinned to the limit instead.
    /// Returns whether an event fired; a false return means the queue
    /// drained, a fault halted the run, or the next event lies beyond
    /// the limit.
    pub fn step(&mut self, limit: Option<Time>) -> (progressed: bool)
        requires
            old(self).wf(),
        ensures
            final(self).wf(),
            step_rel(*old(self), *final(self), limit, progressed),
    {
        if self.fault.is_some() {
            return false;
        }
        if self.queue.len() == 0 {
            return false;
        }
        if self.nev == u64::MAX {
            self.set_fault(Fault::CountOverflow);
            return false;
        }
        // The first entry with the minimal time: equal times fire in
        // insertion order.
        let mut k: usize = 0;
        let mut i: usize = 1;
        while i < self.queue.len()
            invariant
                self.queue@.len() > 0,
                k < i,
                i <= self.queue@.len(),
                forall|j: int| 0 <= j < i ==> self.queue@[k as int].t <= (#[trigger] self.queue@[j]).t,
                forall|j: int| 0 <= j < k ==> self.queue@[k as int].t < (#[trigger] self.queue@[j]).t,
            decreases self.queue@.len() - i,
        {
            if self.queue[i].t < self.queue[k].t {
                k = i;
            }
            i = i + 1;
        }
        let qt = self.queue[k].t;
        if let Some(l) = limit {
            if qt > l {
                if l >= self.time {
                    self.time = l;
                }
                return false;
            }
        }
        let ghost kk = k as int;
        let qe = self.queue.remove(k);
        self.time = qe.t;
        proof {
            assert(old(self).queue@[kk].t == qe.t);
        }
        let r = &mut self.events[qe.ev];
        r.fired = true;
        r.queued = false;
        let ghost mid = *self;
        proof {
            assert(step_mark(*old(self), mid, kk));
        }
        let n = self.events[qe.ev].actions.len();
        let ghost acts = self.events@[qe.ev as int].actions@;
        let ghost mut snaps: Seq<Simulation> = seq![mid];
        let mut j: usize = 0;
        while j < n
            invariant
                self.wf(),
                qe.ev < self.events@.len(),
                self.events@[qe.ev as int].fired,
                self.events@[qe.ev as int].actions@ == acts,
                n == acts.len(),
                j <= n,
                evolves(mid, *self),
                self.time == mid.time,
                self.nev == mid.nev,
                snaps.len() == j + 1,
                snaps[0] == mid,
                snaps[j as int] == *self,
                forall|i: int|
                    0 <= i < j ==> action_effect(#[trigger] snaps[i], snaps[i + 1], acts[i]),
            decreases n - j,
        {
            let a = self.events[qe.ev].actions[j];
            self.exec_action(a);
            j = j + 1;
            proof {
                snaps = snaps.push(*self);
            }
        }
        proof {
            assert(snaps.len() == acts.len() + 1);
            assert(snaps[snaps.len() - 1] == *self);
            assert(acts == old(self).events@[old(self).queue@[kk].ev as int].actions@);
        }
        self.nev = self.nev + 1;
        proof {
            assert forall|e: int|
                0 <= e < old(self).events@.len() && (#[trigger] old(self).events@[e]).fired
                implies self.events@[e] == old(self).events@[e] by {
                assert(mid.events@[e] == old(self).events@[e]);
                assert(mid.events@[e].fired);
            }
            assert(0 <= kk < old(self).queue@.len() && old(self).queue@[kk].t == self.time && (
            forall|j: int| 0 <= j < kk ==> old(self).queue@[j].t > self.time));
        }
        true
    }

    /// Runs the simulation: repeatedly fires the soonest pending event
    /// (each `step` advances the clock to the earliest pending time,
    /// with equal times in insertion order), until the queue drains, a
    /// fault halts the run, or the next event lies beyond `limit` (the
    /// clock is then pinned to the limit and that event stays pending).
    /// With no pending events the clock does not move.  Unless a fault
    /// halted it, a run without a limit fires every event, and a run
    /// with a limit fires exactly the events up to the limit and never
    /// moves the clock past it.
    pub fn run(&mut self, limit: Option<Time>)
        requires
            old(self).wf(),
        ensures
            final(self).wf(),
            evolves(*old(self), *final(self)),
            final(self).time >= old(self).time,
            old(self).queue@.len() == 0 ==> *final(self) == *old(self),
            final(self).fault is None && final(self).queue@.len() > 0 ==> (limit matches Some(l)
                && forall|j: int|
                0 <= j < final(self).queue@.len() ==> (#[trigger] final(self).queue@[j]).t > l),
            limit is None && final(self).fault is None ==> final(self).queue@.len() == 0,
            limit matches Some(l) ==> (old(self).time <= l ==> final(self).time <= l),
            limit matches Some(l) ==> (old(self).time <= l && final(self).fault is None
                && final(self).queue@.len() > 0 ==> final(self).time == l),
            exists|chain: Seq<Simulation>|
                {
                    &&& #[trigger] chain.len() >= 2
                    &&& chain[0] == *old(self)
                    &&& chain[chain.len() - 1] == *final(self)
                    &&& forall|i: int|
                        0 <= i < chain.len() - 2 ==> step_rel(
                            #[trigger] chain[i],
                            chain[i + 1],
                            limit,
                            true,
                        )
                    &&& step_rel(chain[chain.len() - 2], chain[chain.len() - 1], limit, false)
                },
    {
        let mut go = true;
        let ghost mut chain: Seq<Simulation> = seq![*old(self)];
        while go
            invariant
                self.wf(),
                evolves(*old(self), *self),
                self.time >= old(self).time,
                old(self).queue@.len() == 0 ==> *self == *old(self),
                !go ==> (self.fault is Some || self.queue@.len() == 0 || (limit matches Some(l)
                    && forall|j: int|
                    0 <= j < self.queue@.len() ==> (#[trigger] self.queue@[j]).t > l)),
                limit matches Some(l) ==> (old(self).time <= l ==> self.time <= l),
                !go ==> (limit matches Some(l) ==> (old(self).time <= l && self.fault is None
                    && self.queue@.len() > 0 ==> self.time == l)),
                chain.len() >= 1,
                chain[0] == *old(self),
                chain[chain.len() - 1] == *self,
                forall|i: int|
                    0 <= i < chain.len() - (if go {
                        1int
                    } else {
                        2int
                    }) ==> step_rel(#[trigger] chain[i], chain[i + 1], limit, true),
                !go ==> chain.len() >= 2 && step_rel(
                    chain[chain.len() - 2],
                    chain[chain.len() - 1],
                    limit,
                    false,
                ),
            decreases u64::MAX - self.nev + (if go { 1int } else { 0int }),
        {
            let ghost prev = *self;
            go = self.step(limit);
            proof {
                chain = chain.push(*self);
                assert(chain[chain.len() - 2] == prev);
                if !go && self.fault is None && self.queue@.len() > 0 {
                    assert(prev.fault is None);
                    assert(prev.queue@.len() > 0);
                    assert(prev.nev < u64::MAX);
                }
            }
        }
    }
}

} // verus!
