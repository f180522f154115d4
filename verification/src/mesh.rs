//! 2-D mesh network-on-chip: routers with per-input links and buffers,
//! per-output round-robin arbiters, dimension-ordered (XY) routing and
//! credit-like backpressure through the two-phase buffer protocol.
//!
//! Each router owns, per input direction {Inject, N, E, S, W}, a
//! single-slot link buffer (one unit of wire latency) and a deeper input
//! buffer, and per output direction {Eject, N, E, S, W} a round-robin
//! arbiter over the five inputs.  A periodic `proc` tick drains links
//! into input buffers, then lets each output arbiter pick the first
//! eligible input head, hand it to the neighbor (or eject it) and pop
//! the source once the hand-off completes.  XY routing resolves column
//! displacement before row displacement, which is deadlock-free on a
//! 2-D mesh under this buffer discipline.

use vstd::prelude::*;
use crate::sim::{Simulation, Event, FifoBuf, Action, Fault, Time, QEntry};
use crate::sim::{evolves, fresh_unresolved, lemma_evolves_trans};

verus! {

broadcast use lemma_evolves_trans;

/// A packet: destination coordinates `(row, col)` and an opaque payload.
#[derive(Clone, Copy, PartialEq, Eq, Debug)]
pub struct Packet {
    pub dest: (u32, u32),
    pub payload: u64,
}

/// The four cardinal directions plus the external Inject/Eject port.
#[derive(Clone, Copy, PartialEq, Eq, Structural, Debug)]
pub enum Direction {
    North,
    East,
    South,
    West,
    Inject,
    Eject,
}

impl Direction {
    /// The opposite direction.
    pub open spec fn spec_flip(d: Direction) -> Direction {
        match d {
            Direction::North => Direction::South,
            Direction::East => Direction::West,
            Direction::South => Direction::North,
            Direction::West => Direction::East,
            Direction::Inject => Direction::Eject,
            Direction::Eject => Direction::Inject,
        }
    }

    /// The opposite direction: what the receiving side of a hop calls
    /// the sending side.
    pub fn flip(d: Direction) -> (r: Direction)
        ensures
            r == Direction::spec_flip(d),
    {
        match d {
            Direction::North => Direction::South,
            Direction::East => Direction::West,
            Direction::South => Direction::North,
            Direction::West => Direction::East,
            Direction::Inject => Direction::Eject,
            Direction::Eject => Direction::Inject,
        }
    }
}

/// The input direction scanned at offset `i` of a round-robin cycle.
pub open spec fn spec_in_dir(i: int) -> Direction {
    if i == 0 {
        Direction::Inject
    } else if i == 1 {
        Direction::North
    } else if i == 2 {
        Direction::East
    } else if i == 3 {
        Direction::South
    } else {
        Direction::West
    }
}

/// The input direction scanned at offset `i` of a round-robin cycle.
fn in_dir(i: usize) -> (d: Direction)
    requires
        i < 5,
    ensures
        d == spec_in_dir(i as int),
{
    if i == 0 {
        Direction::Inject
    } else if i == 1 {
        Direction::North
    } else if i == 2 {
        Direction::East
    } else if i == 3 {
        Direction::South
    } else {
        Direction::West
    }
}

/// Handle to a router owned by a `Simulation`.
#[derive(Clone, Copy, PartialEq, Eq, Structural)]
pub struct MeshRouter {
    pub id: usize,
}

/// Neighbor router indices, absent on grid edges.
#[derive(Clone, Copy, PartialEq, Eq)]
pub struct RouterNeighbors {
    pub north: Option<usize>,
    pub east: Option<usize>,
    pub south: Option<usize>,
    pub west: Option<usize>,
}

/// The five per-input buffers of a router (buffer arena indices).
#[derive(Clone, Copy, PartialEq, Eq, Structural)]
pub struct RouterBuffers {
    pub inject: usize,
    pub north: usize,
    pub east: usize,
    pub south: usize,
    pub west: usize,
}

/// The five per-input single-slot links of a router (buffer arena
/// indices).
#[derive(Clone, Copy, PartialEq, Eq, Structural)]
pub struct InputLinks {
    pub inject: usize,
    pub north: usize,
    pub east: usize,
    pub south: usize,
    pub west: usize,
}

/// A round-robin pointer cycling over `max` input indices.
#[derive(Clone, Copy, PartialEq, Eq, Structural)]
pub struct RoundRobinArbiter {
    pub max: usize,
    pub i: usize,
}

impl RoundRobinArbiter {
    /// A fresh arbiter favoring index 0.
    pub fn new(max: usize) -> (a: RoundRobinArbiter)
        ensures
            a.max == max,
            a.i == 0,
    {
        RoundRobinArbiter { max, i: 0 }
    }

    /// The currently favored index.
    pub fn get(self) -> (r: usize)
        ensures
            r == self.i,
    {
        self.i
    }

    /// Advances the pointer by one, wrapping at `max`.
    pub fn inc(&mut self)
        requires
            old(self).max > 0,
            old(self).i < old(self).max,
        ensures
            final(self).max == old(self).max,
            final(self).i == (old(self).i + 1) % (old(self).max as int),
    {
        self.i = (self.i + 1) % self.max;
    }
}

/// The five per-output arbiters of a router.
#[derive(Clone, Copy, PartialEq, Eq, Structural)]
pub struct Arbiters {
    pub north: RoundRobinArbiter,
    pub east: RoundRobinArbiter,
    pub south: RoundRobinArbiter,
    pub west: RoundRobinArbiter,
    pub eject: RoundRobinArbiter,
}

/// State of one router: its coordinates, neighbor indices, links,
/// input buffers, arbiters, tick period, whether a tick is pending, and
/// its traffic counters.
pub struct RouterRec {
    pub coords: (u32, u32),
    pub ns: RouterNeighbors,
    pub bufs: RouterBuffers,
    pub arbs: Arbiters,
    pub links: InputLinks,
    pub proc_delay: Time,
    pub scheduled: bool,
    pub sent: u64,
    pub received: u64,
}

/// A router's arena indices are live: every link and buffer index names
/// a buffer, every neighbor index names a router, and the arbiters cycle
/// over the five inputs.
pub open spec fn router_rec_wf(rr: RouterRec, nbufs: int, nrouters: int) -> bool {
    &&& rr.links.inject < nbufs
    &&& rr.links.north < nbufs
    &&& rr.links.east < nbufs
    &&& rr.links.south < nbufs
    &&& rr.links.west < nbufs
    &&& rr.bufs.inject < nbufs
    &&& rr.bufs.north < nbufs
    &&& rr.bufs.east < nbufs
    &&& rr.bufs.south < nbufs
    &&& rr.bufs.west < nbufs
    &&& (rr.ns.north matches Some(n) ==> n < nrouters)
    &&& (rr.ns.east matches Some(n) ==> n < nrouters)
    &&& (rr.ns.south matches Some(n) ==> n < nrouters)
    &&& (rr.ns.west matches Some(n) ==> n < nrouters)
    &&& rr.links.inject < rr.links.north
    &&& rr.links.north < rr.links.east
    &&& rr.links.east < rr.links.south
    &&& rr.links.south < rr.links.west
    &&& rr.links.west < rr.bufs.inject
    &&& rr.bufs.inject < rr.bufs.north
    &&& rr.bufs.north < rr.bufs.east
    &&& rr.bufs.east < rr.bufs.south
    &&& rr.bufs.south < rr.bufs.west
    &&& rr.arbs.north.max == 5
    &&& rr.arbs.east.max == 5
    &&& rr.arbs.south.max == 5
    &&& rr.arbs.west.max == 5
    &&& rr.arbs.eject.max == 5
    &&& rr.arbs.north.i < 5
    &&& rr.arbs.east.i < 5
    &&& rr.arbs.south.i < 5
    &&& rr.arbs.west.i < 5
    &&& rr.arbs.eject.i < 5
}

/// Every router of the arena is well-formed against the arena sizes.
pub open spec fn routers_wf(s: Simulation) -> bool {
    forall|r: int|
        0 <= r < s.routers@.len()
            ==> router_rec_wf(
            #[trigger] s.routers@[r],
            s.bufs@.len() as int,
            s.routers@.len() as int,
        )
}

/// The link buffer of input direction `dir` (Eject has no link).
pub open spec fn spec_link_id(rr: RouterRec, dir: Direction) -> int {
    match dir {
        Direction::Inject => rr.links.inject as int,
        Direction::North => rr.links.north as int,
        Direction::East => rr.links.east as int,
        Direction::South => rr.links.south as int,
        Direction::West => rr.links.west as int,
        Direction::Eject => rr.links.inject as int,
    }
}

/// The input buffer of input direction `dir` (Eject has no buffer).
pub open spec fn spec_buf_id(rr: RouterRec, dir: Direction) -> int {
    match dir {
        Direction::Inject => rr.bufs.inject as int,
        Direction::North => rr.bufs.north as int,
        Direction::East => rr.bufs.east as int,
        Direction::South => rr.bufs.south as int,
        Direction::West => rr.bufs.west as int,
        Direction::Eject => rr.bufs.inject as int,
    }
}

/// The round-robin pointer of output direction `dir` (Inject has no
/// arbiter).
pub open spec fn spec_arb_i(rr: RouterRec, dir: Direction) -> int {
    match dir {
        Direction::North => rr.arbs.north.i as int,
        Direction::East => rr.arbs.east.i as int,
        Direction::South => rr.arbs.south.i as int,
        Direction::West => rr.arbs.west.i as int,
        Direction::Eject => rr.arbs.eject.i as int,
        Direction::Inject => rr.arbs.eject.i as int,
    }
}

/// The neighbor wired at output direction `dir`, if any.
pub open spec fn spec_neighbor(rr: RouterRec, dir: Direction) -> Option<usize> {
    match dir {
        Direction::North => rr.ns.north,
        Direction::East => rr.ns.east,
        Direction::South => rr.ns.south,
        Direction::West => rr.ns.west,
        Direction::Inject => None,
        Direction::Eject => None,
    }
}

/// Dimension-ordered XY routing: resolve the column first, then the
/// row; a packet at its destination ejects.
pub open spec fn spec_route(coords: (u32, u32), dest: (u32, u32)) -> Direction {
    if dest.1 > coords.1 {
        Direction::East
    } else if dest.1 < coords.1 {
        Direction::West
    } else if dest.0 > coords.0 {
        Direction::North
    } else if dest.0 < coords.0 {
        Direction::South
    } else {
        Direction::Eject
    }
}

/// Only the `scheduled` mark of router `rid` may have been raised; all
/// other router state is untouched.
pub open spec fn router_armed_only(pre: Simulation, post: Simulation, rid: int) -> bool {
    &&& post.routers@.len() == pre.routers@.len()
    &&& forall|r2: int|
        0 <= r2 < pre.routers@.len() && r2 != rid
            ==> #[trigger] post.routers@[r2] == pre.routers@[r2]
    &&& post.routers@[rid].coords == pre.routers@[rid].coords
    &&& post.routers@[rid].ns == pre.routers@[rid].ns
    &&& post.routers@[rid].bufs == pre.routers@[rid].bufs
    &&& post.routers@[rid].arbs == pre.routers@[rid].arbs
    &&& post.routers@[rid].links == pre.routers@[rid].links
    &&& post.routers@[rid].proc_delay == pre.routers@[rid].proc_delay
    &&& post.routers@[rid].sent == pre.routers@[rid].sent
    &&& post.routers@[rid].received == pre.routers@[rid].received
    &&& post.routers@[rid].scheduled
}

impl MeshRouter {
    /// Creates a router at `coords` with five fresh single-slot links,
    /// five fresh input buffers of depth `buf_size`, fresh arbiters, no
    /// neighbors, and zeroed counters.
    pub fn new(sim: &mut Simulation, coords: (u32, u32), buf_size: usize, proc_delay: Time) -> (r:
        MeshRouter)
        requires
            old(sim).wf(),
        ensures
            final(sim).wf(),
            evolves(*old(sim), *final(sim)),
            r.id == old(sim).routers@.len(),
            final(sim).routers@.len() == old(sim).routers@.len() + 1,
            forall|r2: int|
                0 <= r2 < old(sim).routers@.len()
                    ==> #[trigger] final(sim).routers@[r2] == old(sim).routers@[r2],
            ({
                let rr = final(sim).routers@[r.id as int];
                &&& rr.coords == coords
                &&& rr.ns == (RouterNeighbors {
                    north: None,
                    east: None,
                    south: None,
                    west: None,
                })
                &&& rr.proc_delay == proc_delay
                &&& !rr.scheduled
                &&& rr.sent == 0
                &&& rr.received == 0
                &&& rr.links.inject == old(sim).bufs@.len()
                &&& rr.links.north == old(sim).bufs@.len() + 1
                &&& rr.links.east == old(sim).bufs@.len() + 2
                &&& rr.links.south == old(sim).bufs@.len() + 3
                &&& rr.links.west == old(sim).bufs@.len() + 4
                &&& rr.bufs.inject == old(sim).bufs@.len() + 5
                &&& rr.bufs.north == old(sim).bufs@.len() + 6
                &&& rr.bufs.east == old(sim).bufs@.len() + 7
                &&& rr.bufs.south == old(sim).bufs@.len() + 8
                &&& rr.bufs.west == old(sim).bufs@.len() + 9
            }),
            final(sim).bufs@.len() == old(sim).bufs@.len() + 10,
            forall|b2: int|
                0 <= b2 < old(sim).bufs@.len()
                    ==> #[trigger] final(sim).bufs@[b2] == old(sim).bufs@[b2],
            forall|b2: int|
                old(sim).bufs@.len() <= b2 < old(sim).bufs@.len() + 10 ==> {
                    &&& (#[trigger] final(sim).bufs@[b2]).q@.len() == 0
                    &&& !final(sim).bufs@[b2].pending
                    &&& final(sim).bufs@[b2].cap == (if b2 < old(sim).bufs@.len() + 5 {
                        1usize
                    } else {
                        buf_size
                    })
                },
            final(sim).events@ == old(sim).events@,
            final(sim).queue@ == old(sim).queue@,
            final(sim).trace@ == old(sim).trace@,
            final(sim).time == old(sim).time,
            final(sim).nev == old(sim).nev,
            final(sim).fault == old(sim).fault,
    {
        let l0 = FifoBuf::new(sim, 1);
        let l1 = FifoBuf::new(sim, 1);
        let l2 = FifoBuf::new(sim, 1);
        let l3 = FifoBuf::new(sim, 1);
        let l4 = FifoBuf::new(sim, 1);
        let b0 = FifoBuf::new(sim, buf_size);
        let b1 = FifoBuf::new(sim, buf_size);
        let b2 = FifoBuf::new(sim, buf_size);
        let b3 = FifoBuf::new(sim, buf_size);
        let b4 = FifoBuf::new(sim, buf_size);
        let id = sim.routers.len();
        sim.routers.push(
            RouterRec {
                coords,
                ns: RouterNeighbors { north: None, east: None, south: None, west: None },
                bufs: RouterBuffers {
                    inject: b0.id,
                    north: b1.id,
                    east: b2.id,
                    south: b3.id,
                    west: b4.id,
                },
                arbs: Arbiters {
                    north: RoundRobinArbiter::new(5),
                    east: RoundRobinArbiter::new(5),
                    south: RoundRobinArbiter::new(5),
                    west: RoundRobinArbiter::new(5),
                    eject: RoundRobinArbiter::new(5),
                },
                links: InputLinks {
                    inject: l0.id,
                    north: l1.id,
                    east: l2.id,
                    south: l3.id,
                    west: l4.id,
                },
                proc_delay,
                scheduled: false,
                sent: 0,
                received: 0,
            },
        );
        MeshRouter { id }
    }

    /// The single-slot link buffer of input direction `dir`.
    pub fn get_link(self, sim: &Simulation, dir: Direction) -> (b: FifoBuf)
        requires
            self.id < sim.routers@.len(),
            dir != Direction::Eject,
        ensures
            b.id == spec_link_id(sim.routers@[self.id as int], dir),
    {
        let rr = &sim.routers[self.id];
        match dir {
            Direction::Inject => FifoBuf { id: rr.links.inject },
            Direction::North => FifoBuf { id: rr.links.north },
            Direction::East => FifoBuf { id: rr.links.east },
            Direction::South => FifoBuf { id: rr.links.south },
            Direction::West => FifoBuf { id: rr.links.west },
            Direction::Eject => FifoBuf { id: rr.links.inject },
        }
    }

    /// The input buffer of input direction `dir`.
    pub fn get_buf(self, sim: &Simulation, dir: Direction) -> (b: FifoBuf)
        requires
            self.id < sim.routers@.len(),
            dir != Direction::Eject,
        ensures
            b.id == spec_buf_id(sim.routers@[self.id as int], dir),
    {
        let rr = &sim.routers[self.id];
        match dir {
            Direction::Inject => FifoBuf { id: rr.bufs.inject },
            Direction::North => FifoBuf { id: rr.bufs.north },
            Direction::East => FifoBuf { id: rr.bufs.east },
            Direction::South => FifoBuf { id: rr.bufs.south },
            Direction::West => FifoBuf { id: rr.bufs.west },
            Direction::Eject => FifoBuf { id: rr.bufs.inject },
        }
    }

    /// The neighbor wired at output direction `dir`, if any.
    pub fn get_neighbor(self, sim: &Simulation, dir: Direction) -> (n: Option<MeshRouter>)
        requires
            self.id < sim.routers@.len(),
        ensures
            n matches Some(h) ==> spec_neighbor(sim.routers@[self.id as int], dir) == Some(h.id),
            n is None ==> spec_neighbor(sim.routers@[self.id as int], dir) is None,
    {
        let rr = &sim.routers[self.id];
        let o = match dir {
            Direction::North => rr.ns.north,
            Direction::East => rr.ns.east,
            Direction::South => rr.ns.south,
            Direction::West => rr.ns.west,
            Direction::Inject => None,
            Direction::Eject => None,
        };
        match o {
            Some(n) => Some(MeshRouter { id: n }),
            None => None,
        }
    }

    /// The round-robin pointer of output direction `dir`.
    pub fn get_arb(self, sim: &Simulation, dir: Direction) -> (v: usize)
        requires
            self.id < sim.routers@.len(),
            dir != Direction::Inject,
        ensures
            v == spec_arb_i(sim.routers@[self.id as int], dir),
    {
        let rr = &sim.routers[self.id];
        match dir {
            Direction::North => rr.arbs.north.i,
            Direction::East => rr.arbs.east.i,
            Direction::South => rr.arbs.south.i,
            Direction::West => rr.arbs.west.i,
            Direction::Eject => rr.arbs.eject.i,
            Direction::Inject => rr.arbs.eject.i,
        }
    }

    /// Where this router forwards a packet: XY routing against its own
    /// coordinates.
    pub fn route(self, sim: &Simulation, p: &Packet) -> (d: Direction)
        requires
            self.id < sim.routers@.len(),
        ensures
            d == spec_route(sim.routers@[self.id as int].coords, p.dest),
    {
        let co = sim.routers[self.id].coords;
        if p.dest.1 > co.1 {
            Direction::East
        } else if p.dest.1 < co.1 {
            Direction::West
        } else if p.dest.0 > co.0 {
            Direction::North
        } else if p.dest.0 < co.0 {
            Direction::South
        } else {
            Direction::Eject
        }
    }

    /// Packets accepted on the Inject port so far.
    pub fn sent(self, sim: &Simulation) -> (n: u64)
        requires
            self.id < sim.routers@.len(),
        ensures
            n == sim.routers@[self.id as int].sent,
    {
        sim.routers[self.id].sent
    }

    /// Packets ejected at this router so far.
    pub fn received(self, sim: &Simulation) -> (n: u64)
        requires
            self.id < sim.routers@.len(),
        ensures
            n == sim.routers@[self.id as int].received,
    {
        sim.routers[self.id].received
    }

    /// Arms the router: if no tick is pending, schedules a `proc` event
    /// one tick period from now and raises the mark; if one is already
    /// pending, does nothing — at most one tick is ever pending per
    /// router.
    fn schedule_proc(self, sim: &mut Simulation)
        requires
            old(sim).wf(),
            self.id < old(sim).routers@.len(),
        ensures
            final(sim).wf(),
            evolves(*old(sim), *final(sim)),
            final(sim).time == old(sim).time,
            final(sim).nev == old(sim).nev,
            final(sim).bufs@ == old(sim).bufs@,
            final(sim).resources@ == old(sim).resources@,
            final(sim).trace@ == old(sim).trace@,
            router_armed_only(*old(sim), *final(sim), self.id as int),
            old(sim).routers@[self.id as int].scheduled ==> {
                &&& final(sim).routers@ == old(sim).routers@
                &&& final(sim).events@ == old(sim).events@
                &&& final(sim).queue@ == old(sim).queue@
                &&& final(sim).fault == old(sim).fault
            },
            !old(sim).routers@[self.id as int].scheduled ==> ({
                let g = old(sim).events@.len() as int;
                let pd = old(sim).routers@[self.id as int].proc_delay;
                &&& final(sim).events@.len() == g + 1
                &&& forall|e: int|
                    0 <= e < g ==> #[trigger] final(sim).events@[e] == old(sim).events@[e]
                &&& final(sim).events@[g].actions@ == Seq::<Action>::empty().push(
                    (Action::RouterProc { router: self }),
                )
                &&& !final(sim).events@[g].fired
                &&& if old(sim).time + pd <= u64::MAX {
                    &&& final(sim).events@[g].t == Some(((old(sim).time + pd) as u64))
                    &&& final(sim).events@[g].queued
                    &&& final(sim).queue@ == old(sim).queue@.push(
                        (QEntry { t: ((old(sim).time + pd) as u64), ev: g as usize }),
                    )
                    &&& final(sim).fault == old(sim).fault
                } else {
                    &&& final(sim).queue@ == old(sim).queue@
                    &&& !final(sim).events@[g].queued
                    &&& final(sim).fault is Some
                }
            }),
    {
        let sch = sim.routers[self.id].scheduled;
        if !sch {
            let pd = sim.routers[self.id].proc_delay;
            let ev = sim.event(Some(pd));
            ev.callback(sim, Action::RouterProc { router: self });
            let rr = &mut sim.routers[self.id];
            rr.scheduled = true;
        }
    }

    /// Accepts a packet arriving on input direction `from_dir` (from a
    /// neighbor, or from the workload on Inject): arms the router's
    /// tick, pushes the packet into the matching link, and returns an
    /// event that fires one unit of wire latency after the link slot is
    /// held.
    pub fn receive(self, sim: &mut Simulation, from_dir: Direction, p: Packet) -> (ev: Event)
        requires
            old(sim).wf(),
            self.id < old(sim).routers@.len(),
            from_dir != Direction::Eject,
        ensures
            final(sim).wf(),
            evolves(*old(sim), *final(sim)),
            final(sim).time == old(sim).time,
            final(sim).nev == old(sim).nev,
            final(sim).bufs@ == old(sim).bufs@,
            final(sim).trace@ == old(sim).trace@,
            router_armed_only(*old(sim), *final(sim), self.id as int),
            forall|e: int|
                0 <= e < old(sim).events@.len() ==> (#[trigger] final(sim).events@[e]).actions@
                    == old(sim).events@[e].actions@,
            ({
                let pre = *old(sim);
                let rr = pre.routers@[self.id as int];
                let g = pre.events@.len() as int + (if rr.scheduled {
                    0int
                } else {
                    1int
                });
                let l = spec_link_id(rr, from_dir);
                let lrid = pre.bufs@[l].res as int;
                let rv = pre.resources@[lrid];
                &&& ev.id == g + 1
                &&& final(sim).events@.len() == g + 2
                &&& fresh_unresolved(final(sim).events@[ev.id as int])
                &&& !final(sim).events@[g].fired
                &&& final(sim).events@[g].actions@ == Seq::<Action>::empty().push(
                    (Action::BufEnqueue { buf: (FifoBuf { id: l as usize }), p }),
                ).push((Action::Arm { router: self })).push((Action::Sched { ev, delay: 1 }))
                &&& (!rr.scheduled ==> final(sim).events@[pre.events@.len() as int].actions@
                    == Seq::<Action>::empty().push((Action::RouterProc { router: self })))
                &&& final(sim).resources@.len() == pre.resources@.len()
                &&& forall|r2: int|
                    0 <= r2 < pre.resources@.len() && r2 != lrid
                        ==> #[trigger] final(sim).resources@[r2] == pre.resources@[r2]
                &&& final(sim).resources@[lrid].max == rv.max
                &&& if rv.val < rv.max {
                    &&& final(sim).resources@[lrid].val == rv.val + 1
                    &&& final(sim).resources@[lrid].waiters@ == rv.waiters@
                    &&& final(sim).events@[g].queued
                    &&& final(sim).events@[g].t == Some(pre.time)
                } else {
                    &&& final(sim).resources@[lrid].val == rv.val
                    &&& final(sim).resources@[lrid].waiters@ == rv.waiters@.push(g as usize)
                    &&& !final(sim).events@[g].queued
                    &&& final(sim).events@[g].t is None
                }
            }),
    {
        self.schedule_proc(sim);
        let link = self.get_link(sim, from_dir);
        let pev = link.push(sim, p);
        pev.callback(sim, Action::Arm { router: self });
        pev.delay(sim, 1)
    }
}

/// Eligibility of offset index `i` (an input direction) for output
/// `odir`: its input buffer has an unpended head that routes to `odir`.
pub open spec fn input_eligible(s: Simulation, rid: int, odir: Direction, i: int) -> bool {
    let rr = s.routers@[rid];
    let b = spec_buf_id(rr, spec_in_dir(i));
    &&& !s.bufs@[b].pending
    &&& s.bufs@[b].q@.len() > 0
    &&& spec_route(rr.coords, s.bufs@[b].q@[0].dest) == odir
}

/// The five eligibility bits of output `odir`, indexed by input
/// position.
pub open spec fn elig_seq(s: Simulation, rid: int, odir: Direction) -> Seq<bool> {
    Seq::new(5, |i: int| input_eligible(s, rid, odir, i))
}

/// The round-robin scan from pointer `start`, beginning at offset
/// `off`: the first eligible input index, or -1 if none is eligible.
pub open spec fn rr_pick(elig: Seq<bool>, start: int, off: int) -> int
    decreases 5 - off when 0 <= off <= 5
{
    if off >= 5 {
        -1
    } else if elig[(start + off) % 5] {
        (start + off) % 5
    } else {
        rr_pick(elig, start, off + 1)
    }
}

/// The input index a round-robin arbiter at pointer `start` selects, or
/// -1 if no input is eligible.
pub open spec fn spec_rr_select(elig: Seq<bool>, start: int) -> int {
    rr_pick(elig, start, 0)
}

/// An arbiter whose pointer favors an eligible input selects exactly
/// that input: the scan starts there.
pub proof fn lemma_rr_first(elig: Seq<bool>, start: int)
    requires
        elig.len() == 5,
        0 <= start < 5,
        elig[start],
    ensures
        spec_rr_select(elig, start) == start,
{
    assert((start + 0) % 5 == start);
}

/// The pointer value `start`, advanced `k` times, reaches input `i`
/// within one window of five arbitrations.
pub open spec fn wraps_to(start: int, k: int, i: int) -> bool {
    0 <= k < 5 && (start + k) % 5 == i
}

/// Round-robin fairness: the pointer takes every value within five
/// consecutive arbitrations (it advances by one each time), so an input
/// whose head stays eligible is selected in the arbitration of that
/// window whose pointer reaches it.
pub proof fn lemma_rr_window(elig: Seq<bool>, start: int, i: int)
    requires
        elig.len() == 5,
        0 <= start < 5,
        0 <= i < 5,
        elig[i],
    ensures
        exists|k: int| #[trigger] wraps_to(start, k, i),
        spec_rr_select(elig, i) == i,
{
    let k = if i >= start {
        i - start
    } else {
        i + 5 - start
    };
    assert(wraps_to(start, k, i));
    lemma_rr_first(elig, i);
}

/// The eligibility bit the scan sees at offset `k` from pointer
/// `start`.
pub open spec fn elig_at(elig: Seq<bool>, start: int, k: int) -> bool {
    elig[(start + k) % 5]
}

/// A scan whose first `off` offsets were all ineligible picks the same
/// input as the scan that starts at offset `off`.
proof fn lemma_rr_pick_skip(elig: Seq<bool>, start: int, off: int)
    requires
        0 <= off <= 5,
        forall|k: int| 0 <= k < off ==> !(#[trigger] elig_at(elig, start, k)),
    ensures
        rr_pick(elig, start, 0) == rr_pick(elig, start, off),
    decreases off,
{
    if off > 0 {
        lemma_rr_pick_skip(elig, start, off - 1);
        assert(!elig_at(elig, start, off - 1));
        assert(rr_pick(elig, start, off - 1) == rr_pick(elig, start, off));
    }
}

/// The scan returns -1 or an input index.
proof fn lemma_rr_pick_range(elig: Seq<bool>, start: int, off: int)
    requires
        0 <= off <= 5,
    ensures
        rr_pick(elig, start, off) == -1 || 0 <= rr_pick(elig, start, off) < 5,
    decreases 5 - off,
{
    if off < 5 && !elig[(start + off) % 5] {
        lemma_rr_pick_range(elig, start, off + 1);
    }
}

/// One output arbitration of router `rid`: scanning the five inputs
/// round-robin from the arbiter's pointer, the first input whose head
/// routes to `odir` is pended and handed over — ejected on the spot for
/// Eject (counting `received`), otherwise passed to the neighbor's
/// matching input with a pop of the source once the neighbor's link
/// accepts.  The pointer advances by exactly one, selected or not.
/// The whole effect of one output arbitration of router `rid`: the
/// pointer advances by exactly one; the first eligible input under the
/// round-robin scan (`spec_rr_select`) is pended and dispatched — for
/// Eject, counted in `received` and popped on the spot; for a cardinal
/// output, handed to the wired neighbor by a `receive` whose grant
/// event carries the enqueue into the neighbor's link, with a pop of
/// the source buffer chained on the returned acceptance event, and a
/// recorded fault if no neighbor is wired.  Nothing else moves.
pub open spec fn arb_rel(pre: Simulation, post: Simulation, rid: int, odir: Direction) -> bool {
    let start = spec_arb_i(pre.routers@[rid], odir);
    let elig = elig_seq(pre, rid, odir);
    let sel = spec_rr_select(elig, start);
    let b = spec_buf_id(pre.routers@[rid], spec_in_dir(sel));
    &&& evolves(pre, post)
    &&& post.time == pre.time
    &&& post.nev == pre.nev
    &&& post.routers@.len() == pre.routers@.len()
    &&& spec_arb_i(post.routers@[rid], odir) == (start + 1) % 5
    &&& forall|od2: Direction|
        od2 != odir && od2 != Direction::Inject ==> #[trigger] spec_arb_i(post.routers@[rid], od2)
            == spec_arb_i(pre.routers@[rid], od2)
    &&& post.bufs@.len() == pre.bufs@.len()
    &&& post.routers@[rid].coords == pre.routers@[rid].coords
    &&& post.routers@[rid].links == pre.routers@[rid].links
    &&& post.routers@[rid].bufs == pre.routers@[rid].bufs
    &&& post.routers@[rid].proc_delay == pre.routers@[rid].proc_delay
    &&& post.routers@[rid].sent == pre.routers@[rid].sent
    &&& (pre.routers@[rid].scheduled ==> post.routers@[rid].scheduled)
    &&& forall|e: int|
        0 <= e < pre.events@.len() ==> (#[trigger] post.events@[e]).actions@
            == pre.events@[e].actions@
    &&& (odir != Direction::Eject ==> post.routers@[rid].received == pre.routers@[rid].received)
    &&& (odir != Direction::Eject ==> forall|b2: int|
        0 <= b2 < pre.bufs@.len() ==> (#[trigger] post.bufs@[b2]).q@ == pre.bufs@[b2].q@)
    &&& forall|i: int|
        0 <= i < 5 ==> (#[trigger] post.bufs@[spec_link_id(pre.routers@[rid], spec_in_dir(i))])
            == pre.bufs@[spec_link_id(pre.routers@[rid], spec_in_dir(i))]
    &&& (sel == -1 ==> post.bufs@ == pre.bufs@)
    &&& (odir == Direction::Eject ==> post.routers@[rid].received as int == pre.routers@[rid].received
        + (if sel >= 0 && pre.routers@[rid].received < u64::MAX {
        1int
    } else {
        0int
    }))
    &&& (sel >= 0 ==> forall|b2: int|
        0 <= b2 < pre.bufs@.len() && b2 != b ==> #[trigger] post.bufs@[b2] == pre.bufs@[b2])
    &&& (sel >= 0 ==> (if odir == Direction::Eject {
        post.bufs@[b].q@ == pre.bufs@[b].q@.subrange(1, pre.bufs@[b].q@.len() as int)
            && !post.bufs@[b].pending
    } else {
        post.bufs@[b].pending
    }))
    &&& (sel >= 0 && odir != Direction::Eject && spec_neighbor(pre.routers@[rid], odir) is None
        ==> post.fault is Some)
    &&& (sel >= 0 && odir != Direction::Eject ==> (spec_neighbor(pre.routers@[rid], odir)
        matches Some(n) ==> ({
        let g2 = pre.events@.len() as int + (if pre.routers@[n as int].scheduled {
            0int
        } else {
            1int
        });
        let l2 = spec_link_id(pre.routers@[n as int], Direction::spec_flip(odir));
        &&& post.routers@[n as int].scheduled
        &&& 0 <= g2 + 1 < post.events@.len()
        &&& post.events@[g2].actions@ == Seq::<Action>::empty().push(
            (Action::BufEnqueue { buf: (FifoBuf { id: (l2 as usize) }), p: pre.bufs@[b].q@[0] }),
        ).push((Action::Arm { router: (MeshRouter { id: n }) })).push(
            (Action::Sched { ev: (Event { id: ((g2 + 1) as usize) }), delay: 1 }),
        )
        &&& post.events@[(g2 + 1) as int].actions@ == Seq::<Action>::empty().push(
            (Action::BufPop { buf: (FifoBuf { id: (b as usize) }) }),
        )
    })))
}

#[verifier::rlimit(80)]
fn arbitrate_output(sim: &mut Simulation, rid: usize, odir: Direction)
    requires
        old(sim).wf(),
        rid < old(sim).routers@.len(),
        odir != Direction::Inject,
    ensures
        final(sim).wf(),
        arb_rel(*old(sim), *final(sim), rid as int, odir),
    {
        let ghost pre = *old(sim);
        let ghost elig = elig_seq(*old(sim), rid as int, odir);
        let start = MeshRouter { id: rid }.get_arb(sim, odir);
        let ghost startg = start as int;
        assert(startg == spec_arb_i(pre.routers@[rid as int], odir));
        assert(0 <= startg < 5);
        let mut off: usize = 0;
        let mut done = false;
        while off < 5 && !done
            invariant
                sim.wf(),
                rid < sim.routers@.len(),
                off <= 5,
                0 <= startg < 5,
                start as int == startg,
                startg == spec_arb_i(pre.routers@[rid as int], odir),
                rid < pre.routers@.len(),
                odir != Direction::Inject,
                elig == elig_seq(pre, rid as int, odir),
                sim.time == pre.time,
                sim.nev == pre.nev,
                evolves(pre, *sim),
                sim.routers@.len() == pre.routers@.len(),
                !done ==> sim.routers@ == pre.routers@,
                !done ==> sim.bufs@ == pre.bufs@,
                !done ==> sim.events@ == pre.events@,
                !done ==> forall|k: int| 0 <= k < off ==> !(#[trigger] elig_at(elig, startg, k)),
                done ==> sim.routers@[rid as int].arbs == pre.routers@[rid as int].arbs,
                done ==> spec_rr_select(elig, startg) >= 0,
                sim.bufs@.len() == pre.bufs@.len(),
                sim.routers@[rid as int].coords == pre.routers@[rid as int].coords,
                sim.routers@[rid as int].links == pre.routers@[rid as int].links,
                sim.routers@[rid as int].bufs == pre.routers@[rid as int].bufs,
                sim.routers@[rid as int].proc_delay == pre.routers@[rid as int].proc_delay,
                sim.routers@[rid as int].sent == pre.routers@[rid as int].sent,
                pre.routers@[rid as int].scheduled ==> sim.routers@[rid as int].scheduled,
                forall|e: int|
                    0 <= e < pre.events@.len() ==> (#[trigger] sim.events@[e]).actions@
                        == pre.events@[e].actions@,
                odir != Direction::Eject ==> sim.routers@[rid as int].received == pre.routers@[rid
                    as int].received,
                odir != Direction::Eject ==> forall|b2: int|
                    0 <= b2 < pre.bufs@.len() ==> (#[trigger] sim.bufs@[b2]).q@
                        == pre.bufs@[b2].q@,
                done && odir == Direction::Eject ==> sim.routers@[rid as int].received as int
                    == pre.routers@[rid as int].received + (if pre.routers@[rid
                    as int].received < u64::MAX {
                    1int
                } else {
                    0int
                }),
                !done && odir == Direction::Eject ==> sim.routers@[rid as int].received
                    == pre.routers@[rid as int].received,
                done ==> forall|b2: int|
                    0 <= b2 < pre.bufs@.len() && b2 != spec_buf_id(
                        pre.routers@[rid as int],
                        spec_in_dir(spec_rr_select(elig, startg)),
                    ) ==> #[trigger] sim.bufs@[b2] == pre.bufs@[b2],
                done && odir != Direction::Eject && spec_neighbor(pre.routers@[rid as int], odir)
                    is None ==> sim.fault is Some,
                done && odir != Direction::Eject ==> (spec_neighbor(
                    pre.routers@[rid as int],
                    odir,
                ) matches Some(n) ==> ({
                    let b = spec_buf_id(pre.routers@[rid as int], spec_in_dir(spec_rr_select(elig, startg)));
                    let g2 = pre.events@.len() as int + (if pre.routers@[n as int].scheduled {
                        0int
                    } else {
                        1int
                    });
                    let l2 = spec_link_id(pre.routers@[n as int], Direction::spec_flip(odir));
                    &&& sim.routers@[n as int].scheduled
                    &&& 0 <= g2 + 1 < sim.events@.len()
                    &&& sim.events@[g2].actions@ == Seq::<Action>::empty().push(
                        (Action::BufEnqueue {
                            buf: (FifoBuf { id: (l2 as usize) }),
                            p: pre.bufs@[b].q@[0],
                        }),
                    ).push((Action::Arm { router: (MeshRouter { id: n }) })).push(
                        (Action::Sched { ev: (Event { id: ((g2 + 1) as usize) }), delay: 1 }),
                    )
                    &&& sim.events@[(g2 + 1) as int].actions@ == Seq::<Action>::empty().push(
                        (Action::BufPop { buf: (FifoBuf { id: (b as usize) }) }),
                    )
                })),
                forall|i: int|
                    0 <= i < 5 ==> (#[trigger] sim.bufs@[spec_link_id(
                        pre.routers@[rid as int],
                        spec_in_dir(i),
                    )]) == pre.bufs@[spec_link_id(pre.routers@[rid as int], spec_in_dir(i))],
                done ==> ({
                    let sel = spec_rr_select(elig, startg);
                    let b = spec_buf_id(pre.routers@[rid as int], spec_in_dir(sel));
                    &&& 0 <= b < sim.bufs@.len()
                    &&& if odir == Direction::Eject {
                        sim.bufs@[b].q@ == pre.bufs@[b].q@.subrange(
                            1,
                            pre.bufs@[b].q@.len() as int,
                        ) && !sim.bufs@[b].pending
                    } else {
                        sim.bufs@[b].pending
                    }
                }),
            decreases 5 - off,
        {
            let i = (start + off) % 5;
            let idir = in_dir(i);
            let me = MeshRouter { id: rid };
            let ib = me.get_buf(sim, idir);
            assert(ib.id < sim.bufs@.len());
            let head = ib.peek(sim);
            match head {
                Some(p) => {
                    let d = me.route(sim, &p);
                    if d == odir {
                        proof {
                            assert(input_eligible(pre, rid as int, odir, i as int));
                            assert(elig[i as int]);
                            assert(elig_at(elig, startg, off as int));
                            lemma_rr_pick_skip(elig, startg, off as int);
                            assert(spec_rr_select(elig, startg) == i as int);
                        }
                        ib.pend(sim);
                        if odir == Direction::Eject {
                            let got = sim.routers[rid].received;
                            if got < u64::MAX {
                                let rr = &mut sim.routers[rid];
                                rr.received = got + 1;
                            } else {
                                sim.set_fault(Fault::CountOverflow);
                            }
                            ib.pop(sim);
                        } else {
                            let nopt = me.get_neighbor(sim, odir);
                            match nopt {
                                Some(nr) => {
                                    let rev = nr.receive(sim, Direction::flip(odir), p);
                                    proof {
                                        assert(rev.id >= pre.events@.len());
                                    }
                                    rev.callback(sim, Action::BufPop { buf: ib });
                                    proof {
                                        assert(sim.events@[rev.id as int].actions@
                                            =~= Seq::<Action>::empty().push(
                                            (Action::BufPop { buf: ib }),
                                        ));
                                        assert(MeshRouter { id: nr.id } == nr);
                                        assert(Event { id: rev.id } == rev);
                                        assert(FifoBuf { id: ib.id } == ib);
                                    }
                                },
                                None => {
                                    sim.set_fault(Fault::MissingNeighbor);
                                },
                            }
                        }
                        done = true;
                    } else {
                        proof {
                            assert(!elig[i as int]);
                            assert(!elig_at(elig, startg, off as int));
                        }
                    }
                },
                None => {
                    proof {
                        assert(!elig[i as int]);
                        assert(!elig_at(elig, startg, off as int));
                    }
                },
            }
            off = off + 1;
        }
        if !done {
            proof {
                lemma_rr_pick_skip(elig, startg, 5);
                assert(spec_rr_select(elig, startg) == -1);
            }
        }
        let cur = MeshRouter { id: rid }.get_arb(sim, odir);
        assert(cur < 5);
        let nxt = (cur + 1) % 5;
        let rr = &mut sim.routers[rid];
        match odir {
            Direction::North => {
                rr.arbs.north.i = nxt;
            },
            Direction::East => {
                rr.arbs.east.i = nxt;
            },
            Direction::South => {
                rr.arbs.south.i = nxt;
            },
            Direction::West => {
                rr.arbs.west.i = nxt;
            },
            Direction::Eject => {
                rr.arbs.eject.i = nxt;
            },
            Direction::Inject => {
                rr.arbs.eject.i = nxt;
            },
        }
    }

/// The row-major position of grid cell `(r, c)` in a grid `w` columns
/// wide.
pub open spec fn grid_idx(r: int, c: int, w: int) -> int {
    r * w + c
}

/// A cell's position lies inside the grid's router count.
proof fn lemma_grid_idx_bound(r: int, c: int, h: int, w: int)
    requires
        0 <= r < h,
        0 <= c < w,
    ensures
        0 <= grid_idx(r, c, w) < h * w,
{
    assert(0 <= r * w + c < h * w) by (nonlinear_arith)
        requires
            0 <= r < h,
            0 <= c < w,
    ;
}

/// Stepping one row down advances the row-major position by one row
/// width.
proof fn lemma_grid_row_step(r: int, w: int)
    ensures
        (r + 1) * w == r * w + w,
{
    assert((r + 1) * w == r * w + w) by (nonlinear_arith);
}

/// Row-major positions are distinct for distinct cells of the grid.
proof fn lemma_grid_idx_inj(r1: int, c1: int, r2: int, c2: int, w: int)
    requires
        0 <= c1 < w,
        0 <= c2 < w,
        0 <= r1,
        0 <= r2,
        grid_idx(r1, c1, w) == grid_idx(r2, c2, w),
    ensures
        r1 == r2 && c1 == c2,
{
    assert(r1 == r2 && c1 == c2) by (nonlinear_arith)
        requires
            0 <= c1 < w,
            0 <= c2 < w,
            0 <= r1,
            0 <= r2,
            r1 * w + c1 == r2 * w + c2,
    ;
}

/// Cell `(r, c)` of a grid under construction: its handle names a live
/// router at the right coordinates with no neighbors wired yet.
pub open spec fn cell_fresh(rs: Seq<MeshRouter>, s: Simulation, r: int, c: int, w: int) -> bool {
    let id = rs[grid_idx(r, c, w)].id as int;
    &&& rs[grid_idx(r, c, w)].id < s.routers@.len()
    &&& s.routers@[id].coords == ((r as u32, c as u32))
}

/// Buffer `b` is empty, unpended, and of capacity `cap`.
pub open spec fn buf_blank(s: Simulation, b: int, cap: usize) -> bool {
    &&& s.bufs@[b].q@.len() == 0
    &&& !s.bufs@[b].pending
    &&& s.bufs@[b].cap == cap
}

/// Cell `(r, c)`'s router starts inert: the requested tick period, the
/// tick mark cleared, zeroed counters, and all ten of its buffers empty
/// and unpended — single-slot links and depth-`buf_size` input buffers.
pub open spec fn cell_init(
    rs: Seq<MeshRouter>,
    s: Simulation,
    r: int,
    c: int,
    w: int,
    buf_size: usize,
    proc_delay: Time,
) -> bool {
    let id = rs[grid_idx(r, c, w)].id as int;
    let rr = s.routers@[id];
    &&& rr.proc_delay == proc_delay
    &&& !rr.scheduled
    &&& rr.sent == 0
    &&& rr.received == 0
    &&& buf_blank(s, rr.links.inject as int, 1)
    &&& buf_blank(s, rr.links.north as int, 1)
    &&& buf_blank(s, rr.links.east as int, 1)
    &&& buf_blank(s, rr.links.south as int, 1)
    &&& buf_blank(s, rr.links.west as int, 1)
    &&& buf_blank(s, rr.bufs.inject as int, buf_size)
    &&& buf_blank(s, rr.bufs.north as int, buf_size)
    &&& buf_blank(s, rr.bufs.east as int, buf_size)
    &&& buf_blank(s, rr.bufs.south as int, buf_size)
    &&& buf_blank(s, rr.bufs.west as int, buf_size)
}

/// Cell `(r, c)` of a wired grid: its router sits at the right
/// coordinates and each of its four neighbor slots names the adjacent
/// cell's router, or nothing on a grid edge.
pub open spec fn cell_wired(
    rs: Seq<MeshRouter>,
    s: Simulation,
    h: int,
    w: int,
    r: int,
    c: int,
) -> bool {
    let id = rs[grid_idx(r, c, w)].id as int;
    &&& rs[grid_idx(r, c, w)].id < s.routers@.len()
    &&& s.routers@[id].coords == ((r as u32, c as u32))
    &&& s.routers@[id].ns.north == (if r < h - 1 {
        Some(rs[grid_idx(r + 1, c, w)].id)
    } else {
        None::<usize>
    })
    &&& s.routers@[id].ns.east == (if c < w - 1 {
        Some(rs[grid_idx(r, c + 1, w)].id)
    } else {
        None::<usize>
    })
    &&& s.routers@[id].ns.south == (if r > 0 {
        Some(rs[grid_idx(r - 1, c, w)].id)
    } else {
        None::<usize>
    })
    &&& s.routers@[id].ns.west == (if c > 0 {
        Some(rs[grid_idx(r, c - 1, w)].id)
    } else {
        None::<usize>
    })
}

/// A grid of routers in row-major order, wired to their four neighbors.
pub struct Mesh {
    pub size: (u32, u32),
    pub rs: Vec<MeshRouter>,
}

impl Mesh {
    /// The handle vector covers the whole grid.
    pub open spec fn wf(self) -> bool {
        self.rs@.len() == self.size.0 as int * self.size.1 as int
    }

    /// Every cell of the grid is wired as a 2-D mesh inside `s`.
    pub open spec fn wired(self, s: Simulation) -> bool {
        &&& self.wf()
        &&& forall|r: int, c: int|
            0 <= r < self.size.0 && 0 <= c < self.size.1 ==> #[trigger] cell_wired(
                self.rs@,
                s,
                self.size.0 as int,
                self.size.1 as int,
                r,
                c,
            )
    }

    /// Builds an `H x W` grid of routers in row-major order and wires
    /// each router's four neighbor slots to the adjacent routers, absent
    /// on grid edges.
    pub fn new(sim: &mut Simulation, size: (u32, u32), buf_size: usize, proc_delay: Time) -> (m:
        Mesh)
        requires
            old(sim).wf(),
            size.0 as int * size.1 as int <= usize::MAX,
        ensures
            final(sim).wf(),
            evolves(*old(sim), *final(sim)),
            m.size == size,
            m.wired(*final(sim)),
            forall|r: int, c: int|
                0 <= r < size.0 && 0 <= c < size.1 ==> #[trigger] cell_init(
                    m.rs@,
                    *final(sim),
                    r,
                    c,
                    size.1 as int,
                    buf_size,
                    proc_delay,
                ),
            final(sim).events@ == old(sim).events@,
            final(sim).queue@ == old(sim).queue@,
            final(sim).trace@ == old(sim).trace@,
            final(sim).time == old(sim).time,
            final(sim).nev == old(sim).nev,
            final(sim).fault == old(sim).fault,
    {
        let h = size.0;
        let w = size.1;
        let ghost r0 = sim.routers@.len() as int;
        let mut rs: Vec<MeshRouter> = Vec::new();
        let mut r: u32 = 0;
        while r < h
            invariant
                sim.wf(),
                evolves(*old(sim), *sim),
                sim.events@ == old(sim).events@,
                sim.queue@ == old(sim).queue@,
                sim.trace@ == old(sim).trace@,
                sim.time == old(sim).time,
                sim.nev == old(sim).nev,
                sim.fault == old(sim).fault,
                r0 == old(sim).routers@.len() as int,
                h == size.0 && w == size.1,
                h as int * w as int <= usize::MAX,
                r <= h,
                rs@.len() == grid_idx(r as int, 0, w as int),
                sim.routers@.len() == r0 + rs@.len(),
                forall|i: int| 0 <= i < rs@.len() ==> (#[trigger] rs@[i]).id == r0 + i,
                forall|r2: int, c2: int|
                    0 <= r2 < h && 0 <= c2 < w && grid_idx(r2, c2, w as int) < rs@.len()
                        ==> #[trigger] cell_fresh(rs@, *sim, r2, c2, w as int),
                forall|r2: int, c2: int|
                    0 <= r2 < h && 0 <= c2 < w && grid_idx(r2, c2, w as int) < rs@.len()
                        ==> #[trigger] cell_init(rs@, *sim, r2, c2, w as int, buf_size, proc_delay),
            decreases h - r,
        {
            let mut c: u32 = 0;
            while c < w
                invariant
                    sim.wf(),
                    evolves(*old(sim), *sim),
                    sim.events@ == old(sim).events@,
                    sim.queue@ == old(sim).queue@,
                    sim.trace@ == old(sim).trace@,
                    sim.time == old(sim).time,
                    sim.nev == old(sim).nev,
                    sim.fault == old(sim).fault,
                    r0 == old(sim).routers@.len() as int,
                    h == size.0 && w == size.1,
                    h as int * w as int <= usize::MAX,
                    r < h,
                    c <= w,
                    rs@.len() == grid_idx(r as int, c as int, w as int),
                    sim.routers@.len() == r0 + rs@.len(),
                    forall|i: int| 0 <= i < rs@.len() ==> (#[trigger] rs@[i]).id == r0 + i,
                    forall|r2: int, c2: int|
                        0 <= r2 < h && 0 <= c2 < w && grid_idx(r2, c2, w as int) < rs@.len()
                            ==> #[trigger] cell_fresh(rs@, *sim, r2, c2, w as int),
                    forall|r2: int, c2: int|
                        0 <= r2 < h && 0 <= c2 < w && grid_idx(r2, c2, w as int) < rs@.len()
                            ==> #[trigger] cell_init(rs@, *sim, r2, c2, w as int, buf_size, proc_delay),
                decreases w - c,
            {
                proof {
                    lemma_grid_idx_bound(r as int, c as int, h as int, w as int);
                }
                let ghost rs0 = rs@;
                let ghost sim0 = *sim;
                let hd = MeshRouter::new(sim, (r, c), buf_size, proc_delay);
                rs.push(hd);
                proof {
                    assert forall|r2: int, c2: int|
                        0 <= r2 < h && 0 <= c2 < w && grid_idx(r2, c2, w as int) < rs@.len()
                        implies cell_fresh(rs@, *sim, r2, c2, w as int) by {
                        let gi = grid_idx(r2, c2, w as int);
                        if gi < rs0.len() {
                            assert(cell_fresh(rs0, sim0, r2, c2, w as int));
                            assert(rs@[gi] == rs0[gi]);
                        } else {
                            lemma_grid_idx_inj(r2, c2, r as int, c as int, w as int);
                            assert(rs@[gi] == hd);
                        }
                    }
                    assert forall|r2: int, c2: int|
                        0 <= r2 < h && 0 <= c2 < w && grid_idx(r2, c2, w as int) < rs@.len()
                        implies cell_init(rs@, *sim, r2, c2, w as int, buf_size, proc_delay) by {
                        let gi = grid_idx(r2, c2, w as int);
                        if gi < rs0.len() {
                            assert(cell_init(rs0, sim0, r2, c2, w as int, buf_size, proc_delay));
                            assert(rs@[gi] == rs0[gi]);
                        } else {
                            lemma_grid_idx_inj(r2, c2, r as int, c as int, w as int);
                            assert(rs@[gi] == hd);
                        }
                    }
                }
                c = c + 1;
            }
            proof {
                lemma_grid_row_step(r as int, w as int);
            }
            r = r + 1;
        }
        // Wire the neighbor slots.
        let mut r: u32 = 0;
        while r < h
            invariant
                sim.wf(),
                evolves(*old(sim), *sim),
                sim.events@ == old(sim).events@,
                sim.queue@ == old(sim).queue@,
                sim.trace@ == old(sim).trace@,
                sim.time == old(sim).time,
                sim.nev == old(sim).nev,
                sim.fault == old(sim).fault,
                r0 == old(sim).routers@.len() as int,
                h == size.0 && w == size.1,
                h as int * w as int <= usize::MAX,
                r <= h,
                rs@.len() == h as int * w as int,
                sim.routers@.len() == r0 + rs@.len(),
                forall|i: int| 0 <= i < rs@.len() ==> (#[trigger] rs@[i]).id == r0 + i,
                forall|r2: int, c2: int|
                    0 <= r2 < h && 0 <= c2 < w && grid_idx(r2, c2, w as int) < rs@.len()
                        ==> #[trigger] cell_fresh(rs@, *sim, r2, c2, w as int),
                forall|r2: int, c2: int|
                    0 <= r2 < h && 0 <= c2 < w && grid_idx(r2, c2, w as int) < rs@.len()
                        ==> #[trigger] cell_init(rs@, *sim, r2, c2, w as int, buf_size, proc_delay),
                forall|r2: int, c2: int|
                    0 <= r2 < h && 0 <= c2 < w && grid_idx(r2, c2, w as int) < grid_idx(
                        r as int,
                        0,
                        w as int,
                    ) ==> #[trigger] cell_wired(rs@, *sim, h as int, w as int, r2, c2),
            decreases h - r,
        {
            let mut c: u32 = 0;
            while c < w
                invariant
                    sim.wf(),
                    evolves(*old(sim), *sim),
                    sim.events@ == old(sim).events@,
                    sim.queue@ == old(sim).queue@,
                    sim.trace@ == old(sim).trace@,
                    sim.time == old(sim).time,
                    sim.nev == old(sim).nev,
                    sim.fault == old(sim).fault,
                    r0 == old(sim).routers@.len() as int,
                    h == size.0 && w == size.1,
                    h as int * w as int <= usize::MAX,
                    r < h,
                    c <= w,
                    rs@.len() == h as int * w as int,
                    sim.routers@.len() == r0 + rs@.len(),
                    forall|i: int| 0 <= i < rs@.len() ==> (#[trigger] rs@[i]).id == r0 + i,
                    forall|r2: int, c2: int|
                        0 <= r2 < h && 0 <= c2 < w && grid_idx(r2, c2, w as int) < rs@.len()
                            ==> #[trigger] cell_fresh(rs@, *sim, r2, c2, w as int),
                    forall|r2: int, c2: int|
                        0 <= r2 < h && 0 <= c2 < w && grid_idx(r2, c2, w as int) < rs@.len()
                            ==> #[trigger] cell_init(rs@, *sim, r2, c2, w as int, buf_size, proc_delay),
                    forall|r2: int, c2: int|
                        0 <= r2 < h && 0 <= c2 < w && grid_idx(r2, c2, w as int) < grid_idx(
                            r as int,
                            c as int,
                            w as int,
                        ) ==> #[trigger] cell_wired(rs@, *sim, h as int, w as int, r2, c2),
                decreases w - c,
            {
                proof {
                    lemma_grid_idx_bound(r as int, c as int, h as int, w as int);
                    if r as int + 1 < h as int {
                        lemma_grid_idx_bound(r as int + 1, c as int, h as int, w as int);
                    }
                    lemma_grid_row_step(r as int, w as int);
                    if r > 0 {
                        lemma_grid_row_step(r as int - 1, w as int);
                    }
                }
                let idx = (r as usize) * (w as usize) + (c as usize);
                let hd = rs[idx];
                let north: Option<usize> = if r + 1 < h {
                    Some(rs[idx + (w as usize)].id)
                } else {
                    None
                };
                let east: Option<usize> = if c + 1 < w {
                    Some(rs[idx + 1].id)
                } else {
                    None
                };
                let south: Option<usize> = if r > 0 {
                    Some(rs[idx - (w as usize)].id)
                } else {
                    None
                };
                let west: Option<usize> = if c > 0 {
                    Some(rs[idx - 1].id)
                } else {
                    None
                };
                let ghost sim0 = *sim;
                let rr = &mut sim.routers[hd.id];
                rr.ns = RouterNeighbors { north, east, south, west };
                proof {
                    let ki = grid_idx(r as int, c as int, w as int);
                    assert(idx as int == ki);
                    assert(hd.id == r0 + ki);
                    assert forall|r2: int, c2: int|
                        0 <= r2 < h && 0 <= c2 < w && grid_idx(r2, c2, w as int) < rs@.len()
                        implies cell_fresh(rs@, *sim, r2, c2, w as int) by {
                        let gi = grid_idx(r2, c2, w as int);
                        assert(cell_fresh(rs@, sim0, r2, c2, w as int));
                        assert(sim.routers@[rs@[gi].id as int].coords == sim0.routers@[rs@[gi].id
                            as int].coords);
                    }
                    assert forall|r2: int, c2: int|
                        0 <= r2 < h && 0 <= c2 < w && grid_idx(r2, c2, w as int) < rs@.len()
                        implies cell_init(rs@, *sim, r2, c2, w as int, buf_size, proc_delay) by {
                        let gi = grid_idx(r2, c2, w as int);
                        assert(cell_init(rs@, sim0, r2, c2, w as int, buf_size, proc_delay));
                        assert(sim.bufs@ == sim0.bufs@);
                        assert(sim.routers@[rs@[gi].id as int].links == sim0.routers@[rs@[gi].id
                            as int].links);
                        assert(sim.routers@[rs@[gi].id as int].bufs == sim0.routers@[rs@[gi].id
                            as int].bufs);
                    }
                    assert forall|r2: int, c2: int|
                        0 <= r2 < h && 0 <= c2 < w && grid_idx(r2, c2, w as int) < ki + 1
                        implies cell_wired(rs@, *sim, h as int, w as int, r2, c2) by {
                        let gi = grid_idx(r2, c2, w as int);
                        if gi < ki {
                            assert(cell_wired(rs@, sim0, h as int, w as int, r2, c2));
                            assert(rs@[gi].id == r0 + gi);
                            assert(rs@[gi].id != hd.id);
                            assert(sim.routers@[rs@[gi].id as int] == sim0.routers@[rs@[gi].id
                                as int]);
                        } else {
                            lemma_grid_idx_inj(r2, c2, r as int, c as int, w as int);
                            lemma_grid_row_step(r as int, w as int);
                            if r > 0 {
                                lemma_grid_row_step(r as int - 1, w as int);
                            }
                            assert(cell_fresh(rs@, sim0, r2, c2, w as int));
                            assert(sim.routers@[hd.id as int].coords == sim0.routers@[hd.id
                                as int].coords);
                            assert(sim.routers@[hd.id as int].ns == (RouterNeighbors {
                                north,
                                east,
                                south,
                                west,
                            }));
                        }
                    }
                }
                c = c + 1;
            }
            proof {
                lemma_grid_row_step(r as int, w as int);
            }
            r = r + 1;
        }
        proof {
            assert forall|r2: int, c2: int| 0 <= r2 < size.0 && 0 <= c2 < size.1
                implies #[trigger] cell_wired(rs@, *sim, size.0 as int, size.1 as int, r2, c2) by {
                lemma_grid_idx_bound(r2, c2, size.0 as int, size.1 as int);
            }
            assert forall|r2: int, c2: int| 0 <= r2 < size.0 && 0 <= c2 < size.1
                implies #[trigger] cell_init(
                rs@,
                *sim,
                r2,
                c2,
                size.1 as int,
                buf_size,
                proc_delay,
            ) by {
                lemma_grid_idx_bound(r2, c2, size.0 as int, size.1 as int);
            }
        }
        Mesh { size, rs }
    }

    /// The handle of the router at grid cell `(r, c)`.
    pub fn get_router(&self, r: u32, c: u32) -> (h: MeshRouter)
        requires
            self.wf(),
            r < self.size.0,
            c < self.size.1,
        ensures
            h == self.rs@[grid_idx(r as int, c as int, self.size.1 as int)],
    {
        let n = self.rs.len();
        proof {
            lemma_grid_idx_bound(r as int, c as int, self.size.0 as int, self.size.1 as int);
            assert(self.size.0 as int * self.size.1 as int == n as int);
        }
        let idx = (r as usize) * (self.size.1 as usize) + (c as usize);
        self.rs[idx]
    }
}

/// Input index `i`'s link holds an unpended head, ready to be drained
/// into the matching input buffer by the next tick.
pub open spec fn drain_ready(s: Simulation, rid: int, i: int) -> bool {
    let l = spec_link_id(s.routers@[rid], spec_in_dir(i));
    &&& !s.bufs@[l].pending
    &&& s.bufs@[l].q@.len() > 0
}

/// All five links and all five input buffers of the router are empty:
/// nothing is in flight here.
pub open spec fn router_quiet(s: Simulation, rid: int) -> bool {
    forall|i: int|
        0 <= i < 5 ==> {
            let rr = s.routers@[rid];
            &&& s.bufs@[spec_link_id(rr, #[trigger] spec_in_dir(i))].q@.len() == 0
            &&& s.bufs@[spec_buf_id(rr, spec_in_dir(i))].q@.len() == 0
        }
}

/// The whole effect of arming router `rid`'s tick: nothing when one is
/// already pending, else one tick event at `now + proc_delay` carrying
/// the router's processing action.
pub open spec fn arm_rel(pre: Simulation, post: Simulation, rid: int) -> bool {
    &&& router_armed_only(pre, post, rid)
    &&& post.bufs@ == pre.bufs@
    &&& post.resources@ == pre.resources@
    &&& post.trace@ == pre.trace@
    &&& (pre.routers@[rid].scheduled ==> {
        &&& post.routers@ == pre.routers@
        &&& post.events@ == pre.events@
        &&& post.queue@ == pre.queue@
        &&& post.fault == pre.fault
    })
    &&& (!pre.routers@[rid].scheduled ==> ({
        let g = pre.events@.len() as int;
        let pd = pre.routers@[rid].proc_delay;
        &&& post.events@.len() == g + 1
        &&& forall|e: int| 0 <= e < g ==> #[trigger] post.events@[e] == pre.events@[e]
        &&& post.events@[g].actions@ == Seq::<Action>::empty().push(
            (Action::RouterProc { router: (MeshRouter { id: rid as usize }) }),
        )
        &&& !post.events@[g].fired
        &&& if pre.time + pd <= u64::MAX {
            &&& post.events@[g].t == Some(((pre.time + pd) as u64))
            &&& post.events@[g].queued
            &&& post.queue@ == pre.queue@.push(
                (QEntry { t: ((pre.time + pd) as u64), ev: g as usize }),
            )
            &&& post.fault == pre.fault
        } else {
            &&& post.queue@ == pre.queue@
            &&& !post.events@[g].queued
            &&& post.fault is Some
        }
    }))
}

/// Arms the processing tick of router `rid`: a deferred push completion
/// calls this when its payload lands, so a router that went idle wakes
/// up for the new packet.
pub(crate) fn router_arm(sim: &mut Simulation, rid: usize)
    requires
        old(sim).wf(),
        rid < old(sim).routers@.len(),
    ensures
        final(sim).wf(),
        evolves(*old(sim), *final(sim)),
        final(sim).time == old(sim).time,
        final(sim).nev == old(sim).nev,
        arm_rel(*old(sim), *final(sim), rid as int),
{
    MeshRouter { id: rid }.schedule_proc(sim);
}

/// How many of the first `i` input links are ready to drain.
pub open spec fn drained_before(s: Simulation, rid: int, i: int) -> int
    decreases i when 0 <= i
{
    if i <= 0 {
        0
    } else {
        drained_before(s, rid, i - 1) + (if drain_ready(s, rid, i - 1) {
            1int
        } else {
            0int
        })
    }
}

/// The whole effect of the tick's first stage on router `rid`: every
/// link holding an unpended head is pended and its drain is initiated —
/// one grant event per ready link, carrying the enqueue of the head
/// into the matching input buffer, the pop of the link once the slot is
/// held, and the re-arming of the router — with an inject drain counted
/// in `sent`.  Link queues, input buffers and all pre-existing events
/// are untouched.
pub open spec fn stage1_rel(pre: Simulation, post: Simulation, rid: int) -> bool {
    &&& evolves(pre, post)
    &&& post.time == pre.time
    &&& post.nev == pre.nev
    &&& post.trace@ == pre.trace@
    &&& post.routers@.len() == pre.routers@.len()
    &&& post.bufs@.len() == pre.bufs@.len()
    &&& post.resources@.len() == pre.resources@.len()
    &&& forall|r2: int|
        0 <= r2 < pre.routers@.len() && r2 != rid
            ==> #[trigger] post.routers@[r2] == pre.routers@[r2]
    &&& post.routers@[rid].coords == pre.routers@[rid].coords
    &&& post.routers@[rid].ns == pre.routers@[rid].ns
    &&& post.routers@[rid].links == pre.routers@[rid].links
    &&& post.routers@[rid].bufs == pre.routers@[rid].bufs
    &&& post.routers@[rid].arbs == pre.routers@[rid].arbs
    &&& post.routers@[rid].proc_delay == pre.routers@[rid].proc_delay
    &&& post.routers@[rid].received == pre.routers@[rid].received
    &&& post.routers@[rid].scheduled == pre.routers@[rid].scheduled
    &&& post.routers@[rid].sent as int == pre.routers@[rid].sent as int + (if drain_ready(
        pre,
        rid,
        0,
    ) && pre.routers@[rid].sent < u64::MAX {
        1int
    } else {
        0int
    })
    &&& forall|i: int|
        0 <= i < 5 ==> {
            let l = spec_link_id(pre.routers@[rid], #[trigger] spec_in_dir(i));
            &&& (drain_ready(pre, rid, i) ==> post.bufs@[l].pending && post.bufs@[l].q@
                == pre.bufs@[l].q@)
            &&& (!drain_ready(pre, rid, i) ==> post.bufs@[l] == pre.bufs@[l])
        }
    &&& forall|i: int|
        0 <= i < 5 ==> (#[trigger] post.bufs@[spec_buf_id(pre.routers@[rid], spec_in_dir(i))])
            == pre.bufs@[spec_buf_id(pre.routers@[rid], spec_in_dir(i))]
    &&& post.events@.len() == pre.events@.len() + drained_before(pre, rid, 5)
    &&& forall|e: int|
        0 <= e < pre.events@.len() ==> #[trigger] post.events@[e] == pre.events@[e]
    &&& forall|i: int|
        0 <= i < 5 && #[trigger] drain_ready(pre, rid, i) ==> ({
            let g = pre.events@.len() as int + drained_before(pre, rid, i);
            let rr = pre.routers@[rid];
            &&& 0 <= g < post.events@.len()
            &&& post.events@[g].actions@ == Seq::<Action>::empty().push(
                (Action::BufEnqueue {
                    buf: (FifoBuf { id: (spec_buf_id(rr, spec_in_dir(i)) as usize) }),
                    p: pre.bufs@[spec_link_id(rr, spec_in_dir(i))].q@[0],
                }),
            ).push(
                (Action::BufPop { buf: (FifoBuf { id: (spec_link_id(rr, spec_in_dir(i)) as usize) }) }),
            ).push((Action::Arm { router: (MeshRouter { id: rid as usize }) }))
            &&& !post.events@[g].fired
        })
}

/// The tick's first stage: drains each ready input link into the
/// matching input buffer through a push whose grant event pops the link
/// and re-arms the router, counting injected packets as sent.
fn drain_inputs(sim: &mut Simulation, rid: usize)
    requires
        old(sim).wf(),
        rid < old(sim).routers@.len(),
    ensures
        final(sim).wf(),
        stage1_rel(*old(sim), *final(sim), rid as int),
{
    let me = MeshRouter { id: rid };
    let mut di: usize = 0;
    while di < 5
        invariant
            sim.wf(),
            rid < sim.routers@.len(),
            me.id == rid,
            di <= 5,
            sim.time == old(sim).time,
            sim.nev == old(sim).nev,
            sim.trace@ == old(sim).trace@,
            evolves(*old(sim), *sim),
            sim.routers@.len() == old(sim).routers@.len(),
            sim.bufs@.len() == old(sim).bufs@.len(),
            sim.resources@.len() == old(sim).resources@.len(),
            forall|r2: int|
                0 <= r2 < old(sim).routers@.len() && r2 != rid as int
                    ==> #[trigger] sim.routers@[r2] == old(sim).routers@[r2],
            sim.routers@[rid as int].coords == old(sim).routers@[rid as int].coords,
            sim.routers@[rid as int].ns == old(sim).routers@[rid as int].ns,
            sim.routers@[rid as int].links == old(sim).routers@[rid as int].links,
            sim.routers@[rid as int].bufs == old(sim).routers@[rid as int].bufs,
            sim.routers@[rid as int].arbs == old(sim).routers@[rid as int].arbs,
            sim.routers@[rid as int].proc_delay == old(sim).routers@[rid as int].proc_delay,
            sim.routers@[rid as int].received == old(sim).routers@[rid as int].received,
            sim.routers@[rid as int].scheduled == old(sim).routers@[rid as int].scheduled,
            sim.routers@[rid as int].sent as int == old(sim).routers@[rid as int].sent as int + (
            if di > 0 && drain_ready(*old(sim), rid as int, 0) && old(sim).routers@[rid
                as int].sent < u64::MAX {
                1int
            } else {
                0int
            }),
            forall|i: int|
                di <= i < 5 ==> (#[trigger] sim.bufs@[spec_link_id(
                    old(sim).routers@[rid as int],
                    spec_in_dir(i),
                )]) == old(sim).bufs@[spec_link_id(
                    old(sim).routers@[rid as int],
                    spec_in_dir(i),
                )],
            forall|i: int|
                0 <= i < di ==> {
                    let l = spec_link_id(old(sim).routers@[rid as int], #[trigger] spec_in_dir(i));
                    &&& (drain_ready(*old(sim), rid as int, i) ==> sim.bufs@[l].pending
                        && sim.bufs@[l].q@ == old(sim).bufs@[l].q@)
                    &&& (!drain_ready(*old(sim), rid as int, i) ==> sim.bufs@[l] == old(
                        sim,
                    ).bufs@[l])
                },
            forall|i: int|
                0 <= i < 5 ==> (#[trigger] sim.bufs@[spec_buf_id(
                    old(sim).routers@[rid as int],
                    spec_in_dir(i),
                )]) == old(sim).bufs@[spec_buf_id(
                    old(sim).routers@[rid as int],
                    spec_in_dir(i),
                )],
            sim.events@.len() == old(sim).events@.len() + drained_before(
                *old(sim),
                rid as int,
                di as int,
            ),
            forall|e: int|
                0 <= e < old(sim).events@.len() ==> #[trigger] sim.events@[e] == old(
                    sim,
                ).events@[e],
            forall|i: int|
                0 <= i < di && #[trigger] drain_ready(*old(sim), rid as int, i) ==> ({
                    let g = old(sim).events@.len() as int + drained_before(
                        *old(sim),
                        rid as int,
                        i,
                    );
                    let rr = old(sim).routers@[rid as int];
                    &&& 0 <= g < sim.events@.len()
                    &&& sim.events@[g].actions@ == Seq::<Action>::empty().push(
                        (Action::BufEnqueue {
                            buf: (FifoBuf { id: (spec_buf_id(rr, spec_in_dir(i)) as usize) }),
                            p: old(sim).bufs@[spec_link_id(rr, spec_in_dir(i))].q@[0],
                        }),
                    ).push(
                        (Action::BufPop {
                            buf: (FifoBuf { id: (spec_link_id(rr, spec_in_dir(i)) as usize) }),
                        }),
                    ).push((Action::Arm { router: (MeshRouter { id: rid }) }))
                    &&& !sim.events@[g].fired
                }),
        decreases 5 - di,
    {
        let dir = in_dir(di);
        let link = me.get_link(sim, dir);
        let buf = me.get_buf(sim, dir);
        assert(link.id < sim.bufs@.len());
        assert(buf.id < sim.bufs@.len());
        let head = link.peek(sim);
        match head {
            Some(p) => {
                proof {
                    assert(drain_ready(*old(sim), rid as int, di as int));
                    assert(drained_before(*old(sim), rid as int, di as int + 1)
                        == drained_before(*old(sim), rid as int, di as int) + 1);
                }
                if di == 0 {
                    let s = sim.routers[rid].sent;
                    if s < u64::MAX {
                        let rr = &mut sim.routers[rid];
                        rr.sent = s + 1;
                    } else {
                        sim.set_fault(Fault::CountOverflow);
                    }
                }
                link.pend(sim);
                let pev = buf.push(sim, p);
                pev.callback(sim, Action::BufPop { buf: link });
                pev.callback(sim, Action::Arm { router: me });
                proof {
                    assert(FifoBuf { id: buf.id } == buf);
                    assert(FifoBuf { id: link.id } == link);
                }
            },
            None => {
                proof {
                    assert(!drain_ready(*old(sim), rid as int, di as int));
                    assert(drained_before(*old(sim), rid as int, di as int + 1)
                        == drained_before(*old(sim), rid as int, di as int));
                }
            },
        }
        di = di + 1;
    }
}

/// The whole effect of the tick's last stage on router `rid`: with
/// every link and input buffer drained the tick mark is cleared and
/// nothing else moves; otherwise the mark stands and one new tick event
/// is created at `now + proc_delay`, carrying the router's processing
/// action (or the clock-overflow fault is recorded).
pub open spec fn rearm_rel(pre: Simulation, post: Simulation, rid: int) -> bool {
    &&& evolves(pre, post)
    &&& post.time == pre.time
    &&& post.nev == pre.nev
    &&& post.bufs@ == pre.bufs@
    &&& post.resources@ == pre.resources@
    &&& post.trace@ == pre.trace@
    &&& post.routers@.len() == pre.routers@.len()
    &&& forall|r2: int|
        0 <= r2 < pre.routers@.len() && r2 != rid
            ==> #[trigger] post.routers@[r2] == pre.routers@[r2]
    &&& post.routers@[rid].coords == pre.routers@[rid].coords
    &&& post.routers@[rid].ns == pre.routers@[rid].ns
    &&& post.routers@[rid].links == pre.routers@[rid].links
    &&& post.routers@[rid].bufs == pre.routers@[rid].bufs
    &&& post.routers@[rid].arbs == pre.routers@[rid].arbs
    &&& post.routers@[rid].proc_delay == pre.routers@[rid].proc_delay
    &&& post.routers@[rid].sent == pre.routers@[rid].sent
    &&& post.routers@[rid].received == pre.routers@[rid].received
    &&& (router_quiet(pre, rid) ==> {
        &&& !post.routers@[rid].scheduled
        &&& post.events@ == pre.events@
        &&& post.queue@ == pre.queue@
        &&& post.fault == pre.fault
    })
    &&& (!router_quiet(pre, rid) ==> ({
        let g = pre.events@.len() as int;
        let pd = pre.routers@[rid].proc_delay;
        &&& post.routers@[rid].scheduled == pre.routers@[rid].scheduled
        &&& post.events@.len() == g + 1
        &&& forall|e: int| 0 <= e < g ==> #[trigger] post.events@[e] == pre.events@[e]
        &&& post.events@[g].actions@ == Seq::<Action>::empty().push(
            (Action::RouterProc { router: (MeshRouter { id: rid as usize }) }),
        )
        &&& !post.events@[g].fired
        &&& (pre.time + pd <= u64::MAX ==> post.events@[g].queued && post.events@[g].t == Some(
            ((pre.time + pd) as u64),
        ) && post.queue@ == pre.queue@.push(
            (QEntry { t: ((pre.time + pd) as u64), ev: g as usize }),
        ) && post.fault == pre.fault)
        &&& (pre.time + pd > u64::MAX ==> post.queue@ == pre.queue@ && post.fault is Some)
    }))
}

/// The tick's last stage: clears the tick mark once the router has
/// fully drained, else creates the next tick event.
fn rearm_tick(sim: &mut Simulation, rid: usize)
    requires
        old(sim).wf(),
        rid < old(sim).routers@.len(),
    ensures
        final(sim).wf(),
        rearm_rel(*old(sim), *final(sim), rid as int),
{
    let me = MeshRouter { id: rid };
    let mut idle = true;
    let mut di2: usize = 0;
    while di2 < 5
        invariant
            sim.wf(),
            rid < sim.routers@.len(),
            me.id == rid,
            di2 <= 5,
            *sim == *old(sim),
            idle == (forall|i: int|
                0 <= i < di2 ==> {
                    let rr = sim.routers@[rid as int];
                    &&& sim.bufs@[spec_link_id(rr, #[trigger] spec_in_dir(i))].q@.len() == 0
                    &&& sim.bufs@[spec_buf_id(rr, spec_in_dir(i))].q@.len() == 0
                }),
        decreases 5 - di2,
    {
        let dir = in_dir(di2);
        let link = me.get_link(sim, dir);
        let buf = me.get_buf(sim, dir);
        assert(link.id < sim.bufs@.len());
        assert(buf.id < sim.bufs@.len());
        if !link.empty(sim) {
            idle = false;
        }
        if !buf.empty(sim) {
            idle = false;
        }
        di2 = di2 + 1;
    }
    proof {
        assert(idle == router_quiet(*old(sim), rid as int));
    }
    if idle {
        let rr = &mut sim.routers[rid];
        rr.scheduled = false;
    } else {
        let pd = sim.routers[rid].proc_delay;
        let ev = sim.event(Some(pd));
        ev.callback(sim, Action::RouterProc { router: me });
        proof {
            assert(sim.events@[ev.id as int].actions@ =~= Seq::<Action>::empty().push(
                (Action::RouterProc { router: me }),
            ));
            assert(((rid as int) as usize) == rid);
        }
    }
}

/// The whole effect of one processing tick of router `rid`: the clock
/// and fired-event counter stand still; every output arbiter advances
/// by one; each link with an unpended head is pended (a drain into the
/// matching input buffer is initiated) with an inject drain counting
/// `sent`; the Eject arbitration, decided round-robin over the head
/// packets as the tick found them, removes and counts the ejected head;
/// and the tick re-arms itself unless the router has fully drained.
/// The final clause exhibits the whole tick as a chain: the stage-one
/// drain, one arbitration per output in {Eject, N, E, S, W} order, then
/// the re-arm — each hop an exactly stated relation, so the cardinal
/// dispatches (neighbor hand-off, pop on acceptance) are fixed hop by
/// hop.
pub open spec fn proc_rel(pre: Simulation, post: Simulation, rid: int) -> bool {
    &&& evolves(pre, post)
    &&& post.time == pre.time
    &&& post.nev == pre.nev
    &&& post.routers@.len() == pre.routers@.len()
    &&& forall|od: Direction|
        od != Direction::Inject ==> #[trigger] spec_arb_i(post.routers@[rid], od) == (spec_arb_i(
            pre.routers@[rid],
            od,
        ) + 1) % 5
    &&& post.routers@[rid].sent as int == pre.routers@[rid].sent as int + (if drain_ready(
        pre,
        rid,
        0,
    ) && pre.routers@[rid].sent < u64::MAX {
        1int
    } else {
        0int
    })
    &&& forall|i: int|
        0 <= i < 5 ==> (#[trigger] post.bufs@[spec_link_id(pre.routers@[rid], spec_in_dir(i))]).q@
            == pre.bufs@[spec_link_id(pre.routers@[rid], spec_in_dir(i))].q@
    &&& forall|i: int|
        0 <= i < 5 && #[trigger] drain_ready(pre, rid, i) ==> post.bufs@[spec_link_id(
            pre.routers@[rid],
            spec_in_dir(i),
        )].pending
    &&& ({
        let sel = spec_rr_select(
            elig_seq(pre, rid, Direction::Eject),
            spec_arb_i(pre.routers@[rid], Direction::Eject),
        );
        let b = spec_buf_id(pre.routers@[rid], spec_in_dir(sel));
        &&& post.routers@[rid].received as int == pre.routers@[rid].received + (if sel >= 0
            && pre.routers@[rid].received < u64::MAX {
            1int
        } else {
            0int
        })
        &&& (sel >= 0 ==> post.bufs@[b].q@ == pre.bufs@[b].q@.subrange(
            1,
            pre.bufs@[b].q@.len() as int,
        ))
    })
    &&& (router_quiet(post, rid) ==> !post.routers@[rid].scheduled)
    &&& (!router_quiet(post, rid) ==> (pre.routers@[rid].scheduled
        ==> post.routers@[rid].scheduled))
    &&& (!router_quiet(post, rid) ==> ({
        let g = post.events@.len() as int - 1;
        let pd = pre.routers@[rid].proc_delay;
        &&& post.events@[g].actions@ == Seq::<Action>::empty().push(
            (Action::RouterProc { router: (MeshRouter { id: rid as usize }) }),
        )
        &&& (pre.time + pd <= u64::MAX ==> post.events@[g].queued && post.events@[g].t == Some(
            ((pre.time + pd) as u64),
        ))
    }))
    &&& (exists|mids: Seq<Simulation>|
        {
            &&& #[trigger] mids.len() == 6
            &&& stage1_rel(pre, mids[0], rid)
            &&& arb_rel(mids[0], mids[1], rid, Direction::Eject)
            &&& arb_rel(mids[1], mids[2], rid, Direction::North)
            &&& arb_rel(mids[2], mids[3], rid, Direction::East)
            &&& arb_rel(mids[3], mids[4], rid, Direction::South)
            &&& arb_rel(mids[4], mids[5], rid, Direction::West)
            &&& rearm_rel(mids[5], post, rid)
        })
}

/// From the tick's chain of stage relations, the tick's summary
/// clauses follow: arbiters advance once, `sent` and `received` count
/// the inject drain and the ejection, link queues stand still with
/// ready links pended, the ejected head leaves its buffer, and the
/// re-arm rule holds.
#[verifier::rlimit(100)]
proof fn lemma_tick_summary(
    pre: Simulation,
    m1: Simulation,
    m2: Simulation,
    m3: Simulation,
    m4: Simulation,
    m5: Simulation,
    m6: Simulation,
    post: Simulation,
    rid: int,
)
    requires
        pre.wf(),
        0 <= rid < pre.routers@.len(),
        stage1_rel(pre, m1, rid),
        arb_rel(m1, m2, rid, Direction::Eject),
        arb_rel(m2, m3, rid, Direction::North),
        arb_rel(m3, m4, rid, Direction::East),
        arb_rel(m4, m5, rid, Direction::South),
        arb_rel(m5, m6, rid, Direction::West),
        rearm_rel(m6, post, rid),
    ensures
        forall|od: Direction|
            od != Direction::Inject ==> #[trigger] spec_arb_i(post.routers@[rid], od) == (
            spec_arb_i(pre.routers@[rid], od) + 1) % 5,
        post.routers@[rid].sent as int == pre.routers@[rid].sent as int + (if drain_ready(
            pre,
            rid,
            0,
        ) && pre.routers@[rid].sent < u64::MAX {
            1int
        } else {
            0int
        }),
        forall|i: int|
            0 <= i < 5 ==> (#[trigger] post.bufs@[spec_link_id(
                pre.routers@[rid],
                spec_in_dir(i),
            )]).q@ == pre.bufs@[spec_link_id(pre.routers@[rid], spec_in_dir(i))].q@,
        forall|i: int|
            0 <= i < 5 && #[trigger] drain_ready(pre, rid, i) ==> post.bufs@[spec_link_id(
                pre.routers@[rid],
                spec_in_dir(i),
            )].pending,
        ({
            let sel = spec_rr_select(
                elig_seq(pre, rid, Direction::Eject),
                spec_arb_i(pre.routers@[rid], Direction::Eject),
            );
            let b = spec_buf_id(pre.routers@[rid], spec_in_dir(sel));
            &&& post.routers@[rid].received as int == pre.routers@[rid].received + (if sel >= 0
                && pre.routers@[rid].received < u64::MAX {
                1int
            } else {
                0int
            })
            &&& (sel >= 0 ==> post.bufs@[b].q@ == pre.bufs@[b].q@.subrange(
                1,
                pre.bufs@[b].q@.len() as int,
            ))
        }),
        router_quiet(post, rid) ==> !post.routers@[rid].scheduled,
        !router_quiet(post, rid) ==> (pre.routers@[rid].scheduled
            ==> post.routers@[rid].scheduled),
        !router_quiet(post, rid) ==> ({
            let g = post.events@.len() as int - 1;
            let pd = pre.routers@[rid].proc_delay;
            &&& post.events@[g].actions@ == Seq::<Action>::empty().push(
                (Action::RouterProc { router: (MeshRouter { id: rid as usize }) }),
            )
            &&& (pre.time + pd <= u64::MAX ==> post.events@[g].queued && post.events@[g].t
                == Some(((pre.time + pd) as u64)))
        }),
{
    let rl = pre.routers@[rid].links;
    assert(m1.routers@[rid].links == rl);
    assert(m2.routers@[rid].links == rl);
    assert(m3.routers@[rid].links == rl);
    assert(m4.routers@[rid].links == rl);
    assert(m5.routers@[rid].links == rl);
    assert forall|i: int| 0 <= i < 5 implies {
        let l = spec_link_id(pre.routers@[rid], #[trigger] spec_in_dir(i));
        &&& m6.bufs@[l].q@ == pre.bufs@[l].q@
        &&& (drain_ready(pre, rid, i) ==> m6.bufs@[l].pending)
    } by {
        let l = spec_link_id(pre.routers@[rid], spec_in_dir(i));
        assert(spec_link_id(m1.routers@[rid], spec_in_dir(i)) == l);
        assert(spec_link_id(m2.routers@[rid], spec_in_dir(i)) == l);
        assert(spec_link_id(m3.routers@[rid], spec_in_dir(i)) == l);
        assert(spec_link_id(m4.routers@[rid], spec_in_dir(i)) == l);
        assert(spec_link_id(m5.routers@[rid], spec_in_dir(i)) == l);
        assert(m2.bufs@[l] == m1.bufs@[l]);
        assert(m3.bufs@[l] == m2.bufs@[l]);
        assert(m4.bufs@[l] == m3.bufs@[l]);
        assert(m5.bufs@[l] == m4.bufs@[l]);
        assert(m6.bufs@[l] == m5.bufs@[l]);
    }
    assert(elig_seq(m1, rid, Direction::Eject) =~= elig_seq(pre, rid, Direction::Eject)) by {
        assert forall|i: int| 0 <= i < 5 implies input_eligible(m1, rid, Direction::Eject, i)
            == input_eligible(pre, rid, Direction::Eject, i) by {
            assert(m1.bufs@[spec_buf_id(pre.routers@[rid], spec_in_dir(i))] == pre.bufs@[
                spec_buf_id(pre.routers@[rid], spec_in_dir(i))]);
        }
    }
    let sel = spec_rr_select(
        elig_seq(pre, rid, Direction::Eject),
        spec_arb_i(pre.routers@[rid], Direction::Eject),
    );
    assert(m1.routers@[rid].received == pre.routers@[rid].received);
    assert(m2.routers@[rid].received as int == pre.routers@[rid].received + (if sel >= 0
        && pre.routers@[rid].received < u64::MAX {
        1int
    } else {
        0int
    }));
    assert(m3.routers@[rid].received == m2.routers@[rid].received);
    assert(m4.routers@[rid].received == m3.routers@[rid].received);
    assert(m5.routers@[rid].received == m4.routers@[rid].received);
    assert(m6.routers@[rid].received == m5.routers@[rid].received);
    assert(m6.routers@[rid].sent == m1.routers@[rid].sent);
    if sel >= 0 {
        lemma_rr_pick_range(
            elig_seq(pre, rid, Direction::Eject),
            spec_arb_i(pre.routers@[rid], Direction::Eject),
            0,
        );
        let b = spec_buf_id(pre.routers@[rid], spec_in_dir(sel));
        assert(spec_buf_id(m1.routers@[rid], spec_in_dir(sel)) == b);
        assert(m1.bufs@[b] == pre.bufs@[b]);
        assert(m2.bufs@[b].q@ == m1.bufs@[b].q@.subrange(1, m1.bufs@[b].q@.len() as int));
        assert(m3.bufs@[b].q@ == m2.bufs@[b].q@);
        assert(m4.bufs@[b].q@ == m3.bufs@[b].q@);
        assert(m5.bufs@[b].q@ == m4.bufs@[b].q@);
        assert(m6.bufs@[b].q@ == m5.bufs@[b].q@);
        assert(post.bufs@[b].q@ == m6.bufs@[b].q@);
    }
    assert(spec_arb_i(m6.routers@[rid], Direction::Eject) == (spec_arb_i(
        pre.routers@[rid],
        Direction::Eject,
    ) + 1) % 5);
    assert(spec_arb_i(m6.routers@[rid], Direction::North) == (spec_arb_i(
        pre.routers@[rid],
        Direction::North,
    ) + 1) % 5);
    assert(spec_arb_i(m6.routers@[rid], Direction::East) == (spec_arb_i(
        pre.routers@[rid],
        Direction::East,
    ) + 1) % 5);
    assert(spec_arb_i(m6.routers@[rid], Direction::South) == (spec_arb_i(
        pre.routers@[rid],
        Direction::South,
    ) + 1) % 5);
    assert(spec_arb_i(m6.routers@[rid], Direction::West) == (spec_arb_i(
        pre.routers@[rid],
        Direction::West,
    ) + 1) % 5);
    assert(router_quiet(post, rid) == router_quiet(m6, rid)) by {
        assert(post.routers@[rid].links == m6.routers@[rid].links);
        assert(post.routers@[rid].bufs == m6.routers@[rid].bufs);
        assert(post.bufs@ == m6.bufs@);
    }
    assert(post.routers@[rid].arbs == m6.routers@[rid].arbs);
    assert forall|od: Direction| od != Direction::Inject implies #[trigger] spec_arb_i(
        post.routers@[rid],
        od,
    ) == (spec_arb_i(pre.routers@[rid], od) + 1) % 5 by {
        assert(spec_arb_i(post.routers@[rid], od) == spec_arb_i(m6.routers@[rid], od));
    }
    if pre.routers@[rid].scheduled && !router_quiet(post, rid) {
        assert(m1.routers@[rid].scheduled);
        assert(m2.routers@[rid].scheduled);
        assert(m3.routers@[rid].scheduled);
        assert(m4.routers@[rid].scheduled);
        assert(m5.routers@[rid].scheduled);
        assert(m6.routers@[rid].scheduled);
        assert(post.routers@[rid].scheduled);
    }
}

/// One processing tick of router `rid`: the stage-one link drain, one
/// arbitration per output, then the re-arm.
pub(crate) fn router_proc(sim: &mut Simulation, rid: usize)
    requires
        old(sim).wf(),
        rid < old(sim).routers@.len(),
    ensures
        final(sim).wf(),
        proc_rel(*old(sim), *final(sim), rid as int),
{
    drain_inputs(sim, rid);
    let ghost s1 = *sim;
    arbitrate_output(sim, rid, Direction::Eject);
    let ghost s2 = *sim;
    arbitrate_output(sim, rid, Direction::North);
    let ghost s3 = *sim;
    arbitrate_output(sim, rid, Direction::East);
    let ghost s4 = *sim;
    arbitrate_output(sim, rid, Direction::South);
    let ghost s5 = *sim;
    arbitrate_output(sim, rid, Direction::West);
    let ghost s6 = *sim;
    rearm_tick(sim, rid);
    proof {
        lemma_tick_summary(*old(sim), s1, s2, s3, s4, s5, s6, *sim, rid as int);
        let ghost mids: Seq<Simulation> = seq![s1, s2, s3, s4, s5, s6];
        assert(mids.len() == 6);
        assert(stage1_rel(*old(sim), mids[0], rid as int));
        assert(arb_rel(mids[0], mids[1], rid as int, Direction::Eject));
        assert(arb_rel(mids[1], mids[2], rid as int, Direction::North));
        assert(arb_rel(mids[2], mids[3], rid as int, Direction::East));
        assert(arb_rel(mids[3], mids[4], rid as int, Direction::South));
        assert(arb_rel(mids[4], mids[5], rid as int, Direction::West));
        assert(rearm_rel(mids[5], *sim, rid as int));
    }
}

} // verus!
