use fabricsim::sim::{Action, Event, Fault, FifoBuf, Resource, Simulation};
use fabricsim::mesh::Packet;

fn pkt(payload: u64) -> Packet {
    Packet { dest: (0, 0), payload }
}

#[test]
fn test1() {
    // One event at t = 10 with two callbacks; both fire at 10, in the
    // order they were appended.
    let mut sim = Simulation::new();
    let ev = sim.event(Some(10));
    ev.callback(&mut sim, Action::Note { tag: 1 });
    ev.callback(&mut sim, Action::Note { tag: 2 });
    sim.run(None);
    assert_eq!(sim.now(), 10);
    assert_eq!(sim.num_events(), 1);
    assert_eq!(sim.trace().len(), 2);
    assert_eq!(sim.trace()[0], (10, 1));
    assert_eq!(sim.trace()[1], (10, 2));
    assert!(sim.fault().is_none());
}

#[test]
fn des_ordering_ties_fire_in_insertion_order() {
    // Schedule A at t=5, B at t=5 (in that order), then C at t=3.
    // Fire order must be C, A, B; final now = 5 and three events fired.
    let mut sim = Simulation::new();
    let a = sim.event(Some(5));
    a.callback(&mut sim, Action::Note { tag: 10 });
    let b = sim.event(Some(5));
    b.callback(&mut sim, Action::Note { tag: 20 });
    let c = sim.event(Some(3));
    c.callback(&mut sim, Action::Note { tag: 30 });
    sim.run(None);
    assert_eq!(sim.now(), 5);
    assert_eq!(sim.num_events(), 3);
    assert_eq!(sim.trace().len(), 3);
    assert_eq!(sim.trace()[0], (3, 30));
    assert_eq!(sim.trace()[1], (5, 10));
    assert_eq!(sim.trace()[2], (5, 20));
    assert!(sim.fault().is_none());
}

#[test]
fn run_with_no_events_leaves_now_unchanged() {
    let mut sim = Simulation::new();
    sim.run(None);
    assert_eq!(sim.now(), 0);
    assert_eq!(sim.num_events(), 0);
    assert!(sim.fault().is_none());
}

#[test]
fn run_limit_pins_clock_without_firing() {
    let mut sim = Simulation::new();
    let ev = sim.event(Some(10));
    ev.callback(&mut sim, Action::Note { tag: 7 });
    sim.run(Some(4));
    assert_eq!(sim.now(), 4);
    assert_eq!(sim.num_events(), 0);
    assert_eq!(sim.trace().len(), 0);
    // The event is still pending; a later unlimited run fires it.
    sim.run(None);
    assert_eq!(sim.now(), 10);
    assert_eq!(sim.num_events(), 1);
    assert_eq!(sim.trace()[0], (10, 7));
}

#[test]
fn delayed_event_chains_after_parent() {
    let mut sim = Simulation::new();
    let ev = sim.event(Some(2));
    let ev2 = ev.delay(&mut sim, 3);
    ev2.callback(&mut sim, Action::Note { tag: 5 });
    sim.run(None);
    assert_eq!(sim.now(), 5);
    assert_eq!(sim.trace()[0], (5, 5));
    assert!(sim.fault().is_none());
}

#[test]
fn unresolved_event_fires_once_scheduled() {
    let mut sim = Simulation::new();
    let ev = sim.event(None);
    ev.callback(&mut sim, Action::Note { tag: 9 });
    sim.run(None);
    assert_eq!(sim.trace().len(), 0);
    sim.schedule(ev, 6);
    sim.run(None);
    assert_eq!(sim.now(), 6);
    assert_eq!(sim.trace()[0], (6, 9));
}

#[test]
fn exec_runs_callbacks_by_hand() {
    let mut sim = Simulation::new();
    let ev = Event::new(&mut sim, None);
    ev.callback(&mut sim, Action::Note { tag: 3 });
    ev.callback(&mut sim, Action::Note { tag: 4 });
    ev.exec(&mut sim);
    assert_eq!(sim.trace().len(), 2);
    assert_eq!(sim.trace()[0], (0, 3));
    assert_eq!(sim.trace()[1], (0, 4));
    // Executed by hand, outside the run loop: the counter is untouched.
    assert_eq!(sim.num_events(), 0);
}

#[test]
fn set_time_then_enqueue_fires_at_that_time() {
    let mut sim = Simulation::new();
    let ev = Event::new(&mut sim, None);
    ev.callback(&mut sim, Action::Note { tag: 8 });
    ev.set_time(&mut sim, 12);
    sim.enqueue(ev);
    sim.run(None);
    assert_eq!(sim.now(), 12);
    assert_eq!(sim.trace()[0], (12, 8));
    assert!(sim.fault().is_none());
}

#[test]
fn proc_test_1() {
    // Four holders contend for a single unit; each releases ten units
    // after its grant.  FIFO waiting spaces the grants ten units apart.
    let mut sim = Simulation::new();
    let r = Resource::new(&mut sim, 1);
    for i in 1..5u64 {
        let g = r.acquire(&mut sim);
        g.callback(&mut sim, Action::Note { tag: i });
        let rel = g.delay(&mut sim, 10);
        rel.callback(&mut sim, Action::ResRelease { res: r });
    }
    sim.run(None);
    assert!(sim.fault().is_none());
    assert_eq!(sim.trace().len(), 4);
    assert_eq!(sim.trace()[0], (0, 1));
    assert_eq!(sim.trace()[1], (10, 2));
    assert_eq!(sim.trace()[2], (20, 3));
    assert_eq!(sim.trace()[3], (30, 4));
    assert_eq!(r.val(&sim), 0);
}

#[test]
fn resource_fifo_grant_times() {
    // Capacity 1, three acquires queued at t=0: grants at 0, 10, 20;
    // the third holder never releases, so one unit stays held.
    let mut sim = Simulation::new();
    let r = Resource::new(&mut sim, 1);
    let g1 = r.acquire(&mut sim);
    g1.callback(&mut sim, Action::Note { tag: 1 });
    let rel1 = g1.delay(&mut sim, 10);
    rel1.callback(&mut sim, Action::ResRelease { res: r });
    let g2 = r.acquire(&mut sim);
    g2.callback(&mut sim, Action::Note { tag: 2 });
    let rel2 = g2.delay(&mut sim, 10);
    rel2.callback(&mut sim, Action::ResRelease { res: r });
    let g3 = r.acquire(&mut sim);
    g3.callback(&mut sim, Action::Note { tag: 3 });
    sim.run(None);
    assert!(sim.fault().is_none());
    assert_eq!(sim.trace().len(), 3);
    assert_eq!(sim.trace()[0], (0, 1));
    assert_eq!(sim.trace()[1], (10, 2));
    assert_eq!(sim.trace()[2], (20, 3));
    assert_eq!(r.val(&sim), 1);
    assert!(r.full(&sim));
}

#[test]
fn resource_reserves_eagerly() {
    let mut sim = Simulation::new();
    let r = Resource::new(&mut sim, 2);
    assert!(!r.full(&sim));
    let _g1 = r.acquire(&mut sim);
    let _g2 = r.acquire(&mut sim);
    assert_eq!(r.val(&sim), 2);
    assert!(r.full(&sim));
    let _g3 = r.acquire(&mut sim);
    assert_eq!(r.val(&sim), 2);
    sim.run(None);
    assert!(sim.fault().is_none());
    assert_eq!(r.val(&sim), 2);
}

#[test]
fn fifobuf_two_phase_round_trip() {
    // push; peek; pend; pop leaves the buffer one item shorter and
    // restores pending = false.
    let mut sim = Simulation::new();
    let b = FifoBuf::new(&mut sim, 2);
    let _e1 = b.push(&mut sim, pkt(11));
    let _e2 = b.push(&mut sim, pkt(22));
    sim.run(None);
    assert!(sim.fault().is_none());
    assert!(!b.empty(&sim));
    let head = b.peek(&sim);
    assert_eq!(head, Some(pkt(11)));
    b.pend(&mut sim);
    // While pended, no peek succeeds.
    assert_eq!(b.peek(&sim), None);
    b.pop(&mut sim);
    assert_eq!(b.peek(&sim), Some(pkt(22)));
    b.pend(&mut sim);
    b.pop(&mut sim);
    assert!(b.empty(&sim));
    assert_eq!(b.peek(&sim), None);
}

#[test]
fn fifobuf_backpressure_waits_for_pop() {
    let mut sim = Simulation::new();
    let b = FifoBuf::new(&mut sim, 1);
    let g1 = b.push(&mut sim, pkt(1));
    g1.callback(&mut sim, Action::Note { tag: 1 });
    let g2 = b.push(&mut sim, pkt(2));
    g2.callback(&mut sim, Action::Note { tag: 2 });
    sim.run(None);
    // Only the first push completed: the buffer is full.
    assert_eq!(sim.trace().len(), 1);
    assert_eq!(b.peek(&sim), Some(pkt(1)));
    b.pend(&mut sim);
    b.pop(&mut sim);
    sim.run(None);
    assert!(sim.fault().is_none());
    assert_eq!(sim.trace().len(), 2);
    assert_eq!(b.peek(&sim), Some(pkt(2)));
}

#[test]
fn fifobuf_capacity_zero_push_never_completes() {
    let mut sim = Simulation::new();
    let b = FifoBuf::new(&mut sim, 0);
    let g = b.push(&mut sim, pkt(5));
    g.callback(&mut sim, Action::Note { tag: 5 });
    sim.run(None);
    assert!(sim.fault().is_none());
    assert_eq!(sim.now(), 0);
    assert_eq!(sim.num_events(), 0);
    assert_eq!(sim.trace().len(), 0);
    assert!(b.empty(&sim));
}

#[test]
fn double_schedule_faults() {
    let mut sim = Simulation::new();
    let target = sim.event(Some(1));
    let ev = sim.event(Some(2));
    // When `ev` fires it tries to schedule `target`, which already fired.
    ev.callback(&mut sim, Action::Sched { ev: target, delay: 1 });
    sim.run(None);
    assert_eq!(sim.fault(), Some(Fault::ScheduleMisuse));
}

#[test]
fn bad_handle_faults() {
    let mut sim = Simulation::new();
    let ev = sim.event(Some(1));
    ev.callback(&mut sim, Action::Sched { ev: Event { id: 999 }, delay: 1 });
    sim.run(None);
    assert_eq!(sim.fault(), Some(Fault::BadHandle));
}

#[test]
fn clock_overflow_faults() {
    let mut sim = Simulation::new();
    let ev = sim.event(Some(5));
    let ev2 = sim.event(None);
    ev.callback(&mut sim, Action::Sched { ev: ev2, delay: u64::MAX });
    sim.run(None);
    assert_eq!(sim.fault(), Some(Fault::TimeOverflow));
    assert_eq!(sim.now(), 5);
}

#[test]
fn release_of_idle_resource_faults() {
    let mut sim = Simulation::new();
    let r = Resource::new(&mut sim, 1);
    let ev = sim.event(Some(1));
    ev.callback(&mut sim, Action::ResRelease { res: r });
    sim.run(None);
    assert_eq!(sim.fault(), Some(Fault::ReleaseUnderflow));
}

#[test]
fn enqueue_without_reservation_faults() {
    let mut sim = Simulation::new();
    let b = FifoBuf::new(&mut sim, 1);
    let ev = sim.event(Some(1));
    ev.callback(&mut sim, Action::BufEnqueue { buf: b, p: pkt(1) });
    sim.run(None);
    assert_eq!(sim.fault(), Some(Fault::EnqueueOverflow));
}

#[test]
fn pop_without_pend_faults() {
    let mut sim = Simulation::new();
    let b = FifoBuf::new(&mut sim, 1);
    let _g = b.push(&mut sim, pkt(1));
    let ev = sim.event(Some(1));
    ev.callback(&mut sim, Action::BufPop { buf: b });
    sim.run(None);
    assert_eq!(sim.fault(), Some(Fault::PopProtocol));
}

#[test]
fn lemma_bounds_hold_at_runtime() {
    // The proved bounds, observed on a live run: the resource count
    // never passes its capacity and a full buffer holds `cap` payloads.
    let mut sim = Simulation::new();
    let r = Resource::new(&mut sim, 3);
    for _ in 0..7 {
        let _ = r.acquire(&mut sim);
        assert!(r.val(&sim) <= 3);
    }
    sim.run(None);
    assert!(sim.fault().is_none());
    assert_eq!(r.val(&sim), 3);
}
