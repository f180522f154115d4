use fabricsim::sim::{Fault, Simulation};
use fabricsim::mesh::{Direction, Mesh, Packet, RoundRobinArbiter};

#[test]
fn direction_flip_is_an_involution() {
    let dirs = [
        Direction::North,
        Direction::East,
        Direction::South,
        Direction::West,
        Direction::Inject,
        Direction::Eject,
    ];
    for d in dirs {
        assert_eq!(Direction::flip(Direction::flip(d)), d);
    }
    assert_eq!(Direction::flip(Direction::North), Direction::South);
    assert_eq!(Direction::flip(Direction::East), Direction::West);
    assert_eq!(Direction::flip(Direction::Inject), Direction::Eject);
}

#[test]
fn arbiter_cycles_over_five_inputs() {
    let mut a = RoundRobinArbiter::new(5);
    assert_eq!(a.get(), 0);
    for expect in [1, 2, 3, 4, 0, 1] {
        a.inc();
        assert_eq!(a.get(), expect);
    }
}

#[test]
fn single_cell_mesh_ejects_injected_packet() {
    // A 1x1 mesh: a packet injected for (0,0) is ejected there after
    // one proc tick plus the link delay.
    let mut sim = Simulation::new();
    let m = Mesh::new(&mut sim, (1, 1), 4, 1);
    let r = m.get_router(0, 0);
    r.receive(&mut sim, Direction::Inject, Packet { dest: (0, 0), payload: 7 });
    sim.run(None);
    assert!(sim.fault().is_none());
    assert_eq!(r.sent(&sim), 1);
    assert_eq!(r.received(&sim), 1);
    assert_eq!(sim.now(), 2);
}

#[test]
fn xy_routing_crosses_a_2x2_mesh() {
    // Inject at (0,0) destined for (1,1): east to (0,1), then north to
    // (1,1), where it is ejected.
    let mut sim = Simulation::new();
    let m = Mesh::new(&mut sim, (2, 2), 4, 1);
    let src = m.get_router(0, 0);
    let dst = m.get_router(1, 1);
    src.receive(&mut sim, Direction::Inject, Packet { dest: (1, 1), payload: 42 });
    sim.run(None);
    assert!(sim.fault().is_none());
    assert_eq!(src.sent(&sim), 1);
    assert_eq!(src.received(&sim), 0);
    assert_eq!(dst.received(&sim), 1);
    assert_eq!(m.get_router(0, 1).received(&sim), 0);
    assert_eq!(m.get_router(1, 0).received(&sim), 0);
}

#[test]
fn backpressure_delivers_all_packets() {
    // A 2x1 column with single-slot input buffers: ten packets injected
    // at (0,0) for (1,0) all arrive despite the narrow path.
    let mut sim = Simulation::new();
    let m = Mesh::new(&mut sim, (2, 1), 1, 1);
    let src = m.get_router(0, 0);
    let dst = m.get_router(1, 0);
    for i in 0..10 {
        src.receive(&mut sim, Direction::Inject, Packet { dest: (1, 0), payload: i });
    }
    sim.run(None);
    assert!(sim.fault().is_none());
    assert_eq!(src.sent(&sim), 10);
    assert_eq!(dst.received(&sim), 10);
}

#[test]
fn fair_arbitration_delivers_both_directions() {
    // A 1x3 row; the two ends exchange one packet each at the same
    // instant.  Both arrive; neither starves the other.
    let mut sim = Simulation::new();
    let m = Mesh::new(&mut sim, (1, 3), 2, 1);
    let left = m.get_router(0, 0);
    let right = m.get_router(0, 2);
    left.receive(&mut sim, Direction::Inject, Packet { dest: (0, 2), payload: 1 });
    right.receive(&mut sim, Direction::Inject, Packet { dest: (0, 0), payload: 2 });
    sim.run(None);
    assert!(sim.fault().is_none());
    assert_eq!(left.sent(&sim), 1);
    assert_eq!(right.sent(&sim), 1);
    assert_eq!(left.received(&sim), 1);
    assert_eq!(right.received(&sim), 1);
}

#[test]
fn sent_equals_received_at_quiescence() {
    // Conservation across a mesh: once the run drains, every packet
    // accepted on an Inject port has been ejected somewhere.
    let mut sim = Simulation::new();
    let m = Mesh::new(&mut sim, (3, 3), 2, 1);
    let mut tag: u64 = 0;
    for r in 0..3u32 {
        for c in 0..3u32 {
            let h = m.get_router(r, c);
            h.receive(
                &mut sim,
                Direction::Inject,
                Packet { dest: (2 - r, (c + 1) % 3), payload: tag },
            );
            tag += 1;
        }
    }
    sim.run(None);
    assert!(sim.fault().is_none());
    let mut sent: u64 = 0;
    let mut received: u64 = 0;
    for r in 0..3u32 {
        for c in 0..3u32 {
            let h = m.get_router(r, c);
            sent += h.sent(&sim);
            received += h.received(&sim);
        }
    }
    assert_eq!(sent, 9);
    assert_eq!(received, 9);
}

#[test]
fn missing_neighbor_faults() {
    // A packet routed off the edge of a 1x1 mesh has no neighbor to go
    // to: the run halts with a diagnostic instead of losing it.
    let mut sim = Simulation::new();
    let m = Mesh::new(&mut sim, (1, 1), 2, 1);
    let r = m.get_router(0, 0);
    r.receive(&mut sim, Direction::Inject, Packet { dest: (0, 5), payload: 1 });
    sim.run(None);
    assert_eq!(sim.fault(), Some(Fault::MissingNeighbor));
}
