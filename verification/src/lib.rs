//! A discrete-event simulator for hardware fabrics: a virtual-time event
//! kernel with deferred-resolution events, counted resources with FIFO
//! waiters, bounded FIFO buffers with a two-phase dequeue protocol, a
//! set-associative cache with Not-MRU replacement, and a 2-D mesh
//! network-on-chip router fabric using dimension-ordered (XY) routing.

pub mod cache;
pub mod fifobuf;
pub mod mesh;
pub mod resource;
pub mod sim;
