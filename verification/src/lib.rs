//! Discrete-event model of an Energy-Efficient-Ethernet switch port.
//!
//! A port driven by a trace of packet arrivals moves between four power
//! states (off, waking up, on, sleeping down).  The [`switch`] module holds
//! the state machine and the packet queue; the [`simulator`] module drives
//! it event by event over an arrival trace and accounts for the time spent
//! in each state.

pub mod simulator;
pub mod stats;
pub mod switch;
