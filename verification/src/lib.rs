//! NROS: a deterministic robotics middleware stack, with its message-passing core,
//! wire format, scheduling and bookkeeping logic specified and proved with Verus.
use vstd::prelude::*;

pub mod ring;
pub mod clock;
pub mod types;
pub mod wire;
pub mod transport;
pub mod distributed;
pub mod robot_order;
pub mod hal;
pub mod node;
pub mod cli;
pub mod text;
pub mod studio;
pub mod probe;
pub mod bench;
pub mod sim;
pub mod zero_copy;
pub mod representation;
