//! Code generation rules and example task logic of an RTICX distribution for
//! the dual-core RP2040.

pub mod attr;
pub mod backend;
pub mod core1_stack;
pub mod info_bus;
pub mod irq;
pub mod laws;
pub mod model;
pub mod multitasker;
pub mod passes;
pub mod ping_pong;
pub mod spawn;
pub mod text;
