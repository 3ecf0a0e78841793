//! What the functions of the library are for: laws on every result that their
//! contracts admit, and on how the results of several calls relate.

pub mod backend;
pub mod binding;
pub mod core1_stack;
pub mod definitions;
pub mod multitasker;
pub mod passes;
pub mod ping_pong;
pub mod spawn;
pub mod text;
