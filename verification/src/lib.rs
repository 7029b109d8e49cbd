//! A CHIP-8 virtual machine: registers, memory, call stack, timers, a
//! monochrome display and a sixteen-key keypad.
//!
//! `machine` says what the machine is and does, as functions on its state;
//! `cpu` holds the machine that runs, each of whose functions is proved to
//! do what `machine` says; `laws` holds what follows for every state.
//! `stack`, `display` and `keyboard` are the machine's parts, `fault` the
//! conditions on which it stops.

pub mod cpu;
pub mod display;
pub mod fault;
pub mod keyboard;
pub mod laws;
pub mod machine;
mod random;
pub mod stack;
