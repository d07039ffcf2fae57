//! A virtual machine for an 8-bit microcomputer: sixteen byte registers, 4 KiB
//! of memory, a bounded call stack, a 64x32 one-bit display and sixteen keys.
//!
//! Every executable function carries a contract over the mathematical model
//! in [`model`], and one step of the engine is pinned down by [`model::step`].

pub mod error;
pub mod ram;
pub mod display;
pub mod keyboard;
pub mod model;
pub mod bus;
pub mod cpu;
pub mod chip8;
pub mod laws;
