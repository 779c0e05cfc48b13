//! A verified CHIP-8 virtual machine: machine state, fetch-decode-execute,
//! and the semantics of every instruction, stated over a mathematical view
//! of the machine and proved against it.

pub mod decode;
pub mod emu;
pub mod laws;
pub mod ophandlers;
mod rng;
pub mod semantics;
pub mod state;
