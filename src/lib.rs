//! Interpreter core for a small 8-bit virtual machine with a 64x32 monochrome screen,
//! sixteen keys, 4 KiB of memory and two countdown timers.
use vstd::prelude::*;

pub mod cpu;
pub mod laws;
pub mod lemmas;
pub mod model;

pub use cpu::Cpu;
pub use model::CpuError;

verus! {

} // verus!
