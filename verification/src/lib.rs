//! An interpreter for an 8-bit virtual machine: sixteen registers, 4 KiB of
//! memory, a call stack, a 64 x 32 monochrome frame buffer, two countdown
//! timers and a sixteen-key pad.

pub mod cpu;
pub mod display;
pub mod error;
pub mod font;
pub mod machine;
mod rng;
pub mod sprite;
pub mod stack;
pub mod theorems;
