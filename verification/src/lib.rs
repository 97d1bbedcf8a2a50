//! A virtual machine for an 8-bit computer of the CHIP-8 class.
//!
//! The crate holds the machine state (memory, registers, call stack), the
//! instruction decoder and the executor, the delay-timer model and the sprite
//! drawing logic. Every executable function carries a contract over a
//! mathematical view of the state; the surrounding program performs the
//! window, clock and thread work that the returned effects ask for.

pub mod decode;
pub mod display;
pub mod interpreter;
pub mod laws;
pub mod machine;
pub mod options;
mod random;
pub mod text;
pub mod timer;
