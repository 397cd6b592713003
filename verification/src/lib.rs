//! A function-detour library core for AArch64 and x86-64.
//!
//! The library rewrites the first bytes of a target function so calls are
//! diverted to a replacement, while a synthesized trampoline preserves the
//! original behaviour.  This crate holds the logic: position-independent
//! code emission, instruction classification and relocation, trampoline
//! synthesis, patch toggling, and proximity allocation.  Reading and writing
//! the raw bytes of a live process is left to the embedding program.
use vstd::prelude::*;

pub mod aarch64;
pub mod allocator;
pub mod error;
pub mod memory;
pub mod pic;
pub mod x86;

verus! {

} // verus!
