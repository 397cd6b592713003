//! AArch64 back end: instruction encodings, a small step semantics,
//! the prolog classifier, relocation thunks, trampoline synthesis and
//! the inline patcher.
use vstd::prelude::*;

pub mod decode;
pub mod encode;
pub mod meta;
pub mod patcher;
pub mod reloc;
pub mod sem;
pub mod thunk;
pub mod trampoline;

verus! {

} // verus!
