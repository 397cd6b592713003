//! x86-64 back end: architecture constants, the relay builder, and the
//! absolute-jump thunk the relay holds.
use vstd::prelude::*;

pub mod meta;
pub mod thunk;

verus! {

} // verus!
