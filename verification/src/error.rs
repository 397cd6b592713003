//! Error taxonomy of the detour core.
use vstd::prelude::*;

verus! {

/// Everything that can go wrong while building or toggling a detour.
///
/// All errors are surfaced from construction or toggling; a failed
/// operation leaves the target untouched.
#[derive(Clone, Copy, Debug, PartialEq, Eq, Structural)]
pub enum Error {
    /// The decoder rejected bytes inside the prolog window.
    InvalidCode,
    /// The classifier cannot relocate an instruction that the prolog needs.
    UnsupportedInstruction,
    /// The proximity allocator exhausted its search window.
    OutOfMemory,
    /// A page-protection change failed.
    OsProtection,
    /// A computed displacement cannot be expressed in any available encoding.
    RangeExceeded,
}

} // verus!
