//! x86-64 architecture constants and helpers.
use crate::error::Error;
use crate::pic::{le8, total_len, CodeEmitter, Thunk};
use crate::x86::thunk::{jmp, spec_jmp_abs, JMP_REL_SIZE};
use vstd::prelude::*;

verus! {

/// The furthest distance between a target and its detour (2 GiB).
pub const DETOUR_RANGE: usize = 0x8000_0000;

/// Alignment of emitted code and relay slots.
pub const ALIGNMENT: usize = 8;

/// The preferred prolog size for a target: the five bytes of `JMP rel32`.
pub fn prolog_margin(_target: u64) -> (r: usize)
    ensures
        r == JMP_REL_SIZE,
{
    JMP_REL_SIZE
}

/// x86 import stubs need no skipping; the target is returned unchanged.
pub fn skip_jmps(target: u64) -> (r: u64)
    ensures
        r == target,
{
    target
}

/// Can a 32-bit relative branch span the signed displacement `disp`?
pub open spec fn spec_within_range(disp: i64) -> bool {
    -0x8000_0000 <= disp <= 0x7FFF_FFFF
}

/// Decides [`spec_within_range`].
pub fn is_within_range(disp: i64) -> (r: bool)
    ensures
        r == spec_within_range(disp),
{
    -0x8000_0000 <= disp && disp <= 0x7FFF_FFFF
}

/// The signed displacement between a target and its detour.
pub open spec fn spec_displacement(target: u64, detour: u64) -> i64 {
    crate::aarch64::encode::w_sub(target, detour) as i64
}

/// Builds the relay required for detours farther than 2 GiB: an absolute
/// jump to the detour, placed in proximity memory, which the inline
/// `JMP [RIP+disp]` sequence reaches.  Within 2 GiB no relay is needed and
/// the inline `JMP rel32` is used instead.
pub fn relay_builder(target: u64, detour: u64) -> (r: Result<Option<CodeEmitter>, Error>)
    ensures
        r matches Ok(o) && (o is Some <==> !spec_within_range(spec_displacement(target, detour))),
        r matches Ok(o) && (o matches Some(e) ==> e.thunks@.len() == 1 && (e.thunks@[0] matches
            Thunk::Static(v) && v@ == spec_jmp_abs(detour)) && total_len(e.thunks@) == 14),
{
    let displacement: i64 = target.wrapping_sub(detour) as i64;
    if !is_within_range(displacement) {
        let mut emitter = CodeEmitter::new();
        emitter.add_thunk(jmp(detour));
        proof {
            assert(emitter.thunks@.drop_last() =~= Seq::<Thunk>::empty());
        }
        Ok(Some(emitter))
    } else {
        Ok(None)
    }
}

} // verus!
