//! x86-64 code fragments.
use crate::pic::{le8, push_qword, Thunk};
use vstd::prelude::*;

verus! {

/// The byte length of `JMP rel32`: one opcode byte and a 32-bit
/// displacement.
pub const JMP_REL_SIZE: usize = 5;

/// The bytes of `JMP [RIP+0]` followed by the absolute target: a
/// position-independent jump to `target`, fourteen bytes.
pub open spec fn spec_jmp_abs(target: u64) -> Seq<u8> {
    seq![0xFFu8, 0x25u8, 0u8, 0u8, 0u8, 0u8] + le8(target)
}

/// An absolute jump to `target`: `JMP [RIP+0]` reading the eight bytes
/// placed right behind it.  The same bytes at every destination.
pub fn jmp(target: u64) -> (t: Thunk)
    ensures
        t matches Thunk::Static(v) && v@ == spec_jmp_abs(target),
        t.length() == 14,
{
    let mut v: Vec<u8> = Vec::new();
    v.push(0xFF);
    v.push(0x25);
    v.push(0);
    v.push(0);
    v.push(0);
    v.push(0);
    push_qword(&mut v, target);
    assert(v@ =~= spec_jmp_abs(target));
    Thunk::Static(v)
}

} // verus!
