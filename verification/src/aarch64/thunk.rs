//! Constructors for the AArch64 relocation thunks.
//!
//! Each generator turns one classified instruction, or one absolute
//! operand, into a [`Thunk`] whose faithfulness is proved in the
//! relocation lemmas.
use crate::aarch64::decode::{Insn, InsnKind};
use crate::error::Error;
use crate::pic::{movk_words, words_bytes, Thunk};
use vstd::prelude::*;

verus! {

/// A branch to the absolute address `target`: `LDR X17, #8; BR X17`
/// followed by the 8-byte literal.  Sixteen bytes.
pub fn gen_jmp_immediate(target: u64) -> (t: Thunk)
    ensures
        t == (Thunk::JmpImmediate { target }),
{
    Thunk::JmpImmediate { target }
}

/// A branch to the address stored at `detour_value`: `ADRP`/`LDR`/`BR`
/// through `X17`.  Twelve bytes, the inline hook sequence.
pub fn gen_jmp_indirect(detour_value: u64) -> (t: Thunk)
    ensures
        t == (Thunk::JmpIndirect { value_addr: detour_value }),
{
    Thunk::JmpIndirect { value_addr: detour_value }
}

/// The relocation thunk for a classified `ADR`.
pub fn gen_adr(instruction: &Insn) -> (r: Result<Thunk, Error>)
    ensures
        (r matches Ok(t) && instruction.kind matches InsnKind::Adr { rd, target } && t == (
        Thunk::Adr { rd, target })) || (r matches Err(e) && e == Error::UnsupportedInstruction
            && !(instruction.kind matches InsnKind::Adr { .. })),
{
    match instruction.kind {
        InsnKind::Adr { rd, target } => Ok(Thunk::Adr { rd, target }),
        _ => Err(Error::UnsupportedInstruction),
    }
}

/// The relocation thunk for a classified `ADRP`.
pub fn gen_adrp(instruction: &Insn) -> (r: Result<Thunk, Error>)
    ensures
        (r matches Ok(t) && instruction.kind matches InsnKind::Adrp { rd, target } && t == (
        Thunk::Adrp { rd, target })) || (r matches Err(e) && e == Error::UnsupportedInstruction
            && !(instruction.kind matches InsnKind::Adrp { .. })),
{
    match instruction.kind {
        InsnKind::Adrp { rd, target } => Ok(Thunk::Adrp { rd, target }),
        _ => Err(Error::UnsupportedInstruction),
    }
}

/// The relocation thunk for a classified 64-bit `LDR` literal.
pub fn gen_ldr_literal(instruction: &Insn) -> (r: Result<Thunk, Error>)
    ensures
        (r matches Ok(t) && instruction.kind matches InsnKind::LdrLit { rt, target } && t == (
        Thunk::LdrLit { rt, target })) || (r matches Err(e) && e
            == Error::UnsupportedInstruction && !(instruction.kind matches InsnKind::LdrLit {
            ..
        })),
{
    match instruction.kind {
        InsnKind::LdrLit { rt, target } => Ok(Thunk::LdrLit { rt, target }),
        _ => Err(Error::UnsupportedInstruction),
    }
}

/// The four `MOVK` words that place `value` in `Xreg`, as bytes.
pub fn gen_mov_64(reg: u32, value: u64) -> (r: Vec<u8>)
    requires
        reg < 31,
    ensures
        r@ == words_bytes(movk_words(reg, value)),
        r@.len() == 16,
{
    let mut out: Vec<u8> = Vec::new();
    crate::pic::push_movk_chain(&mut out, reg, value);
    proof {
        crate::pic::lemma_words_bytes_len(movk_words(reg, value));
    }
    out
}

/// The signed range reachable with `bits` immediate bits: a value `d` is in
/// range when `r.0 <= d < r.1`, that is `-(1 << bits) <= d < (1 << bits)`.
pub fn bit_range(bits: u32) -> (r: (i64, i64))
    requires
        0 < bits < 63,
    ensures
        r.1 == (1u64 << bits) as i64,
        r.0 == -r.1,
        r.1 > 0,
{
    assert(1u64 << bits >= 1 && 1u64 << bits <= 0x4000_0000_0000_0000) by (bit_vector)
        requires
            0 < bits < 63,
    ;
    let hi: i64 = (1u64 << bits) as i64;
    (-hi, hi)
}

} // verus!
