//! The prolog classifier.
//!
//! Given one 4-byte instruction word and the address it was fetched from,
//! [`decode_word`] extracts exactly the fields the trampoline builder
//! consumes: whether the instruction is PC-relative and must be relocated,
//! whether it terminates the prolog, and, for the relocatable forms, the
//! destination register and the absolute operand.
use crate::aarch64::encode::{
    field_imm12, field_imm14, field_imm19, field_imm21, field_imm26, field_rd, field_rn, is_adr,
    is_adrp, is_b, is_bcond, is_bl, is_br, is_cb, is_ldr_lit, is_ldr_lit_other, is_ldr_off,
    is_ret, is_tb, sext14, sext19, sext21, sext26, w_add,
};
use vstd::prelude::*;

verus! {

/// What one decoded instruction means to the trampoline builder.
#[derive(Clone, Copy, Debug, PartialEq, Eq, Structural)]
pub enum InsnKind {
    /// `ADR Xrd, target`, with the absolute target.
    Adr { rd: u32, target: u64 },
    /// `ADRP Xrd, target`, with the absolute page target.
    Adrp { rd: u32, target: u64 },
    /// 64-bit `LDR Xrt, target` literal load, with the absolute literal address.
    LdrLit { rt: u32, target: u64 },
    /// A PC-relative load this crate cannot relocate.
    LitOther,
    /// `LDR Xrt, [Xrn, #off]`, an ordinary scaled-offset load.
    LdrOff { rt: u32, rn: u32, off: u64 },
    /// Unconditional `B target`, with the absolute target.
    B { target: u64 },
    /// `BL`.  A relocated call cannot reproduce the link value the
    /// original would have left in `X30`, so the builder reports it
    /// unsupported rather than alter an observable register.
    Bl,
    /// A conditional branch `B.cond`, with the absolute target.
    CondBr { target: u64 },
    /// `CBZ`/`CBNZ`, with the absolute target.
    CmpBr { target: u64 },
    /// `TBZ`/`TBNZ`, with the absolute target.
    TstBr { target: u64 },
    /// `BR Xn`.
    Br,
    /// `RET Xn`.
    Ret,
    /// Anything else: position-independent, copied verbatim.
    Other,
}

/// One decoded instruction: its word, its address, and its meaning.
#[derive(Clone, Copy, Debug, PartialEq, Eq, Structural)]
pub struct Insn {
    /// The little-endian instruction word.
    pub word: u32,
    /// The address the word was fetched from.
    pub address: u64,
    /// What the word means to the builder.
    pub kind: InsnKind,
}

/// The meaning of `word` fetched from `address`.
pub open spec fn spec_classify(word: u32, address: u64) -> InsnKind {
    if is_adr(word) {
        if field_rd(word) < 31 {
            InsnKind::Adr { rd: field_rd(word), target: w_add(address, sext21(field_imm21(word))) }
        } else {
            InsnKind::Other
        }
    } else if is_adrp(word) {
        if field_rd(word) < 31 {
            InsnKind::Adrp {
                rd: field_rd(word),
                target: w_add(address & 0xFFFF_FFFF_FFFF_F000, sext21(field_imm21(word)) << 12),
            }
        } else {
            InsnKind::Other
        }
    } else if is_ldr_lit(word) {
        if field_rd(word) < 31 {
            InsnKind::LdrLit {
                rt: field_rd(word),
                target: w_add(address, sext19(field_imm19(word)) << 2),
            }
        } else {
            InsnKind::LitOther
        }
    } else if is_ldr_lit_other(word) {
        InsnKind::LitOther
    } else if is_ldr_off(word) {
        InsnKind::LdrOff {
            rt: field_rd(word),
            rn: field_rn(word),
            off: ((field_imm12(word) * 8) as u64),
        }
    } else if is_b(word) {
        InsnKind::B { target: w_add(address, sext26(field_imm26(word)) << 2) }
    } else if is_bl(word) {
        InsnKind::Bl
    } else if is_bcond(word) {
        InsnKind::CondBr { target: w_add(address, sext19(field_imm19(word)) << 2) }
    } else if is_cb(word) {
        InsnKind::CmpBr { target: w_add(address, sext19(field_imm19(word)) << 2) }
    } else if is_tb(word) {
        InsnKind::TstBr { target: w_add(address, sext14(field_imm14(word)) << 2) }
    } else if is_br(word) {
        InsnKind::Br
    } else if is_ret(word) {
        InsnKind::Ret
    } else {
        InsnKind::Other
    }
}

/// Does this instruction end the prolog?  `RET`, unconditional `B` and
/// `BR` never fall through.
pub open spec fn spec_ends_code(kind: InsnKind) -> bool {
    match kind {
        InsnKind::B { .. } => true,
        InsnKind::Br => true,
        InsnKind::Ret => true,
        _ => false,
    }
}

/// Decodes one instruction word fetched from `address`.
pub fn decode_word(word: u32, address: u64) -> (r: Insn)
    ensures
        r.word == word,
        r.address == address,
        r.kind == spec_classify(word, address),
{
    let kind: InsnKind = if word & 0x9F00_0000 == 0x1000_0000 {
        if word & 0x1F < 31 {
            InsnKind::Adr { rd: word & 0x1F, target: address.wrapping_add(sext21x(imm21x(word))) }
        } else {
            InsnKind::Other
        }
    } else if word & 0x9F00_0000 == 0x9000_0000 {
        if word & 0x1F < 31 {
            InsnKind::Adrp {
                rd: word & 0x1F,
                target: (address & 0xFFFF_FFFF_FFFF_F000).wrapping_add(
                    sext21x(imm21x(word)) << 12,
                ),
            }
        } else {
            InsnKind::Other
        }
    } else if word & 0xFF00_0000 == 0x5800_0000 {
        if word & 0x1F < 31 {
            InsnKind::LdrLit {
                rt: word & 0x1F,
                target: address.wrapping_add(sext19x(((word >> 5) & 0x7_FFFF) as u64) << 2),
            }
        } else {
            InsnKind::LitOther
        }
    } else if word & 0xFF00_0000 == 0x1800_0000 || word & 0xFF00_0000 == 0x9800_0000 || word
        & 0x3F00_0000 == 0x1C00_0000 {
        InsnKind::LitOther
    } else if word & 0xFFC0_0000 == 0xF940_0000 {
        InsnKind::LdrOff {
            rt: word & 0x1F,
            rn: (word >> 5) & 0x1F,
            off: (((word >> 10) & 0xFFF) as u64) * 8,
        }
    } else if word & 0xFC00_0000 == 0x1400_0000 {
        InsnKind::B {
            target: address.wrapping_add(sext26x(((word & 0x3FF_FFFF) as u64)) << 2),
        }
    } else if word & 0xFC00_0000 == 0x9400_0000 {
        InsnKind::Bl
    } else if word & 0xFF00_0010 == 0x5400_0000 {
        InsnKind::CondBr {
            target: address.wrapping_add(sext19x(((word >> 5) & 0x7_FFFF) as u64) << 2),
        }
    } else if word & 0x7E00_0000 == 0x3400_0000 {
        InsnKind::CmpBr {
            target: address.wrapping_add(sext19x(((word >> 5) & 0x7_FFFF) as u64) << 2),
        }
    } else if word & 0x7E00_0000 == 0x3600_0000 {
        InsnKind::TstBr {
            target: address.wrapping_add(sext14x(((word >> 5) & 0x3FFF) as u64) << 2),
        }
    } else if word & 0xFFFF_FC1F == 0xD61F_0000 {
        InsnKind::Br
    } else if word & 0xFFFF_FC1F == 0xD65F_0000 {
        InsnKind::Ret
    } else {
        InsnKind::Other
    };
    assert(((field_imm12(word) * 8) as u64) == (((word >> 10) & 0xFFF) as u64) * 8) by (bit_vector);
    Insn { word, address, kind }
}

/// The 21-bit `ADR`/`ADRP` immediate of `word`.
fn imm21x(word: u32) -> (r: u64)
    ensures
        r == field_imm21(word),
{
    ((((word >> 29) & 3) | (((word >> 5) & 0x7_FFFF) << 2)) as u64)
}

/// Executable mirror of [`sext21`].
fn sext21x(x: u64) -> (r: u64)
    ensures
        r == sext21(x),
{
    if x & 0x10_0000 != 0 {
        (x & 0x1F_FFFF) | 0xFFFF_FFFF_FFE0_0000
    } else {
        x & 0xF_FFFF
    }
}

/// Executable mirror of [`sext19`].
fn sext19x(x: u64) -> (r: u64)
    ensures
        r == sext19(x),
{
    if x & 0x4_0000 != 0 {
        (x & 0x7_FFFF) | 0xFFFF_FFFF_FFF8_0000
    } else {
        x & 0x3_FFFF
    }
}

/// Executable mirror of [`sext14`].
fn sext14x(x: u64) -> (r: u64)
    ensures
        r == sext14(x),
{
    if x & 0x2000 != 0 {
        (x & 0x3FFF) | 0xFFFF_FFFF_FFFF_C000
    } else {
        x & 0x1FFF
    }
}

/// Executable mirror of [`sext26`].
fn sext26x(x: u64) -> (r: u64)
    ensures
        r == sext26(x),
{
    if x & 0x200_0000 != 0 {
        (x & 0x3FF_FFFF) | 0xFFFF_FFFF_FC00_0000
    } else {
        x & 0x1FF_FFFF
    }
}

} // verus!
