//! Bit-level encodings of the AArch64 instructions this crate emits or
//! inspects, together with the field extractors and the sign-extension
//! helpers that the classifier and the relocation proofs share.
//!
//! Every encoder is a pure function of its fields; the companion lemmas
//! show that the extractors recover exactly the encoded fields.
use vstd::prelude::*;

verus! {

/// The canonical AArch64 NOP word, used to pad relocation thunks.
pub const NOP_WORD: u32 = 0xD503201F;

// ---------------------------------------------------------------------------
// Wrapping 64-bit arithmetic, the arithmetic of machine addresses.
// ---------------------------------------------------------------------------

/// Addition modulo 2^64.
pub open spec fn w_add(x: u64, y: u64) -> u64 {
    vstd::wrapping::u64_specs::wrapping_add(x, y)
}

/// Subtraction modulo 2^64.
pub open spec fn w_sub(x: u64, y: u64) -> u64 {
    vstd::wrapping::u64_specs::wrapping_sub(x, y)
}

// ---------------------------------------------------------------------------
// Sign extension of the immediate fields.
// ---------------------------------------------------------------------------

/// Sign-extends the low 21 bits of `x` to 64 bits.
pub open spec fn sext21(x: u64) -> u64 {
    if x & 0x10_0000 != 0 {
        (x & 0x1F_FFFF) | 0xFFFF_FFFF_FFE0_0000
    } else {
        x & 0xF_FFFF
    }
}

/// Sign-extends the low 19 bits of `x` to 64 bits.
pub open spec fn sext19(x: u64) -> u64 {
    if x & 0x4_0000 != 0 {
        (x & 0x7_FFFF) | 0xFFFF_FFFF_FFF8_0000
    } else {
        x & 0x3_FFFF
    }
}

/// Sign-extends the low 26 bits of `x` to 64 bits.
pub open spec fn sext26(x: u64) -> u64 {
    if x & 0x200_0000 != 0 {
        (x & 0x3FF_FFFF) | 0xFFFF_FFFF_FC00_0000
    } else {
        x & 0x1FF_FFFF
    }
}

/// Does the wrapped difference `d` denote a signed offset in [-2^20, 2^20)?
pub open spec fn fits_simm21(d: u64) -> bool {
    d < 0x10_0000 || d >= 0xFFFF_FFFF_FFF0_0000
}

/// Does `d` denote a 4-byte aligned signed offset in [-2^20, 2^20),
/// the reach of a 64-bit `LDR` literal?
pub open spec fn fits_ldr_lit(d: u64) -> bool {
    d % 4 == 0 && (d < 0x10_0000 || d >= 0xFFFF_FFFF_FFF0_0000)
}

/// Does `d` denote a 4-byte aligned signed offset in [-2^20, 2^20),
/// the reach of a 19-bit branch immediate?
pub open spec fn fits_b19(d: u64) -> bool {
    d % 4 == 0 && (d < 0x10_0000 || d >= 0xFFFF_FFFF_FFF0_0000)
}

/// Does `d` denote a 4-byte aligned signed offset in [-2^15, 2^15),
/// the reach of a 14-bit branch immediate?
pub open spec fn fits_b14(d: u64) -> bool {
    d % 4 == 0 && (d < 0x8000 || d >= 0xFFFF_FFFF_FFFF_8000)
}

/// Sign-extends the low 14 bits of `x` to 64 bits.
pub open spec fn sext14(x: u64) -> u64 {
    if x & 0x2000 != 0 {
        (x & 0x3FFF) | 0xFFFF_FFFF_FFFF_C000
    } else {
        x & 0x1FFF
    }
}

/// The 14-bit immediate field of `TBZ`/`TBNZ`, bits 18:5.
pub open spec fn field_imm14(w: u32) -> u64 {
    (((w >> 5) & 0x3FFF) as u64)
}

/// Replaces the 19-bit immediate field, keeping every other bit.
pub open spec fn spec_reenc19(w: u32, off: u64) -> u32 {
    (w & 0xFF00_001F) | ((((off >> 2) as u32) & 0x7_FFFF) << 5)
}

/// Replaces the 14-bit immediate field, keeping every other bit.
pub open spec fn spec_reenc14(w: u32, off: u64) -> u32 {
    (w & 0xFFF8_001F) | ((((off >> 2) as u32) & 0x3FFF) << 5)
}

/// Inverts the sense of a conditional branch: the low condition bit for
/// `B.cond`, the zero/set bit for `CBZ`/`CBNZ` and `TBZ`/`TBNZ`.
pub open spec fn spec_invert(w: u32) -> u32 {
    if is_bcond(w) {
        w ^ 1
    } else {
        w ^ 0x0100_0000
    }
}

// ---------------------------------------------------------------------------
// Encoders.  Each returns the 32-bit instruction word.
// ---------------------------------------------------------------------------

/// `ADR Xd, .+off` where `off` is the low 21 bits of the byte offset.
pub open spec fn spec_enc_adr(rd: u32, off21: u64) -> u32 {
    0x1000_0000u32 | (((off21 as u32) & 3) << 29) | ((((off21 >> 2) as u32) & 0x7_FFFF) << 5)
        | (rd & 0x1F)
}

/// `ADRP Xd, .+(off << 12)` where `off21` is the low 21 bits of the page offset.
pub open spec fn spec_enc_adrp(rd: u32, off21: u64) -> u32 {
    0x9000_0000u32 | (((off21 as u32) & 3) << 29) | ((((off21 >> 2) as u32) & 0x7_FFFF) << 5)
        | (rd & 0x1F)
}

/// `ADD Xd, Xn, #imm12` (64-bit, no shift).
pub open spec fn spec_enc_add_imm(rd: u32, rn: u32, imm12: u32) -> u32 {
    0x9100_0000u32 | ((imm12 & 0xFFF) << 10) | ((rn & 0x1F) << 5) | (rd & 0x1F)
}

/// `MOVK Xd, #imm16, LSL #(16*hw)`.
pub open spec fn spec_enc_movk(rd: u32, imm16: u32, hw: u32) -> u32 {
    0xF280_0000u32 | ((hw & 3) << 21) | ((imm16 & 0xFFFF) << 5) | (rd & 0x1F)
}

/// `LDR Xt, .+(imm19 << 2)` (64-bit literal load).
pub open spec fn spec_enc_ldr_lit(rt: u32, imm19: u32) -> u32 {
    0x5800_0000u32 | ((imm19 & 0x7_FFFF) << 5) | (rt & 0x1F)
}

/// `LDR Xt, [Xn, #imm12*8]` (64-bit unsigned offset load).
pub open spec fn spec_enc_ldr_off(rt: u32, rn: u32, imm12: u32) -> u32 {
    0xF940_0000u32 | ((imm12 & 0xFFF) << 10) | ((rn & 0x1F) << 5) | (rt & 0x1F)
}

/// `BR Xn`.
pub open spec fn spec_enc_br(rn: u32) -> u32 {
    0xD61F_0000u32 | ((rn & 0x1F) << 5)
}

// ---------------------------------------------------------------------------
// Executable encoders and range tests, mirrors of the spec functions.
// ---------------------------------------------------------------------------

/// Builds an `ADR` word.
pub fn enc_adr(rd: u32, off21: u64) -> (r: u32)
    ensures
        r == spec_enc_adr(rd, off21),
{
    0x1000_0000u32 | (((off21 as u32) & 3) << 29) | ((((off21 >> 2) as u32) & 0x7_FFFF) << 5) | (rd
        & 0x1F)
}

/// Builds an `ADRP` word.
pub fn enc_adrp(rd: u32, off21: u64) -> (r: u32)
    ensures
        r == spec_enc_adrp(rd, off21),
{
    0x9000_0000u32 | (((off21 as u32) & 3) << 29) | ((((off21 >> 2) as u32) & 0x7_FFFF) << 5) | (rd
        & 0x1F)
}

/// Builds an `ADD` immediate word.
pub fn enc_add_imm(rd: u32, rn: u32, imm12: u32) -> (r: u32)
    ensures
        r == spec_enc_add_imm(rd, rn, imm12),
{
    0x9100_0000u32 | ((imm12 & 0xFFF) << 10) | ((rn & 0x1F) << 5) | (rd & 0x1F)
}

/// Builds a `MOVK` word.
pub fn enc_movk(rd: u32, imm16: u32, hw: u32) -> (r: u32)
    ensures
        r == spec_enc_movk(rd, imm16, hw),
{
    0xF280_0000u32 | ((hw & 3) << 21) | ((imm16 & 0xFFFF) << 5) | (rd & 0x1F)
}

/// Builds a 64-bit `LDR` literal word.
pub fn enc_ldr_lit(rt: u32, imm19: u32) -> (r: u32)
    ensures
        r == spec_enc_ldr_lit(rt, imm19),
{
    0x5800_0000u32 | ((imm19 & 0x7_FFFF) << 5) | (rt & 0x1F)
}

/// Builds a 64-bit offset `LDR` word.
pub fn enc_ldr_off(rt: u32, rn: u32, imm12: u32) -> (r: u32)
    ensures
        r == spec_enc_ldr_off(rt, rn, imm12),
{
    0xF940_0000u32 | ((imm12 & 0xFFF) << 10) | ((rn & 0x1F) << 5) | (rt & 0x1F)
}

/// Builds a `BR` word.
pub fn enc_br(rn: u32) -> (r: u32)
    ensures
        r == spec_enc_br(rn),
{
    0xD61F_0000u32 | ((rn & 0x1F) << 5)
}

/// Decides [`fits_simm21`] on a wrapped difference.
pub fn check_simm21(d: u64) -> (r: bool)
    ensures
        r == fits_simm21(d),
{
    d < 0x10_0000 || d >= 0xFFFF_FFFF_FFF0_0000
}

/// Decides [`fits_ldr_lit`] on a wrapped difference.
pub fn check_ldr_lit(d: u64) -> (r: bool)
    ensures
        r == fits_ldr_lit(d),
{
    d % 4 == 0 && (d < 0x10_0000 || d >= 0xFFFF_FFFF_FFF0_0000)
}

/// Decides [`fits_b19`] on a wrapped difference.
pub fn check_b19(d: u64) -> (r: bool)
    ensures
        r == fits_b19(d),
{
    d % 4 == 0 && (d < 0x10_0000 || d >= 0xFFFF_FFFF_FFF0_0000)
}

/// Decides [`fits_b14`] on a wrapped difference.
pub fn check_b14(d: u64) -> (r: bool)
    ensures
        r == fits_b14(d),
{
    d % 4 == 0 && (d < 0x8000 || d >= 0xFFFF_FFFF_FFFF_8000)
}

/// Replaces the 19-bit immediate field, keeping every other bit.
pub fn reenc19(w: u32, off: u64) -> (r: u32)
    ensures
        r == spec_reenc19(w, off),
{
    (w & 0xFF00_001F) | ((((off >> 2) as u32) & 0x7_FFFF) << 5)
}

/// Replaces the 14-bit immediate field, keeping every other bit.
pub fn reenc14(w: u32, off: u64) -> (r: u32)
    ensures
        r == spec_reenc14(w, off),
{
    (w & 0xFFF8_001F) | ((((off >> 2) as u32) & 0x3FFF) << 5)
}

/// Inverts the sense of a conditional branch word.
pub fn invert_branch(w: u32) -> (r: u32)
    ensures
        r == spec_invert(w),
{
    if w & 0xFF00_0010 == 0x5400_0000 {
        w ^ 1
    } else {
        w ^ 0x0100_0000
    }
}

// ---------------------------------------------------------------------------
// Class predicates and field extractors, shared by the classifier and by
// the step semantics.  The predicates are exclusive by construction of the
// architecture's top-level opcode space.
// ---------------------------------------------------------------------------

/// `ADR`.
pub open spec fn is_adr(w: u32) -> bool {
    w & 0x9F00_0000 == 0x1000_0000
}

/// `ADRP`.
pub open spec fn is_adrp(w: u32) -> bool {
    w & 0x9F00_0000 == 0x9000_0000
}

/// Destination register of `ADR`/`ADRP`, and of most other instructions.
pub open spec fn field_rd(w: u32) -> u32 {
    w & 0x1F
}

/// The 21-bit immediate of `ADR`/`ADRP`: `immlo` bits 30:29, `immhi` bits 23:5.
pub open spec fn field_imm21(w: u32) -> u64 {
    ((((w >> 29) & 3) | (((w >> 5) & 0x7_FFFF) << 2)) as u64)
}

/// `ADD Xd, Xn, #imm12` without shift (64-bit).
pub open spec fn is_add_imm(w: u32) -> bool {
    w & 0xFFC0_0000 == 0x9100_0000
}

/// First source register field, bits 9:5.
pub open spec fn field_rn(w: u32) -> u32 {
    (w >> 5) & 0x1F
}

/// The 12-bit immediate field, bits 21:10.
pub open spec fn field_imm12(w: u32) -> u32 {
    (w >> 10) & 0xFFF
}

/// `MOVK Xd, #imm16, LSL #(16*hw)` (64-bit).
pub open spec fn is_movk(w: u32) -> bool {
    w & 0xFF80_0000 == 0xF280_0000
}

/// The 16-bit immediate of `MOVK`, bits 20:5.
pub open spec fn field_imm16(w: u32) -> u32 {
    (w >> 5) & 0xFFFF
}

/// The half-word selector of `MOVK`, bits 22:21.
pub open spec fn field_hw(w: u32) -> u32 {
    (w >> 21) & 3
}

/// 64-bit `LDR` literal.
pub open spec fn is_ldr_lit(w: u32) -> bool {
    w & 0xFF00_0000 == 0x5800_0000
}

/// A PC-relative load this crate cannot relocate: 32-bit `LDR` literal,
/// `LDRSW` literal, or a SIMD literal load.
pub open spec fn is_ldr_lit_other(w: u32) -> bool {
    w & 0xFF00_0000 == 0x1800_0000 || w & 0xFF00_0000 == 0x9800_0000 || w & 0x3F00_0000
        == 0x1C00_0000
}

/// The 19-bit immediate field, bits 23:5.
pub open spec fn field_imm19(w: u32) -> u64 {
    (((w >> 5) & 0x7_FFFF) as u64)
}

/// 64-bit `LDR` with unsigned scaled offset.
pub open spec fn is_ldr_off(w: u32) -> bool {
    w & 0xFFC0_0000 == 0xF940_0000
}

/// Unconditional `B`.
pub open spec fn is_b(w: u32) -> bool {
    w & 0xFC00_0000 == 0x1400_0000
}

/// `BL`.
pub open spec fn is_bl(w: u32) -> bool {
    w & 0xFC00_0000 == 0x9400_0000
}

/// The 26-bit immediate of `B`/`BL`, bits 25:0.
pub open spec fn field_imm26(w: u32) -> u64 {
    ((w & 0x3FF_FFFF) as u64)
}

/// Conditional branch `B.cond` (all sixteen conditions).
pub open spec fn is_bcond(w: u32) -> bool {
    w & 0xFF00_0010 == 0x5400_0000
}

/// `CBZ`/`CBNZ`, either register width.
pub open spec fn is_cb(w: u32) -> bool {
    w & 0x7E00_0000 == 0x3400_0000
}

/// `TBZ`/`TBNZ`.
pub open spec fn is_tb(w: u32) -> bool {
    w & 0x7E00_0000 == 0x3600_0000
}

/// `BR Xn`.
pub open spec fn is_br(w: u32) -> bool {
    w & 0xFFFF_FC1F == 0xD61F_0000
}

/// `RET Xn`.
pub open spec fn is_ret(w: u32) -> bool {
    w & 0xFFFF_FC1F == 0xD65F_0000
}

/// NOP.
pub open spec fn is_nop(w: u32) -> bool {
    w == 0xD503_201F
}

// ---------------------------------------------------------------------------
// Round-trip lemmas: the extractors recover the encoded fields, and each
// encoded word falls in exactly the intended class.
// ---------------------------------------------------------------------------

/// An `ADR` word is classified as such and its fields are recovered.
pub proof fn lemma_adr_fields(rd: u32, off21: u64)
    by (bit_vector)
    requires
        rd < 31,
        off21 < 0x20_0000,
    ensures
        is_adr(spec_enc_adr(rd, off21)),
        !is_adrp(spec_enc_adr(rd, off21)),
        field_rd(spec_enc_adr(rd, off21)) == rd,
        field_imm21(spec_enc_adr(rd, off21)) == off21,
{
}

/// An `ADRP` word is classified as such and its fields are recovered.
pub proof fn lemma_adrp_fields(rd: u32, off21: u64)
    by (bit_vector)
    requires
        rd < 31,
        off21 < 0x20_0000,
    ensures
        is_adrp(spec_enc_adrp(rd, off21)),
        !is_adr(spec_enc_adrp(rd, off21)),
        field_rd(spec_enc_adrp(rd, off21)) == rd,
        field_imm21(spec_enc_adrp(rd, off21)) == off21,
{
}

/// An `ADD` immediate word is classified as such and its fields are recovered.
pub proof fn lemma_add_imm_fields(rd: u32, rn: u32, imm12: u32)
    by (bit_vector)
    requires
        rd < 31,
        rn < 31,
        imm12 < 0x1000,
    ensures
        is_add_imm(spec_enc_add_imm(rd, rn, imm12)),
        !is_adr(spec_enc_add_imm(rd, rn, imm12)),
        !is_adrp(spec_enc_add_imm(rd, rn, imm12)),
        field_rd(spec_enc_add_imm(rd, rn, imm12)) == rd,
        field_rn(spec_enc_add_imm(rd, rn, imm12)) == rn,
        field_imm12(spec_enc_add_imm(rd, rn, imm12)) == imm12,
{
}

/// A `MOVK` word is classified as such and its fields are recovered.
pub proof fn lemma_movk_fields(rd: u32, imm16: u32, hw: u32)
    by (bit_vector)
    requires
        rd < 31,
        imm16 < 0x1_0000,
        hw < 4,
    ensures
        is_movk(spec_enc_movk(rd, imm16, hw)),
        !is_adr(spec_enc_movk(rd, imm16, hw)),
        !is_adrp(spec_enc_movk(rd, imm16, hw)),
        !is_add_imm(spec_enc_movk(rd, imm16, hw)),
        field_rd(spec_enc_movk(rd, imm16, hw)) == rd,
        field_imm16(spec_enc_movk(rd, imm16, hw)) == imm16,
        field_hw(spec_enc_movk(rd, imm16, hw)) == hw,
{
}

/// A 64-bit `LDR` literal word is classified as such; its fields are recovered.
pub proof fn lemma_ldr_lit_fields(rt: u32, imm19: u32)
    by (bit_vector)
    requires
        rt < 31,
        imm19 < 0x8_0000,
    ensures
        is_ldr_lit(spec_enc_ldr_lit(rt, imm19)),
        !is_adr(spec_enc_ldr_lit(rt, imm19)),
        !is_adrp(spec_enc_ldr_lit(rt, imm19)),
        !is_add_imm(spec_enc_ldr_lit(rt, imm19)),
        !is_movk(spec_enc_ldr_lit(rt, imm19)),
        field_rd(spec_enc_ldr_lit(rt, imm19)) == rt,
        field_imm19(spec_enc_ldr_lit(rt, imm19)) == imm19 as u64,
{
}

/// A 64-bit offset `LDR` word is classified as such; its fields are recovered.
pub proof fn lemma_ldr_off_fields(rt: u32, rn: u32, imm12: u32)
    by (bit_vector)
    requires
        rt < 32,
        rn < 32,
        imm12 < 0x1000,
    ensures
        is_ldr_off(spec_enc_ldr_off(rt, rn, imm12)),
        !is_adr(spec_enc_ldr_off(rt, rn, imm12)),
        !is_adrp(spec_enc_ldr_off(rt, rn, imm12)),
        !is_add_imm(spec_enc_ldr_off(rt, rn, imm12)),
        !is_movk(spec_enc_ldr_off(rt, rn, imm12)),
        !is_ldr_lit(spec_enc_ldr_off(rt, rn, imm12)),
        field_rd(spec_enc_ldr_off(rt, rn, imm12)) == rt,
        field_rn(spec_enc_ldr_off(rt, rn, imm12)) == rn,
        field_imm12(spec_enc_ldr_off(rt, rn, imm12)) == imm12,
{
}

/// A `BR` word is classified as such and its register field is recovered.
pub proof fn lemma_br_fields(rn: u32)
    by (bit_vector)
    requires
        rn < 31,
    ensures
        is_br(spec_enc_br(rn)),
        !is_adr(spec_enc_br(rn)),
        !is_adrp(spec_enc_br(rn)),
        !is_add_imm(spec_enc_br(rn)),
        !is_movk(spec_enc_br(rn)),
        !is_ldr_lit(spec_enc_br(rn)),
        !is_ldr_off(spec_enc_br(rn)),
        field_rn(spec_enc_br(rn)) == rn,
{
}

/// The NOP word falls in no class this crate relocates or interprets
/// before the NOP case.
pub proof fn lemma_nop_class()
    by (bit_vector)
    ensures
        is_nop(NOP_WORD),
        !is_adr(NOP_WORD),
        !is_adrp(NOP_WORD),
        !is_add_imm(NOP_WORD),
        !is_movk(NOP_WORD),
        !is_ldr_lit(NOP_WORD),
        !is_ldr_off(NOP_WORD),
        !is_br(NOP_WORD),
        !is_b(NOP_WORD),
        !is_cb(NOP_WORD),
        !is_tb(NOP_WORD),
        !is_bcond(NOP_WORD),
{
}

/// A re-encoded compare branch keeps its class and fields, and its new
/// immediate reaches the target from the destination.
pub proof fn lemma_cb_reenc(w: u32, dest: u64, target: u64)
    by (bit_vector)
    requires
        is_cb(w),
        fits_b19(w_sub(target, dest)),
    ensures
        is_cb(spec_reenc19(w, w_sub(target, dest))),
        !is_adr(spec_reenc19(w, w_sub(target, dest))),
        !is_adrp(spec_reenc19(w, w_sub(target, dest))),
        !is_add_imm(spec_reenc19(w, w_sub(target, dest))),
        !is_movk(spec_reenc19(w, w_sub(target, dest))),
        !is_ldr_lit(spec_reenc19(w, w_sub(target, dest))),
        !is_ldr_off(spec_reenc19(w, w_sub(target, dest))),
        !is_br(spec_reenc19(w, w_sub(target, dest))),
        !is_b(spec_reenc19(w, w_sub(target, dest))),
        field_rd(spec_reenc19(w, w_sub(target, dest))) == field_rd(w),
        spec_reenc19(w, w_sub(target, dest)) >> 31 == w >> 31,
        spec_reenc19(w, w_sub(target, dest)) & 0x0100_0000 == w & 0x0100_0000,
        w_add(dest, sext19(field_imm19(spec_reenc19(w, w_sub(target, dest)))) << 2) == target,
{
}

/// A re-encoded test branch keeps its class and fields, and its new
/// immediate reaches the target from the destination.
pub proof fn lemma_tb_reenc(w: u32, dest: u64, target: u64)
    by (bit_vector)
    requires
        is_tb(w),
        fits_b14(w_sub(target, dest)),
    ensures
        is_tb(spec_reenc14(w, w_sub(target, dest))),
        !is_adr(spec_reenc14(w, w_sub(target, dest))),
        !is_adrp(spec_reenc14(w, w_sub(target, dest))),
        !is_add_imm(spec_reenc14(w, w_sub(target, dest))),
        !is_movk(spec_reenc14(w, w_sub(target, dest))),
        !is_ldr_lit(spec_reenc14(w, w_sub(target, dest))),
        !is_ldr_off(spec_reenc14(w, w_sub(target, dest))),
        !is_br(spec_reenc14(w, w_sub(target, dest))),
        !is_b(spec_reenc14(w, w_sub(target, dest))),
        !is_cb(spec_reenc14(w, w_sub(target, dest))),
        field_rd(spec_reenc14(w, w_sub(target, dest))) == field_rd(w),
        spec_reenc14(w, w_sub(target, dest)) >> 31 == w >> 31,
        (spec_reenc14(w, w_sub(target, dest)) >> 19) & 0x1F == (w >> 19) & 0x1F,
        spec_reenc14(w, w_sub(target, dest)) & 0x0100_0000 == w & 0x0100_0000,
        w_add(dest, sext14(field_imm14(spec_reenc14(w, w_sub(target, dest)))) << 2) == target,
{
}

/// Inverting a branch keeps its class and every field but the sense: the
/// zero/set bit flips for compare and test branches, the low condition
/// bit for `B.cond`.
pub proof fn lemma_invert_branch(w: u32)
    by (bit_vector)
    requires
        is_cb(w) || is_tb(w) || is_bcond(w),
    ensures
        is_cb(spec_invert(w)) == is_cb(w),
        is_tb(spec_invert(w)) == is_tb(w),
        is_bcond(spec_invert(w)) == is_bcond(w),
        is_cb(w) || is_tb(w) ==> field_rd(spec_invert(w)) == field_rd(w),
        spec_invert(w) >> 31 == w >> 31,
        (spec_invert(w) >> 19) & 0x1F == (w >> 19) & 0x1F,
        is_cb(w) || is_tb(w) ==> (spec_invert(w) & 0x0100_0000 != 0) == (w & 0x0100_0000 == 0),
        is_bcond(w) ==> spec_invert(w) & 0xF == (w & 0xF) ^ 1,
{
}

/// A re-encoded conditional branch keeps its class and condition, and its
/// new immediate reaches the target from the destination.
pub proof fn lemma_bcond_reenc(w: u32, dest: u64, target: u64)
    by (bit_vector)
    requires
        is_bcond(w),
        fits_b19(w_sub(target, dest)),
    ensures
        is_bcond(spec_reenc19(w, w_sub(target, dest))),
        !is_adr(spec_reenc19(w, w_sub(target, dest))),
        !is_adrp(spec_reenc19(w, w_sub(target, dest))),
        !is_add_imm(spec_reenc19(w, w_sub(target, dest))),
        !is_movk(spec_reenc19(w, w_sub(target, dest))),
        !is_ldr_lit(spec_reenc19(w, w_sub(target, dest))),
        !is_ldr_off(spec_reenc19(w, w_sub(target, dest))),
        !is_br(spec_reenc19(w, w_sub(target, dest))),
        !is_b(spec_reenc19(w, w_sub(target, dest))),
        !is_cb(spec_reenc19(w, w_sub(target, dest))),
        !is_tb(spec_reenc19(w, w_sub(target, dest))),
        spec_reenc19(w, w_sub(target, dest)) & 0xF == w & 0xF,
        w_add(dest, sext19(field_imm19(spec_reenc19(w, w_sub(target, dest)))) << 2) == target,
{
}

// ---------------------------------------------------------------------------
// Offset arithmetic lemmas: a sign-extended, truncated difference applied
// to the base recovers the absolute target.
// ---------------------------------------------------------------------------

/// A difference within `ADR` reach survives truncation to 21 bits.
pub proof fn lemma_sext21_roundtrip(dest: u64, target: u64)
    by (bit_vector)
    requires
        fits_simm21(w_sub(target, dest)),
    ensures
        w_add(dest, sext21(w_sub(target, dest) & 0x1F_FFFF)) == target,
        w_sub(target, dest) & 0x1F_FFFF < 0x20_0000,
{
}

/// A page difference within `ADRP` reach, applied to the page of the
/// destination, recovers the page of the target; the low twelve bits
/// complete it to the target itself.
pub proof fn lemma_page_delta(dest: u64, target: u64)
    by (bit_vector)
    requires
        fits_simm21(w_sub(target >> 12, dest >> 12)),
    ensures
        w_sub(target >> 12, dest >> 12) & 0x1F_FFFF < 0x20_0000,
        w_add(dest & 0xFFFF_FFFF_FFFF_F000, sext21(w_sub(target >> 12, dest >> 12) & 0x1F_FFFF)
            << 12) == target & 0xFFFF_FFFF_FFFF_F000,
        ((target & 0xFFF) as u32) < 0x1000,
        ((((target & 0xFFF) as u32) as u64)) == target & 0xFFF,
        w_add(target & 0xFFFF_FFFF_FFFF_F000, target & 0xFFF) == target,
{
}

/// A difference within literal-load reach survives the scaled 19-bit field.
pub proof fn lemma_ldr_lit_offset(dest: u64, target: u64)
    by (bit_vector)
    requires
        fits_ldr_lit(w_sub(target, dest)),
    ensures
        w_add(dest, sext19(((w_sub(target, dest) >> 2) & 0x7_FFFF)) << 2) == target,
        ((w_sub(target, dest) >> 2) & 0x7_FFFF) < 0x8_0000,
        ((((w_sub(target, dest) >> 2) & 0x7_FFFF) as u32) as u64) == (w_sub(target, dest) >> 2)
            & 0x7_FFFF,
{
}

/// The quarters of a 64-bit value are sixteen-bit immediates, and casting
/// them through `u32` preserves them.
pub proof fn lemma_movk_support(v: u64)
    by (bit_vector)
    ensures
        ((v & 0xFFFF) as u32) < 0x1_0000,
        (((v >> 16) & 0xFFFF) as u32) < 0x1_0000,
        (((v >> 32) & 0xFFFF) as u32) < 0x1_0000,
        (((v >> 48) & 0xFFFF) as u32) < 0x1_0000,
        (((v & 0xFFFF) as u32) as u64) == v & 0xFFFF,
        ((((v >> 16) & 0xFFFF) as u32) as u64) == (v >> 16) & 0xFFFF,
        ((((v >> 32) & 0xFFFF) as u32) as u64) == (v >> 32) & 0xFFFF,
        ((((v >> 48) & 0xFFFF) as u32) as u64) == (v >> 48) & 0xFFFF,
{
}

/// Writing all four 16-bit quarters of `v` into a register by `MOVK`
/// yields `v`, whatever the register held before.
pub proof fn lemma_movk_acc(x: u64, v: u64)
    by (bit_vector)
    ensures
        (((((((x & !(0xFFFFu64 << 0)) | ((v & 0xFFFF) << 0)) & !(0xFFFFu64 << 16)) | (((v >> 16)
            & 0xFFFF) << 16)) & !(0xFFFFu64 << 32)) | (((v >> 32) & 0xFFFF) << 32)) & !(0xFFFFu64
            << 48)) | (((v >> 48) & 0xFFFF) << 48) == v,
{
}

/// The scaled low offset of an 8-byte aligned address recovers the address
/// from its page.
pub proof fn lemma_ldr_off_addr(value_addr: u64)
    by (bit_vector)
    requires
        value_addr % 8 == 0,
    ensures
        (((value_addr & 0xFFF) >> 3) as u32) < 0x1000,
        w_add(value_addr & 0xFFFF_FFFF_FFFF_F000, (((((value_addr & 0xFFF) >> 3) as u32) * 8) as u64))
            == value_addr,
{
}

/// Top-level opcode classes this crate distinguishes are mutually
/// exclusive where the classifier and the step semantics test them in
/// different orders.
pub proof fn lemma_class_disjoint(w: u32)
    by (bit_vector)
    ensures
        is_ldr_lit(w) ==> !is_add_imm(w) && !is_movk(w),
        is_b(w) ==> !is_add_imm(w) && !is_movk(w) && !is_ldr_lit(w) && !is_ldr_off(w) && !is_br(w),
        is_cb(w) ==> !is_add_imm(w) && !is_movk(w) && !is_br(w),
        is_tb(w) ==> !is_add_imm(w) && !is_movk(w) && !is_br(w),
        is_bcond(w) ==> !is_add_imm(w) && !is_movk(w) && !is_br(w) && !is_cb(w) && !is_tb(w),
{
}

/// The fixed literal offset of the immediate-jump thunk is eight bytes.
pub proof fn lemma_jmp_literal_offset()
    by (bit_vector)
    ensures
        sext19(2) << 2 == 8,
{
}

} // verus!
