//! A small-step semantics for the AArch64 instructions this crate emits.
//!
//! The model covers exactly the words the relocation thunks produce and the
//! PC-relative words the classifier rewrites: it is the yardstick against
//! which every relocation is proved faithful.  A machine is 31 general
//! registers, a program counter and a byte-addressed memory; a step
//! executes one instruction word.
use crate::aarch64::encode::{
    field_hw, field_imm12, field_imm14, field_imm16, field_imm19, field_imm21, field_imm26,
    field_rd, field_rn, is_add_imm, is_adr, is_adrp, is_b, is_bcond, is_br, is_cb, is_ldr_lit,
    is_ldr_off, is_movk, is_tb, sext14, sext19, sext21, sext26, w_add, w_sub,
};
use vstd::prelude::*;

verus! {

/// The observable machine state: registers `X0`..`X30`, the program
/// counter, the NZCV condition flags (bits 3..0 of `flags`), and memory.
pub struct Machine {
    pub regs: Seq<u64>,
    pub pc: u64,
    pub flags: u64,
    pub mem: Map<u64, u8>,
}

/// A well-formed machine carries exactly the 31 general registers.
pub open spec fn m_wf(m: Machine) -> bool {
    m.regs.len() == 31
}

/// The value a register field denotes; the zero register reads as zero.
pub open spec fn reg_val(m: Machine, r: u32) -> u64 {
    if r < 31 {
        m.regs[r as int]
    } else {
        0
    }
}

/// A little-endian 64-bit read at `a`.
pub open spec fn read64(mem: Map<u64, u8>, a: u64) -> u64 {
    (mem[a] as u64) | ((mem[w_add(a, 1)] as u64) << 8) | ((mem[w_add(a, 2)] as u64) << 16) | ((
    mem[w_add(a, 3)] as u64) << 24) | ((mem[w_add(a, 4)] as u64) << 32) | ((mem[w_add(
        a,
        5,
    )] as u64) << 40) | ((mem[w_add(a, 6)] as u64) << 48) | ((mem[w_add(a, 7)] as u64) << 56)
}

/// Writes `v` to register `r`; a write to the zero register is discarded.
pub open spec fn write_reg(m: Machine, r: u32, v: u64) -> Machine {
    if r < 31 {
        Machine { regs: m.regs.update(r as int, v), pc: m.pc, flags: m.flags, mem: m.mem }
    } else {
        m
    }
}

/// Advances the program counter past one instruction.
pub open spec fn next_pc(m: Machine) -> Machine {
    Machine { regs: m.regs, pc: w_add(m.pc, 4), flags: m.flags, mem: m.mem }
}

/// Is a compare branch (`CBZ`/`CBNZ`) taken?  The compared width follows
/// the word's `sf` bit; the sense follows its zero/nonzero bit.
pub open spec fn cmp_taken(m: Machine, w: u32) -> bool {
    let v = if w >> 31 == 1 {
        reg_val(m, field_rd(w))
    } else {
        reg_val(m, field_rd(w)) & 0xFFFF_FFFF
    };
    (v == 0) != (w & 0x0100_0000 != 0)
}

/// Is a test branch (`TBZ`/`TBNZ`) taken?  The tested bit position is
/// `b5:b40`; the sense follows the word's set/clear bit.
pub open spec fn tst_taken(m: Machine, w: u32) -> bool {
    let bitpos = ((w >> 31) << 5) | ((w >> 19) & 0x1F);
    ((reg_val(m, field_rd(w)) >> bitpos) & 1 == 1) == (w & 0x0100_0000 != 0)
}

/// Does the condition `cond` hold of the NZCV flags `f` (N bit 3, Z bit
/// 2, C bit 1, V bit 0)?  The architecture's condition table; `AL` and
/// `NV` both always hold.
pub open spec fn cond_holds(f: u64, cond: u32) -> bool {
    let n = f & 8 != 0;
    let z = f & 4 != 0;
    let c = f & 2 != 0;
    let v = f & 1 != 0;
    let k = cond & 0xF;
    if k == 0 {
        z
    } else if k == 1 {
        !z
    } else if k == 2 {
        c
    } else if k == 3 {
        !c
    } else if k == 4 {
        n
    } else if k == 5 {
        !n
    } else if k == 6 {
        v
    } else if k == 7 {
        !v
    } else if k == 8 {
        c && !z
    } else if k == 9 {
        !(c && !z)
    } else if k == 10 {
        n == v
    } else if k == 11 {
        n != v
    } else if k == 12 {
        !z && n == v
    } else if k == 13 {
        !(!z && n == v)
    } else {
        true
    }
}

/// Is a conditional branch `B.cond` taken in machine state `m`?
pub open spec fn bcond_taken(m: Machine, w: u32) -> bool {
    cond_holds(m.flags, w & 0xF)
}

/// Is a conditional, compare or test branch taken in machine state `m`?
pub open spec fn branch_taken(m: Machine, w: u32) -> bool {
    if is_cb(w) {
        cmp_taken(m, w)
    } else if is_tb(w) {
        tst_taken(m, w)
    } else if is_bcond(w) {
        bcond_taken(m, w)
    } else {
        false
    }
}

/// Inverting the low condition bit negates every condition below `AL`.
pub proof fn lemma_cond_invert(f: u64, cond: u32)
    by (bit_vector)
    requires
        cond < 14,
    ensures
        cond_holds(f, cond ^ 1) == !cond_holds(f, cond),
{
}

/// Executes one instruction word.  Words outside the modelled subset only
/// advance the program counter; no lemma of this crate relies on them.
pub open spec fn step(m: Machine, w: u32) -> Machine {
    if is_adr(w) {
        next_pc(write_reg(m, field_rd(w), w_add(m.pc, sext21(field_imm21(w)))))
    } else if is_adrp(w) {
        next_pc(
            write_reg(m, field_rd(w), w_add(m.pc & 0xFFFF_FFFF_FFFF_F000, sext21(field_imm21(w))
                << 12)),
        )
    } else if is_add_imm(w) {
        next_pc(write_reg(m, field_rd(w), w_add(reg_val(m, field_rn(w)), field_imm12(w) as u64)))
    } else if is_movk(w) {
        next_pc(
            write_reg(
                m,
                field_rd(w),
                (reg_val(m, field_rd(w)) & !(0xFFFFu64 << (16 * field_hw(w)))) | ((field_imm16(
                    w,
                ) as u64) << (16 * field_hw(w))),
            ),
        )
    } else if is_ldr_lit(w) {
        next_pc(
            write_reg(m, field_rd(w), read64(m.mem, w_add(m.pc, sext19(field_imm19(w)) << 2))),
        )
    } else if is_ldr_off(w) {
        next_pc(
            write_reg(
                m,
                field_rd(w),
                read64(m.mem, w_add(reg_val(m, field_rn(w)), ((field_imm12(w) * 8) as u64))),
            ),
        )
    } else if is_br(w) {
        Machine { regs: m.regs, pc: reg_val(m, field_rn(w)), flags: m.flags, mem: m.mem }
    } else if is_b(w) {
        Machine {
            regs: m.regs,
            pc: w_add(m.pc, sext26(field_imm26(w)) << 2),
            flags: m.flags,
            mem: m.mem,
        }
    } else if is_cb(w) {
        if cmp_taken(m, w) {
            Machine {
                regs: m.regs,
                pc: w_add(m.pc, sext19(field_imm19(w)) << 2),
                flags: m.flags,
                mem: m.mem,
            }
        } else {
            next_pc(m)
        }
    } else if is_tb(w) {
        if tst_taken(m, w) {
            Machine {
                regs: m.regs,
                pc: w_add(m.pc, sext14(field_imm14(w)) << 2),
                flags: m.flags,
                mem: m.mem,
            }
        } else {
            next_pc(m)
        }
    } else if is_bcond(w) {
        if bcond_taken(m, w) {
            Machine {
                regs: m.regs,
                pc: w_add(m.pc, sext19(field_imm19(w)) << 2),
                flags: m.flags,
                mem: m.mem,
            }
        } else {
            next_pc(m)
        }
    } else {
        next_pc(m)
    }
}

/// Executes a straight-line sequence of instruction words.
pub open spec fn run(m: Machine, ws: Seq<u32>) -> Machine
    decreases ws.len(),
{
    if ws.len() == 0 {
        m
    } else {
        run(step(m, ws[0]), ws.drop_first())
    }
}

/// When the little-endian image of `v` sits in memory at `a`, a 64-bit
/// read at `a` yields `v`: the bridge between an emitted inline literal
/// and the branch lemmas that dereference it.
pub proof fn lemma_read64_le8(mem: Map<u64, u8>, a: u64, v: u64)
    requires
        forall|i: u64| i < 8 ==> mem[#[trigger] w_add(a, i)] == crate::pic::le8(v)[i as int],
    ensures
        read64(mem, a) == v,
{
    assert(w_add(a, 0) == a);
    assert(mem[a] == v as u8);
    let b0 = mem[a];
    let b1 = mem[w_add(a, 1)];
    let b2 = mem[w_add(a, 2)];
    let b3 = mem[w_add(a, 3)];
    let b4 = mem[w_add(a, 4)];
    let b5 = mem[w_add(a, 5)];
    let b6 = mem[w_add(a, 6)];
    let b7 = mem[w_add(a, 7)];
    assert((b0 as u64) | ((b1 as u64) << 8) | ((b2 as u64) << 16) | ((b3 as u64) << 24) | ((
    b4 as u64) << 32) | ((b5 as u64) << 40) | ((b6 as u64) << 48) | ((b7 as u64) << 56) == v)
        by (bit_vector)
        requires
            b0 == v as u8,
            b1 == (v >> 8) as u8,
            b2 == (v >> 16) as u8,
            b3 == (v >> 24) as u8,
            b4 == (v >> 32) as u8,
            b5 == (v >> 40) as u8,
            b6 == (v >> 48) as u8,
            b7 == (v >> 56) as u8,
    ;
}

/// Chained single-instruction advances collapse to one offset.
pub proof fn lemma_wadd_chain(d: u64)
    by (bit_vector)
    ensures
        w_add(w_add(d, 4), 4) == w_add(d, 8),
        w_add(w_add(d, 8), 4) == w_add(d, 12),
        w_add(w_add(d, 12), 4) == w_add(d, 16),
        w_add(w_add(d, 16), 4) == w_add(d, 20),
        w_add(w_add(d, 4), 8) == w_add(d, 12),
        w_sub(w_add(d, 20), d) == 20,
{
}

} // verus!
