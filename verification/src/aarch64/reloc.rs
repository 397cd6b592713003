//! Faithfulness of the relocation thunks.
//!
//! Each lemma runs the words a thunk emits at an arbitrary destination
//! through the step semantics and shows that the machine ends in the state
//! the original PC-relative instruction would have produced at its own
//! address: the same register receives the same absolute value, and memory
//! is untouched.  Together these are the round-trip law of relocation: the
//! architectural effect of a relocated instruction is indistinguishable
//! from the original, up to the scratch register `X17` where a long
//! encoding needs it.
use crate::aarch64::encode::{
    fits_ldr_lit, fits_simm21, lemma_add_imm_fields, lemma_adr_fields, lemma_adrp_fields,
    lemma_br_fields, lemma_jmp_literal_offset, lemma_ldr_lit_fields, lemma_ldr_lit_offset,
    lemma_ldr_off_addr, lemma_ldr_off_fields, lemma_movk_acc, lemma_movk_fields,
    lemma_movk_support, lemma_nop_class, lemma_page_delta, lemma_sext21_roundtrip, w_add, w_sub,
};
use crate::aarch64::sem::{lemma_wadd_chain, m_wf, read64, reg_val, run, step, Machine};
use crate::pic::{adr_words, adrp_words, jmp_imm_words, jmp_ind_words, ldr_lit_words, movk_words};
use vstd::prelude::*;

verus! {

/// Running the four `MOVK` words leaves `v` in `Xrd` and advances the
/// program counter by sixteen.
pub proof fn lemma_movk_chain_effect(m: Machine, rd: u32, v: u64)
    requires
        m_wf(m),
        rd < 31,
    ensures
        run(m, movk_words(rd, v)).regs =~= m.regs.update(rd as int, v),
        run(m, movk_words(rd, v)).pc == w_add(m.pc, 16),
        run(m, movk_words(rd, v)).mem == m.mem,
{
    reveal_with_fuel(run, 7);
    let ws = movk_words(rd, v);
    lemma_movk_support(v);
    lemma_movk_fields(rd, (v & 0xFFFF) as u32, 0);
    lemma_movk_fields(rd, ((v >> 16) & 0xFFFF) as u32, 1);
    lemma_movk_fields(rd, ((v >> 32) & 0xFFFF) as u32, 2);
    lemma_movk_fields(rd, ((v >> 48) & 0xFFFF) as u32, 3);
    lemma_movk_acc(reg_val(m, rd), v);
    let m1 = step(m, ws[0]);
    let m2 = step(m1, ws[1]);
    let m3 = step(m2, ws[2]);
    let m4 = step(m3, ws[3]);
    assert(ws.drop_first() =~= seq![ws[1], ws[2], ws[3]]);
    assert(ws.drop_first().drop_first() =~= seq![ws[2], ws[3]]);
    assert(ws.drop_first().drop_first().drop_first() =~= seq![ws[3]]);
    assert(ws.drop_first().drop_first().drop_first().drop_first() =~= Seq::<u32>::empty());
    assert(run(m, ws) == m4);
    lemma_wadd_chain(m.pc);
    assert(m4.regs =~= m.regs.update(rd as int, v));
}

/// An `Adr` thunk finalized at `dest` loads exactly the captured absolute
/// address: the effect the original `ADR` had at its own location.
pub proof fn lemma_adr_thunk_effect(m: Machine, rd: u32, target: u64, dest: u64)
    requires
        m_wf(m),
        m.pc == dest,
        rd < 31,
    ensures
        run(m, adr_words(rd, target, dest)).regs =~= m.regs.update(rd as int, target),
        run(m, adr_words(rd, target, dest)).pc == w_add(dest, 16),
        run(m, adr_words(rd, target, dest)).mem == m.mem,
{
    reveal_with_fuel(run, 7);
    let ws = adr_words(rd, target, dest);
    let delta = w_sub(target, dest);
    let pg = w_sub(target >> 12, dest >> 12);
    lemma_nop_class();
    lemma_wadd_chain(dest);
    if fits_simm21(delta) {
        lemma_sext21_roundtrip(dest, target);
        lemma_adr_fields(rd, delta & 0x1F_FFFF);
        let m1 = step(m, ws[0]);
        let m2 = step(m1, ws[1]);
        let m3 = step(m2, ws[2]);
        let m4 = step(m3, ws[3]);
        assert(ws.drop_first() =~= seq![ws[1], ws[2], ws[3]]);
        assert(ws.drop_first().drop_first() =~= seq![ws[2], ws[3]]);
        assert(ws.drop_first().drop_first().drop_first() =~= seq![ws[3]]);
        assert(ws.drop_first().drop_first().drop_first().drop_first() =~= Seq::<u32>::empty());
        assert(run(m, ws) == m4);
        assert(m4.regs =~= m.regs.update(rd as int, target));
    } else if fits_simm21(pg) {
        lemma_page_delta(dest, target);
        lemma_adrp_fields(rd, pg & 0x1F_FFFF);
        lemma_add_imm_fields(rd, rd, (target & 0xFFF) as u32);
        let m1 = step(m, ws[0]);
        let m2 = step(m1, ws[1]);
        let m3 = step(m2, ws[2]);
        let m4 = step(m3, ws[3]);
        assert(ws.drop_first() =~= seq![ws[1], ws[2], ws[3]]);
        assert(ws.drop_first().drop_first() =~= seq![ws[2], ws[3]]);
        assert(ws.drop_first().drop_first().drop_first() =~= seq![ws[3]]);
        assert(ws.drop_first().drop_first().drop_first().drop_first() =~= Seq::<u32>::empty());
        assert(reg_val(m1, rd) == target & 0xFFFF_FFFF_FFFF_F000);
        assert(reg_val(m2, rd) == target);
        assert(run(m, ws) == m4);
        assert(m4.regs =~= m.regs.update(rd as int, target));
    } else {
        lemma_movk_chain_effect(m, rd, target);
    }
}

/// An `Adrp` thunk finalized at `dest` loads exactly the captured absolute
/// page address: the effect the original `ADRP` had at its own location.
pub proof fn lemma_adrp_thunk_effect(m: Machine, rd: u32, target: u64, dest: u64)
    requires
        m_wf(m),
        m.pc == dest,
        rd < 31,
        target & 0xFFF == 0,
    ensures
        run(m, adrp_words(rd, target, dest)).regs =~= m.regs.update(rd as int, target),
        run(m, adrp_words(rd, target, dest)).pc == w_add(dest, 16),
        run(m, adrp_words(rd, target, dest)).mem == m.mem,
{
    reveal_with_fuel(run, 7);
    let ws = adrp_words(rd, target, dest);
    let pg = w_sub(target >> 12, dest >> 12);
    lemma_nop_class();
    lemma_wadd_chain(dest);
    if fits_simm21(pg) {
        lemma_page_delta(dest, target);
        lemma_adrp_fields(rd, pg & 0x1F_FFFF);
        assert(target & 0xFFFF_FFFF_FFFF_F000 == target) by (bit_vector)
            requires
                target & 0xFFF == 0,
        ;
        let m1 = step(m, ws[0]);
        let m2 = step(m1, ws[1]);
        let m3 = step(m2, ws[2]);
        let m4 = step(m3, ws[3]);
        assert(ws.drop_first() =~= seq![ws[1], ws[2], ws[3]]);
        assert(ws.drop_first().drop_first() =~= seq![ws[2], ws[3]]);
        assert(ws.drop_first().drop_first().drop_first() =~= seq![ws[3]]);
        assert(ws.drop_first().drop_first().drop_first().drop_first() =~= Seq::<u32>::empty());
        assert(run(m, ws) == m4);
        assert(m4.regs =~= m.regs.update(rd as int, target));
    } else {
        lemma_movk_chain_effect(m, rd, target);
    }
}

/// An `LdrLit` thunk finalized at `dest` loads into `Xrt` the 64-bit value
/// stored at the captured literal address: the effect the original literal
/// load had at its own location.  The long encoding also clobbers `X17`.
pub proof fn lemma_ldr_lit_thunk_effect(m: Machine, rt: u32, target: u64, dest: u64)
    requires
        m_wf(m),
        m.pc == dest,
        rt < 31,
    ensures
        run(m, ldr_lit_words(rt, target, dest)).pc == w_add(dest, 20),
        run(m, ldr_lit_words(rt, target, dest)).mem == m.mem,
        reg_val(run(m, ldr_lit_words(rt, target, dest)), rt) == read64(m.mem, target),
        forall|r: u32|
            r < 31 && r != rt && r != 17 ==> reg_val(run(m, ldr_lit_words(rt, target, dest)), r)
                == reg_val(m, r),
        fits_ldr_lit(w_sub(target, dest)) ==> run(m, ldr_lit_words(rt, target, dest)).regs
            =~= m.regs.update(rt as int, read64(m.mem, target)),
{
    reveal_with_fuel(run, 7);
    let ws = ldr_lit_words(rt, target, dest);
    let delta = w_sub(target, dest);
    lemma_nop_class();
    lemma_wadd_chain(dest);
    if fits_ldr_lit(delta) {
        lemma_ldr_lit_offset(dest, target);
        lemma_ldr_lit_fields(rt, ((delta >> 2) & 0x7_FFFF) as u32);
        let m1 = step(m, ws[0]);
        let m2 = step(m1, ws[1]);
        let m3 = step(m2, ws[2]);
        let m4 = step(m3, ws[3]);
        let m5 = step(m4, ws[4]);
        assert(ws.drop_first() =~= seq![ws[1], ws[2], ws[3], ws[4]]);
        assert(ws.drop_first().drop_first() =~= seq![ws[2], ws[3], ws[4]]);
        assert(ws.drop_first().drop_first().drop_first() =~= seq![ws[3], ws[4]]);
        assert(ws.drop_first().drop_first().drop_first().drop_first() =~= seq![ws[4]]);
        assert(ws.drop_first().drop_first().drop_first().drop_first().drop_first()
            =~= Seq::<u32>::empty());
        assert(run(m, ws) == m5);
        assert(m5.regs =~= m.regs.update(rt as int, read64(m.mem, target)));
    } else {
        let mw = movk_words(17, target);
        lemma_movk_chain_effect(m, 17, target);
        let m4 = run(m, mw);
        lemma_ldr_off_fields(rt, 17, 0);
        let m5 = step(m4, spec_enc_ldr_off_alias(rt));
        assert(ws =~= mw.push(spec_enc_ldr_off_alias(rt)));
        lemma_run_push(m, mw, spec_enc_ldr_off_alias(rt));
        assert(reg_val(m4, 17) == target);
        assert(w_add(reg_val(m4, 17), ((0 * 8) as u64)) == target);
        assert(m5.regs =~= m4.regs.update(rt as int, read64(m.mem, target)));
    }
}

/// The offset-load word of the long literal encoding.
pub open spec fn spec_enc_ldr_off_alias(rt: u32) -> u32 {
    crate::aarch64::encode::spec_enc_ldr_off(rt, 17, 0)
}

/// Running a sequence extended by one word runs the sequence, then the word.
pub proof fn lemma_run_push(m: Machine, ws: Seq<u32>, w: u32)
    ensures
        run(m, ws.push(w)) == step(run(m, ws), w),
    decreases ws.len(),
{
    reveal_with_fuel(run, 3);
    if ws.len() == 0 {
        assert(ws.push(w).drop_first() =~= Seq::<u32>::empty());
        assert(run(m, ws.push(w)) == step(m, w));
    } else {
        assert(ws.push(w)[0] == ws[0]);
        assert(ws.push(w).drop_first() =~= ws.drop_first().push(w));
        lemma_run_push(step(m, ws[0]), ws.drop_first(), w);
    }
}

/// A `CondBranch` thunk whose re-encoded branch reaches the target: the
/// taken path continues at the captured absolute target, the not-taken
/// path falls past the thunk's twenty bytes; registers and memory are
/// untouched either way.
#[verifier::rlimit(100)]
pub proof fn lemma_cond_branch_in_range(m: Machine, word: u32, target: u64, dest: u64)
    requires
        m_wf(m),
        m.pc == dest,
        crate::aarch64::encode::is_cb(word) || crate::aarch64::encode::is_tb(word) || (
        crate::aarch64::encode::is_bcond(word) && word & 0xF < 14),
        crate::pic::branch_fits(word, w_sub(target, dest)),
    ensures
        crate::aarch64::sem::branch_taken(m, word) ==> step(
            m,
            crate::pic::cond_branch_words(word, target, dest)[0],
        ).pc == target && step(m, crate::pic::cond_branch_words(word, target, dest)[0]).regs
            == m.regs && step(m, crate::pic::cond_branch_words(word, target, dest)[0]).mem
            == m.mem,
        !crate::aarch64::sem::branch_taken(m, word) ==> run(
            m,
            crate::pic::cond_branch_words(word, target, dest),
        ).pc == w_add(dest, 20) && run(m, crate::pic::cond_branch_words(word, target, dest)).regs
            == m.regs && run(m, crate::pic::cond_branch_words(word, target, dest)).mem == m.mem,
{
    reveal_with_fuel(run, 7);
    let ws = crate::pic::cond_branch_words(word, target, dest);
    let taken = crate::aarch64::sem::branch_taken(m, word);
    lemma_nop_class();
    lemma_wadd_chain(dest);
    if crate::aarch64::encode::is_tb(word) {
        crate::aarch64::encode::lemma_tb_reenc(word, dest, target);
    } else if crate::aarch64::encode::is_cb(word) {
        crate::aarch64::encode::lemma_cb_reenc(word, dest, target);
    } else {
        crate::aarch64::encode::lemma_bcond_reenc(word, dest, target);
        crate::aarch64::encode::lemma_class_disjoint(word);
    }
    if !taken {
        let m1 = step(m, ws[0]);
        let m2 = step(m1, ws[1]);
        let m3 = step(m2, ws[2]);
        let m4 = step(m3, ws[3]);
        let m5 = step(m4, ws[4]);
        assert(ws.drop_first() =~= seq![ws[1], ws[2], ws[3], ws[4]]);
        assert(ws.drop_first().drop_first() =~= seq![ws[2], ws[3], ws[4]]);
        assert(ws.drop_first().drop_first().drop_first() =~= seq![ws[3], ws[4]]);
        assert(ws.drop_first().drop_first().drop_first().drop_first() =~= seq![ws[4]]);
        assert(ws.drop_first().drop_first().drop_first().drop_first().drop_first()
            =~= Seq::<u32>::empty());
        assert(run(m, ws) == m5);
    }
}

/// A `CondBranch` thunk whose target is out of reach: the inverted branch
/// skips an absolute jump through `X17`, so the taken path still reaches
/// the captured target (through the inline literal at offset twelve) and
/// the not-taken path falls past the thunk's twenty bytes.
#[verifier::rlimit(100)]
pub proof fn lemma_cond_branch_out_of_range(m: Machine, word: u32, target: u64, dest: u64)
    requires
        m_wf(m),
        m.pc == dest,
        crate::aarch64::encode::is_cb(word) || crate::aarch64::encode::is_tb(word) || (
        crate::aarch64::encode::is_bcond(word) && word & 0xF < 14),
        !crate::pic::branch_fits(word, w_sub(target, dest)),
        read64(m.mem, w_add(dest, 12)) == target,
    ensures
        crate::aarch64::sem::branch_taken(m, word) ==> run(
            m,
            crate::pic::cond_branch_words(word, target, dest),
        ).pc == target && run(m, crate::pic::cond_branch_words(word, target, dest)).regs
            =~= m.regs.update(17, target) && run(
            m,
            crate::pic::cond_branch_words(word, target, dest),
        ).mem == m.mem,
        !crate::aarch64::sem::branch_taken(m, word) ==> step(
            m,
            crate::pic::cond_branch_words(word, target, dest)[0],
        ).pc == w_add(dest, 20) && step(m, crate::pic::cond_branch_words(word, target, dest)[0]).regs
            == m.regs && step(m, crate::pic::cond_branch_words(word, target, dest)[0]).mem
            == m.mem,
{
    reveal_with_fuel(run, 7);
    let ws = crate::pic::cond_branch_words(word, target, dest);
    let taken = crate::aarch64::sem::branch_taken(m, word);
    lemma_wadd_chain(dest);
    let inv = crate::aarch64::encode::spec_invert(word);
    crate::aarch64::encode::lemma_invert_branch(word);
    assert(w_sub(w_add(dest, 20), dest) == 20) by (bit_vector);
    if crate::aarch64::encode::is_tb(word) {
        crate::aarch64::encode::lemma_tb_reenc(inv, dest, w_add(dest, 20));
    } else if crate::aarch64::encode::is_cb(word) {
        crate::aarch64::encode::lemma_cb_reenc(inv, dest, w_add(dest, 20));
    } else {
        crate::aarch64::encode::lemma_bcond_reenc(inv, dest, w_add(dest, 20));
        crate::aarch64::encode::lemma_class_disjoint(word);
        crate::aarch64::sem::lemma_cond_invert(m.flags, word & 0xF);
    }
    let m1 = step(m, ws[0]);
    assert(ws.drop_first() =~= jmp_imm_words());
    if taken {
        assert(m1 == Machine { regs: m.regs, pc: w_add(dest, 4), flags: m.flags, mem: m.mem });
        lemma_jmp_imm_thunk_effect(m1, target, w_add(dest, 4));
        assert(run(m, ws) == run(m1, ws.drop_first()));
    }
}

/// The classifier agrees with the step semantics: executing a word the
/// classifier marked PC-relative, at the address it was fetched from,
/// produces exactly the absolute operand the classifier captured.
pub proof fn lemma_classify_effect(m: Machine, word: u32, address: u64)
    requires
        m_wf(m),
        m.pc == address,
    ensures
        crate::aarch64::decode::spec_classify(word, address) matches
            crate::aarch64::decode::InsnKind::Adr { rd, target } ==> step(m, word).regs
            == m.regs.update(rd as int, target) && step(m, word).pc == w_add(address, 4) && step(
            m,
            word,
        ).mem == m.mem,
        crate::aarch64::decode::spec_classify(word, address) matches
            crate::aarch64::decode::InsnKind::Adrp { rd, target } ==> step(m, word).regs
            == m.regs.update(rd as int, target) && step(m, word).pc == w_add(address, 4) && step(
            m,
            word,
        ).mem == m.mem,
        crate::aarch64::decode::spec_classify(word, address) matches
            crate::aarch64::decode::InsnKind::LdrLit { rt, target } ==> step(m, word).regs
            == m.regs.update(rt as int, read64(m.mem, target)) && step(m, word).pc == w_add(
            address,
            4,
        ) && step(m, word).mem == m.mem,
        crate::aarch64::decode::spec_classify(word, address) matches
            crate::aarch64::decode::InsnKind::B { target } ==> step(m, word).pc == target && step(
            m,
            word,
        ).regs == m.regs && step(m, word).mem == m.mem,
        crate::aarch64::decode::spec_classify(word, address) matches
            crate::aarch64::decode::InsnKind::CmpBr { target } ==> step(m, word).regs == m.regs
            && step(m, word).mem == m.mem && step(m, word).pc == (
        if crate::aarch64::sem::branch_taken(m, word) {
            target
        } else {
            w_add(address, 4)
        }),
        crate::aarch64::decode::spec_classify(word, address) matches
            crate::aarch64::decode::InsnKind::TstBr { target } ==> step(m, word).regs == m.regs
            && step(m, word).mem == m.mem && step(m, word).pc == (
        if crate::aarch64::sem::branch_taken(m, word) {
            target
        } else {
            w_add(address, 4)
        }),
        crate::aarch64::decode::spec_classify(word, address) matches
            crate::aarch64::decode::InsnKind::CondBr { target } ==> step(m, word).regs == m.regs
            && step(m, word).mem == m.mem && step(m, word).pc == (
        if crate::aarch64::sem::branch_taken(m, word) {
            target
        } else {
            w_add(address, 4)
        }),
{
    crate::aarch64::encode::lemma_class_disjoint(word);
}

/// A `JmpImmediate` thunk finalized at `dest`, with its inline literal in
/// memory, transfers control to the captured absolute address through `X17`.
pub proof fn lemma_jmp_imm_thunk_effect(m: Machine, target: u64, dest: u64)
    requires
        m_wf(m),
        m.pc == dest,
        read64(m.mem, w_add(dest, 8)) == target,
    ensures
        run(m, jmp_imm_words()).pc == target,
        run(m, jmp_imm_words()).mem == m.mem,
        run(m, jmp_imm_words()).regs =~= m.regs.update(17, target),
{
    reveal_with_fuel(run, 7);
    let ws = jmp_imm_words();
    lemma_ldr_lit_fields(17, 2);
    lemma_br_fields(17);
    lemma_jmp_literal_offset();
    let m1 = step(m, ws[0]);
    let m2 = step(m1, ws[1]);
    assert(ws.drop_first() =~= seq![ws[1]]);
    assert(ws.drop_first().drop_first() =~= Seq::<u32>::empty());
    assert(reg_val(m1, 17) == target);
    assert(run(m, ws) == m2);
    assert(m2.regs =~= m.regs.update(17, target));
}

/// A `JmpIndirect` thunk finalized at `dest` transfers control to the
/// address stored at the captured slot, through `X17`.
pub proof fn lemma_jmp_ind_thunk_effect(m: Machine, value_addr: u64, dest: u64)
    requires
        m_wf(m),
        m.pc == dest,
        value_addr % 8 == 0,
        fits_simm21(w_sub(value_addr >> 12, dest >> 12)),
    ensures
        run(m, jmp_ind_words(value_addr, dest)).pc == read64(m.mem, value_addr),
        run(m, jmp_ind_words(value_addr, dest)).mem == m.mem,
        run(m, jmp_ind_words(value_addr, dest)).regs =~= m.regs.update(
            17,
            read64(m.mem, value_addr),
        ),
{
    reveal_with_fuel(run, 7);
    let ws = jmp_ind_words(value_addr, dest);
    let pg = w_sub(value_addr >> 12, dest >> 12);
    lemma_page_delta(dest, value_addr);
    lemma_adrp_fields(17, pg & 0x1F_FFFF);
    lemma_ldr_off_addr(value_addr);
    lemma_ldr_off_fields(17, 17, ((value_addr & 0xFFF) >> 3) as u32);
    lemma_br_fields(17);
    let m1 = step(m, ws[0]);
    let m2 = step(m1, ws[1]);
    let m3 = step(m2, ws[2]);
    assert(ws.drop_first() =~= seq![ws[1], ws[2]]);
    assert(ws.drop_first().drop_first() =~= seq![ws[2]]);
    assert(ws.drop_first().drop_first().drop_first() =~= Seq::<u32>::empty());
    assert(reg_val(m1, 17) == value_addr & 0xFFFF_FFFF_FFFF_F000);
    assert(reg_val(m2, 17) == read64(m.mem, value_addr));
    assert(run(m, ws) == m3);
    assert(m3.regs =~= m.regs.update(17, read64(m.mem, value_addr)));
}

} // verus!
