//! Trampoline synthesis.
//!
//! The builder decodes the target's prolog word by word, turns each
//! instruction into a thunk — verbatim for position-independent words,
//! relocating for PC-relative ones — and, unless the prolog ends in a
//! terminator, appends a tail branch back to the first byte it did not
//! consume.  The returned prolog size is the number of bytes a patcher may
//! overwrite.
use crate::aarch64::decode::{decode_word, spec_classify, spec_ends_code, Insn, InsnKind};
use crate::aarch64::encode::w_add;
use crate::aarch64::thunk::{gen_adr, gen_adrp, gen_jmp_immediate, gen_ldr_literal};
use crate::error::Error;
use crate::pic::{le4, total_len, CodeEmitter, Thunk};
use vstd::prelude::*;

verus! {

/// The `j`-th little-endian instruction word of `code`.
pub open spec fn word_at(code: Seq<u8>, j: int) -> u32
    recommends
        0 <= j,
        4 * j + 4 <= code.len(),
{
    (code[4 * j] as u32) | ((code[4 * j + 1] as u32) << 8) | ((code[4 * j + 2] as u32) << 16) | ((
    code[4 * j + 3] as u32) << 24)
}

/// The meaning of the `j`-th word of a prolog fetched from `target`.
pub open spec fn kind_at(code: Seq<u8>, target: u64, j: int) -> InsnKind {
    spec_classify(word_at(code, j), w_add(target, (4 * j) as u64))
}

/// Can the builder produce a thunk for this instruction?
pub open spec fn supported(kind: InsnKind) -> bool {
    match kind {
        InsnKind::LitOther => false,
        InsnKind::Bl => false,
        _ => true,
    }
}

/// The thunk the builder emits for one classified word.
pub open spec fn thunk_matches(t: Thunk, kind: InsnKind, word: u32) -> bool {
    match kind {
        InsnKind::Adr { rd, target } => t == (Thunk::Adr { rd, target }),
        InsnKind::Adrp { rd, target } => t == (Thunk::Adrp { rd, target }),
        InsnKind::LdrLit { rt, target } => t == (Thunk::LdrLit { rt, target }),
        InsnKind::B { target } => t == (Thunk::JmpImmediate { target }),
        InsnKind::CondBr { target } => if word & 0xF >= 14 {
            t == (Thunk::JmpImmediate { target })
        } else {
            t == (Thunk::CondBranch { word, target })
        },
        InsnKind::CmpBr { target } => t == (Thunk::CondBranch { word, target }),
        InsnKind::TstBr { target } => t == (Thunk::CondBranch { word, target }),
        InsnKind::LdrOff { .. } => t matches Thunk::Static(v) && v@ == le4(word),
        InsnKind::Br => t matches Thunk::Static(v) && v@ == le4(word),
        InsnKind::Ret => t matches Thunk::Static(v) && v@ == le4(word),
        InsnKind::Other => t matches Thunk::Static(v) && v@ == le4(word),
        _ => false,
    }
}

/// A thunk the builder emits never exceeds twenty bytes.
pub proof fn lemma_matched_len(t: Thunk, kind: InsnKind, word: u32)
    requires
        thunk_matches(t, kind, word),
    ensures
        t.length() <= 20,
{
}

/// What [`Builder::build`] promises of a trampoline it returns for the
/// prolog bytes `code` of a target at `target` with margin `margin`.
///
/// The first `prolog_size / 4` words are each supported and represented by
/// their thunk, every word before the last neither terminates the prolog
/// nor reaches the margin, and the emitter ends either with the terminator
/// word's thunk or with a tail branch to `target + prolog_size`.
pub open spec fn trampoline_ok(t: Trampoline, code: Seq<u8>, target: u64, margin: nat) -> bool {
    let n = t.prolog_size as int / 4;
    &&& t.prolog_size % 4 == 0
    &&& 4 <= t.prolog_size
    &&& (t.prolog_size as int) <= margin + 4
    &&& 4 * n <= code.len()
    &&& total_len(t.emitter.thunks@) <= usize::MAX
    &&& forall|j: int|
        0 <= j < n ==> supported(#[trigger] kind_at(code, target, j)) && thunk_matches(
            t.emitter.thunks@[j],
            kind_at(code, target, j),
            word_at(code, j),
        )
    &&& forall|j: int|
        0 <= j < n - 1 ==> !spec_ends_code(#[trigger] kind_at(code, target, j)) && 4 * (j + 1)
            < margin
    &&& if spec_ends_code(kind_at(code, target, n - 1)) {
        t.emitter.thunks@.len() == n
    } else {
        &&& 4 * n >= margin
        &&& 4 * n + 4 <= code.len()
        &&& t.emitter.thunks@.len() == n + 1
        &&& t.emitter.thunks@[n] == (Thunk::JmpImmediate {
            target: w_add(target, t.prolog_size as u64),
        })
    }
}

/// Law: a target whose first instruction already terminates the code gets
/// a trampoline of exactly that instruction: the prolog is one word and no
/// tail branch is appended.
pub proof fn lemma_first_terminator(t: Trampoline, code: Seq<u8>, target: u64, margin: nat)
    requires
        trampoline_ok(t, code, target, margin),
        spec_ends_code(kind_at(code, target, 0)),
    ensures
        t.prolog_size == 4,
        t.emitter.thunks@.len() == 1,
{
    let n = t.prolog_size as int / 4;
    if n >= 2 {
        assert(!spec_ends_code(kind_at(code, target, 0)));
    }
}

/// Law: every relocated instruction of a built trampoline is faithful.
/// Take the `j`-th prolog word, one machine about to execute it at its
/// original address and another, with the same registers and memory,
/// about to execute the corresponding thunk's words at any destination:
/// the thunk leaves the registers exactly as the original instruction
/// does.  For a literal load the long encoding may also use the scratch
/// register `X17`; for a terminating branch, both machines continue at
/// the same address once the thunk's inline literal is in memory.
pub proof fn lemma_trampoline_position_faithful(
    t: Trampoline,
    code: Seq<u8>,
    target: u64,
    margin: nat,
    j: int,
    m0: crate::aarch64::sem::Machine,
    m1: crate::aarch64::sem::Machine,
    dest: u64,
)
    requires
        trampoline_ok(t, code, target, margin),
        0 <= j < t.prolog_size as int / 4,
        crate::aarch64::sem::m_wf(m0),
        crate::aarch64::sem::m_wf(m1),
        m0.regs == m1.regs,
        m0.mem == m1.mem,
        m0.pc == w_add(target, (4 * j) as u64),
        m1.pc == dest,
    ensures
        kind_at(code, target, j) matches InsnKind::Adr { rd, target: tgt } ==> crate::aarch64::sem::run(
            m1,
            crate::pic::adr_words(rd, tgt, dest),
        ).regs =~= crate::aarch64::sem::step(m0, word_at(code, j)).regs,
        kind_at(code, target, j) matches InsnKind::Adrp { rd, target: tgt } ==> crate::aarch64::sem::run(
            m1,
            crate::pic::adrp_words(rd, tgt, dest),
        ).regs =~= crate::aarch64::sem::step(m0, word_at(code, j)).regs,
        kind_at(code, target, j) matches InsnKind::LdrLit { rt, target: tgt } ==> crate::aarch64::sem::reg_val(
            crate::aarch64::sem::run(m1, crate::pic::ldr_lit_words(rt, tgt, dest)),
            rt,
        ) == crate::aarch64::sem::reg_val(crate::aarch64::sem::step(m0, word_at(code, j)), rt),
        kind_at(code, target, j) matches InsnKind::B { target: tgt } && crate::aarch64::sem::read64(
            m1.mem,
            w_add(dest, 8),
        ) == tgt ==> crate::aarch64::sem::run(m1, crate::pic::jmp_imm_words()).pc
            == crate::aarch64::sem::step(m0, word_at(code, j)).pc,
{
    let w = word_at(code, j);
    let addr = w_add(target, (4 * j) as u64);
    crate::aarch64::reloc::lemma_classify_effect(m0, w, addr);
    match kind_at(code, target, j) {
        InsnKind::Adr { rd, target: tgt } => {
            assert(rd < 31);
            crate::aarch64::reloc::lemma_adr_thunk_effect(m1, rd, tgt, dest);
        },
        InsnKind::Adrp { rd, target: tgt } => {
            assert(rd < 31);
            assert(tgt & 0xFFF == 0) by {
                lemma_adrp_target_aligned(w, addr);
            }
            crate::aarch64::reloc::lemma_adrp_thunk_effect(m1, rd, tgt, dest);
        },
        InsnKind::LdrLit { rt, target: tgt } => {
            assert(rt < 31);
            crate::aarch64::reloc::lemma_ldr_lit_thunk_effect(m1, rt, tgt, dest);
        },
        InsnKind::B { target: tgt } => {
            if crate::aarch64::sem::read64(m1.mem, w_add(dest, 8)) == tgt {
                crate::aarch64::reloc::lemma_jmp_imm_thunk_effect(m1, tgt, dest);
            }
        },
        _ => {},
    }
}

/// The absolute operand the classifier captures for `ADRP` is page-aligned.
proof fn lemma_adrp_target_aligned(w: u32, addr: u64)
    requires
        crate::aarch64::decode::spec_classify(w, addr) matches InsnKind::Adrp { .. },
    ensures
        (crate::aarch64::decode::spec_classify(w, addr) matches InsnKind::Adrp { target: tgt, .. }
            ==> tgt & 0xFFF == 0),
{
    let imm = crate::aarch64::encode::field_imm21(w);
    assert(w_add(addr & 0xFFFF_FFFF_FFFF_F000, crate::aarch64::encode::sext21(imm) << 12) & 0xFFF
        == 0) by (bit_vector);
}

/// A synthesized trampoline: the emitter holding its code and the number
/// of prolog bytes it reproduces.
pub struct Trampoline {
    /// The thunks that form the trampoline's code.
    pub emitter: CodeEmitter,
    /// The number of target bytes disassembled into the trampoline.
    pub prolog_size: usize,
}

impl Trampoline {
    /// Builds a trampoline for the target at `target` whose prolog bytes
    /// are `code`, disassembling at least `margin` bytes.
    pub fn new(target: u64, margin: usize, code: &[u8]) -> (r: Result<Trampoline, Error>)
        requires
            margin <= 4096,
        ensures
            r matches Ok(t) ==> trampoline_ok(t, code@, target, margin as nat),
            r matches Err(e) ==> e == Error::InvalidCode || e == Error::UnsupportedInstruction,
            r == Err::<Trampoline, Error>(Error::InvalidCode) ==> code@.len() < margin + 8,
            code@.len() >= margin + 8 && (forall|j: int|
                0 <= j && 4 * j < margin + 4 ==> supported(
                    #[trigger] kind_at(code@, target, j),
                )) ==> r is Ok,
            margin % 4 == 0 && code@.len() >= margin + 4 && code@.len() >= 8 && (forall|j: int|
                0 <= j && 4 * j < margin + 4 ==> supported(
                    #[trigger] kind_at(code@, target, j),
                )) ==> r is Ok,
            code@.len() >= 4 && spec_ends_code(kind_at(code@, target, 0)) ==> r is Ok,
            r == Err::<Trampoline, Error>(Error::UnsupportedInstruction) ==> exists|j: int|
                0 <= j && 4 * j < margin + 4 && 4 * j + 4 <= code@.len() && !supported(
                    #[trigger] kind_at(code@, target, j),
                ),
    {
        Builder::new(target, margin).build(code)
    }

    /// The trampoline's code emitter.
    pub fn emitter(&self) -> (r: &CodeEmitter)
        ensures
            *r == self.emitter,
    {
        &self.emitter
    }

    /// The number of bytes disassembled from the target.
    pub fn prolog_size(&self) -> (r: usize)
        ensures
            r == self.prolog_size,
    {
        self.prolog_size
    }
}

/// A trampoline builder for one target.
pub struct Builder {
    /// Total number of bytes disassembled so far.
    pub total_bytes_disassembled: usize,
    /// The preferred minimum number of bytes to disassemble.
    pub margin: usize,
    /// Whether disassembling has finished.
    pub finished: bool,
    /// The target the trampoline is adapted for.
    pub target: u64,
}

impl Builder {
    /// Returns a builder for the target at `target`.
    pub fn new(target: u64, margin: usize) -> (r: Builder)
        ensures
            r.target == target,
            r.margin == margin,
            r.total_bytes_disassembled == 0,
            !r.finished,
    {
        Builder { total_bytes_disassembled: 0, finished: false, target, margin }
    }

    /// Disassembles the prolog bytes `code` and assembles the trampoline.
    pub fn build(self, code: &[u8]) -> (r: Result<Trampoline, Error>)
        requires
            self.margin <= 4096,
            self.total_bytes_disassembled == 0,
            !self.finished,
        ensures
            r matches Ok(t) ==> trampoline_ok(t, code@, self.target, self.margin as nat),
            r matches Err(e) ==> e == Error::InvalidCode || e == Error::UnsupportedInstruction,
            r == Err::<Trampoline, Error>(Error::InvalidCode) ==> code@.len() < self.margin + 8,
            code@.len() >= self.margin + 8 && (forall|j: int|
                0 <= j && 4 * j < self.margin + 4 ==> supported(
                    #[trigger] kind_at(code@, self.target, j),
                )) ==> r is Ok,
            self.margin % 4 == 0 && code@.len() >= self.margin + 4 && code@.len() >= 8 && (forall|
                j: int,
            |
                0 <= j && 4 * j < self.margin + 4 ==> supported(
                    #[trigger] kind_at(code@, self.target, j),
                )) ==> r is Ok,
            code@.len() >= 4 && spec_ends_code(kind_at(code@, self.target, 0)) ==> r is Ok,
            r == Err::<Trampoline, Error>(Error::UnsupportedInstruction) ==> exists|j: int|
                0 <= j && 4 * j < self.margin + 4 && 4 * j + 4 <= code@.len() && !supported(
                    #[trigger] kind_at(code@, self.target, j),
                ),
    {
        let target: u64 = self.target;
        let margin: usize = self.margin;
        let ghost codeq = code@;
        let mut emitter = CodeEmitter::new();
        let mut bytes: usize = 0;
        let mut finished: bool = false;
        let mut terminated: bool = false;
        while !finished
            invariant
                margin == self.margin,
                target == self.target,
                margin <= 4096,
                bytes % 4 == 0,
                bytes <= margin + 4,
                code@ == codeq,
                4 * (bytes as int / 4) <= codeq.len(),
                emitter.thunks@.len() == bytes as int / 4 + (if finished && !terminated {
                    1int
                } else {
                    0int
                }),
                total_len(emitter.thunks@) <= 20 * emitter.thunks@.len(),
                finished ==> bytes >= 4,
                forall|j: int|
                    0 <= j < bytes as int / 4 ==> supported(#[trigger] kind_at(codeq, target, j))
                        && thunk_matches(
                        emitter.thunks@[j],
                        kind_at(codeq, target, j),
                        word_at(codeq, j),
                    ),
                forall|j: int|
                    0 <= j < bytes as int / 4 - 1 ==> !spec_ends_code(
                        #[trigger] kind_at(codeq, target, j),
                    ) && 4 * (j + 1) < margin,
                !finished && bytes > 0 ==> !spec_ends_code(
                    kind_at(codeq, target, bytes as int / 4 - 1),
                ) && bytes < margin,
                terminated ==> finished,
                finished && terminated ==> spec_ends_code(
                    kind_at(codeq, target, bytes as int / 4 - 1),
                ),
                finished && !terminated ==> bytes >= margin && 4 * (bytes as int / 4) + 4
                    <= codeq.len() && emitter.thunks@.last() == (Thunk::JmpImmediate {
                    target: w_add(target, bytes as u64),
                }) && !spec_ends_code(kind_at(codeq, target, bytes as int / 4 - 1)),
            decreases margin + 8 - bytes,
        {
            if bytes + 4 > code.len() {
                return Err(Error::InvalidCode);
            }
            let w: u32 = (code[bytes] as u32) | ((code[bytes + 1] as u32) << 8) | ((code[bytes
                + 2] as u32) << 16) | ((code[bytes + 3] as u32) << 24);
            let insn = decode_word(w, target.wrapping_add(bytes as u64));
            proof {
                assert(w == word_at(codeq, bytes as int / 4));
                assert(insn.kind == kind_at(codeq, target, bytes as int / 4));
            }
            let thunk = match copy_instruction(&insn) {
                Ok(t) => t,
                Err(e) => {
                    proof {
                        assert(4 * (bytes as int / 4) < margin + 4 && 4 * (bytes as int / 4) + 4
                            <= codeq.len() && !supported(kind_at(codeq, target, bytes as int / 4)));
                    }
                    return Err(e);
                },
            };
            proof {
                lemma_matched_len(thunk, insn.kind, insn.word);
            }
            emitter.add_thunk(thunk);
            bytes = bytes + 4;
            if instruction_ends_code(&insn) {
                finished = true;
                terminated = true;
            }
            if bytes >= margin && !finished {
                finished = true;
                if bytes + 4 > code.len() {
                    return Err(Error::InvalidCode);
                }
                emitter.add_thunk(gen_jmp_immediate(target.wrapping_add(bytes as u64)));
            }
        }
        Ok(Trampoline { emitter, prolog_size: bytes })
    }
}

/// Turns one classified instruction into its thunk: verbatim for
/// position-independent words, relocating for the PC-relative forms.
fn copy_instruction(instruction: &Insn) -> (r: Result<Thunk, Error>)
    ensures
        (r matches Ok(t) && supported(instruction.kind) && thunk_matches(
            t,
            instruction.kind,
            instruction.word,
        )) || (r matches Err(e) && e == Error::UnsupportedInstruction && !supported(
            instruction.kind,
        )),
{
    match instruction.kind {
        InsnKind::Adr { .. } => gen_adr(instruction),
        InsnKind::Adrp { .. } => gen_adrp(instruction),
        InsnKind::LdrLit { .. } => gen_ldr_literal(instruction),
        InsnKind::B { target } => Ok(gen_jmp_immediate(target)),
        InsnKind::CondBr { target } => {
            // B.AL and B.NV always branch; inverting them would not negate
            // the condition, so they take the absolute-jump thunk instead.
            if instruction.word & 0xF >= 14 {
                Ok(gen_jmp_immediate(target))
            } else {
                Ok(Thunk::CondBranch { word: instruction.word, target })
            }
        },
        InsnKind::CmpBr { target } => Ok(Thunk::CondBranch { word: instruction.word, target }),
        InsnKind::TstBr { target } => Ok(Thunk::CondBranch { word: instruction.word, target }),
        InsnKind::LitOther => Err(Error::UnsupportedInstruction),
        InsnKind::Bl => Err(Error::UnsupportedInstruction),
        _ => {
            let mut v: Vec<u8> = Vec::new();
            let w: u32 = instruction.word;
            v.push(w as u8);
            v.push((w >> 8) as u8);
            v.push((w >> 16) as u8);
            v.push((w >> 24) as u8);
            assert(v@ =~= le4(w));
            Ok(Thunk::Static(v))
        },
    }
}

/// Does this instruction end the function's code?
fn instruction_ends_code(instruction: &Insn) -> (r: bool)
    ensures
        r == spec_ends_code(instruction.kind),
{
    match instruction.kind {
        InsnKind::B { .. } => true,
        InsnKind::Br => true,
        InsnKind::Ret => true,
        _ => false,
    }
}

} // verus!
