//! Position-independent code fragments.
//!
//! A [`Thunk`] is a fragment with a fixed byte length whose exact bytes are
//! computed once its destination address is known.  A [`CodeEmitter`] is an
//! ordered sequence of thunks; emitting at a destination concatenates every
//! thunk's bytes, finalizing each at its own offset.  The emitted size never
//! depends on the destination.
use crate::aarch64::encode::{
    enc_add_imm, enc_adr, enc_adrp, enc_br, enc_ldr_lit, enc_ldr_off, enc_movk, check_b14,
    check_b19, check_ldr_lit, check_simm21, fits_b14, fits_b19, fits_ldr_lit, fits_simm21,
    invert_branch, is_tb, reenc14, reenc19, spec_enc_add_imm, spec_enc_adr, spec_enc_adrp,
    spec_enc_br, spec_enc_ldr_lit, spec_enc_ldr_off, spec_enc_movk, spec_invert, spec_reenc14,
    spec_reenc19, w_add, w_sub, NOP_WORD,
};
use vstd::prelude::*;

verus! {

/// A position-independent code fragment of fixed size.
///
/// `Static` carries bytes that are the same at every destination.  The other
/// variants relocate one PC-relative instruction, or branch to an absolute
/// address; each records the absolute operand captured from the original
/// instruction and chooses its encoding at finalize time.
pub enum Thunk {
    /// Verbatim bytes, destination-independent.
    Static(Vec<u8>),
    /// Loads the absolute address `target` into `Xrd`.
    Adr { rd: u32, target: u64 },
    /// Loads the absolute page address `target` into `Xrd`.
    Adrp { rd: u32, target: u64 },
    /// Loads the 64-bit value stored at the absolute address `target` into `Xrt`.
    LdrLit { rt: u32, target: u64 },
    /// Branches to the absolute address `target` through `X17` and an
    /// inline literal.
    JmpImmediate { target: u64 },
    /// Branches to the address stored at `value_addr`, through `X17`;
    /// `value_addr` must be 8-byte aligned and within `ADRP` reach.
    JmpIndirect { value_addr: u64 },
    /// Relocates the conditional branch `word` to its absolute `target`:
    /// re-encoded when in reach, else inverted around an absolute branch.
    CondBranch { word: u32, target: u64 },
}

/// Does the conditional branch word reach over the wrapped difference `d`?
/// Test branches have a 14-bit immediate; the other forms have 19 bits.
pub open spec fn branch_fits(word: u32, d: u64) -> bool {
    if is_tb(word) {
        fits_b14(d)
    } else {
        fits_b19(d)
    }
}

/// Re-encodes a conditional branch word with a new byte offset.
pub open spec fn spec_reenc_branch(word: u32, d: u64) -> u32 {
    if is_tb(word) {
        spec_reenc14(word, d)
    } else {
        spec_reenc19(word, d)
    }
}

/// The words of a [`Thunk::CondBranch`] thunk finalized at `dest`: the
/// branch re-encoded towards the target when in reach; otherwise the
/// inverted branch skips an absolute jump through `X17` whose literal sits
/// at offset twelve.
pub open spec fn cond_branch_words(word: u32, target: u64, dest: u64) -> Seq<u32> {
    let d = w_sub(target, dest);
    if branch_fits(word, d) {
        seq![spec_reenc_branch(word, d), NOP_WORD, NOP_WORD, NOP_WORD, NOP_WORD]
    } else {
        seq![spec_reenc_branch(spec_invert(word), 20), spec_enc_ldr_lit(17, 2), spec_enc_br(17)]
    }
}

// ---------------------------------------------------------------------------
// Byte images.
// ---------------------------------------------------------------------------

/// The little-endian bytes of one instruction word.
pub open spec fn le4(w: u32) -> Seq<u8> {
    seq![w as u8, (w >> 8) as u8, (w >> 16) as u8, (w >> 24) as u8]
}

/// The little-endian bytes of a 64-bit value.
pub open spec fn le8(v: u64) -> Seq<u8> {
    seq![
        v as u8,
        (v >> 8) as u8,
        (v >> 16) as u8,
        (v >> 24) as u8,
        (v >> 32) as u8,
        (v >> 40) as u8,
        (v >> 48) as u8,
        (v >> 56) as u8,
    ]
}

// ---------------------------------------------------------------------------
// The word sequences each relocating thunk emits.
// ---------------------------------------------------------------------------

/// Four `MOVK` words that build the 64-bit constant `v` in `Xrd`.
pub open spec fn movk_words(rd: u32, v: u64) -> Seq<u32> {
    seq![
        spec_enc_movk(rd, (v & 0xFFFF) as u32, 0),
        spec_enc_movk(rd, ((v >> 16) & 0xFFFF) as u32, 1),
        spec_enc_movk(rd, ((v >> 32) & 0xFFFF) as u32, 2),
        spec_enc_movk(rd, ((v >> 48) & 0xFFFF) as u32, 3),
    ]
}

/// The words of an [`Thunk::Adr`] thunk finalized at `dest`: the shortest
/// of `ADR`, `ADRP`+`ADD`, or a `MOVK` chain, padded with NOP to four
/// words.  The pair's reach is decided on the page delta, the quantity the
/// `ADRP` immediate encodes, not on the byte distance.
pub open spec fn adr_words(rd: u32, target: u64, dest: u64) -> Seq<u32> {
    let delta = w_sub(target, dest);
    let pg = w_sub(target >> 12, dest >> 12);
    if fits_simm21(delta) {
        seq![spec_enc_adr(rd, delta & 0x1F_FFFF), NOP_WORD, NOP_WORD, NOP_WORD]
    } else if fits_simm21(pg) {
        seq![
            spec_enc_adrp(rd, pg & 0x1F_FFFF),
            spec_enc_add_imm(rd, rd, (target & 0xFFF) as u32),
            NOP_WORD,
            NOP_WORD,
        ]
    } else {
        movk_words(rd, target)
    }
}

/// The words of an [`Thunk::Adrp`] thunk finalized at `dest`.
pub open spec fn adrp_words(rd: u32, target: u64, dest: u64) -> Seq<u32> {
    let pg = w_sub(target >> 12, dest >> 12);
    if fits_simm21(pg) {
        seq![spec_enc_adrp(rd, pg & 0x1F_FFFF), NOP_WORD, NOP_WORD, NOP_WORD]
    } else {
        movk_words(rd, target)
    }
}

/// The words of an [`Thunk::LdrLit`] thunk finalized at `dest`: a direct
/// literal load when the literal is in reach, else the address is built in
/// the scratch register `X17` and dereferenced.  The direct form's reach
/// is the architectural one — the word's 19-bit scaled immediate spans
/// [-2^20, 2^20) bytes, no more.
pub open spec fn ldr_lit_words(rt: u32, target: u64, dest: u64) -> Seq<u32> {
    let delta = w_sub(target, dest);
    if fits_ldr_lit(delta) {
        seq![
            spec_enc_ldr_lit(rt, ((delta >> 2) & 0x7_FFFF) as u32),
            NOP_WORD,
            NOP_WORD,
            NOP_WORD,
            NOP_WORD,
        ]
    } else {
        movk_words(17, target).push(spec_enc_ldr_off(rt, 17, 0))
    }
}

/// The two executed words of a [`Thunk::JmpImmediate`] thunk: load the
/// literal placed right behind them, branch through `X17`.
pub open spec fn jmp_imm_words() -> Seq<u32> {
    seq![spec_enc_ldr_lit(17, 2), spec_enc_br(17)]
}

/// The words of a [`Thunk::JmpIndirect`] thunk finalized at `dest`.
pub open spec fn jmp_ind_words(value_addr: u64, dest: u64) -> Seq<u32> {
    let pg = w_sub(value_addr >> 12, dest >> 12);
    seq![
        spec_enc_adrp(17, pg & 0x1F_FFFF),
        spec_enc_ldr_off(17, 17, ((value_addr & 0xFFF) >> 3) as u32),
        spec_enc_br(17),
    ]
}

/// Law: an `Adr` thunk picks the shortest encoding that reaches, by the
/// exact architectural bounds: the single `ADR` while the byte offset lies
/// in [-2^20, 2^20), the `ADRP`+`ADD` pair while only the page offset
/// does, and the `MOVK` chain beyond.
pub proof fn lemma_adr_encoding_choice(rd: u32, target: u64, dest: u64)
    ensures
        fits_simm21(w_sub(target, dest)) ==> adr_words(rd, target, dest)[0] == spec_enc_adr(
            rd,
            w_sub(target, dest) & 0x1F_FFFF,
        ),
        !fits_simm21(w_sub(target, dest)) && fits_simm21(w_sub(target >> 12, dest >> 12))
            ==> adr_words(rd, target, dest)[0] == spec_enc_adrp(
            rd,
            w_sub(target >> 12, dest >> 12) & 0x1F_FFFF,
        ) && adr_words(rd, target, dest)[1] == spec_enc_add_imm(rd, rd, (target & 0xFFF) as u32),
        !fits_simm21(w_sub(target, dest)) && !fits_simm21(w_sub(target >> 12, dest >> 12))
            ==> adr_words(rd, target, dest) == movk_words(rd, target),
{
}

/// The inline literal of a finalized `JmpImmediate` thunk: the eight bytes
/// after its two executed words hold the absolute target, so a loaded
/// image satisfies the branch lemma's memory hypothesis.
pub proof fn lemma_jmp_immediate_literal(target: u64, dest: u64)
    ensures
        (Thunk::JmpImmediate { target }).spec_finalize(dest).skip(8) == le8(target),
{
    lemma_words_bytes_len(jmp_imm_words());
    assert((Thunk::JmpImmediate { target }).spec_finalize(dest).skip(8) =~= le8(target));
}

/// The inline literal of a finalized out-of-reach `CondBranch` thunk: the
/// eight bytes after its three executed words hold the absolute target.
pub proof fn lemma_cond_branch_literal(word: u32, target: u64, dest: u64)
    requires
        !branch_fits(word, w_sub(target, dest)),
    ensures
        (Thunk::CondBranch { word, target }).spec_finalize(dest).skip(12) == le8(target),
{
    lemma_words_bytes_len(cond_branch_words(word, target, dest));
    assert((Thunk::CondBranch { word, target }).spec_finalize(dest).skip(12) =~= le8(target));
}

/// Concatenated bytes of a word sequence.
pub open spec fn words_bytes(ws: Seq<u32>) -> Seq<u8>
    decreases ws.len(),
{
    if ws.len() == 0 {
        Seq::empty()
    } else {
        le4(ws[0]) + words_bytes(ws.drop_first())
    }
}

/// The byte image of a word sequence is four bytes per word.
pub proof fn lemma_words_bytes_len(ws: Seq<u32>)
    ensures
        words_bytes(ws).len() == 4 * ws.len(),
    decreases ws.len(),
{
    if ws.len() > 0 {
        lemma_words_bytes_len(ws.drop_first());
    }
}

impl Thunk {
    /// Registers named by the thunk are general registers.
    pub open spec fn wf(self) -> bool {
        match self {
            Thunk::Static(_) => true,
            Thunk::Adr { rd, .. } => rd < 31,
            Thunk::Adrp { rd, .. } => rd < 31,
            Thunk::LdrLit { rt, .. } => rt < 31,
            Thunk::JmpImmediate { .. } => true,
            Thunk::JmpIndirect { .. } => true,
            Thunk::CondBranch { word, .. } => crate::aarch64::encode::is_cb(word)
                || crate::aarch64::encode::is_tb(word) || crate::aarch64::encode::is_bcond(word),
        }
    }

    /// The byte length this thunk occupies, the same at every destination.
    pub open spec fn length(self) -> nat {
        match self {
            Thunk::Static(v) => v@.len(),
            Thunk::Adr { .. } => 16,
            Thunk::Adrp { .. } => 16,
            Thunk::LdrLit { .. } => 20,
            Thunk::JmpImmediate { .. } => 16,
            Thunk::JmpIndirect { .. } => 12,
            Thunk::CondBranch { .. } => 20,
        }
    }

    /// The bytes this thunk assumes once its destination is `dest`.
    pub open spec fn spec_finalize(self, dest: u64) -> Seq<u8> {
        match self {
            Thunk::Static(v) => v@,
            Thunk::Adr { rd, target } => words_bytes(adr_words(rd, target, dest)),
            Thunk::Adrp { rd, target } => words_bytes(adrp_words(rd, target, dest)),
            Thunk::LdrLit { rt, target } => words_bytes(ldr_lit_words(rt, target, dest)),
            Thunk::JmpImmediate { target } => words_bytes(jmp_imm_words()) + le8(target),
            Thunk::JmpIndirect { value_addr } => words_bytes(jmp_ind_words(value_addr, dest)),
            Thunk::CondBranch { word, target } => if branch_fits(word, w_sub(target, dest)) {
                words_bytes(cond_branch_words(word, target, dest))
            } else {
                words_bytes(cond_branch_words(word, target, dest)) + le8(target)
            },
        }
    }

    /// The finalized image always fills exactly [`Thunk::length`] bytes.
    pub proof fn lemma_finalize_len(self, dest: u64)
        ensures
            self.spec_finalize(dest).len() == self.length(),
    {
        match self {
            Thunk::Static(_) => {},
            Thunk::Adr { rd, target } => {
                lemma_words_bytes_len(adr_words(rd, target, dest));
            },
            Thunk::Adrp { rd, target } => {
                lemma_words_bytes_len(adrp_words(rd, target, dest));
            },
            Thunk::LdrLit { rt, target } => {
                lemma_words_bytes_len(ldr_lit_words(rt, target, dest));
            },
            Thunk::JmpImmediate { .. } => {
                lemma_words_bytes_len(jmp_imm_words());
            },
            Thunk::JmpIndirect { value_addr } => {
                lemma_words_bytes_len(jmp_ind_words(value_addr, dest));
            },
            Thunk::CondBranch { word, target } => {
                lemma_words_bytes_len(cond_branch_words(word, target, dest));
            },
        }
    }

    /// The byte length of this thunk.
    pub fn len(&self) -> (r: usize)
        ensures
            r == self.length(),
    {
        match self {
            Thunk::Static(v) => v.len(),
            Thunk::Adr { .. } => 16,
            Thunk::Adrp { .. } => 16,
            Thunk::LdrLit { .. } => 20,
            Thunk::JmpImmediate { .. } => 16,
            Thunk::JmpIndirect { .. } => 12,
            Thunk::CondBranch { .. } => 20,
        }
    }

    /// Computes the bytes of this thunk for the destination `dest`.
    pub fn finalize(&self, dest: u64) -> (r: Vec<u8>)
        ensures
            r@ == self.spec_finalize(dest),
            r@.len() == self.length(),
    {
        proof {
            self.lemma_finalize_len(dest);
        }
        let mut out: Vec<u8> = Vec::new();
        match self {
            Thunk::Static(v) => {
                push_bytes(&mut out, v);
                assert(out@ =~= self.spec_finalize(dest));
            },
            Thunk::Adr { rd, target } => {
                let rd: u32 = *rd;
                let target: u64 = *target;
                let delta: u64 = target.wrapping_sub(dest);
                let pg: u64 = (target >> 12).wrapping_sub(dest >> 12);
                if check_simm21(delta) {
                    push_word(&mut out, enc_adr(rd, delta & 0x1F_FFFF));
                    push_word(&mut out, NOP_WORD);
                    push_word(&mut out, NOP_WORD);
                    push_word(&mut out, NOP_WORD);
                } else if check_simm21(pg) {
                    push_word(&mut out, enc_adrp(rd, pg & 0x1F_FFFF));
                    push_word(&mut out, enc_add_imm(rd, rd, (target & 0xFFF) as u32));
                    push_word(&mut out, NOP_WORD);
                    push_word(&mut out, NOP_WORD);
                } else {
                    push_movk_chain(&mut out, rd, target);
                }
                proof {
                    lemma_words_bytes_4(adr_words(rd, target, dest));
                    assert(out@ =~= self.spec_finalize(dest));
                }
            },
            Thunk::Adrp { rd, target } => {
                let rd: u32 = *rd;
                let target: u64 = *target;
                let pg: u64 = (target >> 12).wrapping_sub(dest >> 12);
                if check_simm21(pg) {
                    push_word(&mut out, enc_adrp(rd, pg & 0x1F_FFFF));
                    push_word(&mut out, NOP_WORD);
                    push_word(&mut out, NOP_WORD);
                    push_word(&mut out, NOP_WORD);
                } else {
                    push_movk_chain(&mut out, rd, target);
                }
                proof {
                    lemma_words_bytes_4(adrp_words(rd, target, dest));
                    assert(out@ =~= self.spec_finalize(dest));
                }
            },
            Thunk::LdrLit { rt, target } => {
                let rt: u32 = *rt;
                let target: u64 = *target;
                let delta: u64 = target.wrapping_sub(dest);
                if check_ldr_lit(delta) {
                    push_word(&mut out, enc_ldr_lit(rt, ((delta >> 2) & 0x7_FFFF) as u32));
                    push_word(&mut out, NOP_WORD);
                    push_word(&mut out, NOP_WORD);
                    push_word(&mut out, NOP_WORD);
                    push_word(&mut out, NOP_WORD);
                } else {
                    push_movk_chain(&mut out, 17, target);
                    push_word(&mut out, enc_ldr_off(rt, 17, 0));
                }
                proof {
                    lemma_words_bytes_5(ldr_lit_words(rt, target, dest));
                    lemma_words_bytes_4(movk_words(17, target));
                    assert(out@ =~= self.spec_finalize(dest));
                }
            },
            Thunk::JmpImmediate { target } => {
                let target: u64 = *target;
                push_word(&mut out, enc_ldr_lit(17, 2));
                push_word(&mut out, enc_br(17));
                push_qword(&mut out, target);
                proof {
                    lemma_words_bytes_2(jmp_imm_words());
                    assert(out@ =~= self.spec_finalize(dest));
                }
            },
            Thunk::JmpIndirect { value_addr } => {
                let value_addr: u64 = *value_addr;
                let pg: u64 = (value_addr >> 12).wrapping_sub(dest >> 12);
                push_word(&mut out, enc_adrp(17, pg & 0x1F_FFFF));
                push_word(&mut out, enc_ldr_off(17, 17, ((value_addr & 0xFFF) >> 3) as u32));
                push_word(&mut out, enc_br(17));
                proof {
                    lemma_words_bytes_3(jmp_ind_words(value_addr, dest));
                    assert(out@ =~= self.spec_finalize(dest));
                }
            },
            Thunk::CondBranch { word, target } => {
                let word: u32 = *word;
                let target: u64 = *target;
                let d: u64 = target.wrapping_sub(dest);
                let tb: bool = word & 0x7E00_0000 == 0x3600_0000;
                let fits: bool = if tb {
                    check_b14(d)
                } else {
                    check_b19(d)
                };
                if fits {
                    let w2: u32 = if tb {
                        reenc14(word, d)
                    } else {
                        reenc19(word, d)
                    };
                    push_word(&mut out, w2);
                    push_word(&mut out, NOP_WORD);
                    push_word(&mut out, NOP_WORD);
                    push_word(&mut out, NOP_WORD);
                    push_word(&mut out, NOP_WORD);
                } else {
                    let inv: u32 = invert_branch(word);
                    let w2: u32 = if tb {
                        reenc14(inv, 20)
                    } else {
                        reenc19(inv, 20)
                    };
                    push_word(&mut out, w2);
                    push_word(&mut out, enc_ldr_lit(17, 2));
                    push_word(&mut out, enc_br(17));
                    push_qword(&mut out, target);
                }
                proof {
                    assert(tb == is_tb(word));
                    if branch_fits(word, d) {
                        lemma_words_bytes_5(cond_branch_words(word, target, dest));
                    } else {
                        assert(crate::aarch64::encode::is_tb(spec_invert(word))
                            == crate::aarch64::encode::is_tb(word)) by (bit_vector);
                        lemma_words_bytes_3(cond_branch_words(word, target, dest));
                    }
                    assert(out@ =~= self.spec_finalize(dest));
                }
            },
        }
        out
    }
}

/// A two-word sequence's byte image, unrolled.
pub proof fn lemma_words_bytes_2(ws: Seq<u32>)
    requires
        ws.len() == 2,
    ensures
        words_bytes(ws) == le4(ws[0]) + le4(ws[1]),
{
    reveal_with_fuel(words_bytes, 3);
    assert(words_bytes(ws) =~= le4(ws[0]) + le4(ws[1]));
}

/// A three-word sequence's byte image, unrolled.
pub proof fn lemma_words_bytes_3(ws: Seq<u32>)
    requires
        ws.len() == 3,
    ensures
        words_bytes(ws) == le4(ws[0]) + le4(ws[1]) + le4(ws[2]),
{
    lemma_words_bytes_2(ws.drop_first());
    assert(words_bytes(ws) =~= le4(ws[0]) + le4(ws[1]) + le4(ws[2]));
}

/// A four-word sequence's byte image, unrolled.
pub proof fn lemma_words_bytes_4(ws: Seq<u32>)
    requires
        ws.len() == 4,
    ensures
        words_bytes(ws) == le4(ws[0]) + le4(ws[1]) + le4(ws[2]) + le4(ws[3]),
{
    lemma_words_bytes_3(ws.drop_first());
    assert(words_bytes(ws) =~= le4(ws[0]) + le4(ws[1]) + le4(ws[2]) + le4(ws[3]));
}

/// A five-word sequence's byte image, unrolled.
pub proof fn lemma_words_bytes_5(ws: Seq<u32>)
    requires
        ws.len() == 5,
    ensures
        words_bytes(ws) == le4(ws[0]) + le4(ws[1]) + le4(ws[2]) + le4(ws[3]) + le4(ws[4]),
{
    lemma_words_bytes_4(ws.drop_first());
    assert(words_bytes(ws) =~= le4(ws[0]) + le4(ws[1]) + le4(ws[2]) + le4(ws[3]) + le4(ws[4]));
}

/// Appends the little-endian bytes of one instruction word.
fn push_word(out: &mut Vec<u8>, w: u32)
    ensures
        final(out)@ == old(out)@ + le4(w),
{
    out.push(w as u8);
    out.push((w >> 8) as u8);
    out.push((w >> 16) as u8);
    out.push((w >> 24) as u8);
    assert(out@ =~= old(out)@ + le4(w));
}

/// Appends the little-endian bytes of a 64-bit value.
pub fn push_qword(out: &mut Vec<u8>, v: u64)
    ensures
        final(out)@ == old(out)@ + le8(v),
{
    out.push(v as u8);
    out.push((v >> 8) as u8);
    out.push((v >> 16) as u8);
    out.push((v >> 24) as u8);
    out.push((v >> 32) as u8);
    out.push((v >> 40) as u8);
    out.push((v >> 48) as u8);
    out.push((v >> 56) as u8);
    assert(out@ =~= old(out)@ + le8(v));
}

/// Appends a copy of `v`.
fn push_bytes(out: &mut Vec<u8>, v: &Vec<u8>)
    ensures
        final(out)@ == old(out)@ + v@,
{
    let mut i: usize = 0;
    while i < v.len()
        invariant
            i <= v@.len(),
            out@ == old(out)@ + v@.take(i as int),
        decreases v@.len() - i,
    {
        out.push(v[i]);
        assert(out@ =~= old(out)@ + v@.take(i as int + 1));
        i = i + 1;
    }
    assert(out@ =~= old(out)@ + v@);
}

/// Appends the four `MOVK` words building `v` in `Xrd`.
pub fn push_movk_chain(out: &mut Vec<u8>, rd: u32, v: u64)
    ensures
        final(out)@ == old(out)@ + words_bytes(movk_words(rd, v)),
{
    push_word(out, enc_movk(rd, (v & 0xFFFF) as u32, 0));
    push_word(out, enc_movk(rd, ((v >> 16) & 0xFFFF) as u32, 1));
    push_word(out, enc_movk(rd, ((v >> 32) & 0xFFFF) as u32, 2));
    push_word(out, enc_movk(rd, ((v >> 48) & 0xFFFF) as u32, 3));
    proof {
        lemma_words_bytes_4(movk_words(rd, v));
        assert(out@ =~= old(out)@ + words_bytes(movk_words(rd, v)));
    }
}

// ---------------------------------------------------------------------------
// The emitter.
// ---------------------------------------------------------------------------

/// The total byte length of a thunk sequence.
pub open spec fn total_len(ts: Seq<Thunk>) -> nat
    decreases ts.len(),
{
    if ts.len() == 0 {
        0
    } else {
        total_len(ts.drop_last()) + ts.last().length()
    }
}

/// The bytes a thunk sequence emits at `dest`: each thunk finalized at
/// `dest` plus the total length of its predecessors.
pub open spec fn spec_emit(ts: Seq<Thunk>, dest: u64) -> Seq<u8>
    decreases ts.len(),
{
    if ts.len() == 0 {
        Seq::empty()
    } else {
        spec_emit(ts.drop_last(), dest) + ts.last().spec_finalize(
            w_add(dest, total_len(ts.drop_last()) as u64),
        )
    }
}

/// The emitted image fills exactly the total length, at every destination.
pub proof fn lemma_spec_emit_len(ts: Seq<Thunk>, dest: u64)
    ensures
        spec_emit(ts, dest).len() == total_len(ts),
    decreases ts.len(),
{
    if ts.len() > 0 {
        lemma_spec_emit_len(ts.drop_last(), dest);
        ts.last().lemma_finalize_len(w_add(dest, total_len(ts.drop_last()) as u64));
    }
}

/// Law: a thunk sequence emits images of one size at every pair of
/// destinations, and that size is the sum of the declared thunk lengths.
pub proof fn lemma_emit_len_destination_independent(ts: Seq<Thunk>, d1: u64, d2: u64)
    ensures
        spec_emit(ts, d1).len() == total_len(ts),
        spec_emit(ts, d2).len() == total_len(ts),
{
    lemma_spec_emit_len(ts, d1);
    lemma_spec_emit_len(ts, d2);
}

/// A prefix never emits more than the whole sequence.
pub proof fn lemma_total_len_mono(ts: Seq<Thunk>, i: int)
    requires
        0 <= i <= ts.len(),
    ensures
        total_len(ts.take(i)) <= total_len(ts),
    decreases ts.len() - i,
{
    if i == ts.len() {
        assert(ts.take(i) =~= ts);
    } else {
        assert(ts.take(i + 1).drop_last() =~= ts.take(i));
        assert(ts.take(i + 1).last() == ts[i]);
        lemma_total_len_mono(ts, i + 1);
    }
}

/// An ordered sequence of thunks emitted together at one destination.
pub struct CodeEmitter {
    /// The thunks, in emission order.
    pub thunks: Vec<Thunk>,
}

impl CodeEmitter {
    /// Creates an empty emitter.
    pub fn new() -> (r: CodeEmitter)
        ensures
            r.thunks@ == Seq::<Thunk>::empty(),
    {
        CodeEmitter { thunks: Vec::new() }
    }

    /// Appends a thunk.
    pub fn add_thunk(&mut self, t: Thunk)
        requires
            total_len(old(self).thunks@) + t.length() <= usize::MAX,
        ensures
            final(self).thunks@ == old(self).thunks@.push(t),
            total_len(final(self).thunks@) == total_len(old(self).thunks@) + t.length(),
    {
        self.thunks.push(t);
        proof {
            assert(self.thunks@.drop_last() =~= old(self).thunks@);
        }
    }

    /// The total emitted size in bytes.
    pub fn len(&self) -> (r: usize)
        requires
            total_len(self.thunks@) <= usize::MAX,
        ensures
            r == total_len(self.thunks@),
    {
        let ghost ts = self.thunks@;
        let mut sum: usize = 0;
        let mut i: usize = 0;
        while i < self.thunks.len()
            invariant
                i <= ts.len(),
                self.thunks@ == ts,
                total_len(ts) <= usize::MAX,
                sum == total_len(ts.take(i as int)),
            decreases ts.len() - i,
        {
            proof {
                assert(ts.take(i as int + 1).drop_last() =~= ts.take(i as int));
                assert(ts.take(i as int + 1).last() == ts[i as int]);
                lemma_total_len_mono(ts, i as int + 1);
            }
            sum = sum + self.thunks[i].len();
            i = i + 1;
        }
        proof {
            assert(ts.take(ts.len() as int) =~= ts);
        }
        sum
    }

    /// Emits every thunk at its offset from `dest` and returns the bytes.
    pub fn emit(&self, dest: u64) -> (r: Vec<u8>)
        requires
            total_len(self.thunks@) <= usize::MAX,
        ensures
            r@ == spec_emit(self.thunks@, dest),
            r@.len() == total_len(self.thunks@),
    {
        let ghost ts = self.thunks@;
        let mut out: Vec<u8> = Vec::new();
        let mut i: usize = 0;
        proof {
            lemma_spec_emit_len(ts, dest);
        }
        while i < self.thunks.len()
            invariant
                i <= ts.len(),
                self.thunks@ == ts,
                total_len(ts) <= usize::MAX,
                out@ == spec_emit(ts.take(i as int), dest),
                out@.len() == total_len(ts.take(i as int)),
            decreases ts.len() - i,
        {
            proof {
                assert(ts.take(i as int + 1).drop_last() =~= ts.take(i as int));
                assert(ts.take(i as int + 1).last() == ts[i as int]);
                lemma_total_len_mono(ts, i as int + 1);
            }
            let here: u64 = dest.wrapping_add(out.len() as u64);
            let piece = self.thunks[i].finalize(here);
            push_bytes(&mut out, &piece);
            i = i + 1;
        }
        proof {
            assert(ts.take(ts.len() as int) =~= ts);
        }
        out
    }
}

} // verus!
