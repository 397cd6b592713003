//! AArch64 architecture constants and helpers: the prolog margin, the
//! relay builder, and the recognizer for import-table jump stubs.
use crate::aarch64::decode::InsnKind;
use crate::aarch64::encode::w_add;
use crate::aarch64::trampoline::kind_at;
use crate::error::Error;
use crate::pic::{le8, push_qword, total_len, CodeEmitter, Thunk};
use vstd::prelude::*;

verus! {

/// The furthest distance between a target and its detour (2 GiB).
pub const DETOUR_RANGE: usize = 0x8000_0000;

/// The architecture's page size.
pub const PAGE_SIZE: usize = 0x1000;

/// Alignment of emitted code and relay slots.
pub const ALIGNMENT: usize = 8;

/// The preferred prolog size for a target: the twelve bytes of the
/// indirect hook sequence.
pub fn prolog_margin(_target: u64) -> (r: usize)
    ensures
        r == 12,
{
    12
}

/// Builds the relay: an 8-byte slot holding the absolute detour address,
/// which the three-instruction indirect hook dereferences.  The slot must
/// be allocated within `ADRP` reach of the target.
pub fn relay_builder(_target: u64, detour: u64) -> (r: Result<Option<CodeEmitter>, Error>)
    ensures
        r matches Ok(o) && o matches Some(e) && e.thunks@.len() == 1 && (e.thunks@[0] matches
            Thunk::Static(v) && v@ == le8(detour)) && total_len(e.thunks@) == 8,
{
    let mut bytes: Vec<u8> = Vec::new();
    push_qword(&mut bytes, detour);
    let mut emitter = CodeEmitter::new();
    emitter.add_thunk(Thunk::Static(bytes));
    proof {
        assert(emitter.thunks@.drop_last() =~= Seq::<Thunk>::empty());
    }
    Ok(Some(emitter))
}

/// Where a twelve-byte import stub at `address` finally branches, if the
/// bytes form one of the two recognized shapes: a direct branch, or an
/// `ADRP X16` / `LDR X16` / `BR` chain through the import address table.
pub open spec fn spec_skip_import(code: Seq<u8>, address: u64) -> Option<u64> {
    if code.len() < 12 {
        None
    } else {
        match kind_at(code, address, 0) {
            InsnKind::B { target } => Some(target),
            InsnKind::Adrp { rd, target } => if rd == 16 {
                match kind_at(code, address, 1) {
                    InsnKind::LdrOff { rt, rn, off } => if rt == 16 && rn == 16 {
                        match kind_at(code, address, 2) {
                            InsnKind::Br => Some(w_add(target, off)),
                            _ => None,
                        }
                    } else {
                        None
                    },
                    _ => None,
                }
            } else {
                None
            },
            _ => None,
        }
    }
}

/// Skips a potential jump to an import function.
///
/// `code` holds the first twelve bytes at `address`; the result is the
/// address the stub finally branches to, or `None` when the bytes are no
/// recognized stub.
pub fn skip_import_jmp(code: &[u8], address: u64) -> (r: Option<u64>)
    ensures
        r == spec_skip_import(code@, address),
{
    if code.len() < 12 {
        return None;
    }
    let i0 = read_insn(code, 0, address);
    match i0.kind {
        InsnKind::B { target } => Some(target),
        InsnKind::Adrp { rd, target } => {
            if rd != 16 {
                return None;
            }
            let i1 = read_insn(code, 4, address.wrapping_add(4));
            match i1.kind {
                InsnKind::LdrOff { rt, rn, off } => {
                    if !(rt == 16 && rn == 16) {
                        return None;
                    }
                    let i2 = read_insn(code, 8, address.wrapping_add(8));
                    match i2.kind {
                        InsnKind::Br => Some(target.wrapping_add(off)),
                        _ => None,
                    }
                },
                _ => None,
            }
        },
        _ => None,
    }
}

/// Decodes the word at byte offset `off` of `code`, fetched from `address`.
fn read_insn(code: &[u8], off: usize, address: u64) -> (r: crate::aarch64::decode::Insn)
    requires
        off + 4 <= code@.len(),
        off % 4 == 0,
    ensures
        r.word == crate::aarch64::trampoline::word_at(code@, off as int / 4),
        r.kind == crate::aarch64::decode::spec_classify(r.word, address),
        r.address == address,
{
    let w: u32 = (code[off] as u32) | ((code[off + 1] as u32) << 8) | ((code[off + 2] as u32)
        << 16) | ((code[off + 3] as u32) << 24);
    crate::aarch64::decode::decode_word(w, address)
}

} // verus!
