//! Model-level detour scenarios: trampolines built from the same prolog
//! shapes the end-to-end cases use, with the emitted machine words checked
//! against hand-assembled encodings.
use detour::aarch64::patcher::Patcher;
use detour::aarch64::trampoline::{Builder, Trampoline};
use detour::error::Error;
use detour::pic::Thunk;

const NOP: u32 = 0xD503201F;
const RET: u32 = 0xD65F03C0;

fn words_to_bytes(words: &[u32]) -> Vec<u8> {
    let mut v = Vec::new();
    for w in words {
        v.extend_from_slice(&w.to_le_bytes());
    }
    v
}

fn word_of(bytes: &[u8], j: usize) -> u32 {
    u32::from_le_bytes([bytes[4 * j], bytes[4 * j + 1], bytes[4 * j + 2], bytes[4 * j + 3]])
}

/// Prolog `adr x0, label; nop; nop; ret; label:` — the trampoline must
/// still leave the address of `label` (16 bytes past the target) in `x0`.
#[test]
fn detour_adr() {
    let target: u64 = 0x0001_0000;
    let label_addr = target + 16;
    // adr x0, .+16 : imm21 = 16 -> immhi = 4
    let adr = 0x1000_0000u32 | (4 << 5);
    let code = words_to_bytes(&[adr, NOP, NOP, RET]);
    let t = Trampoline::new(target, 12, &code).unwrap();
    assert_eq!(t.prolog_size(), 12);
    // three prolog thunks plus the tail branch
    assert_eq!(t.emitter().thunks.len(), 4);

    let dest: u64 = target + 0x100;
    let out = t.emitter().emit(dest);
    assert_eq!(out.len(), 16 + 4 + 4 + 16);
    // relocated ADR: delta = label_addr - dest = -0xF0
    assert_eq!(word_of(&out, 0), 0x10FF_F880);
    assert_eq!(word_of(&out, 1), NOP);
    assert_eq!(word_of(&out, 2), NOP);
    assert_eq!(word_of(&out, 3), NOP);
    // the two copied NOPs
    assert_eq!(word_of(&out, 4), NOP);
    assert_eq!(word_of(&out, 5), NOP);
    // tail: ldr x17, #8 ; br x17 ; .qword target+12
    assert_eq!(word_of(&out, 6), 0x5800_0051);
    assert_eq!(word_of(&out, 7), 0xD61F_0220);
    assert_eq!(u64::from_le_bytes(out[32..40].try_into().unwrap()), target + 12);
}

/// Prolog `adrp x0, label; nop; nop; ret` — the trampoline must leave the
/// page address of `label` in `x0`.
#[test]
fn detour_adrp() {
    let target: u64 = 0x0010_0000;
    // adrp x0, .+0 : the captured page is the target's own page
    let adrp = 0x9000_0000u32;
    let code = words_to_bytes(&[adrp, NOP, NOP, RET]);
    let t = Trampoline::new(target, 12, &code).unwrap();
    assert_eq!(t.prolog_size(), 12);

    let dest: u64 = target + 0x3000;
    let out = t.emitter().emit(dest);
    // relocated ADRP: page delta = -3
    assert_eq!(word_of(&out, 0), 0xB0FF_FFE0);
    assert_eq!(word_of(&out, 1), NOP);
    // tail branch still returns to target+12
    assert_eq!(u64::from_le_bytes(out[32..40].try_into().unwrap()), target + 12);
}

/// Prolog `ldr x0, 2f; nop; nop; ret; 2: ...` — the trampoline must load
/// from the original literal address, 16 bytes past the target.
#[test]
fn detour_ldr() {
    let target: u64 = 0x0002_0000;
    let literal_addr = target + 16;
    // ldr x0, .+16 : imm19 = 4
    let ldr = 0x5800_0000u32 | (4 << 5);
    let code = words_to_bytes(&[ldr, NOP, NOP, RET]);
    let t = Trampoline::new(target, 12, &code).unwrap();
    assert_eq!(t.prolog_size(), 12);

    let dest: u64 = target - 0x400;
    let out = t.emitter().emit(dest);
    // relocated literal load: delta = 0x410, imm19 = 0x104
    assert_eq!(word_of(&out, 0), 0x5800_2080);
    // the encoded offset still reaches the original literal
    let imm19 = (word_of(&out, 0) >> 5) & 0x7_FFFF;
    assert_eq!(dest + (imm19 as u64) * 4, literal_addr);
    // thunk reserves five words; the next prolog word starts at offset 20
    assert_eq!(word_of(&out, 5), NOP);
}

/// A target whose first instruction is a bare `RET`: the prolog is that
/// one instruction and no tail branch is appended.
#[test]
fn terminator_first_instruction() {
    let target: u64 = 0x0003_0000;
    let code = words_to_bytes(&[RET, NOP, NOP, NOP]);
    let t = Trampoline::new(target, 12, &code).unwrap();
    assert_eq!(t.prolog_size(), 4);
    assert_eq!(t.emitter().thunks.len(), 1);
    let out = t.emitter().emit(target + 0x1000);
    assert_eq!(out, RET.to_le_bytes().to_vec());
}

/// A prolog window too short for the margin is invalid code.
#[test]
fn short_window_is_invalid_code() {
    let code = words_to_bytes(&[NOP, NOP]);
    match Trampoline::new(0x4000, 12, &code) {
        Err(Error::InvalidCode) => {},
        _ => panic!("expected InvalidCode"),
    }
}

/// A `BL` in the prolog cannot be relocated.
#[test]
fn bl_is_unsupported() {
    let bl = 0x9400_0010u32;
    let code = words_to_bytes(&[bl, NOP, NOP, NOP]);
    match Trampoline::new(0x4000, 12, &code) {
        Err(Error::UnsupportedInstruction) => {},
        _ => panic!("expected UnsupportedInstruction"),
    }
}

/// Prolog `cbz x0, forward_label; nop; nop; ret` with the label past the
/// prolog end: the relocated branch keeps the taken/not-taken decision and
/// still reaches the label when the branch is in range.
#[test]
fn detour_cbz_near() {
    let target: u64 = 0x0004_0000;
    // cbz x0, .+16
    let cbz = 0xB400_0000u32 | (4 << 5);
    let code = words_to_bytes(&[cbz, NOP, NOP, RET]);
    let t = Trampoline::new(target, 12, &code).unwrap();
    assert_eq!(t.prolog_size(), 12);
    let dest: u64 = target + 0x100;
    let out = t.emitter().emit(dest);
    // re-encoded CBZ: delta = (target+16) - dest = -0xF0
    assert_eq!(word_of(&out, 0), 0xB4FF_F880);
    assert_eq!(word_of(&out, 1), NOP);
}

/// The same prolog placed out of `CBZ` reach: the inverted `CBNZ` skips an
/// absolute branch through `X17` whose literal is the original label.
#[test]
fn detour_cbz_far() {
    let target: u64 = 0x0004_0000;
    let cbz = 0xB400_0000u32 | (4 << 5);
    let code = words_to_bytes(&[cbz, NOP, NOP, RET]);
    let t = Trampoline::new(target, 12, &code).unwrap();
    let dest: u64 = target + 0x20_0000;
    let out = t.emitter().emit(dest);
    // inverted to CBNZ, skipping the 16-byte absolute branch (+20 bytes)
    assert_eq!(word_of(&out, 0), 0xB500_00A0);
    assert_eq!(word_of(&out, 1), 0x5800_0051); // ldr x17, #8
    assert_eq!(word_of(&out, 2), 0xD61F_0220); // br x17
    assert_eq!(
        u64::from_le_bytes(out[12..20].try_into().unwrap()),
        target + 16
    );
}

/// `tbz` relocation rewrites the 14-bit immediate and keeps the tested bit.
#[test]
fn detour_tbz_near() {
    let target: u64 = 0x0005_0000;
    // tbz x3, #5, .+8
    let tbz = 0x3600_0000u32 | (5 << 19) | (2 << 5) | 3;
    let code = words_to_bytes(&[tbz, NOP, NOP, RET]);
    let t = Trampoline::new(target, 12, &code).unwrap();
    let dest: u64 = target - 0x40;
    let out = t.emitter().emit(dest);
    // delta = 8 + 0x40 = 0x48; imm14 = 0x12
    assert_eq!(word_of(&out, 0), 0x3628_0243);
}

/// The same test branch out of `TBZ` reach: inverted to `TBNZ` over the
/// absolute branch, with the original label in the literal.
#[test]
fn detour_tbz_far() {
    let target: u64 = 0x0005_0000;
    let tbz = 0x3600_0000u32 | (5 << 19) | (2 << 5) | 3;
    let code = words_to_bytes(&[tbz, NOP, NOP, RET]);
    let t = Trampoline::new(target, 12, &code).unwrap();
    let out = t.emitter().emit(target + 0x1_0000);
    // inverted to TBNZ, skipping the absolute branch (+20 bytes, imm14 = 5)
    assert_eq!(word_of(&out, 0), 0x3728_00A3);
    assert_eq!(word_of(&out, 1), 0x5800_0051); // ldr x17, #8
    assert_eq!(word_of(&out, 2), 0xD61F_0220); // br x17
    assert_eq!(
        u64::from_le_bytes(out[12..20].try_into().unwrap()),
        target + 8
    );
}

/// `b.eq` is re-encoded in range and condition-inverted beyond it.
#[test]
fn detour_bcond() {
    let target: u64 = 0x0006_0000;
    // b.eq .+16
    let beq = 0x5400_0000u32 | (4 << 5);
    let code = words_to_bytes(&[beq, NOP, NOP, RET]);
    let t = Trampoline::new(target, 12, &code).unwrap();
    let near = t.emitter().emit(target + 0x100);
    assert_eq!(word_of(&near, 0), 0x54FF_F880);
    let far = t.emitter().emit(target + 0x20_0000);
    // inverted to b.ne over the absolute branch
    assert_eq!(word_of(&far, 0), 0x5400_00A1);
    assert_eq!(
        u64::from_le_bytes(far[12..20].try_into().unwrap()),
        target + 16
    );
}

/// `b.al` always branches; it takes the absolute-jump thunk, not the
/// inversion scheme.
#[test]
fn detour_bcond_always() {
    let target: u64 = 0x0007_0000;
    // b.al .+16
    let bal = 0x5400_0000u32 | (4 << 5) | 14;
    let code = words_to_bytes(&[bal, NOP, NOP, RET]);
    let t = Trampoline::new(target, 12, &code).unwrap();
    let out = t.emitter().emit(target + 0x100);
    assert_eq!(word_of(&out, 0), 0x5800_0051); // ldr x17, #8
    assert_eq!(word_of(&out, 1), 0xD61F_0220); // br x17
    assert_eq!(
        u64::from_le_bytes(out[8..16].try_into().unwrap()),
        target + 16
    );
}

/// Every thunk finalizes to the same length at far-apart destinations.
#[test]
fn thunk_length_destination_independent() {
    let thunks = [
        Thunk::Static(vec![1, 2, 3]),
        Thunk::Adr { rd: 3, target: 0x7777_0000 },
        Thunk::Adrp { rd: 4, target: 0x8888_0000 },
        Thunk::LdrLit { rt: 5, target: 0x9999_0000 },
        Thunk::JmpImmediate { target: 0xAAAA_0000 },
        Thunk::JmpIndirect { value_addr: 0xBBBB_0000 },
    ];
    let dests = [0u64, 0x1000, 0xFFFF_FFFF_0000, 0x8000_0000_0000_0000];
    for t in &thunks {
        for d in &dests {
            assert_eq!(t.finalize(*d).len(), t.len());
        }
    }
}

/// `ADR` relocation picks the short form at distance 2^20 - 1 and the
/// `ADRP`+`ADD` pair at exactly 2^20.
#[test]
fn adr_reach_boundary() {
    let dest: u64 = 0x1_0000_0000;
    let short = Thunk::Adr { rd: 0, target: dest + 0xF_FFFF };
    let out = short.finalize(dest);
    assert_eq!(out[3] & 0x9F, 0x10); // ADR class
    let long = Thunk::Adr { rd: 0, target: dest + 0x10_0000 };
    let out = long.finalize(dest);
    assert_eq!(out[3] & 0x9F, 0x90); // ADRP class
    assert_eq!(out[7], 0x91); // ADD immediate completing the low bits
}

/// Far beyond page reach the `MOVK` chain materializes the full address.
#[test]
fn adr_movk_fallback() {
    let dest: u64 = 0x1000;
    let t = Thunk::Adr { rd: 0, target: 0x1122_3344_5566_7788 };
    let out = t.finalize(dest);
    assert_eq!(word_of(&out, 0), 0xF28E_F100);
    assert_eq!(word_of(&out, 1), 0xF2AA_ACC0);
    assert_eq!(word_of(&out, 2), 0xF2C6_6880);
    assert_eq!(word_of(&out, 3), 0xF2E2_2440);
}

/// The `MOVK` chain generator emits the same bytes as the fallback path.
#[test]
fn gen_mov_64_encodings() {
    let bytes = detour::aarch64::thunk::gen_mov_64(0, 0x1122_3344_5566_7788);
    assert_eq!(word_of(&bytes, 0), 0xF28E_F100);
    assert_eq!(word_of(&bytes, 3), 0xF2E2_2440);
}

/// The hook sequence dereferences the relay slot: `ADRP X17 / LDR X17 / BR X17`.
#[test]
fn hook_template_encodings() {
    let target: u64 = 0x1000_0000;
    let relay: u64 = 0x1000_1008;
    let hook = Patcher::hook_template(relay);
    let out = hook.emit(target);
    assert_eq!(out.len(), 12);
    assert_eq!(word_of(&out, 0), 0xB000_0011); // adrp x17, +1 page
    assert_eq!(word_of(&out, 1), 0xF940_0631); // ldr x17, [x17, #8]
    assert_eq!(word_of(&out, 2), 0xD61F_0220); // br x17
}

/// Enable writes the hook, disable restores the original bytes, and both
/// are idempotent; the five-step re-entrancy cycle holds.
#[test]
fn patcher_toggle_cycle() {
    let target: u64 = 0x2000_0000;
    let relay: u64 = 0x2000_0100;
    let original: Vec<u8> = (0u8..12).collect();
    let mut p = Patcher::new(target, relay, original.clone()).unwrap();
    assert_eq!(p.area().as_slice(), original.as_slice());
    p.toggle(true);
    let hook = p.area().clone();
    assert_ne!(hook, original);
    p.toggle(true);
    assert_eq!(p.area().as_slice(), hook.as_slice());
    p.toggle(false);
    assert_eq!(p.area().as_slice(), original.as_slice());
    p.toggle(false);
    assert_eq!(p.area().as_slice(), original.as_slice());
    p.toggle(true);
    assert_eq!(p.area().as_slice(), hook.as_slice());
    p.toggle(false);
    assert_eq!(p.area().as_slice(), original.as_slice());
}

/// The aarch64 relay is exactly the detour address, eight bytes.
#[test]
fn aarch64_relay_holds_detour() {
    let emitter = detour::aarch64::meta::relay_builder(0x1000, 0xDEAD_BEEF_1234_5678)
        .unwrap()
        .unwrap();
    let out = emitter.emit(0x9000);
    assert_eq!(out, 0xDEAD_BEEF_1234_5678u64.to_le_bytes().to_vec());
}

/// The recognized import stub shapes resolve to the final branch target.
#[test]
fn skip_import_jmp_chain() {
    // adrp x16, ... ; ldr x16, [x16, #...] ; br x16
    let code = [
        0x50u8, 0x3F, 0x00, 0xB0, 0x10, 0x7A, 0x41, 0xF9, 0x00, 0x02, 0x1F, 0xD6,
    ];
    let r = detour::aarch64::meta::skip_import_jmp(&code, 0x1_01B9_3A78);
    assert_eq!(r, Some(0x1_0237_C2F0));
}

/// A direct branch stub resolves to its absolute target.
#[test]
fn skip_import_direct_branch() {
    let b = 0x1400_0040u32; // b .+0x100
    let code = words_to_bytes(&[b, NOP, NOP]);
    let r = detour::aarch64::meta::skip_import_jmp(&code, 0x8000);
    assert_eq!(r, Some(0x8000 + 0x100));
}

/// Ordinary code is no import stub.
#[test]
fn skip_import_rejects_plain_code() {
    let code = words_to_bytes(&[NOP, NOP, NOP]);
    assert_eq!(detour::aarch64::meta::skip_import_jmp(&code, 0x8000), None);
}

/// The architecture constants and margins.
#[test]
fn margins() {
    assert_eq!(detour::aarch64::meta::prolog_margin(0x1000), 12);
    assert_eq!(detour::x86::meta::prolog_margin(0x1000), 5);
    assert_eq!(detour::x86::meta::skip_jmps(0x1234), 0x1234);
}

/// A builder starts empty and unfinished.
#[test]
fn builder_new_state() {
    let b = Builder::new(0x1000, 12);
    assert_eq!(b.target, 0x1000);
    assert_eq!(b.margin, 12);
    assert_eq!(b.total_bytes_disassembled, 0);
    assert!(!b.finished);
}

/// The signed reach helper matches the two-sided bound.
#[test]
fn bit_range_bounds() {
    let (lo, hi) = detour::aarch64::thunk::bit_range(20);
    assert_eq!(lo, -(1 << 20));
    assert_eq!(hi, 1 << 20);
}
