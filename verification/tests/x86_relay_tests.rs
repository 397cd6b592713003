//! x86-64 relay decisions: the inline `JMP rel32` is used up to exactly
//! the signed 32-bit reach, and the relay kicks in one byte beyond.
use detour::x86::meta::relay_builder;

/// A detour within signed 32-bit reach needs no relay.
#[test]
fn x86_nearby_uses_short_branch() {
    let target: u64 = 0x7FFF_FFFF;
    let detour_addr: u64 = 0;
    // displacement is exactly +2^31 - 1
    assert!(relay_builder(target, detour_addr).unwrap().is_none());
    // displacement is exactly -2^31
    assert!(relay_builder(0, 0x8000_0000).unwrap().is_none());
}

/// One byte past the reach, a relay holding an absolute jump is emitted.
#[test]
fn x86_far_emits_relay() {
    // displacement +2^31: out of reach
    let relay = relay_builder(0x8000_0000, 0).unwrap().unwrap();
    let out = relay.emit(0x5000);
    assert_eq!(out.len(), 14);
    // jmp [rip+0] followed by the absolute detour address
    assert_eq!(&out[..6], &[0xFF, 0x25, 0, 0, 0, 0]);
    assert_eq!(u64::from_le_bytes(out[6..14].try_into().unwrap()), 0);

    // displacement -2^31 - 1: out of reach the other way
    let relay = relay_builder(0, 0x8000_0001).unwrap().unwrap();
    let out = relay.emit(0x5000);
    assert_eq!(u64::from_le_bytes(out[6..14].try_into().unwrap()), 0x8000_0001);
}

/// The relay bytes do not depend on where the relay is placed.
#[test]
fn x86_relay_position_independent() {
    let relay = relay_builder(0x1_0000_0000, 0).unwrap().unwrap();
    assert_eq!(relay.emit(0x1000), relay.emit(0xFFFF_0000));
}
