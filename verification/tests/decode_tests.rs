use sandbox_core::arch::{Arch, DecodeError, RegisterSnapshot, decode};

/// A snapshot in the x86_64 dump order, with each slot holding a value
/// derived from its index so misplaced lookups would show.
fn snapshot(len: usize) -> RegisterSnapshot {
    let mut slots = Vec::new();
    for i in 0..len {
        slots.push(1000 + i as u64);
    }
    RegisterSnapshot { slots }
}

#[test]
fn x86_64_decode_reads_the_documented_slots() {
    // orig_rax is slot 15; the arguments are rdi, rsi, rdx, r10, r8, r9,
    // slots 14, 13, 12, 7, 9, 8 of the dump.
    let d = decode(&snapshot(27), Arch::X86_64).expect("decoding should succeed");
    assert_eq!(d.number, 1015);
    assert_eq!(d.args, vec![1014, 1013, 1012, 1007, 1009, 1008]);
}

#[test]
fn aarch64_decode_reads_x8_and_x0_to_x5() {
    let d = decode(&snapshot(34), Arch::Aarch64).expect("decoding should succeed");
    assert_eq!(d.number, 1008);
    assert_eq!(d.args, vec![1000, 1001, 1002, 1003, 1004, 1005]);
}

#[test]
fn riscv64_decode_reads_a7_and_a0_to_a5() {
    let d = decode(&snapshot(32), Arch::Riscv64).expect("decoding should succeed");
    assert_eq!(d.number, 1017);
    assert_eq!(d.args, vec![1010, 1011, 1012, 1013, 1014, 1015]);
}

#[test]
fn decoding_twice_yields_identical_results() {
    let snap = snapshot(27);
    let d1 = decode(&snap, Arch::X86_64).unwrap();
    let d2 = decode(&snap, Arch::X86_64).unwrap();
    assert_eq!(d1.number, d2.number);
    assert_eq!(d1.args, d2.args);
}

#[test]
fn unknown_architecture_cannot_be_decoded() {
    let r = decode(&snapshot(27), Arch::Unknown);
    assert_eq!(r.unwrap_err(), DecodeError::UnknownArchitecture);
}

#[test]
fn truncated_snapshot_is_rejected() {
    let r = decode(&snapshot(15), Arch::X86_64);
    assert_eq!(r.unwrap_err(), DecodeError::TruncatedSnapshot);
    let r = decode(&snapshot(8), Arch::Aarch64);
    assert_eq!(r.unwrap_err(), DecodeError::TruncatedSnapshot);
    let r = decode(&snapshot(0), Arch::Riscv64);
    assert_eq!(r.unwrap_err(), DecodeError::TruncatedSnapshot);
}
