//! Architecture tags and the syscall ABI decoder.
//!
//! The decoder is a pure, table-driven lookup: for each supported CPU
//! architecture it names the slot of the raw register dump that holds the
//! pending syscall number and the slots that hold the first six argument
//! words.  New architectures are added by extending the tables; the event
//! loop never looks at a register slot itself.

use vstd::prelude::*;

verus! {

/// Tag for the CPU architecture a register snapshot or a compiled filter
/// belongs to.  `Unknown` stands for any platform name without a known
/// register layout.
#[derive(Clone, Copy, Debug, PartialEq, Eq, Structural)]
pub enum Arch {
    X86_64,
    Aarch64,
    Riscv64,
    Unknown,
}

/// The architecture denoted by a platform name, as a target triple spells
/// it.  Names without a known register layout map to `Unknown`.
pub open spec fn arch_of_name(s: Seq<char>) -> Arch {
    if s == "x86_64"@ {
        Arch::X86_64
    } else if s == "aarch64"@ {
        Arch::Aarch64
    } else if s == "riscv64"@ {
        Arch::Riscv64
    } else {
        Arch::Unknown
    }
}

/// Maps a platform name to its architecture tag.
pub fn arch_from_name(name: &str) -> (r: Arch)
    ensures
        r == arch_of_name(name@),
{
    let n = name.to_owned();
    if n == "x86_64".to_owned() {
        Arch::X86_64
    } else if n == "aarch64".to_owned() {
        Arch::Aarch64
    } else if n == "riscv64".to_owned() {
        Arch::Riscv64
    } else {
        Arch::Unknown
    }
}

/// A traced process's saved CPU registers at a stop, as raw slot values in
/// the order of the platform's register dump (for x86_64 the `r15, r14,
/// ..., orig_rax, rip, ...` order; for aarch64 `x0..x30, sp, pc, pstate`;
/// for riscv64 `pc, ra, sp, gp, tp, t0..t2, s0, s1, a0..a7, ...`).
#[derive(Clone, Debug)]
pub struct RegisterSnapshot {
    pub slots: Vec<u64>,
}

/// Why a register snapshot could not be decoded.
#[derive(Clone, Copy, Debug, PartialEq, Eq, Structural)]
pub enum DecodeError {
    /// The architecture tag has no known register layout.
    UnknownArchitecture,
    /// The snapshot holds fewer slots than the architecture's layout needs.
    TruncatedSnapshot,
}

/// Slot of the register dump that holds the pending syscall number.
pub open spec fn spec_number_slot(arch: Arch) -> int {
    match arch {
        Arch::X86_64 => 15,  // orig_rax
        Arch::Aarch64 => 8,  // x8
        Arch::Riscv64 => 17,  // a7
        Arch::Unknown => 0,
    }
}

/// Slot of the register dump that holds the `i`-th syscall argument.
pub open spec fn spec_arg_slot(arch: Arch, i: int) -> int {
    match arch {
        Arch::X86_64 => [14int, 13, 12, 7, 9, 8][i],  // rdi, rsi, rdx, r10, r8, r9
        Arch::Aarch64 => i,  // x0..x5
        Arch::Riscv64 => 10 + i,  // a0..a5
        Arch::Unknown => 0,
    }
}

/// Number of leading slots a snapshot must hold for the architecture's
/// table to be in range.
pub open spec fn spec_required_slots(arch: Arch) -> int {
    match arch {
        Arch::X86_64 => 16,
        Arch::Aarch64 => 9,
        Arch::Riscv64 => 18,
        Arch::Unknown => 0,
    }
}

/// A snapshot with these slots decodes under this tag.
pub open spec fn decode_ok(slots: Seq<u64>, arch: Arch) -> bool {
    &&& !(arch is Unknown)
    &&& slots.len() >= spec_required_slots(arch)
}

/// The syscall number a snapshot decodes to.
pub open spec fn decoded_number(slots: Seq<u64>, arch: Arch) -> u64 {
    slots[spec_number_slot(arch)]
}

/// The six argument words a snapshot decodes to.
pub open spec fn decoded_args(slots: Seq<u64>, arch: Arch) -> Seq<u64> {
    Seq::new(6, |i: int| slots[spec_arg_slot(arch, i)])
}

/// A decoded syscall: its number and its first six argument words.
#[derive(Clone, Debug)]
pub struct DecodedCall {
    pub number: u64,
    pub args: Vec<u64>,
}

fn number_slot(arch: Arch) -> (r: usize)
    requires
        !(arch is Unknown),
    ensures
        r as int == spec_number_slot(arch),
        (r as int) < spec_required_slots(arch),
{
    match arch {
        Arch::X86_64 => 15,
        Arch::Aarch64 => 8,
        Arch::Riscv64 => 17,
        Arch::Unknown => 0,
    }
}

fn arg_slot(arch: Arch, i: usize) -> (r: usize)
    requires
        !(arch is Unknown),
        i < 6,
    ensures
        r as int == spec_arg_slot(arch, i as int),
        (r as int) < spec_required_slots(arch),
{
    match arch {
        Arch::X86_64 => {
            let table: [usize; 6] = [14, 13, 12, 7, 9, 8];
            table[i]
        },
        Arch::Aarch64 => i,
        Arch::Riscv64 => 10 + i,
        Arch::Unknown => 0,
    }
}

fn required_slots(arch: Arch) -> (r: usize)
    ensures
        r as int == spec_required_slots(arch),
{
    match arch {
        Arch::X86_64 => 16,
        Arch::Aarch64 => 9,
        Arch::Riscv64 => 18,
        Arch::Unknown => 0,
    }
}

/// Decodes a raw register snapshot into the pending syscall number and its
/// six argument words, per the architecture's calling convention.
pub fn decode(snapshot: &RegisterSnapshot, arch: Arch) -> (r: Result<DecodedCall, DecodeError>)
    ensures
        r is Ok <==> decode_ok(snapshot.slots@, arch),
        r matches Ok(d) ==> {
            &&& d.number == decoded_number(snapshot.slots@, arch)
            &&& d.args@ == decoded_args(snapshot.slots@, arch)
        },
        arch is Unknown ==> r == Result::<DecodedCall, DecodeError>::Err(
            DecodeError::UnknownArchitecture,
        ),
        !(arch is Unknown) && snapshot.slots@.len() < spec_required_slots(arch) ==> r
            == Result::<DecodedCall, DecodeError>::Err(DecodeError::TruncatedSnapshot),
{
    if matches!(arch, Arch::Unknown) {
        return Err(DecodeError::UnknownArchitecture);
    }
    let req = required_slots(arch);
    if snapshot.slots.len() < req {
        return Err(DecodeError::TruncatedSnapshot);
    }
    let number = snapshot.slots[number_slot(arch)];
    let mut args: Vec<u64> = Vec::new();
    let mut i: usize = 0;
    while i < 6
        invariant
            i <= 6,
            args@.len() == i as int,
            forall|j: int|
                0 <= j < i as int ==> args@[j] == snapshot.slots@[spec_arg_slot(arch, j)],
            !(arch is Unknown),
            snapshot.slots@.len() >= spec_required_slots(arch),
        decreases 6 - i,
    {
        let a = snapshot.slots[arg_slot(arch, i)];
        args.push(a);
        i = i + 1;
    }
    proof {
        assert(args@ =~= decoded_args(snapshot.slots@, arch));
    }
    Ok(DecodedCall { number, args })
}

/// Decoding is architecture-pure: the same register snapshot, decoded
/// under the same architecture tag, always yields the same syscall number
/// and the same argument words.
pub proof fn lemma_decode_architecture_pure(slots1: Seq<u64>, slots2: Seq<u64>, arch: Arch)
    requires
        slots1 == slots2,
    ensures
        decode_ok(slots1, arch) == decode_ok(slots2, arch),
        decoded_number(slots1, arch) == decoded_number(slots2, arch),
        decoded_args(slots1, arch) == decoded_args(slots2, arch),
{
}

} // verus!
