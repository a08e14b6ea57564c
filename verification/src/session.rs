//! The supervisor's per-session state machine and the mediation engine.
//!
//! One `SandboxSession` stands for one supervised process.  The blocking
//! wait, the register fetch and the resume primitives are performed by an
//! unverified driver; every decision between them is made here.  The
//! driver feeds each raw wait status to [`SandboxSession::on_wait_status`]
//! and follows the directive it returns; when directed, it fetches the
//! register snapshot and hands it to [`SandboxSession::on_registers`],
//! which decodes the pending syscall, decides it, and says how to resume.

use vstd::prelude::*;

use crate::arch::{
    Arch, DecodeError, DecodedCall, RegisterSnapshot, decode, decode_ok, decoded_args,
    decoded_number,
};
use crate::status::{
    SECCOMP_EVENT, StatusClass, TRAP_SIGNAL, classify_status, is_seccomp_stop, spec_classify,
};
use crate::sysno::{sysno_lookup, sysno_name};

verus! {

/// Why a session was left resting in `Stopped`: the target is still
/// stopped and the caller must terminate it explicitly.
#[derive(Clone, Copy, Debug, PartialEq, Eq, Structural)]
pub enum StopReason {
    /// The decoded syscall number has no mapping in the build target's
    /// syscall table; the session aborts rather than guessing a decision.
    UnrecognizedSyscall { number: u64 },
    /// The register snapshot could not be decoded.
    DecodeFailed { error: DecodeError },
}

/// Lifecycle of a supervised process.
#[derive(Clone, Copy, Debug, PartialEq, Eq, Structural)]
pub enum SessionState {
    /// Created; the supervisor has not seized the target yet.
    Initializing,
    /// The supervisor traces the target and interception stops are
    /// reported as their own stop kind.
    Armed,
    /// The target runs, or is briefly stopped inside one loop iteration.
    Running,
    /// A fatal condition left the target stopped; terminal for the loop,
    /// the caller must reap or kill the target.
    Stopped { reason: StopReason },
    /// The target exited normally with this code; terminal.
    Exited { code: u32 },
    /// The target was terminated by this signal; terminal.
    Killed { signal: u32 },
    /// The supervisor lost the ability to observe the target; terminal.
    KilledUnknown,
}

/// One supervised process: its identifier, lifecycle state, architecture,
/// and the accounting of initial spurious interception stops.
///
/// Immediately after arming, the tracer observes one interception stop
/// that carries no valid syscall context; it must be consumed by resuming
/// without decoding.  The allowance is a configurable count rather than a
/// hard-coded flag, and how much of it was used can be inspected.
#[derive(Clone, Copy, Debug, PartialEq, Eq, Structural)]
pub struct SandboxSession {
    pub pid: i32,
    pub arch: Arch,
    pub state: SessionState,
    /// How many initial interception stops to consume without decoding.
    pub spurious_to_skip: u32,
    /// How many have been consumed so far.
    pub spurious_consumed: u32,
}

/// The spurious allowance is never overdrawn.
pub open spec fn session_wf(s: SandboxSession) -> bool {
    s.spurious_consumed <= s.spurious_to_skip
}

/// The session is in a state from which the loop keeps waiting.
pub open spec fn session_live(s: SandboxSession) -> bool {
    s.state is Armed || s.state is Running
}

/// What the driver must do after one wait status was processed.
#[derive(Clone, Copy, Debug, PartialEq, Eq, Structural)]
pub enum LoopDirective {
    /// A terminal state was reached; leave the loop.
    Finish,
    /// Resume the target, then wait again.
    Resume,
    /// A mediation point: fetch the target's register snapshot and hand
    /// it to `on_registers`.
    AwaitRegisters,
    /// No action; wait again.
    WaitAgain,
}

/// The session after one wait status: terminal statuses end the session,
/// stops leave it running, with one more spurious interception consumed
/// when the allowance still covers it.
pub open spec fn spec_step_state(s: SandboxSession, status: u32) -> SandboxSession {
    match spec_classify(status) {
        StatusClass::Exited { code } => SandboxSession {
            state: SessionState::Exited { code },
            ..s
        },
        StatusClass::Signaled { signal } => SandboxSession {
            state: SessionState::Killed { signal },
            ..s
        },
        StatusClass::Stopped { signal, event } => {
            if is_seccomp_stop(signal, event) && s.spurious_consumed < s.spurious_to_skip {
                SandboxSession {
                    state: SessionState::Running,
                    spurious_consumed: (s.spurious_consumed + 1) as u32,
                    ..s
                }
            } else {
                SandboxSession { state: SessionState::Running, ..s }
            }
        },
        StatusClass::Other => s,
    }
}

/// The directive one wait status yields: terminal statuses finish the
/// loop; an interception stop beyond the spurious allowance is the
/// mediation point; every other stop is resumed unconditionally.
pub open spec fn spec_step_directive(s: SandboxSession, status: u32) -> LoopDirective {
    match spec_classify(status) {
        StatusClass::Exited { code } => LoopDirective::Finish,
        StatusClass::Signaled { signal } => LoopDirective::Finish,
        StatusClass::Stopped { signal, event } => {
            if is_seccomp_stop(signal, event) {
                if s.spurious_consumed < s.spurious_to_skip {
                    LoopDirective::Resume
                } else {
                    LoopDirective::AwaitRegisters
                }
            } else {
                LoopDirective::Resume
            }
        },
        StatusClass::Other => LoopDirective::WaitAgain,
    }
}

/// A decoded, intercepted syscall: its number, its six argument words,
/// and the raw register snapshot it came from (kept for later emulation
/// or result rewriting).
#[derive(Clone, Debug)]
pub struct SyscallEvent {
    pub number: u64,
    pub args: Vec<u64>,
    pub snapshot: RegisterSnapshot,
}

/// What the supervisor does with one intercepted syscall.
#[derive(Clone, Copy, Debug, PartialEq, Eq, Structural)]
pub enum Decision {
    /// Let the call proceed unmodified.
    Allow,
    /// Abort the call; the target sees this word as the call's result, as
    /// if the call had failed natively.
    Deny { error_result: u64 },
    /// The call's effect was performed out of band; inject this result.
    Emulate { result: u64 },
}

/// The baseline mediation policy: every decoded, recognized syscall that
/// reaches user space is allowed — the kernel-side filter has already
/// done the coarse split, and reaching the supervisor means the call
/// matched the inspected class.
pub open spec fn spec_decide(event: SyscallEvent) -> Decision {
    Decision::Allow
}

/// The mediation policy engine.  A richer engine may inspect the decoded
/// arguments and return `Deny` or `Emulate`; the baseline allows.
pub fn decide(event: &SyscallEvent) -> (d: Decision)
    ensures
        d == spec_decide(*event),
{
    Decision::Allow
}

/// How the driver must resume the target after a decision.
#[derive(Clone, Copy, Debug, PartialEq, Eq, Structural)]
pub enum ResumeDirective {
    /// Resume; the intercepted call proceeds unmodified.
    ResumeClean,
    /// Write this word into the target's syscall-result register, then
    /// resume past the call.
    ResumeWithResult { value: u64 },
}

/// The visible effect of each decision: allowing resumes cleanly; denial
/// and emulation both patch the call's result into the target's registers
/// before resuming.
pub open spec fn spec_apply(d: Decision) -> ResumeDirective {
    match d {
        Decision::Allow => ResumeDirective::ResumeClean,
        Decision::Deny { error_result } => ResumeDirective::ResumeWithResult {
            value: error_result,
        },
        Decision::Emulate { result } => ResumeDirective::ResumeWithResult { value: result },
    }
}

/// Translates a decision into the register-patch-then-resume step the
/// driver performs.
pub fn apply_decision(d: &Decision) -> (r: ResumeDirective)
    ensures
        r == spec_apply(*d),
{
    match d {
        Decision::Allow => ResumeDirective::ResumeClean,
        Decision::Deny { error_result } => ResumeDirective::ResumeWithResult {
            value: *error_result,
        },
        Decision::Emulate { result } => ResumeDirective::ResumeWithResult { value: *result },
    }
}

/// Outcome of one mediation point.
#[derive(Clone, Debug)]
pub enum MediationResult {
    /// The call was decoded and decided; log it and resume as directed.
    Mediated { event: SyscallEvent, name: String, decision: Decision, resume: ResumeDirective },
    /// The decoded number is no syscall of the build target's table; the
    /// session aborted and the target is left stopped.
    Unrecognized { number: u64 },
    /// The register snapshot could not be decoded; the session aborted
    /// and the target is left stopped.
    Undecodable { error: DecodeError },
}

impl SandboxSession {
    /// A fresh session for a just-created target process, in
    /// `Initializing` state.
    pub fn new(pid: i32, arch: Arch, spurious_to_skip: u32) -> (s: Self)
        ensures
            s.pid == pid,
            s.arch == arch,
            s.state is Initializing,
            s.spurious_to_skip == spurious_to_skip,
            s.spurious_consumed == 0,
            session_wf(s),
    {
        SandboxSession {
            pid,
            arch,
            state: SessionState::Initializing,
            spurious_to_skip,
            spurious_consumed: 0,
        }
    }

    /// The supervisor has seized the target for tracing and asked for
    /// interception stops to be reported as their own stop kind.
    pub fn mark_armed(&mut self)
        requires
            old(self).state is Initializing,
        ensures
            *final(self) == (SandboxSession { state: SessionState::Armed, ..*old(self) }),
    {
        self.state = SessionState::Armed;
    }

    /// Processes one raw wait status and returns what the driver must do
    /// next.
    pub fn on_wait_status(&mut self, status: u32) -> (d: LoopDirective)
        requires
            session_live(*old(self)),
            session_wf(*old(self)),
        ensures
            *final(self) == spec_step_state(*old(self), status),
            d == spec_step_directive(*old(self), status),
            session_wf(*final(self)),
    {
        match classify_status(status) {
            StatusClass::Exited { code } => {
                self.state = SessionState::Exited { code };
                LoopDirective::Finish
            },
            StatusClass::Signaled { signal } => {
                self.state = SessionState::Killed { signal };
                LoopDirective::Finish
            },
            StatusClass::Stopped { signal, event } => {
                if signal == TRAP_SIGNAL && event == SECCOMP_EVENT {
                    if self.spurious_consumed < self.spurious_to_skip {
                        self.spurious_consumed = self.spurious_consumed + 1;
                        self.state = SessionState::Running;
                        LoopDirective::Resume
                    } else {
                        self.state = SessionState::Running;
                        LoopDirective::AwaitRegisters
                    }
                } else {
                    self.state = SessionState::Running;
                    LoopDirective::Resume
                }
            },
            StatusClass::Other => LoopDirective::WaitAgain,
        }
    }

    /// The blocking wait itself failed: the supervisor has lost the
    /// ability to observe the target, and the session ends without a
    /// known cause.  The caller surfaces this as the wait failure error.
    pub fn on_wait_failure(&mut self)
        requires
            session_live(*old(self)),
        ensures
            *final(self) == (SandboxSession { state: SessionState::KilledUnknown, ..*old(self) }),
    {
        self.state = SessionState::KilledUnknown;
    }

    /// Completes a mediation once the snapshot is decoded, for a given
    /// recognition outcome: `name` carries the recognized syscall's name,
    /// `None` means the decoded number is no syscall of the table.  The
    /// outcome is pinned for either value, so the whole decision path is
    /// verified whatever the platform's syscall table answered.
    pub fn on_decoded(
        &mut self,
        decoded: DecodedCall,
        snapshot: RegisterSnapshot,
        name: Option<String>,
    ) -> (r: MediationResult)
        requires
            old(self).state is Running,
        ensures
            name matches Some(n) ==> ({
                let event = (SyscallEvent {
                    number: decoded.number,
                    args: decoded.args,
                    snapshot,
                });
                &&& r == (MediationResult::Mediated {
                    event,
                    name: n,
                    decision: spec_decide(event),
                    resume: spec_apply(spec_decide(event)),
                })
                &&& *final(self) == *old(self)
            }),
            name is None ==> {
                &&& r == (MediationResult::Unrecognized { number: decoded.number })
                &&& *final(self) == (SandboxSession {
                    state: SessionState::Stopped {
                        reason: StopReason::UnrecognizedSyscall { number: decoded.number },
                    },
                    ..*old(self)
                })
            },
    {
        match name {
            Some(n) => {
                let event = SyscallEvent {
                    number: decoded.number,
                    args: decoded.args,
                    snapshot,
                };
                let decision = decide(&event);
                let resume = apply_decision(&decision);
                MediationResult::Mediated { event, name: n, decision, resume }
            },
            None => {
                let number = decoded.number;
                self.state = SessionState::Stopped {
                    reason: StopReason::UnrecognizedSyscall { number },
                };
                MediationResult::Unrecognized { number }
            },
        }
    }

    /// The mediation point proper: decodes the fetched register snapshot,
    /// recognizes the syscall, decides it, and says how to resume.  On an
    /// unrecognized number or an undecodable snapshot the session aborts:
    /// the state records why, and the target is left stopped for the
    /// caller to terminate.
    pub fn on_registers(&mut self, snapshot: RegisterSnapshot) -> (r: MediationResult)
        requires
            old(self).state is Running,
        ensures
            r matches MediationResult::Undecodable { error } ==> {
                &&& !decode_ok(snapshot.slots@, old(self).arch)
                &&& *final(self) == (SandboxSession {
                    state: SessionState::Stopped { reason: StopReason::DecodeFailed { error } },
                    ..*old(self)
                })
            },
            !decode_ok(snapshot.slots@, old(self).arch) ==> r is Undecodable,
            r matches MediationResult::Unrecognized { number } ==> {
                &&& decode_ok(snapshot.slots@, old(self).arch)
                &&& number == decoded_number(snapshot.slots@, old(self).arch)
                &&& *final(self) == (SandboxSession {
                    state: SessionState::Stopped {
                        reason: StopReason::UnrecognizedSyscall { number },
                    },
                    ..*old(self)
                })
            },
            r matches MediationResult::Mediated { event, name, decision, resume } ==> {
                &&& decode_ok(snapshot.slots@, old(self).arch)
                &&& event.number == decoded_number(snapshot.slots@, old(self).arch)
                &&& event.args@ == decoded_args(snapshot.slots@, old(self).arch)
                &&& event.snapshot.slots@ == snapshot.slots@
                &&& name@.len() > 0
                &&& decision == spec_decide(event)
                &&& resume == spec_apply(decision)
                &&& *final(self) == *old(self)
            },
    {
        let arch = self.arch;
        let decoded = match decode(&snapshot, arch) {
            Ok(d) => d,
            Err(error) => {
                self.state = SessionState::Stopped {
                    reason: StopReason::DecodeFailed { error },
                };
                return MediationResult::Undecodable { error };
            },
        };
        let name = match sysno_lookup(decoded.number) {
            Some(s) => Some(sysno_name(s)),
            None => None,
        };
        self.on_decoded(decoded, snapshot, name)
    }

    /// The caller has explicitly terminated a target that an abort left
    /// stopped.
    pub fn mark_killed(&mut self, signal: u32)
        requires
            old(self).state is Stopped,
        ensures
            *final(self) == (SandboxSession {
                state: SessionState::Killed { signal },
                ..*old(self)
            }),
    {
        self.state = SessionState::Killed { signal };
    }
}

/// The supervisor's own exit status, reflecting the target's outcome: the
/// target's exit code on a normal exit, and a distinguished non-zero
/// status otherwise (the shell convention of 128 plus the signal for a
/// signal death, 254 for a session aborted with the target left stopped,
/// 255 for a session that never reached a terminal state).
pub open spec fn spec_supervisor_exit_status(st: SessionState) -> u32 {
    match st {
        SessionState::Exited { code } => code & 0xff,
        SessionState::Killed { signal } => (128 + (signal & 0x7f)) as u32,
        SessionState::KilledUnknown => 128,
        SessionState::Stopped { reason } => 254,
        _ => 255,
    }
}

/// Computes the exit status the supervisor process should end with.
pub fn supervisor_exit_status(s: &SandboxSession) -> (r: u32)
    ensures
        r == spec_supervisor_exit_status(s.state),
        s.state matches SessionState::Exited { code } ==> r == code & 0xff,
        !(s.state is Exited) ==> r != 0,
{
    match s.state {
        SessionState::Exited { code } => code & 0xff,
        SessionState::Killed { signal } => {
            let low = signal & 0x7f;
            proof {
                assert(signal & 0x7f <= 0x7f) by (bit_vector);
            }
            128 + low
        },
        SessionState::KilledUnknown => 128,
        SessionState::Stopped { reason } => 254,
        _ => 255,
    }
}

} // verus!
