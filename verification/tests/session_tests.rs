use sandbox_core::arch::{Arch, DecodeError, DecodedCall, RegisterSnapshot};
use sandbox_core::bootstrap::{
    BootstrapError, BootstrapStep, bootstrap_failure_code, bootstrap_plan,
};
use sandbox_core::policy::Action;
use sandbox_core::session::{
    Decision, LoopDirective, MediationResult, ResumeDirective, SandboxSession, SessionState,
    StopReason, apply_decision, supervisor_exit_status,
};
use sandbox_core::status::{StatusClass, classify_status};

const SECCOMP_STOP: u32 = 0x7f | (5 << 8) | (7 << 16);
const SIGCHLD_STOP: u32 = 0x7f | (17 << 8);

fn exit_status(code: u32) -> u32 {
    code << 8
}

/// An x86_64-shaped snapshot whose number slot holds `number` and whose
/// argument slots hold 1..=6.
fn snapshot_with_number(number: u64) -> RegisterSnapshot {
    let mut slots = vec![0u64; 27];
    slots[15] = number;
    slots[14] = 1;
    slots[13] = 2;
    slots[12] = 3;
    slots[7] = 4;
    slots[9] = 5;
    slots[8] = 6;
    RegisterSnapshot { slots }
}

fn armed_session() -> SandboxSession {
    let mut s = SandboxSession::new(4242, Arch::X86_64, 1);
    assert!(matches!(s.state, SessionState::Initializing));
    s.mark_armed();
    assert!(matches!(s.state, SessionState::Armed));
    s
}

#[test]
fn status_words_classify_as_documented() {
    assert_eq!(classify_status(exit_status(0)), StatusClass::Exited { code: 0 });
    assert_eq!(classify_status(exit_status(23)), StatusClass::Exited { code: 23 });
    assert_eq!(classify_status(9), StatusClass::Signaled { signal: 9 });
    assert_eq!(classify_status(SECCOMP_STOP), StatusClass::Stopped { signal: 5, event: 7 });
    assert_eq!(classify_status(SIGCHLD_STOP), StatusClass::Stopped { signal: 17, event: 0 });
    assert_eq!(classify_status(0xffff), StatusClass::Other);
}

#[test]
fn clean_run_with_one_allowed_syscall() {
    // The target makes one filtered call and exits 0: the spurious first
    // stop is consumed silently, the real stop is mediated once and
    // allowed, and the session ends in the target's own exit.
    let mut s = armed_session();
    assert_eq!(s.on_wait_status(SECCOMP_STOP), LoopDirective::Resume);
    assert_eq!(s.spurious_consumed, 1);
    assert!(matches!(s.state, SessionState::Running));

    assert_eq!(s.on_wait_status(SECCOMP_STOP), LoopDirective::AwaitRegisters);
    match s.on_registers(snapshot_with_number(1)) {
        MediationResult::Mediated { event, name, decision, resume } => {
            assert_eq!(event.number, 1);
            assert_eq!(event.args, vec![1, 2, 3, 4, 5, 6]);
            assert!(!name.is_empty());
            assert_eq!(decision, Decision::Allow);
            assert_eq!(resume, ResumeDirective::ResumeClean);
        },
        other => panic!("expected a mediated call, got {:?}", other),
    }
    assert!(matches!(s.state, SessionState::Running));

    assert_eq!(s.on_wait_status(exit_status(0)), LoopDirective::Finish);
    assert!(matches!(s.state, SessionState::Exited { code: 0 }));
    assert_eq!(supervisor_exit_status(&s), 0);
}

#[test]
fn unmatched_policy_sees_no_mediation_points() {
    // The match action names a syscall the target never calls: beyond the
    // spurious first stop, only ordinary signal stops arrive and each is
    // resumed unconditionally; the target runs to completion unobserved.
    let mut s = armed_session();
    assert_eq!(s.on_wait_status(SECCOMP_STOP), LoopDirective::Resume);
    assert_eq!(s.on_wait_status(SIGCHLD_STOP), LoopDirective::Resume);
    assert_eq!(s.on_wait_status(SIGCHLD_STOP), LoopDirective::Resume);
    assert_eq!(s.on_wait_status(exit_status(0)), LoopDirective::Finish);
    assert!(matches!(s.state, SessionState::Exited { code: 0 }));
    assert_eq!(s.spurious_consumed, 1);
}

#[test]
fn bootstrap_failure_surfaces_as_abnormal_termination() {
    // The child could not replace its image (missing target path): it
    // exits with the distinguished code, and the supervisor's terminal
    // state reflects the failure, not a clean exit.
    let code = bootstrap_failure_code(&BootstrapError::ExecFailed);
    assert_eq!(code, 127);
    let mut s = armed_session();
    assert_eq!(s.on_wait_status(SECCOMP_STOP), LoopDirective::Resume);
    assert_eq!(s.on_wait_status(exit_status(code)), LoopDirective::Finish);
    assert!(matches!(s.state, SessionState::Exited { code: 127 }));
    assert!(!matches!(s.state, SessionState::Exited { code: 0 }));
    assert_ne!(supervisor_exit_status(&s), 0);
}

#[test]
fn unrecognized_syscall_aborts_and_leaves_the_target_stopped() {
    let mut s = armed_session();
    assert_eq!(s.on_wait_status(SECCOMP_STOP), LoopDirective::Resume);
    assert_eq!(s.on_wait_status(SECCOMP_STOP), LoopDirective::AwaitRegisters);
    match s.on_registers(snapshot_with_number(0x7fff_ffff)) {
        MediationResult::Unrecognized { number } => assert_eq!(number, 0x7fff_ffff),
        other => panic!("expected an unrecognized syscall, got {:?}", other),
    }
    assert!(matches!(
        s.state,
        SessionState::Stopped { reason: StopReason::UnrecognizedSyscall { number: 0x7fff_ffff } }
    ));
    assert_ne!(supervisor_exit_status(&s), 0);
    // The caller must terminate the stopped target explicitly.
    s.mark_killed(9);
    assert!(matches!(s.state, SessionState::Killed { signal: 9 }));
    assert_eq!(supervisor_exit_status(&s), 137);
}

#[test]
fn recognized_decoded_call_is_mediated_and_allowed() {
    let mut s = armed_session();
    assert_eq!(s.on_wait_status(SIGCHLD_STOP), LoopDirective::Resume);
    let decoded = DecodedCall { number: 1, args: vec![9, 8, 7, 6, 5, 4] };
    let snapshot = RegisterSnapshot { slots: vec![0; 27] };
    match s.on_decoded(decoded, snapshot, Some("write".to_string())) {
        MediationResult::Mediated { event, name, decision, resume } => {
            assert_eq!(event.number, 1);
            assert_eq!(event.args, vec![9, 8, 7, 6, 5, 4]);
            assert_eq!(name, "write");
            assert_eq!(decision, Decision::Allow);
            assert_eq!(resume, ResumeDirective::ResumeClean);
        },
        other => panic!("expected a mediated call, got {:?}", other),
    }
    assert!(matches!(s.state, SessionState::Running));
}

#[test]
fn unrecognized_decoded_call_aborts_the_session() {
    let mut s = armed_session();
    assert_eq!(s.on_wait_status(SIGCHLD_STOP), LoopDirective::Resume);
    let decoded = DecodedCall { number: 987654, args: vec![0; 6] };
    let snapshot = RegisterSnapshot { slots: vec![0; 27] };
    match s.on_decoded(decoded, snapshot, None) {
        MediationResult::Unrecognized { number } => assert_eq!(number, 987654),
        other => panic!("expected an unrecognized syscall, got {:?}", other),
    }
    assert!(matches!(
        s.state,
        SessionState::Stopped { reason: StopReason::UnrecognizedSyscall { number: 987654 } }
    ));
}

#[test]
fn undecodable_snapshot_aborts() {
    let mut s = armed_session();
    assert_eq!(s.on_wait_status(SECCOMP_STOP), LoopDirective::Resume);
    assert_eq!(s.on_wait_status(SECCOMP_STOP), LoopDirective::AwaitRegisters);
    match s.on_registers(RegisterSnapshot { slots: vec![0; 4] }) {
        MediationResult::Undecodable { error } => {
            assert_eq!(error, DecodeError::TruncatedSnapshot)
        },
        other => panic!("expected an undecodable snapshot, got {:?}", other),
    }
    assert!(matches!(
        s.state,
        SessionState::Stopped { reason: StopReason::DecodeFailed { .. } }
    ));
}

#[test]
fn wait_failure_ends_the_session_without_a_known_cause() {
    let mut s = armed_session();
    s.on_wait_failure();
    assert!(matches!(s.state, SessionState::KilledUnknown));
    assert_eq!(supervisor_exit_status(&s), 128);
}

#[test]
fn signal_death_is_terminal_and_distinguished() {
    let mut s = armed_session();
    assert_eq!(s.on_wait_status(9), LoopDirective::Finish);
    assert!(matches!(s.state, SessionState::Killed { signal: 9 }));
    assert_eq!(supervisor_exit_status(&s), 137);
}

#[test]
fn spurious_allowance_is_configurable() {
    let mut s = SandboxSession::new(1, Arch::X86_64, 2);
    s.mark_armed();
    assert_eq!(s.on_wait_status(SECCOMP_STOP), LoopDirective::Resume);
    assert_eq!(s.on_wait_status(SECCOMP_STOP), LoopDirective::Resume);
    assert_eq!(s.spurious_consumed, 2);
    assert_eq!(s.on_wait_status(SECCOMP_STOP), LoopDirective::AwaitRegisters);
    assert_eq!(s.spurious_consumed, 2);
}

#[test]
fn trap_stop_without_the_seccomp_event_is_no_mediation_point() {
    // A plain SIGTRAP stop carries no classifier event and must be
    // resumed without touching the spurious allowance.
    let mut s = armed_session();
    let plain_trap_stop = 0x7f | (5 << 8);
    assert_eq!(s.on_wait_status(plain_trap_stop), LoopDirective::Resume);
    assert_eq!(s.spurious_consumed, 0);
}

#[test]
fn other_status_words_are_waited_out() {
    let mut s = armed_session();
    assert_eq!(s.on_wait_status(0xffff), LoopDirective::WaitAgain);
    assert!(matches!(s.state, SessionState::Armed));
}

#[test]
fn denial_and_emulation_patch_the_result_register() {
    assert_eq!(apply_decision(&Decision::Allow), ResumeDirective::ResumeClean);
    assert_eq!(
        apply_decision(&Decision::Deny { error_result: (-1i64) as u64 }),
        ResumeDirective::ResumeWithResult { value: (-1i64) as u64 }
    );
    assert_eq!(
        apply_decision(&Decision::Emulate { result: 42 }),
        ResumeDirective::ResumeWithResult { value: 42 }
    );
}

#[test]
fn bootstrap_plan_orders_filter_before_exec() {
    let plan = bootstrap_plan(&Action::Trace(0), true);
    assert_eq!(plan, vec![
        BootstrapStep::RequestTrace,
        BootstrapStep::InstallFilter,
        BootstrapStep::ExecuteTarget,
    ]);
    let plan = bootstrap_plan(&Action::Trap, false);
    assert_eq!(plan, vec![
        BootstrapStep::InstallFaultHandler,
        BootstrapStep::InstallFilter,
        BootstrapStep::ExecuteTarget,
    ]);
    let plan = bootstrap_plan(&Action::Trace(0), false);
    assert_eq!(plan, vec![BootstrapStep::InstallFilter, BootstrapStep::ExecuteTarget]);
}

#[test]
fn bootstrap_failure_codes_are_distinct_and_nonzero() {
    let a = bootstrap_failure_code(&BootstrapError::TraceRequestFailed);
    let b = bootstrap_failure_code(&BootstrapError::FilterInstallFailed);
    let c = bootstrap_failure_code(&BootstrapError::ExecFailed);
    assert!(a != 0 && b != 0 && c != 0);
    assert!(a != b && b != c && a != c);
}
