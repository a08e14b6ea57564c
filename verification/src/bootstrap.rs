//! The target bootstrapper's plan.
//!
//! Between process duplication and image replacement, the child that is
//! about to become the untrusted program performs a short, order-critical
//! sequence.  The plan is computed here, verified; the unverified driver
//! executes its steps in order inside the child, treating any step's
//! failure as fatal to the session.

use vstd::prelude::*;

use crate::policy::Action;

verus! {

/// A child-side failure before the untrusted program ran; each is fatal
/// to the session and reported through the child's exit status.
#[derive(Clone, Copy, Debug, PartialEq, Eq, Structural)]
pub enum BootstrapError {
    /// Asking to be traced failed.
    TraceRequestFailed,
    /// Installing the compiled filter failed.
    FilterInstallFailed,
    /// Replacing the process image failed: the executable is missing, not
    /// executable, or of the wrong architecture.
    ExecFailed,
}

/// One step of the child-side sequence.
#[derive(Clone, Copy, Debug, PartialEq, Eq, Structural)]
pub enum BootstrapStep {
    /// Install a handler for the disallowed-call fault that logs the
    /// offending syscall and terminates: the last line of defense when no
    /// external tracer is attached.
    InstallFaultHandler,
    /// Ask to be traced by the parent, before any filter is applied, so
    /// that the filter installation and the image replacement are both
    /// observable.
    RequestTrace,
    /// Install the compiled filter; from this instant every syscall is
    /// classified before it executes.
    InstallFilter,
    /// Replace the process image with the untrusted executable; never
    /// returns on success.
    ExecuteTarget,
}

/// A match action is fault-style when it delivers a fault to the target
/// itself instead of notifying a tracer.
pub open spec fn is_fault_style(a: Action) -> bool {
    a is Trap
}

/// The child-side plan: the fault handler only under a fault-style match
/// action, the trace request only when external tracing is wanted, and
/// always the filter installation directly followed by the image
/// replacement, last.
pub open spec fn spec_bootstrap_plan(match_action: Action, trace_externally: bool) -> Seq<
    BootstrapStep,
> {
    (if is_fault_style(match_action) {
        seq![BootstrapStep::InstallFaultHandler]
    } else {
        Seq::empty()
    }) + (if trace_externally {
        seq![BootstrapStep::RequestTrace]
    } else {
        Seq::empty()
    }) + seq![BootstrapStep::InstallFilter, BootstrapStep::ExecuteTarget]
}

/// Computes the child-side plan.  The contract carries the ordering
/// guarantee the sandbox rests on: the image replacement is the last
/// step and the filter installation stands immediately before it, so no
/// untrusted instruction can execute before the filter is installed.
pub fn bootstrap_plan(match_action: &Action, trace_externally: bool) -> (steps: Vec<BootstrapStep>)
    ensures
        steps@ == spec_bootstrap_plan(*match_action, trace_externally),
        steps@.len() >= 2,
        steps@[steps@.len() - 2] == BootstrapStep::InstallFilter,
        steps@[steps@.len() - 1] == BootstrapStep::ExecuteTarget,
{
    let mut steps: Vec<BootstrapStep> = Vec::new();
    if matches!(match_action, Action::Trap) {
        steps.push(BootstrapStep::InstallFaultHandler);
    }
    if trace_externally {
        steps.push(BootstrapStep::RequestTrace);
    }
    steps.push(BootstrapStep::InstallFilter);
    steps.push(BootstrapStep::ExecuteTarget);
    proof {
        assert(steps@ =~= spec_bootstrap_plan(*match_action, trace_externally));
    }
    steps
}

/// The exit status a failed child reports for each bootstrap error.
pub open spec fn spec_bootstrap_failure_code(e: BootstrapError) -> u32 {
    match e {
        BootstrapError::TraceRequestFailed => 125,
        BootstrapError::FilterInstallFailed => 126,
        BootstrapError::ExecFailed => 127,
    }
}

/// The distinguished, non-zero exit status the child reports when a
/// bootstrap step fails, so the supervisor's terminal state reflects the
/// abnormal end rather than a clean exit.
pub fn bootstrap_failure_code(e: &BootstrapError) -> (r: u32)
    ensures
        r == spec_bootstrap_failure_code(*e),
        r != 0,
        r <= 0xff,
{
    match e {
        BootstrapError::TraceRequestFailed => 125,
        BootstrapError::FilterInstallFailed => 126,
        BootstrapError::ExecFailed => 127,
    }
}

} // verus!
