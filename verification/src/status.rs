//! Classification of raw wait status words.
//!
//! The kernel reports a traced process's state changes as a packed status
//! word.  The spec functions here restate the POSIX encoding of that
//! word; the classifier turns a word into one of the event loop's four
//! cases: exited, terminated by a signal, stopped, or none of these.

use vstd::prelude::*;

verus! {

/// Signal number of the trap signal a syscall-interception stop reports.
pub const TRAP_SIGNAL: u32 = 5;

/// Event value the tracer protocol attaches to a stop caused by the
/// kernel's syscall classifier.
pub const SECCOMP_EVENT: u32 = 7;

/// The process exited normally: the low seven bits are clear.
pub open spec fn spec_exited(s: u32) -> bool {
    s & 0x7f == 0
}

/// Exit code of a normal exit: the second byte.
pub open spec fn spec_exit_code(s: u32) -> u32 {
    (s >> 8) & 0xff
}

/// The process is stopped: the low byte reads 0x7f.
pub open spec fn spec_stopped(s: u32) -> bool {
    s & 0xff == 0x7f
}

/// Signal that caused a stop: the second byte.
pub open spec fn spec_stop_signal(s: u32) -> u32 {
    (s >> 8) & 0xff
}

/// Tracer event attached to a stop: the third and fourth bytes.
pub open spec fn spec_stop_event(s: u32) -> u32 {
    (s >> 16) & 0xffff
}

/// The process was terminated by a signal: neither exited nor stopped,
/// and the low seven bits are a signal number.
pub open spec fn spec_signaled(s: u32) -> bool {
    &&& !spec_exited(s)
    &&& !spec_stopped(s)
    &&& s & 0x7f != 0x7f
}

/// Signal that terminated the process.
pub open spec fn spec_term_signal(s: u32) -> u32 {
    s & 0x7f
}

/// What a wait status word reports.
#[derive(Clone, Copy, Debug, PartialEq, Eq, Structural)]
pub enum StatusClass {
    /// Normal exit with this code.
    Exited { code: u32 },
    /// Terminated by this signal.
    Signaled { signal: u32 },
    /// Stopped by this signal, with the tracer event value of the stop.
    Stopped { signal: u32, event: u32 },
    /// None of the above (no state change this loop acts on).
    Other,
}

/// The classification of a status word.
pub open spec fn spec_classify(s: u32) -> StatusClass {
    if spec_exited(s) {
        StatusClass::Exited { code: spec_exit_code(s) }
    } else if spec_stopped(s) {
        StatusClass::Stopped { signal: spec_stop_signal(s), event: spec_stop_event(s) }
    } else if spec_signaled(s) {
        StatusClass::Signaled { signal: spec_term_signal(s) }
    } else {
        StatusClass::Other
    }
}

/// A stop is a syscall-interception stop (a mediation point) iff it
/// reports the trap signal together with the classifier's tracer event.
pub open spec fn is_seccomp_stop(signal: u32, event: u32) -> bool {
    signal == TRAP_SIGNAL && event == SECCOMP_EVENT
}

/// A status word that reports a mediation point.
pub open spec fn is_seccomp_status(s: u32) -> bool {
    spec_classify(s) matches StatusClass::Stopped { signal, event } && is_seccomp_stop(
        signal,
        event,
    )
}

/// A status word that reports neither an exit nor a termination.
pub open spec fn is_nonterminal_status(s: u32) -> bool {
    !(spec_classify(s) is Exited) && !(spec_classify(s) is Signaled)
}

/// Classifies a raw wait status word.
pub fn classify_status(s: u32) -> (c: StatusClass)
    ensures
        c == spec_classify(s),
{
    if s & 0x7f == 0 {
        StatusClass::Exited { code: (s >> 8) & 0xff }
    } else if s & 0xff == 0x7f {
        StatusClass::Stopped { signal: (s >> 8) & 0xff, event: (s >> 16) & 0xffff }
    } else if s & 0x7f != 0x7f {
        StatusClass::Signaled { signal: s & 0x7f }
    } else {
        StatusClass::Other
    }
}

} // verus!
