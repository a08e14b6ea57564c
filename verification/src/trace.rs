//! Whole-run laws of the event loop.
//!
//! A run of the supervisor is modelled as the fold of the per-status step
//! over the sequence of wait statuses the kernel reports.  The lemmas
//! here pin down how many mediation points a run visits — every
//! interception stop beyond the spurious allowance, and nothing else —
//! and that a run whose last status is a normal exit ends the session in
//! exactly that exit.

use vstd::prelude::*;

use crate::session::{
    LoopDirective, SandboxSession, SessionState, session_live, session_wf, spec_step_directive,
    spec_step_state,
};
use crate::status::{StatusClass, is_nonterminal_status, is_seccomp_status, spec_classify};

verus! {

/// The session after the loop has processed these statuses in order
/// (stopping early if a step leaves the live states).
pub open spec fn run_trace(s: SandboxSession, statuses: Seq<u32>) -> SandboxSession
    decreases statuses.len(),
{
    if statuses.len() == 0 {
        s
    } else if session_live(s) {
        run_trace(spec_step_state(s, statuses[0]), statuses.subrange(1, statuses.len() as int))
    } else {
        s
    }
}

/// How many mediation points the loop visits while processing these
/// statuses: the steps whose directive asks for the registers.
pub open spec fn count_mediations(s: SandboxSession, statuses: Seq<u32>) -> int
    decreases statuses.len(),
{
    if statuses.len() == 0 || !session_live(s) {
        0
    } else {
        (if spec_step_directive(s, statuses[0]) is AwaitRegisters {
            1int
        } else {
            0int
        }) + count_mediations(
            spec_step_state(s, statuses[0]),
            statuses.subrange(1, statuses.len() as int),
        )
    }
}

/// How many of these statuses are syscall-interception stops.
pub open spec fn count_seccomp(statuses: Seq<u32>) -> int
    decreases statuses.len(),
{
    if statuses.len() == 0 {
        0
    } else {
        (if is_seccomp_status(statuses[0]) {
            1int
        } else {
            0int
        }) + count_seccomp(statuses.subrange(1, statuses.len() as int))
    }
}

/// The mediation points a run owes: each interception stop beyond what is
/// left of the spurious allowance, and none below it.
pub open spec fn owed_mediations(seccomp_stops: int, consumed: int, to_skip: int) -> int {
    if seccomp_stops + consumed <= to_skip {
        0
    } else {
        seccomp_stops + consumed - to_skip
    }
}

/// A run holds between zero interception stops and one per status.
proof fn lemma_count_seccomp_bounds(statuses: Seq<u32>)
    ensures
        0 <= count_seccomp(statuses) <= statuses.len(),
    decreases statuses.len(),
{
    if statuses.len() > 0 {
        lemma_count_seccomp_bounds(statuses.subrange(1, statuses.len() as int));
    }
}

proof fn lemma_step_accounting(s: SandboxSession, st: u32)
    requires
        session_live(s),
        session_wf(s),
        is_nonterminal_status(st),
    ensures
        session_live(spec_step_state(s, st)),
        session_wf(spec_step_state(s, st)),
        spec_step_state(s, st).spurious_to_skip == s.spurious_to_skip,
        is_seccomp_status(st) && s.spurious_consumed < s.spurious_to_skip ==> spec_step_state(
            s,
            st,
        ).spurious_consumed == s.spurious_consumed + 1 && spec_step_directive(s, st)
            == LoopDirective::Resume,
        is_seccomp_status(st) && s.spurious_consumed >= s.spurious_to_skip ==> spec_step_state(
            s,
            st,
        ).spurious_consumed == s.spurious_consumed && spec_step_directive(s, st)
            == LoopDirective::AwaitRegisters,
        !is_seccomp_status(st) ==> spec_step_state(s, st).spurious_consumed
            == s.spurious_consumed && spec_step_directive(s, st) != LoopDirective::AwaitRegisters,
{
}

/// Over statuses that are neither exits nor signal deaths, the loop stays
/// live and visits exactly one mediation point per interception stop
/// beyond the spurious allowance: the spurious stops are consumed
/// separately and never become mediation points, and every later
/// interception stop becomes exactly one.
pub proof fn lemma_mediation_count(s: SandboxSession, statuses: Seq<u32>)
    requires
        session_live(s),
        session_wf(s),
        forall|i: int| 0 <= i < statuses.len() ==> is_nonterminal_status(#[trigger] statuses[i]),
    ensures
        session_live(run_trace(s, statuses)),
        session_wf(run_trace(s, statuses)),
        run_trace(s, statuses).spurious_to_skip == s.spurious_to_skip,
        count_mediations(s, statuses) == owed_mediations(
            count_seccomp(statuses),
            s.spurious_consumed as int,
            s.spurious_to_skip as int,
        ),
    decreases statuses.len(),
{
    if statuses.len() == 0 {
    } else {
        let st = statuses[0];
        let s1 = spec_step_state(s, st);
        let rest = statuses.subrange(1, statuses.len() as int);
        assert(is_nonterminal_status(st));
        lemma_step_accounting(s, st);
        assert(forall|i: int|
            0 <= i < rest.len() ==> is_nonterminal_status(#[trigger] rest[i]));
        lemma_mediation_count(s1, rest);
        lemma_count_seccomp_bounds(rest);
        assert(count_seccomp(statuses) == (if is_seccomp_status(st) {
            1int
        } else {
            0int
        }) + count_seccomp(rest));
        assert(count_mediations(s, statuses) == (if spec_step_directive(s, st)
            is AwaitRegisters {
            1int
        } else {
            0int
        }) + count_mediations(s1, rest));
    }
}

/// A run whose earlier statuses are all stops and whose last status is a
/// normal exit with this code ends the session in `Exited` with that
/// code, after exactly the owed mediation points for the stops before the
/// exit.
pub proof fn lemma_exit_outcome(s: SandboxSession, statuses: Seq<u32>, code: u32)
    requires
        session_live(s),
        session_wf(s),
        statuses.len() >= 1,
        forall|i: int|
            0 <= i < statuses.len() - 1 ==> is_nonterminal_status(#[trigger] statuses[i]),
        spec_classify(statuses[statuses.len() - 1]) == (StatusClass::Exited { code }),
    ensures
        run_trace(s, statuses).state == (SessionState::Exited { code }),
        count_mediations(s, statuses) == owed_mediations(
            count_seccomp(statuses.take(statuses.len() - 1)),
            s.spurious_consumed as int,
            s.spurious_to_skip as int,
        ),
    decreases statuses.len(),
{
    let prefix = statuses.take(statuses.len() - 1);
    if statuses.len() == 1 {
        let st = statuses[0];
        let s1 = spec_step_state(s, st);
        assert(s1.state == (SessionState::Exited { code }));
        assert(!session_live(s1));
        assert(run_trace(s, statuses) == run_trace(s1, statuses.subrange(1, 1)));
        assert(statuses.subrange(1, 1).len() == 0);
        assert(prefix.len() == 0);
        assert(spec_step_directive(s, st) == LoopDirective::Finish);
        assert(count_mediations(s1, statuses.subrange(1, 1)) == 0);
        assert(count_mediations(s, statuses) == 0);
        assert(count_seccomp(prefix) == 0);
    } else {
        let st = statuses[0];
        let s1 = spec_step_state(s, st);
        let rest = statuses.subrange(1, statuses.len() as int);
        assert(is_nonterminal_status(st));
        lemma_step_accounting(s, st);
        assert(rest.len() == statuses.len() - 1);
        assert(forall|i: int|
            0 <= i < rest.len() - 1 ==> is_nonterminal_status(#[trigger] rest[i]));
        assert(spec_classify(rest[rest.len() - 1]) == (StatusClass::Exited { code }));
        lemma_exit_outcome(s1, rest, code);
        let rest_prefix = rest.take(rest.len() - 1);
        lemma_count_seccomp_bounds(rest_prefix);
        assert(prefix.subrange(1, prefix.len() as int) =~= rest_prefix);
        assert(prefix[0] == st);
        assert(count_seccomp(prefix) == (if is_seccomp_status(st) {
            1int
        } else {
            0int
        }) + count_seccomp(rest_prefix));
        assert(count_mediations(s, statuses) == (if spec_step_directive(s, st)
            is AwaitRegisters {
            1int
        } else {
            0int
        }) + count_mediations(s1, rest));
    }
}

/// A quiet run: when the interception stops before the exit all fit the
/// spurious allowance, the loop visits no mediation point at all and the
/// session ends in the target's own exit code.
pub proof fn lemma_quiet_session(s: SandboxSession, statuses: Seq<u32>, code: u32)
    requires
        session_live(s),
        session_wf(s),
        statuses.len() >= 1,
        forall|i: int|
            0 <= i < statuses.len() - 1 ==> is_nonterminal_status(#[trigger] statuses[i]),
        spec_classify(statuses[statuses.len() - 1]) == (StatusClass::Exited { code }),
        count_seccomp(statuses.take(statuses.len() - 1)) + s.spurious_consumed
            <= s.spurious_to_skip,
    ensures
        run_trace(s, statuses).state == (SessionState::Exited { code }),
        count_mediations(s, statuses) == 0,
{
    lemma_exit_outcome(s, statuses, code);
}

/// One real interception: when the statuses are all stops and hold
/// exactly one interception stop beyond the spurious allowance, the loop
/// visits exactly one mediation point — the spurious stops are consumed
/// separately and are never counted.
pub proof fn lemma_single_mediation(s: SandboxSession, statuses: Seq<u32>)
    requires
        session_live(s),
        session_wf(s),
        forall|i: int| 0 <= i < statuses.len() ==> is_nonterminal_status(#[trigger] statuses[i]),
        count_seccomp(statuses) + s.spurious_consumed == s.spurious_to_skip + 1,
    ensures
        count_mediations(s, statuses) == 1,
{
    lemma_mediation_count(s, statuses);
}

} // verus!
