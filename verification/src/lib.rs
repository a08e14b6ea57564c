//! Core of a process-sandboxing supervisor.
//!
//! The library contains the verified logic of a sandbox that launches an
//! untrusted executable under a kernel syscall filter and a tracer: the
//! policy model and its compiler, the register-snapshot decoder, the
//! wait-status classifier, the supervisor's per-session state machine, and
//! the mediation policy engine.  Process control itself (fork, exec,
//! ptrace, waitpid) is performed by a thin unverified driver that follows
//! the directives these functions return.

pub mod arch;
pub mod bootstrap;
pub mod compile;
pub mod policy;
pub mod session;
pub mod status;
pub mod sysno;
pub mod trace;
