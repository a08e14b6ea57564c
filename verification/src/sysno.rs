//! Trusted view of the build target's syscall table.
//!
//! Which numbers are syscalls, and what they are called, depends on the
//! platform the supervisor was built for, so nothing is assumed about the
//! outcome of a lookup; the event loop is verified for every outcome.

use vstd::prelude::*;

verus! {

#[verifier::external_type_specification]
#[verifier::external_body]
pub struct ExSysno(syscalls::Sysno);

/// Relies on `syscalls::Sysno::new`: it returns the syscall of the given
/// number exactly when the build target's table has one, and never
/// panics.  The table is platform-dependent, so no outcome is promised.
#[verifier::external_body]
pub(crate) fn sysno_lookup(number: u64) -> (r: Option<syscalls::Sysno>) {
    match usize::try_from(number) {
        Ok(n) => syscalls::Sysno::new(n),
        Err(_) => None,
    }
}

/// Relies on `syscalls::Sysno::name`: the identifier the table declares
/// the syscall under, which is never an empty string.
#[verifier::external_body]
pub(crate) fn sysno_name(s: syscalls::Sysno) -> (r: String)
    ensures
        r@.len() > 0,
{
    s.name().to_string()
}

} // verus!
