//! The declarative syscall policy model.
//!
//! A policy is an unordered collection of rules, a default action for
//! syscalls no rule names, and a match action for syscalls a rule matches.
//! A rule names one syscall and carries argument predicates that are
//! AND-ed; several rules for the same syscall are OR-ed.  The spec
//! functions here are the meaning a compiled filter is trusted to carry
//! out in the kernel, and the executable evaluator below is the verified
//! reference for that meaning.

use vstd::prelude::*;

use crate::arch::Arch;

verus! {

/// Action a filter classifies a syscall into.
#[derive(Clone, Copy, Debug, PartialEq, Eq, Structural)]
pub enum Action {
    /// Let the syscall proceed.
    Allow,
    /// Fail the syscall with this error number.
    Errno(u32),
    /// Kill the calling thread.
    KillThread,
    /// Kill the calling process.
    KillProcess,
    /// Allow the syscall after logging it.
    Log,
    /// Stop the process and notify the tracer with this value.
    Trace(u32),
    /// Deliver a fault (`SIGSYS`) to the calling process.
    Trap,
}

/// Width of an argument comparison.
#[derive(Clone, Copy, Debug, PartialEq, Eq, Structural)]
pub enum ArgLen {
    /// Compare the low 32 bits only.
    Dword,
    /// Compare all 64 bits.
    Qword,
}

/// Comparison operator of an argument predicate; all comparisons are
/// unsigned.
#[derive(Clone, Copy, Debug, PartialEq, Eq, Structural)]
pub enum CmpOp {
    Eq,
    Ne,
    Lt,
    Le,
    Gt,
    Ge,
    /// Equal after AND-ing both sides with this mask.
    MaskedEq(u64),
}

/// One argument comparison: argument index, width, operator, and the
/// value compared against.
#[derive(Clone, Copy, Debug, PartialEq, Eq, Structural)]
pub struct Predicate {
    pub arg_index: u8,
    pub arg_len: ArgLen,
    pub op: CmpOp,
    pub value: u64,
}

/// A rule: a syscall number and the predicates a call of it must all
/// satisfy.  A rule with no predicates matches every call of its syscall.
#[derive(Clone, Debug)]
pub struct FilterRule {
    pub sysno: u64,
    pub predicates: Vec<Predicate>,
}

/// A full policy: rules, the action when no rule matches, the action when
/// one does, and the architecture the compiled program is valid for.
#[derive(Clone, Debug)]
pub struct SeccompPolicy {
    pub rules: Vec<FilterRule>,
    pub default_action: Action,
    pub match_action: Action,
    pub arch: Arch,
}

/// The syscall ABI passes at most six argument words.
pub const MAX_ARG_INDEX: u8 = 5;

/// A predicate's argument index is within the ABI's six argument words.
pub open spec fn pred_wf(p: Predicate) -> bool {
    p.arg_index <= MAX_ARG_INDEX
}

pub open spec fn rule_preds_wf(r: FilterRule) -> bool {
    forall|i: int| 0 <= i < r.predicates@.len() ==> pred_wf(r.predicates@[i])
}

/// Syscall numbers must fit the 32-bit field the kernel classifier
/// compares against.
pub open spec fn rule_sysno_wf(r: FilterRule) -> bool {
    r.sysno <= 0xffff_ffffu64
}

pub open spec fn rules_preds_wf(rs: Seq<FilterRule>) -> bool {
    forall|i: int| 0 <= i < rs.len() ==> rule_preds_wf(rs[i])
}

pub open spec fn rules_sysno_wf(rs: Seq<FilterRule>) -> bool {
    forall|i: int| 0 <= i < rs.len() ==> rule_sysno_wf(rs[i])
}

/// A policy a filter can be compiled from: predicates and syscall numbers
/// in range, a known architecture, and distinct default and match actions.
pub open spec fn policy_wf(p: SeccompPolicy) -> bool {
    &&& rules_preds_wf(p.rules@)
    &&& rules_sysno_wf(p.rules@)
    &&& !(p.arch is Unknown)
    &&& p.default_action != p.match_action
}

/// A value under a comparison width: the low 32 bits for `Dword`, all 64
/// for `Qword`.
pub open spec fn spec_widened(v: u64, len: ArgLen) -> u64 {
    match len {
        ArgLen::Dword => v & 0xffff_ffffu64,
        ArgLen::Qword => v,
    }
}

/// Whether one predicate holds of a call's argument words.
pub open spec fn pred_holds(p: Predicate, args: Seq<u64>) -> bool
    recommends
        p.arg_index < args.len(),
{
    let a = spec_widened(args[p.arg_index as int], p.arg_len);
    let v = spec_widened(p.value, p.arg_len);
    match p.op {
        CmpOp::Eq => a == v,
        CmpOp::Ne => a != v,
        CmpOp::Lt => a < v,
        CmpOp::Le => a <= v,
        CmpOp::Gt => a > v,
        CmpOp::Ge => a >= v,
        CmpOp::MaskedEq(m) => a & spec_widened(m, p.arg_len) == v & spec_widened(m, p.arg_len),
    }
}

/// A rule matches a call iff the call is of the rule's syscall and every
/// predicate of the rule holds (AND semantics; no predicates means the
/// syscall number alone decides).
pub open spec fn rule_matches(r: FilterRule, number: u64, args: Seq<u64>) -> bool {
    &&& r.sysno == number
    &&& forall|i: int| 0 <= i < r.predicates@.len() ==> pred_holds(r.predicates@[i], args)
}

/// A policy matches a call iff some rule matches it (OR semantics across
/// rules).
pub open spec fn policy_matches(p: SeccompPolicy, number: u64, args: Seq<u64>) -> bool {
    exists|i: int| 0 <= i < p.rules@.len() && rule_matches(p.rules@[i], number, args)
}

/// The action a policy classifies a call into.
pub open spec fn spec_classify(p: SeccompPolicy, number: u64, args: Seq<u64>) -> Action {
    if policy_matches(p, number, args) {
        p.match_action
    } else {
        p.default_action
    }
}

fn eval_predicate(p: &Predicate, args: &Vec<u64>) -> (r: bool)
    requires
        p.arg_index < args@.len(),
    ensures
        r == pred_holds(*p, args@),
{
    let raw = args[p.arg_index as usize];
    let a = match p.arg_len {
        ArgLen::Dword => raw & 0xffff_ffffu64,
        ArgLen::Qword => raw,
    };
    let v = match p.arg_len {
        ArgLen::Dword => p.value & 0xffff_ffffu64,
        ArgLen::Qword => p.value,
    };
    match p.op {
        CmpOp::Eq => a == v,
        CmpOp::Ne => a != v,
        CmpOp::Lt => a < v,
        CmpOp::Le => a <= v,
        CmpOp::Gt => a > v,
        CmpOp::Ge => a >= v,
        CmpOp::MaskedEq(m) => {
            let mask = match p.arg_len {
                ArgLen::Dword => m & 0xffff_ffffu64,
                ArgLen::Qword => m,
            };
            (a & mask) == (v & mask)
        },
    }
}

fn eval_rule(r: &FilterRule, number: u64, args: &Vec<u64>) -> (m: bool)
    requires
        rule_preds_wf(*r),
        args@.len() == 6,
    ensures
        m == rule_matches(*r, number, args@),
{
    if r.sysno != number {
        return false;
    }
    let mut i: usize = 0;
    while i < r.predicates.len()
        invariant
            i <= r.predicates@.len(),
            rule_preds_wf(*r),
            args@.len() == 6,
            forall|j: int| 0 <= j < i as int ==> pred_holds(r.predicates@[j], args@),
        decreases r.predicates@.len() - i,
    {
        if !eval_predicate(&r.predicates[i], args) {
            return false;
        }
        i = i + 1;
    }
    true
}

/// The verified reference evaluator: the action the policy assigns to a
/// call with this syscall number and these six argument words.
pub fn evaluate(p: &SeccompPolicy, number: u64, args: &Vec<u64>) -> (a: Action)
    requires
        rules_preds_wf(p.rules@),
        args@.len() == 6,
    ensures
        a == spec_classify(*p, number, args@),
{
    let mut i: usize = 0;
    while i < p.rules.len()
        invariant
            i <= p.rules@.len(),
            rules_preds_wf(p.rules@),
            args@.len() == 6,
            forall|j: int| 0 <= j < i as int ==> !rule_matches(p.rules@[j], number, args@),
        decreases p.rules@.len() - i,
    {
        if eval_rule(&p.rules[i], number, args) {
            return p.match_action;
        }
        i = i + 1;
    }
    p.default_action
}

/// An empty rule set matches no call at all: every syscall, with any
/// arguments, is classified into the default action.
pub proof fn lemma_empty_rules_default(p: SeccompPolicy, number: u64, args: Seq<u64>)
    requires
        p.rules@.len() == 0,
    ensures
        spec_classify(p, number, args) == p.default_action,
{
}

proof fn lemma_policy_match_carries(
    p1: SeccompPolicy,
    p2: SeccompPolicy,
    number: u64,
    args: Seq<u64>,
)
    requires
        p1.rules@.to_multiset() == p2.rules@.to_multiset(),
        policy_matches(p1, number, args),
    ensures
        policy_matches(p2, number, args),
{
    broadcast use vstd::seq_lib::group_to_multiset_ensures;

    let i = choose|i: int|
        0 <= i < p1.rules@.len() && rule_matches(p1.rules@[i], number, args);
    let r = p1.rules@[i];
    assert(p1.rules@.contains(r));
    assert(p2.rules@.to_multiset().count(r) > 0);
    assert(p2.rules@.contains(r));
    let j = choose|j: int| 0 <= j < p2.rules@.len() && p2.rules@[j] == r;
    assert(rule_matches(p2.rules@[j], number, args));
}

/// Rules are OR-ed order-independently: two policies whose rule
/// collections hold the same rules, in any order, and whose actions agree,
/// classify every call identically.
pub proof fn lemma_rule_order_independent(
    p1: SeccompPolicy,
    p2: SeccompPolicy,
    number: u64,
    args: Seq<u64>,
)
    requires
        p1.rules@.to_multiset() == p2.rules@.to_multiset(),
        p1.default_action == p2.default_action,
        p1.match_action == p2.match_action,
    ensures
        spec_classify(p1, number, args) == spec_classify(p2, number, args),
{
    if policy_matches(p1, number, args) {
        lemma_policy_match_carries(p1, p2, number, args);
    }
    if policy_matches(p2, number, args) {
        lemma_policy_match_carries(p2, p1, number, args);
    }
}

/// Predicates are AND-ed order-independently: two rules for the same
/// syscall whose predicate lists hold the same predicates, in any order,
/// match exactly the same calls.
pub proof fn lemma_predicate_order_independent(
    r1: FilterRule,
    r2: FilterRule,
    number: u64,
    args: Seq<u64>,
)
    requires
        r1.sysno == r2.sysno,
        r1.predicates@.to_multiset() == r2.predicates@.to_multiset(),
    ensures
        rule_matches(r1, number, args) == rule_matches(r2, number, args),
{
    broadcast use vstd::seq_lib::group_to_multiset_ensures;

    if rule_matches(r1, number, args) {
        assert forall|j: int| 0 <= j < r2.predicates@.len() implies pred_holds(
            r2.predicates@[j],
            args,
        ) by {
            let p = r2.predicates@[j];
            assert(r2.predicates@.contains(p));
            assert(r1.predicates@.to_multiset().count(p) > 0);
            assert(r1.predicates@.contains(p));
            let k = choose|k: int| 0 <= k < r1.predicates@.len() && r1.predicates@[k] == p;
            assert(pred_holds(r1.predicates@[k], args));
        }
    }
    if rule_matches(r2, number, args) {
        assert forall|j: int| 0 <= j < r1.predicates@.len() implies pred_holds(
            r1.predicates@[j],
            args,
        ) by {
            let p = r1.predicates@[j];
            assert(r1.predicates@.contains(p));
            assert(r2.predicates@.to_multiset().count(p) > 0);
            assert(r2.predicates@.contains(p));
            let k = choose|k: int| 0 <= k < r2.predicates@.len() && r2.predicates@[k] == p;
            assert(pred_holds(r2.predicates@[k], args));
        }
    }
}

} // verus!
