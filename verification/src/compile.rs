//! The policy compiler: from the declarative policy model to the opaque,
//! architecture-specific program the kernel classifier executes.
//!
//! Validation of the policy is verified here; the translation of each
//! validated piece into the kernel program is delegated to the
//! `seccompiler` crate behind the trusted items below.  The compiled
//! artifact is opaque: its meaning is the policy model it was built from,
//! which the compiler stores beside it.  Success is owed: the program's
//! length is bounded by a verified count over the policy ([`policy_fits`]),
//! and every well-formed policy under that bound compiles.

use vstd::prelude::*;

use crate::arch::Arch;
use crate::policy::{
    Action, ArgLen, CmpOp, FilterRule, MAX_ARG_INDEX, SeccompPolicy, policy_wf, pred_wf,
    rule_preds_wf, rule_sysno_wf, rules_preds_wf, rules_sysno_wf, spec_classify,
};

verus! {

#[verifier::external_type_specification]
#[verifier::external_body]
pub struct ExSeccompCmpArgLen(seccompiler::SeccompCmpArgLen);

#[verifier::external_type_specification]
#[verifier::external_body]
pub struct ExSeccompCmpOp(seccompiler::SeccompCmpOp);

#[verifier::external_type_specification]
#[verifier::external_body]
pub struct ExSeccompCondition(seccompiler::SeccompCondition);

#[verifier::external_type_specification]
#[verifier::external_body]
pub struct ExSeccompRule(seccompiler::SeccompRule);

#[verifier::external_type_specification]
#[verifier::external_body]
pub struct ExSeccompAction(seccompiler::SeccompAction);

#[verifier::external_type_specification]
#[verifier::external_body]
pub struct ExTargetArch(seccompiler::TargetArch);

#[verifier::external_type_specification]
#[verifier::external_body]
pub struct ExSockFilter(seccompiler::sock_filter);

/// The kernel classifier's program-length limit: a translated program of
/// this many instructions or more is refused.
pub const BPF_INSTRUCTION_LIMIT: usize = 4096;

/// Conservative instruction count for one syscall's chain of condition
/// vectors: a condition compiles to at most 6 instructions (the masked
/// 64-bit comparison is the longest form) plus at most one set of 3
/// helper jumps, and each rule of the chain adds its 2 entry jumps and a
/// return.
pub open spec fn chains_bound(chains: Seq<Vec<seccompiler::SeccompCondition>>) -> int
    decreases chains.len(),
{
    if chains.len() == 0 {
        0
    } else {
        3 + 9 * chains[0]@.len() + chains_bound(chains.drop_first())
    }
}

/// Conservative instruction count for one syscall's entry: the number
/// comparison and fall-through return around its chain, or the fixed
/// five-instruction form when the number alone decides.
pub open spec fn pair_bound(p: (i64, Vec<Vec<seccompiler::SeccompCondition>>)) -> int {
    if p.1@.len() == 0 {
        5
    } else {
        2 + chains_bound(p.1@)
    }
}

pub open spec fn pairs_bound(pairs: Seq<(i64, Vec<Vec<seccompiler::SeccompCondition>>)>) -> int
    decreases pairs.len(),
{
    if pairs.len() == 0 {
        0
    } else {
        pair_bound(pairs[0]) + pairs_bound(pairs.drop_first())
    }
}

/// The translated program is certainly within the kernel's limit: its
/// length is at most the five fixed instructions (architecture check,
/// number loader, final return) plus each syscall entry's bound.
pub open spec fn pairs_fit(pairs: Seq<(i64, Vec<Vec<seccompiler::SeccompCondition>>)>) -> bool {
    5 + pairs_bound(pairs) < BPF_INSTRUCTION_LIMIT as int
}

/// The same conservative count, over the rule list itself: grouping rules
/// by syscall only shares fixed overhead, so each rule costs at most 8
/// instructions plus 9 per predicate.
pub open spec fn rules_size_bound(rs: Seq<FilterRule>) -> int
    decreases rs.len(),
{
    if rs.len() == 0 {
        0
    } else {
        8 + 9 * rs[0].predicates@.len() + rules_size_bound(rs.drop_first())
    }
}

/// A policy small enough that compilation is owed to succeed.
pub open spec fn policy_fits(rs: Seq<FilterRule>) -> bool {
    5 + rules_size_bound(rs) < BPF_INSTRUCTION_LIMIT as int
}

proof fn lemma_chains_bound_push(
    s: Seq<Vec<seccompiler::SeccompCondition>>,
    c: Vec<seccompiler::SeccompCondition>,
)
    ensures
        chains_bound(s.push(c)) == chains_bound(s) + 3 + 9 * c@.len(),
    decreases s.len(),
{
    assert(s.push(c).len() == s.len() + 1);
    if s.len() == 0 {
        assert(s.push(c)[0] == c);
        assert(s.push(c).drop_first() =~= Seq::<Vec<seccompiler::SeccompCondition>>::empty());
        assert(chains_bound(s.push(c).drop_first()) == 0);
        assert(chains_bound(s.push(c)) == 3 + 9 * (s.push(c)[0])@.len() + chains_bound(
            s.push(c).drop_first(),
        ));
    } else {
        assert(s.push(c)[0] == s[0]);
        assert(s.push(c).drop_first() =~= s.drop_first().push(c));
        lemma_chains_bound_push(s.drop_first(), c);
        assert(chains_bound(s.push(c)) == 3 + 9 * (s.push(c)[0])@.len() + chains_bound(
            s.push(c).drop_first(),
        ));
        assert(chains_bound(s) == 3 + 9 * (s[0])@.len() + chains_bound(s.drop_first()));
    }
}

proof fn lemma_chains_bound_lower(s: Seq<Vec<seccompiler::SeccompCondition>>)
    ensures
        chains_bound(s) >= 3 * s.len(),
    decreases s.len(),
{
    if s.len() > 0 {
        lemma_chains_bound_lower(s.drop_first());
    }
}

proof fn lemma_pair_bound_at_least(p: (i64, Vec<Vec<seccompiler::SeccompCondition>>))
    ensures
        pair_bound(p) >= 5,
{
    if p.1@.len() > 0 {
        lemma_chains_bound_lower(p.1@);
    }
}

proof fn lemma_pairs_bound_push(
    s: Seq<(i64, Vec<Vec<seccompiler::SeccompCondition>>)>,
    p: (i64, Vec<Vec<seccompiler::SeccompCondition>>),
)
    ensures
        pairs_bound(s.push(p)) == pairs_bound(s) + pair_bound(p),
    decreases s.len(),
{
    assert(s.push(p).len() == s.len() + 1);
    if s.len() == 0 {
        assert(s.push(p)[0] == p);
        assert(s.push(p).drop_first() =~= Seq::<(
            i64,
            Vec<Vec<seccompiler::SeccompCondition>>,
        )>::empty());
        assert(pairs_bound(s.push(p).drop_first()) == 0);
        assert(pairs_bound(s.push(p)) == pair_bound(s.push(p)[0]) + pairs_bound(
            s.push(p).drop_first(),
        ));
    } else {
        assert(s.push(p)[0] == s[0]);
        assert(s.push(p).drop_first() =~= s.drop_first().push(p));
        lemma_pairs_bound_push(s.drop_first(), p);
        assert(pairs_bound(s.push(p)) == pair_bound(s.push(p)[0]) + pairs_bound(
            s.push(p).drop_first(),
        ));
        assert(pairs_bound(s) == pair_bound(s[0]) + pairs_bound(s.drop_first()));
    }
}

proof fn lemma_pairs_bound_remove(s: Seq<(i64, Vec<Vec<seccompiler::SeccompCondition>>)>, i: int)
    requires
        0 <= i < s.len(),
    ensures
        pairs_bound(s.remove(i)) == pairs_bound(s) - pair_bound(s[i]),
    decreases i,
{
    if i == 0 {
        assert(s.remove(0) =~= s.drop_first());
    } else {
        assert(s.remove(i)[0] == s[0]);
        assert(s.remove(i).drop_first() =~= s.drop_first().remove(i - 1));
        lemma_pairs_bound_remove(s.drop_first(), i - 1);
    }
}

proof fn lemma_pairs_bound_insert(
    s: Seq<(i64, Vec<Vec<seccompiler::SeccompCondition>>)>,
    i: int,
    p: (i64, Vec<Vec<seccompiler::SeccompCondition>>),
)
    requires
        0 <= i <= s.len(),
    ensures
        pairs_bound(s.insert(i, p)) == pairs_bound(s) + pair_bound(p),
    decreases i,
{
    if i == 0 {
        assert(s.insert(0, p)[0] == p);
        assert(s.insert(0, p).drop_first() =~= s);
    } else {
        assert(s.insert(i, p)[0] == s[0]);
        assert(s.insert(i, p).drop_first() =~= s.drop_first().insert(i - 1, p));
        lemma_pairs_bound_insert(s.drop_first(), i - 1, p);
    }
}

proof fn lemma_rules_size_bound_push(s: Seq<FilterRule>, r: FilterRule)
    ensures
        rules_size_bound(s.push(r)) == rules_size_bound(s) + 8 + 9 * r.predicates@.len(),
    decreases s.len(),
{
    assert(s.push(r).len() == s.len() + 1);
    if s.len() == 0 {
        assert(s.push(r)[0] == r);
        assert(s.push(r).drop_first() =~= Seq::<FilterRule>::empty());
        assert(rules_size_bound(s.push(r).drop_first()) == 0);
        assert(rules_size_bound(s.push(r)) == 8 + 9 * (s.push(r)[0]).predicates@.len()
            + rules_size_bound(s.push(r).drop_first()));
    } else {
        assert(s.push(r)[0] == s[0]);
        assert(s.push(r).drop_first() =~= s.drop_first().push(r));
        lemma_rules_size_bound_push(s.drop_first(), r);
        assert(rules_size_bound(s.push(r)) == 8 + 9 * (s.push(r)[0]).predicates@.len()
            + rules_size_bound(s.push(r).drop_first()));
        assert(rules_size_bound(s) == 8 + 9 * (s[0]).predicates@.len() + rules_size_bound(
            s.drop_first(),
        ));
    }
}

proof fn lemma_rules_size_bound_take_step(s: Seq<FilterRule>, i: int)
    requires
        0 <= i < s.len(),
    ensures
        rules_size_bound(s.take(i + 1)) == rules_size_bound(s.take(i)) + 8 + 9
            * s[i].predicates@.len(),
{
    assert(s.take(i + 1) =~= s.take(i).push(s[i]));
    lemma_rules_size_bound_push(s.take(i), s[i]);
}

/// Some rule among these names the syscall with no predicates, so the
/// number alone must decide it (OR semantics).
spec fn some_unconditional(rs: Seq<FilterRule>, sn: u64) -> bool {
    exists|j: int|
        0 <= j < rs.len() && (#[trigger] rs[j]).sysno == sn && rs[j].predicates@.len() == 0
}

/// Some entry of the built pairs carries this syscall.
spec fn some_pair_for(ps: Seq<(i64, Vec<Vec<seccompiler::SeccompCondition>>)>, sn: u64) -> bool {
    exists|k: int| 0 <= k < ps.len() && (#[trigger] ps[k]).0 == sn as i64
}

proof fn lemma_some_unconditional_step(rs: Seq<FilterRule>, i: int, x: u64)
    requires
        0 <= i < rs.len(),
    ensures
        some_unconditional(rs.take(i + 1), x) <==> (some_unconditional(rs.take(i), x) || (
        rs[i].sysno == x && rs[i].predicates@.len() == 0)),
{
    assert(rs.take(i + 1) =~= rs.take(i).push(rs[i]));
    if some_unconditional(rs.take(i + 1), x) {
        let j = choose|j: int|
            0 <= j < rs.take(i + 1).len() && (#[trigger] rs.take(i + 1)[j]).sysno == x
                && rs.take(i + 1)[j].predicates@.len() == 0;
        if j < i {
            assert(rs.take(i)[j] == rs.take(i + 1)[j]);
            assert(some_unconditional(rs.take(i), x));
        } else {
            assert(rs.take(i + 1)[j] == rs[i]);
        }
    }
    if some_unconditional(rs.take(i), x) {
        let j = choose|j: int|
            0 <= j < rs.take(i).len() && (#[trigger] rs.take(i)[j]).sysno == x
                && rs.take(i)[j].predicates@.len() == 0;
        assert(rs.take(i + 1)[j] == rs.take(i)[j]);
        assert(some_unconditional(rs.take(i + 1), x));
    }
    if rs[i].sysno == x && rs[i].predicates@.len() == 0 {
        assert(rs.take(i + 1)[i] == rs[i]);
        assert(some_unconditional(rs.take(i + 1), x));
    }
}

proof fn lemma_contains_push(s: Seq<u64>, x: u64, y: u64)
    ensures
        s.push(x).contains(y) <==> (s.contains(y) || y == x),
{
    if s.push(x).contains(y) {
        let j = choose|j: int| 0 <= j < s.push(x).len() && s.push(x)[j] == y;
        if j < s.len() {
            assert(s[j] == y);
        }
    }
    if s.contains(y) {
        let j = choose|j: int| 0 <= j < s.len() && s[j] == y;
        assert(s.push(x)[j] == y);
    }
    assert(s.push(x)[s.len() as int] == x);
}

/// The predicate counts of the conditional rules for this syscall, in
/// order of appearance.
spec fn conditional_lens(rs: Seq<FilterRule>, sn: u64) -> Seq<int>
    decreases rs.len(),
{
    if rs.len() == 0 {
        Seq::empty()
    } else {
        (if rs[0].sysno == sn && rs[0].predicates@.len() > 0 {
            seq![rs[0].predicates@.len() as int]
        } else {
            Seq::empty()
        }) + conditional_lens(rs.drop_first(), sn)
    }
}

/// The lengths of a chain's condition vectors, in order.
spec fn chain_lens(chains: Seq<Vec<seccompiler::SeccompCondition>>) -> Seq<int> {
    Seq::new(chains.len(), |m: int| chains[m]@.len() as int)
}

proof fn lemma_conditional_lens_push(rs: Seq<FilterRule>, r: FilterRule, sn: u64)
    ensures
        conditional_lens(rs.push(r), sn) == conditional_lens(rs, sn) + (if r.sysno == sn
            && r.predicates@.len() > 0 {
            seq![r.predicates@.len() as int]
        } else {
            Seq::<int>::empty()
        }),
    decreases rs.len(),
{
    let tail: Seq<int> = if r.sysno == sn && r.predicates@.len() > 0 {
        seq![r.predicates@.len() as int]
    } else {
        Seq::empty()
    };
    assert(rs.push(r).len() == rs.len() + 1);
    if rs.len() == 0 {
        assert(rs.push(r)[0] == r);
        assert(rs.push(r).drop_first() =~= Seq::<FilterRule>::empty());
        assert(conditional_lens(rs.push(r).drop_first(), sn) == Seq::<int>::empty());
        assert(conditional_lens(rs.push(r), sn) == (if (rs.push(r)[0]).sysno == sn
            && (rs.push(r)[0]).predicates@.len() > 0 {
            seq![rs.push(r)[0].predicates@.len() as int]
        } else {
            Seq::<int>::empty()
        }) + conditional_lens(rs.push(r).drop_first(), sn));
        assert(conditional_lens(rs.push(r), sn) =~= conditional_lens(rs, sn) + tail);
    } else {
        assert(rs.push(r)[0] == rs[0]);
        assert(rs.push(r).drop_first() =~= rs.drop_first().push(r));
        lemma_conditional_lens_push(rs.drop_first(), r, sn);
        assert(conditional_lens(rs.push(r), sn) == (if (rs.push(r)[0]).sysno == sn
            && (rs.push(r)[0]).predicates@.len() > 0 {
            seq![rs.push(r)[0].predicates@.len() as int]
        } else {
            Seq::<int>::empty()
        }) + conditional_lens(rs.push(r).drop_first(), sn));
        assert(conditional_lens(rs, sn) == (if rs[0].sysno == sn && rs[0].predicates@.len() > 0 {
            seq![rs[0].predicates@.len() as int]
        } else {
            Seq::<int>::empty()
        }) + conditional_lens(rs.drop_first(), sn));
        assert(conditional_lens(rs.push(r), sn) =~= conditional_lens(rs, sn) + tail);
    }
}

proof fn lemma_conditional_lens_step(rs: Seq<FilterRule>, i: int, sn: u64)
    requires
        0 <= i < rs.len(),
    ensures
        conditional_lens(rs.take(i + 1), sn) == conditional_lens(rs.take(i), sn) + (if rs[i].sysno
            == sn && rs[i].predicates@.len() > 0 {
            seq![rs[i].predicates@.len() as int]
        } else {
            Seq::<int>::empty()
        }),
{
    assert(rs.take(i + 1) =~= rs.take(i).push(rs[i]));
    lemma_conditional_lens_push(rs.take(i), rs[i], sn);
}

proof fn lemma_conditional_lens_absent(rs: Seq<FilterRule>, sn: u64)
    requires
        forall|j: int| 0 <= j < rs.len() ==> (#[trigger] rs[j]).sysno != sn,
    ensures
        conditional_lens(rs, sn) == Seq::<int>::empty(),
    decreases rs.len(),
{
    if rs.len() > 0 {
        assert(forall|j: int|
            0 <= j < rs.drop_first().len() ==> (#[trigger] rs.drop_first()[j]).sysno != sn);
        lemma_conditional_lens_absent(rs.drop_first(), sn);
        assert(conditional_lens(rs, sn) =~= Seq::<int>::empty());
    }
}

/// Converts a comparison width to seccompiler's, variant for variant.
#[verifier::external_body]
fn arg_len_to_seccompiler(arg_len: ArgLen) -> seccompiler::SeccompCmpArgLen {
    match arg_len {
        ArgLen::Dword => seccompiler::SeccompCmpArgLen::Dword,
        ArgLen::Qword => seccompiler::SeccompCmpArgLen::Qword,
    }
}

/// Converts a comparison operator to seccompiler's, variant for variant.
#[verifier::external_body]
fn cmp_op_to_seccompiler(op: CmpOp) -> seccompiler::SeccompCmpOp {
    match op {
        CmpOp::Eq => seccompiler::SeccompCmpOp::Eq,
        CmpOp::Ne => seccompiler::SeccompCmpOp::Ne,
        CmpOp::Lt => seccompiler::SeccompCmpOp::Lt,
        CmpOp::Le => seccompiler::SeccompCmpOp::Le,
        CmpOp::Gt => seccompiler::SeccompCmpOp::Gt,
        CmpOp::Ge => seccompiler::SeccompCmpOp::Ge,
        CmpOp::MaskedEq(m) => seccompiler::SeccompCmpOp::MaskedEq(m),
    }
}

/// Converts an action to seccompiler's, variant for variant with the
/// payload carried over.
#[verifier::external_body]
fn action_to_seccompiler(a: &Action) -> seccompiler::SeccompAction {
    match a {
        Action::Allow => seccompiler::SeccompAction::Allow,
        Action::Errno(e) => seccompiler::SeccompAction::Errno(*e),
        Action::KillThread => seccompiler::SeccompAction::KillThread,
        Action::KillProcess => seccompiler::SeccompAction::KillProcess,
        Action::Log => seccompiler::SeccompAction::Log,
        Action::Trace(t) => seccompiler::SeccompAction::Trace(*t),
        Action::Trap => seccompiler::SeccompAction::Trap,
    }
}

/// Converts an architecture tag to seccompiler's, name for name.  Callers
/// exclude `Unknown`, which has no counterpart; its arm is never reached.
#[verifier::external_body]
fn arch_to_seccompiler(a: &Arch) -> seccompiler::TargetArch
    requires
        !(a is Unknown),
{
    match a {
        Arch::X86_64 => seccompiler::TargetArch::x86_64,
        Arch::Aarch64 => seccompiler::TargetArch::aarch64,
        Arch::Riscv64 => seccompiler::TargetArch::riscv64,
        Arch::Unknown => seccompiler::TargetArch::x86_64,
    }
}

/// Relies on `seccompiler::SeccompCondition::new`, whose validation
/// accepts a condition exactly when the argument index is at most 5.
#[verifier::external_body]
fn mk_condition(
    arg_index: u8,
    arg_len: seccompiler::SeccompCmpArgLen,
    op: seccompiler::SeccompCmpOp,
    value: u64,
) -> (r: Option<seccompiler::SeccompCondition>)
    ensures
        r is Some <==> arg_index <= MAX_ARG_INDEX,
{
    seccompiler::SeccompCondition::new(arg_index, arg_len, op, value).ok()
}

/// Relies on `seccompiler::SeccompRule::new`, `seccompiler::SeccompFilter::new`
/// and the conversion of a `SeccompFilter` into the kernel program.  The
/// three stand in one wrapper because the preconditions and the size
/// promise of the later steps are only statable on the plain keys and on
/// the condition vectors, not on the opaque intermediate values.
/// `SeccompRule::new` fails only on an empty condition vector, which the
/// last `requires` rules out, so the per-chain construction never fails.
/// `SeccompFilter::new` validates exactly that the two actions differ,
/// which the caller has ensured (the action conversion is variant for
/// variant, so distinctness is preserved).  The final conversion
/// truncates each syscall number to 32 bits with a panic on overflow,
/// ruled out by the bound on the keys, and fails only when the program
/// reaches the kernel's instruction limit.  The program's length is at
/// most `5 + pairs_bound`: a condition compiles to at most 6 instructions
/// plus at most 3 helper jumps, a rule adds 2 entry jumps and a return, a
/// syscall entry adds its number comparison and a fall-through return (5
/// instructions in all when its chain is empty), and the whole program
/// adds a 3-instruction architecture check, the number loader and a final
/// return — so under `pairs_fit` the conversion succeeds.  A returned
/// program begins with the architecture check and is never empty.
#[verifier::external_body]
fn build_bpf(
    pairs: Vec<(i64, Vec<Vec<seccompiler::SeccompCondition>>)>,
    mismatch_action: &Action,
    match_action: &Action,
    arch: &Arch,
) -> (r: Option<Vec<seccompiler::sock_filter>>)
    requires
        !(arch is Unknown),
        mismatch_action != match_action,
        forall|k: int| 0 <= k < pairs@.len() ==> 0 <= (#[trigger] pairs@[k]).0 <= 0xffff_ffff,
        forall|k: int, j: int|
            0 <= k < pairs@.len() && 0 <= j < pairs@[k].1@.len() ==> (#[trigger] pairs@[k].1@[j])@.len() > 0,
    ensures
        r matches Some(p) ==> p@.len() > 0,
        pairs_fit(pairs@) ==> r is Some,
{
    let map: std::collections::BTreeMap<i64, Vec<seccompiler::SeccompRule>> = pairs
        .into_iter()
        .map(|(key, chains)| {
            (key, chains.into_iter().map(|c| seccompiler::SeccompRule::new(c).unwrap()).collect())
        })
        .collect();
    let filter = seccompiler::SeccompFilter::new(
        map,
        action_to_seccompiler(mismatch_action),
        action_to_seccompiler(match_action),
        arch_to_seccompiler(arch),
    ).ok()?;
    let program: Option<seccompiler::BpfProgram> = filter.try_into().ok();
    program
}

/// Why a policy could not be compiled.
#[derive(Clone, Copy, Debug, PartialEq, Eq, Structural)]
pub enum CompileError {
    /// The architecture tag has no known register layout.
    UnsupportedArchitecture,
    /// Some rule names a syscall number that does not fit the classifier's
    /// 32-bit comparison field.
    InvalidSyscallNumber,
    /// Some predicate's argument index is outside the ABI's six words.
    InvalidPredicate,
    /// Default action and match action are the same, so the rule set would
    /// not matter.
    IdenticalActions,
    /// The translated program exceeds the kernel's instruction limit.
    FilterTooLarge,
}

/// A compiled filter: the opaque kernel program, to be installed in the
/// target's process context, and the policy model it was built from.
#[derive(Debug)]
pub struct CompiledFilter {
    pub program: Vec<seccompiler::sock_filter>,
    pub policy: SeccompPolicy,
}

fn build_conditions(r: &FilterRule) -> (c: Vec<seccompiler::SeccompCondition>)
    requires
        rule_preds_wf(*r),
    ensures
        c@.len() == r.predicates@.len(),
{
    let mut conds: Vec<seccompiler::SeccompCondition> = Vec::new();
    let mut i: usize = 0;
    while i < r.predicates.len()
        invariant
            i <= r.predicates@.len(),
            conds@.len() == i as int,
            rule_preds_wf(*r),
        decreases r.predicates@.len() - i,
    {
        let p = r.predicates[i];
        let copt = mk_condition(
            p.arg_index,
            arg_len_to_seccompiler(p.arg_len),
            cmp_op_to_seccompiler(p.op),
            p.value,
        );
        let c = match copt {
            Some(c) => c,
            None => vstd::pervasive::unreached(),
        };
        conds.push(c);
        i = i + 1;
    }
    conds
}

fn contains_u64(v: &Vec<u64>, x: u64) -> (r: bool)
    ensures
        r == v@.contains(x),
{
    let mut i: usize = 0;
    while i < v.len()
        invariant
            i <= v@.len(),
            forall|j: int| 0 <= j < i as int ==> v@[j] != x,
        decreases v@.len() - i,
    {
        if v[i] == x {
            return true;
        }
        i = i + 1;
    }
    false
}

fn find_pair(
    pairs: &Vec<(i64, Vec<Vec<seccompiler::SeccompCondition>>)>,
    key: i64,
) -> (r: Option<usize>)
    ensures
        r matches Some(i) ==> i < pairs@.len() && pairs@[i as int].0 == key,
        r is None ==> forall|k: int| 0 <= k < pairs@.len() ==> (#[trigger] pairs@[k]).0 != key,
{
    let mut i: usize = 0;
    while i < pairs.len()
        invariant
            i <= pairs@.len(),
            forall|k: int| 0 <= k < i as int ==> (#[trigger] pairs@[k]).0 != key,
        decreases pairs@.len() - i,
    {
        if pairs[i].0 == key {
            return Some(i);
        }
        i = i + 1;
    }
    None
}

/// Translates a rule list, a default action, a match action and a target
/// architecture into a kernel filter program.  Rules for the same syscall
/// are OR-ed; a rule without predicates makes its syscall match on the
/// number alone.  On success the returned filter carries the policy model
/// it was compiled from; the program itself is opaque.  Success is owed
/// to every well-formed policy within [`policy_fits`]; only a policy over
/// that bound may be refused as too large.
#[verifier::loop_isolation(false)]
pub fn compile(
    rules: Vec<FilterRule>,
    default_action: Action,
    match_action: Action,
    arch: Arch,
) -> (r: Result<CompiledFilter, CompileError>)
    ensures
        r == Result::<CompiledFilter, CompileError>::Err(CompileError::UnsupportedArchitecture)
            <==> arch is Unknown,
        r == Result::<CompiledFilter, CompileError>::Err(CompileError::InvalidSyscallNumber)
            <==> !(arch is Unknown) && !rules_sysno_wf(rules@),
        r == Result::<CompiledFilter, CompileError>::Err(CompileError::InvalidPredicate) <==> !(
        arch is Unknown) && rules_sysno_wf(rules@) && !rules_preds_wf(rules@),
        r == Result::<CompiledFilter, CompileError>::Err(CompileError::IdenticalActions) <==> !(
        arch is Unknown) && rules_sysno_wf(rules@) && rules_preds_wf(rules@) && default_action
            == match_action,
        r matches Ok(cf) ==> {
            &&& cf.policy.rules@ == rules@
            &&& cf.policy.default_action == default_action
            &&& cf.policy.match_action == match_action
            &&& cf.policy.arch == arch
            &&& policy_wf(cf.policy)
            &&& cf.program@.len() > 0
        },
        !(arch is Unknown) && rules_sysno_wf(rules@) && rules_preds_wf(rules@) && default_action
            != match_action ==> r is Ok || r == Result::<CompiledFilter, CompileError>::Err(
            CompileError::FilterTooLarge,
        ),
        !(arch is Unknown) && rules_sysno_wf(rules@) && rules_preds_wf(rules@) && default_action
            != match_action && policy_fits(rules@) ==> r is Ok,
        r == Result::<CompiledFilter, CompileError>::Err(CompileError::FilterTooLarge)
            ==> !policy_fits(rules@),
{
    if matches!(arch, Arch::Unknown) {
        return Err(CompileError::UnsupportedArchitecture);
    }
    let mut i: usize = 0;
    while i < rules.len()
        invariant
            i <= rules@.len(),
            forall|j: int| 0 <= j < i as int ==> rule_sysno_wf(rules@[j]),
        decreases rules@.len() - i,
    {
        if rules[i].sysno > 0xffff_ffffu64 {
            proof {
                assert(!rule_sysno_wf(rules@[i as int]));
            }
            return Err(CompileError::InvalidSyscallNumber);
        }
        i = i + 1;
    }
    let mut i: usize = 0;
    while i < rules.len()
        invariant
            i <= rules@.len(),
            forall|j: int| 0 <= j < i as int ==> rule_preds_wf(rules@[j]),
        decreases rules@.len() - i,
    {
        let mut k: usize = 0;
        while k < rules[i].predicates.len()
            invariant
                i < rules@.len(),
                k <= rules@[i as int].predicates@.len(),
                forall|j: int|
                    0 <= j < k as int ==> rules@[i as int].predicates@[j].arg_index
                        <= MAX_ARG_INDEX,
            decreases rules@[i as int].predicates@.len() - k,
        {
            if rules[i].predicates[k].arg_index > MAX_ARG_INDEX {
                proof {
                    assert(!pred_wf(rules@[i as int].predicates@[k as int]));
                    assert(!rule_preds_wf(rules@[i as int]));
                }
                return Err(CompileError::InvalidPredicate);
            }
            k = k + 1;
        }
        i = i + 1;
    }
    if default_action == match_action {
        return Err(CompileError::IdenticalActions);
    }
    let mut pairs: Vec<(i64, Vec<Vec<seccompiler::SeccompCondition>>)> = Vec::new();
    let mut unconditional_sysnos: Vec<u64> = Vec::new();
    let mut i: usize = 0;
    while i < rules.len()
        invariant
            i <= rules@.len(),
            forall|k: int| 0 <= k < pairs@.len() ==> 0 <= (#[trigger] pairs@[k]).0 <= 0xffff_ffff,
            forall|k: int, j: int|
                0 <= k < pairs@.len() && 0 <= j < pairs@[k].1@.len() ==> (#[trigger] pairs@[k].1@[j])@.len() > 0,
            pairs_bound(pairs@) <= rules_size_bound(rules@.take(i as int)),
            forall|k1: int, k2: int|
                0 <= k1 < k2 < pairs@.len() ==> (#[trigger] pairs@[k1]).0 != (
                #[trigger] pairs@[k2]).0,
            forall|j: int| 0 <= j < i as int ==> #[trigger] some_pair_for(
                pairs@,
                rules@[j].sysno,
            ),
            forall|x: u64| #[trigger] unconditional_sysnos@.contains(x) ==> some_unconditional(
                rules@.take(i as int),
                x,
            ),
            forall|j: int|
                0 <= j < i as int && (#[trigger] rules@[j]).predicates@.len() == 0
                    ==> unconditional_sysnos@.contains(rules@[j].sysno),
            forall|k: int|
                0 <= k < pairs@.len() ==> ((#[trigger] pairs@[k]).1@.len() == 0
                    <==> some_unconditional(rules@.take(i as int), pairs@[k].0 as u64)),
            forall|k: int|
                0 <= k < pairs@.len() && (#[trigger] pairs@[k]).1@.len() > 0 ==> chain_lens(
                    pairs@[k].1@,
                ) == conditional_lens(rules@.take(i as int), pairs@[k].0 as u64),
        decreases rules@.len() - i,
    {
        let sn = rules[i].sysno;
        let pred_count = rules[i].predicates.len();
        proof {
            assert(rule_sysno_wf(rules@[i as int]));
            assert(rule_preds_wf(rules@[i as int]));
            lemma_rules_size_bound_take_step(rules@, i as int);
        }
        let key = sn as i64;
        match find_pair(&pairs, key) {
            None => {
                let ghost prev = pairs@;
                let ghost marks_prev = unconditional_sysnos@;
                proof {
                    // No processed rule names this syscall yet: a rule for
                    // it would have an entry among the pairs.
                    if some_unconditional(rules@.take(i as int), sn) {
                        let j = choose|j: int|
                            0 <= j < rules@.take(i as int).len() && (#[trigger] rules@.take(
                                i as int,
                            )[j]).sysno == sn && rules@.take(i as int)[j].predicates@.len() == 0;
                        assert(rules@.take(i as int)[j] == rules@[j]);
                        assert(some_pair_for(prev, rules@[j].sysno));
                        let k = choose|k: int|
                            0 <= k < prev.len() && (#[trigger] prev[k]).0 == sn as i64;
                        assert(false);
                    }
                }
                if pred_count == 0 {
                    let empty_chains: Vec<Vec<seccompiler::SeccompCondition>> = Vec::new();
                    let ghost new_pair = (key, empty_chains);
                    pairs.push((key, empty_chains));
                    unconditional_sysnos.push(sn);
                    proof {
                        assert(pairs@ == prev.push(new_pair));
                        assert(unconditional_sysnos@ == marks_prev.push(sn));
                        lemma_pairs_bound_push(prev, new_pair);
                        assert(pair_bound(new_pair) == 5);
                        assert forall|j: int| 0 <= j < i as int + 1 implies
                            #[trigger] some_pair_for(pairs@, rules@[j].sysno) by {
                            if j < i as int {
                                assert(some_pair_for(prev, rules@[j].sysno));
                                let k = choose|k: int|
                                    0 <= k < prev.len() && (#[trigger] prev[k]).0 == (rules@[j]).sysno as i64;
                                assert(pairs@[k] == prev[k]);
                                assert((#[trigger] pairs@[k]).0 == rules@[j].sysno as i64);
                            } else {
                                assert(pairs@[prev.len() as int] == new_pair);
                                assert((pairs@[prev.len() as int]).0 == rules@[j].sysno as i64);
                            }
                        }
                        assert forall|x: u64| #[trigger] unconditional_sysnos@.contains(x) implies
                            some_unconditional(rules@.take(i as int + 1), x) by {
                            lemma_contains_push(marks_prev, sn, x);
                            lemma_some_unconditional_step(rules@, i as int, x);
                        }
                        assert forall|j: int|
                            0 <= j < i as int + 1 && (#[trigger] rules@[j]).predicates@.len()
                                == 0 implies unconditional_sysnos@.contains(rules@[j].sysno) by {
                            lemma_contains_push(marks_prev, sn, rules@[j].sysno);
                        }
                        assert forall|k: int| 0 <= k < pairs@.len() implies ((
                        #[trigger] pairs@[k]).1@.len() == 0 <==> some_unconditional(
                            rules@.take(i as int + 1),
                            pairs@[k].0 as u64,
                        )) by {
                            lemma_some_unconditional_step(rules@, i as int, pairs@[k].0 as u64);
                            if k < prev.len() as int {
                                assert(pairs@[k] == prev[k]);
                                assert(prev[k].0 != key);
                            } else {
                                assert(pairs@[k] == new_pair);
                            }
                        }
                        assert forall|k: int|
                            0 <= k < pairs@.len() && (#[trigger] pairs@[k]).1@.len()
                                > 0 implies chain_lens(pairs@[k].1@) == conditional_lens(
                            rules@.take(i as int + 1),
                            pairs@[k].0 as u64,
                        ) by {
                            lemma_conditional_lens_step(rules@, i as int, pairs@[k].0 as u64);
                            assert(conditional_lens(rules@.take(i as int), pairs@[k].0 as u64)
                                + Seq::<int>::empty() =~= conditional_lens(
                                rules@.take(i as int),
                                pairs@[k].0 as u64,
                            ));
                            if k < prev.len() as int {
                                assert(pairs@[k] == prev[k]);
                                assert(prev[k].0 != key);
                            }
                        }
                    }
                } else {
                    let conds = build_conditions(&rules[i]);
                    let ghost conds_v = conds;
                    let mut chains: Vec<Vec<seccompiler::SeccompCondition>> = Vec::new();
                    chains.push(conds);
                    let ghost new_pair = (key, chains);
                    pairs.push((key, chains));
                    proof {
                        assert(pairs@ == prev.push(new_pair));
                        lemma_pairs_bound_push(prev, new_pair);
                        assert(new_pair.1@ =~= Seq::<Vec<seccompiler::SeccompCondition>>::empty()
                            .push(conds_v));
                        assert(new_pair.1@.drop_first() =~= Seq::<
                            Vec<seccompiler::SeccompCondition>,
                        >::empty());
                        assert(chains_bound(new_pair.1@.drop_first()) == 0);
                        assert(new_pair.1@[0] == conds_v);
                        assert(chains_bound(new_pair.1@) == 3 + 9 * (new_pair.1@[0])@.len()
                            + chains_bound(new_pair.1@.drop_first()));
                        assert(conds_v@.len() == rules@[i as int].predicates@.len());
                        assert(pair_bound(new_pair) == 5 + 9 * rules@[i as int].predicates@.len());
                        assert forall|j: int| 0 <= j < i as int + 1 implies
                            #[trigger] some_pair_for(pairs@, rules@[j].sysno) by {
                            if j < i as int {
                                assert(some_pair_for(prev, rules@[j].sysno));
                                let k = choose|k: int|
                                    0 <= k < prev.len() && (#[trigger] prev[k]).0 == (rules@[j]).sysno as i64;
                                assert(pairs@[k] == prev[k]);
                                assert((#[trigger] pairs@[k]).0 == rules@[j].sysno as i64);
                            } else {
                                assert(pairs@[prev.len() as int] == new_pair);
                                assert((pairs@[prev.len() as int]).0 == rules@[j].sysno as i64);
                            }
                        }
                        assert forall|x: u64| #[trigger] unconditional_sysnos@.contains(x) implies
                            some_unconditional(rules@.take(i as int + 1), x) by {
                            lemma_some_unconditional_step(rules@, i as int, x);
                        }
                        assert forall|k: int| 0 <= k < pairs@.len() implies ((
                        #[trigger] pairs@[k]).1@.len() == 0 <==> some_unconditional(
                            rules@.take(i as int + 1),
                            pairs@[k].0 as u64,
                        )) by {
                            lemma_some_unconditional_step(rules@, i as int, pairs@[k].0 as u64);
                            if k < prev.len() as int {
                                assert(pairs@[k] == prev[k]);
                                assert(prev[k].0 != key);
                            } else {
                                assert(pairs@[k] == new_pair);
                                assert(new_pair.1@.len() == 1);
                            }
                        }
                        assert forall|k: int|
                            0 <= k < pairs@.len() && (#[trigger] pairs@[k]).1@.len()
                                > 0 implies chain_lens(pairs@[k].1@) == conditional_lens(
                            rules@.take(i as int + 1),
                            pairs@[k].0 as u64,
                        ) by {
                            lemma_conditional_lens_step(rules@, i as int, pairs@[k].0 as u64);
                            assert(conditional_lens(rules@.take(i as int), pairs@[k].0 as u64)
                                + Seq::<int>::empty() =~= conditional_lens(
                                rules@.take(i as int),
                                pairs@[k].0 as u64,
                            ));
                            if k < prev.len() as int {
                                assert(pairs@[k] == prev[k]);
                                assert(prev[k].0 != key);
                            } else {
                                assert(pairs@[k] == new_pair);
                                assert(new_pair.0 as u64 == sn);
                                assert forall|j: int|
                                    0 <= j < rules@.take(i as int).len() implies (
                                #[trigger] rules@.take(i as int)[j]).sysno != sn by {
                                    if rules@.take(i as int)[j].sysno == sn {
                                        assert(rules@.take(i as int)[j] == rules@[j]);
                                        assert(some_pair_for(prev, rules@[j].sysno));
                                        let m = choose|m: int|
                                            0 <= m < prev.len() && (#[trigger] prev[m]).0 == (
                                            rules@[j]).sysno as i64;
                                        assert(false);
                                    }
                                }
                                lemma_conditional_lens_absent(rules@.take(i as int), sn);
                                assert(chain_lens(new_pair.1@) =~= seq![
                                    rules@[i as int].predicates@.len() as int,
                                ]);
                                assert(Seq::<int>::empty() + seq![
                                    rules@[i as int].predicates@.len() as int,
                                ] =~= seq![rules@[i as int].predicates@.len() as int]);
                            }
                        }
                    }
                }
            },
            Some(idx) => {
                let already_unconditional = contains_u64(&unconditional_sysnos, sn);
                if already_unconditional {
                    // This syscall already matches on the number alone;
                    // another rule for it changes nothing.
                    proof {
                        assert forall|x: u64| #[trigger] unconditional_sysnos@.contains(x) implies
                            some_unconditional(rules@.take(i as int + 1), x) by {
                            lemma_some_unconditional_step(rules@, i as int, x);
                        }
                        assert forall|j: int| 0 <= j < i as int + 1 implies
                            #[trigger] some_pair_for(pairs@, rules@[j].sysno) by {
                            if j == i as int {
                                assert(pairs@[idx as int].0 == key);
                            }
                        }
                        assert forall|k: int| 0 <= k < pairs@.len() implies ((
                        #[trigger] pairs@[k]).1@.len() == 0 <==> some_unconditional(
                            rules@.take(i as int + 1),
                            pairs@[k].0 as u64,
                        )) by {
                            lemma_some_unconditional_step(rules@, i as int, pairs@[k].0 as u64);
                            if pairs@[k].0 as u64 == sn {
                                assert(some_unconditional(rules@.take(i as int), sn));
                            }
                        }
                        assert forall|k: int|
                            0 <= k < pairs@.len() && (#[trigger] pairs@[k]).1@.len()
                                > 0 implies chain_lens(pairs@[k].1@) == conditional_lens(
                            rules@.take(i as int + 1),
                            pairs@[k].0 as u64,
                        ) by {
                            lemma_conditional_lens_step(rules@, i as int, pairs@[k].0 as u64);
                            assert(conditional_lens(rules@.take(i as int), pairs@[k].0 as u64)
                                + Seq::<int>::empty() =~= conditional_lens(
                                rules@.take(i as int),
                                pairs@[k].0 as u64,
                            ));
                            if pairs@[k].0 as u64 == sn {
                                assert(some_unconditional(rules@.take(i as int), sn));
                                assert(pairs@[k].1@.len() == 0);
                            }
                        }
                    }
                } else if pred_count == 0 {
                    let ghost prev = pairs@;
                    let ghost marks_prev = unconditional_sysnos@;
                    let entry = pairs.remove(idx);
                    let entry_key = entry.0;
                    let empty_chains: Vec<Vec<seccompiler::SeccompCondition>> = Vec::new();
                    let ghost new_pair = (entry_key, empty_chains);
                    pairs.insert(idx, (entry_key, empty_chains));
                    unconditional_sysnos.push(sn);
                    proof {
                        assert(pairs@ == prev.remove(idx as int).insert(idx as int, new_pair));
                        assert(unconditional_sysnos@ == marks_prev.push(sn));
                        lemma_pairs_bound_remove(prev, idx as int);
                        lemma_pairs_bound_insert(prev.remove(idx as int), idx as int, new_pair);
                        lemma_pair_bound_at_least(prev[idx as int]);
                        assert(pair_bound(new_pair) == 5);
                        prev.remove_ensures(idx as int);
                        prev.remove(idx as int).insert_ensures(idx as int, new_pair);
                        assert(entry == prev[idx as int]);
                        assert forall|k: int| 0 <= k < pairs@.len() implies (
                        #[trigger] pairs@[k]).0 == prev[k].0 by {
                            if k < idx as int {
                                assert(pairs@[k] == prev[k]);
                            } else if k > idx as int {
                                assert(pairs@[k] == prev[k]);
                            } else {
                                assert(pairs@[k] == new_pair);
                            }
                        }
                        assert forall|k: int, j: int|
                            0 <= k < pairs@.len() && 0 <= j < pairs@[k].1@.len() implies (
                        #[trigger] pairs@[k].1@[j])@.len() > 0 by {
                            if k < idx as int {
                                assert(pairs@[k] == prev[k]);
                            } else if k > idx as int {
                                assert(pairs@[k] == prev[k]);
                            } else {
                                assert(pairs@[k] == new_pair);
                            }
                        }
                        assert forall|j: int| 0 <= j < i as int + 1 implies
                            #[trigger] some_pair_for(pairs@, rules@[j].sysno) by {
                            if j < i as int {
                                assert(some_pair_for(prev, rules@[j].sysno));
                                let k = choose|k: int|
                                    0 <= k < prev.len() && (#[trigger] prev[k]).0 == (rules@[j]).sysno as i64;
                                assert((#[trigger] pairs@[k]).0 == prev[k].0);
                                assert(pairs@[k].0 == rules@[j].sysno as i64);
                            } else {
                                assert(pairs@[idx as int].0 == prev[idx as int].0);
                                assert(prev[idx as int].0 == key);
                                assert((#[trigger] pairs@[idx as int]).0 == rules@[j].sysno as i64);
                            }
                        }
                        assert forall|x: u64| #[trigger] unconditional_sysnos@.contains(x) implies
                            some_unconditional(rules@.take(i as int + 1), x) by {
                            lemma_contains_push(marks_prev, sn, x);
                            lemma_some_unconditional_step(rules@, i as int, x);
                        }
                        assert forall|j: int|
                            0 <= j < i as int + 1 && (#[trigger] rules@[j]).predicates@.len()
                                == 0 implies unconditional_sysnos@.contains(rules@[j].sysno) by {
                            lemma_contains_push(marks_prev, sn, rules@[j].sysno);
                        }
                        assert forall|k: int| 0 <= k < pairs@.len() implies ((
                        #[trigger] pairs@[k]).1@.len() == 0 <==> some_unconditional(
                            rules@.take(i as int + 1),
                            pairs@[k].0 as u64,
                        )) by {
                            lemma_some_unconditional_step(rules@, i as int, pairs@[k].0 as u64);
                            if k < idx as int {
                                assert(pairs@[k] == prev[k]);
                                assert(prev[k].0 != prev[idx as int].0);
                            } else if k > idx as int {
                                assert(pairs@[k] == prev[k]);
                                assert(prev[k].0 != prev[idx as int].0);
                            } else {
                                assert(pairs@[k] == new_pair);
                            }
                        }
                        assert forall|k: int|
                            0 <= k < pairs@.len() && (#[trigger] pairs@[k]).1@.len()
                                > 0 implies chain_lens(pairs@[k].1@) == conditional_lens(
                            rules@.take(i as int + 1),
                            pairs@[k].0 as u64,
                        ) by {
                            lemma_conditional_lens_step(rules@, i as int, pairs@[k].0 as u64);
                            assert(conditional_lens(rules@.take(i as int), pairs@[k].0 as u64)
                                + Seq::<int>::empty() =~= conditional_lens(
                                rules@.take(i as int),
                                pairs@[k].0 as u64,
                            ));
                            if k < idx as int {
                                assert(pairs@[k] == prev[k]);
                                assert(prev[k].0 != prev[idx as int].0);
                                assert(prev[idx as int].0 as u64 == sn);
                            } else if k > idx as int {
                                assert(pairs@[k] == prev[k]);
                                assert(prev[k].0 != prev[idx as int].0);
                                assert(prev[idx as int].0 as u64 == sn);
                            } else {
                                assert(pairs@[k] == new_pair);
                            }
                        }
                    }
                } else {
                    let conds = build_conditions(&rules[i]);
                    let ghost conds_v = conds;
                    let ghost prev = pairs@;
                    let entry = pairs.remove(idx);
                    let entry_key = entry.0;
                    let mut entry_chains = entry.1;
                    let ghost old_chains = entry_chains@;
                    entry_chains.push(conds);
                    let ghost new_pair = (entry_key, entry_chains);
                    pairs.insert(idx, (entry_key, entry_chains));
                    proof {
                        assert(pairs@ == prev.remove(idx as int).insert(idx as int, new_pair));
                        lemma_pairs_bound_remove(prev, idx as int);
                        lemma_pairs_bound_insert(prev.remove(idx as int), idx as int, new_pair);
                        assert(new_pair.1@ == old_chains.push(conds_v));
                        lemma_chains_bound_push(old_chains, conds_v);
                        lemma_chains_bound_lower(old_chains);
                        assert(entry == prev[idx as int]);
                        assert(pair_bound(prev[idx as int]) == (if old_chains.len() == 0 {
                            5int
                        } else {
                            2 + chains_bound(old_chains)
                        }));
                        prev.remove_ensures(idx as int);
                        prev.remove(idx as int).insert_ensures(idx as int, new_pair);
                        assert forall|k: int| 0 <= k < pairs@.len() implies (
                        #[trigger] pairs@[k]).0 == prev[k].0 by {
                            if k < idx as int {
                                assert(pairs@[k] == prev[k]);
                            } else if k > idx as int {
                                assert(pairs@[k] == prev[k]);
                            } else {
                                assert(pairs@[k] == new_pair);
                            }
                        }
                        assert forall|k: int, j: int|
                            0 <= k < pairs@.len() && 0 <= j < pairs@[k].1@.len() implies (
                        #[trigger] pairs@[k].1@[j])@.len() > 0 by {
                            if k < idx as int {
                                assert(pairs@[k] == prev[k]);
                            } else if k > idx as int {
                                assert(pairs@[k] == prev[k]);
                            } else {
                                assert(pairs@[k] == new_pair);
                                assert(new_pair.1@ == old_chains.push(conds_v));
                                if j < old_chains.len() as int {
                                    assert(new_pair.1@[j] == old_chains[j]);
                                    assert(prev[idx as int].1@[j] == old_chains[j]);
                                } else {
                                    assert(new_pair.1@[j] == conds_v);
                                    assert(conds_v@.len() == rules@[i as int].predicates@.len());
                                }
                            }
                        }
                        assert forall|j: int| 0 <= j < i as int + 1 implies
                            #[trigger] some_pair_for(pairs@, rules@[j].sysno) by {
                            if j < i as int {
                                assert(some_pair_for(prev, rules@[j].sysno));
                                let k = choose|k: int|
                                    0 <= k < prev.len() && (#[trigger] prev[k]).0 == (rules@[j]).sysno as i64;
                                assert((#[trigger] pairs@[k]).0 == prev[k].0);
                                assert(pairs@[k].0 == rules@[j].sysno as i64);
                            } else {
                                assert(pairs@[idx as int].0 == prev[idx as int].0);
                                assert(prev[idx as int].0 == key);
                                assert((#[trigger] pairs@[idx as int]).0 == rules@[j].sysno as i64);
                            }
                        }
                        assert forall|x: u64| #[trigger] unconditional_sysnos@.contains(x) implies
                            some_unconditional(rules@.take(i as int + 1), x) by {
                            lemma_some_unconditional_step(rules@, i as int, x);
                        }
                        // No processed rule for this syscall is
                        // unconditional: it would stand in the marker list.
                        assert(!some_unconditional(rules@.take(i as int), sn)) by {
                            if some_unconditional(rules@.take(i as int), sn) {
                                let j = choose|j: int|
                                    0 <= j < rules@.take(i as int).len() && (#[trigger] rules@.take(
                                        i as int,
                                    )[j]).sysno == sn && rules@.take(i as int)[
                                        j
                                    ].predicates@.len() == 0;
                                assert(rules@.take(i as int)[j] == rules@[j]);
                                assert(unconditional_sysnos@.contains(rules@[j].sysno));
                            }
                        }
                        assert forall|k: int| 0 <= k < pairs@.len() implies ((
                        #[trigger] pairs@[k]).1@.len() == 0 <==> some_unconditional(
                            rules@.take(i as int + 1),
                            pairs@[k].0 as u64,
                        )) by {
                            lemma_some_unconditional_step(rules@, i as int, pairs@[k].0 as u64);
                            if k < idx as int {
                                assert(pairs@[k] == prev[k]);
                                assert(prev[k].0 != prev[idx as int].0);
                            } else if k > idx as int {
                                assert(pairs@[k] == prev[k]);
                                assert(prev[k].0 != prev[idx as int].0);
                            } else {
                                assert(pairs@[k] == new_pair);
                                assert(new_pair.1@.len() == old_chains.len() + 1);
                            }
                        }
                        assert forall|k: int|
                            0 <= k < pairs@.len() && (#[trigger] pairs@[k]).1@.len()
                                > 0 implies chain_lens(pairs@[k].1@) == conditional_lens(
                            rules@.take(i as int + 1),
                            pairs@[k].0 as u64,
                        ) by {
                            lemma_conditional_lens_step(rules@, i as int, pairs@[k].0 as u64);
                            assert(conditional_lens(rules@.take(i as int), pairs@[k].0 as u64)
                                + Seq::<int>::empty() =~= conditional_lens(
                                rules@.take(i as int),
                                pairs@[k].0 as u64,
                            ));
                            if k < idx as int {
                                assert(pairs@[k] == prev[k]);
                                assert(prev[k].0 != prev[idx as int].0);
                                assert(prev[idx as int].0 as u64 == sn);
                            } else if k > idx as int {
                                assert(pairs@[k] == prev[k]);
                                assert(prev[k].0 != prev[idx as int].0);
                                assert(prev[idx as int].0 as u64 == sn);
                            } else {
                                assert(pairs@[k] == new_pair);
                                assert(prev[idx as int].0 as u64 == sn);
                                assert(prev[idx as int].1@ == old_chains);
                                assert(prev[idx as int].1@.len() > 0);
                                assert(chain_lens(old_chains) == conditional_lens(
                                    rules@.take(i as int),
                                    sn,
                                ));
                                assert(chain_lens(new_pair.1@) =~= chain_lens(old_chains).push(
                                    conds_v@.len() as int,
                                ));
                                assert(chain_lens(old_chains).push(conds_v@.len() as int)
                                    =~= chain_lens(old_chains) + seq![conds_v@.len() as int]);
                                assert(new_pair.0 as u64 == sn);
                            }
                        }
                    }
                }
            },
        }
        i = i + 1;
    }
    proof {
        assert(rules@.take(rules@.len() as int) =~= rules@);
    }
    let ghost pairs_v = pairs@;
    match build_bpf(pairs, &default_action, &match_action, &arch) {
        Some(program) => Ok(
            CompiledFilter {
                program,
                policy: SeccompPolicy { rules, default_action, match_action, arch },
            },
        ),
        None => {
            proof {
                assert(!pairs_fit(pairs_v));
                assert(!policy_fits(rules@));
            }
            Err(CompileError::FilterTooLarge)
        },
    }
}

/// Compilation is idempotent in effect: the classification a compiled
/// filter stands for is a function of the rule list and the two actions
/// alone, so two filters compiled from the same inputs (see `compile`'s
/// contract: the stored policy is the input policy) classify every
/// syscall/argument combination identically.
pub proof fn lemma_compile_deterministic(
    a: CompiledFilter,
    b: CompiledFilter,
    number: u64,
    args: Seq<u64>,
)
    requires
        a.policy.rules@ == b.policy.rules@,
        a.policy.default_action == b.policy.default_action,
        a.policy.match_action == b.policy.match_action,
    ensures
        spec_classify(a.policy, number, args) == spec_classify(b.policy, number, args),
{
}

} // verus!
