use sandbox_core::arch::Arch;
use sandbox_core::policy::{Action, ArgLen, CmpOp, FilterRule, Predicate, SeccompPolicy, evaluate};

fn args6(a: [u64; 6]) -> Vec<u64> {
    a.to_vec()
}

fn pred(arg_index: u8, arg_len: ArgLen, op: CmpOp, value: u64) -> Predicate {
    Predicate { arg_index, arg_len, op, value }
}

fn policy(rules: Vec<FilterRule>, default_action: Action, match_action: Action) -> SeccompPolicy {
    SeccompPolicy { rules, default_action, match_action, arch: Arch::X86_64 }
}

#[test]
fn empty_rules_yield_default_for_every_call() {
    let p = policy(Vec::new(), Action::Allow, Action::Trace(0));
    assert_eq!(evaluate(&p, 0, &args6([0; 6])), Action::Allow);
    assert_eq!(evaluate(&p, 1, &args6([7, 7, 7, 7, 7, 7])), Action::Allow);
    assert_eq!(evaluate(&p, u64::MAX, &args6([u64::MAX; 6])), Action::Allow);
}

#[test]
fn named_syscall_triggers_match_action() {
    let rules = vec![FilterRule { sysno: 1, predicates: Vec::new() }];
    let p = policy(rules, Action::Allow, Action::Trace(0));
    assert_eq!(evaluate(&p, 1, &args6([0; 6])), Action::Trace(0));
    assert_eq!(evaluate(&p, 2, &args6([0; 6])), Action::Allow);
}

#[test]
fn predicates_are_anded_within_a_rule() {
    let rules = vec![FilterRule {
        sysno: 2,
        predicates: vec![
            pred(0, ArgLen::Qword, CmpOp::Eq, 10),
            pred(1, ArgLen::Qword, CmpOp::Ge, 100),
        ],
    }];
    let p = policy(rules, Action::Allow, Action::KillProcess);
    assert_eq!(evaluate(&p, 2, &args6([10, 100, 0, 0, 0, 0])), Action::KillProcess);
    assert_eq!(evaluate(&p, 2, &args6([10, 99, 0, 0, 0, 0])), Action::Allow);
    assert_eq!(evaluate(&p, 2, &args6([11, 100, 0, 0, 0, 0])), Action::Allow);
}

#[test]
fn rules_are_ored_for_the_same_syscall() {
    let r1 = FilterRule { sysno: 3, predicates: vec![pred(0, ArgLen::Qword, CmpOp::Eq, 1)] };
    let r2 = FilterRule { sysno: 3, predicates: vec![pred(0, ArgLen::Qword, CmpOp::Eq, 2)] };
    let p = policy(vec![r1, r2], Action::Allow, Action::Trap);
    assert_eq!(evaluate(&p, 3, &args6([1, 0, 0, 0, 0, 0])), Action::Trap);
    assert_eq!(evaluate(&p, 3, &args6([2, 0, 0, 0, 0, 0])), Action::Trap);
    assert_eq!(evaluate(&p, 3, &args6([3, 0, 0, 0, 0, 0])), Action::Allow);
}

#[test]
fn rule_order_does_not_change_classification() {
    let r1 = FilterRule { sysno: 3, predicates: vec![pred(0, ArgLen::Qword, CmpOp::Eq, 1)] };
    let r2 = FilterRule { sysno: 3, predicates: vec![pred(0, ArgLen::Qword, CmpOp::Eq, 2)] };
    let forward = policy(vec![r1.clone(), r2.clone()], Action::Allow, Action::Trap);
    let backward = policy(vec![r2, r1], Action::Allow, Action::Trap);
    for a0 in [0u64, 1, 2, 3, u64::MAX] {
        let args = args6([a0, 0, 0, 0, 0, 0]);
        assert_eq!(evaluate(&forward, 3, &args), evaluate(&backward, 3, &args));
    }
}

#[test]
fn predicate_order_does_not_change_matching() {
    let pa = pred(0, ArgLen::Qword, CmpOp::Eq, 10);
    let pb = pred(1, ArgLen::Qword, CmpOp::Lt, 5);
    let forward = policy(
        vec![FilterRule { sysno: 9, predicates: vec![pa, pb] }],
        Action::Allow,
        Action::Errno(13),
    );
    let backward = policy(
        vec![FilterRule { sysno: 9, predicates: vec![pb, pa] }],
        Action::Allow,
        Action::Errno(13),
    );
    for case in [[10u64, 4], [10, 5], [9, 4], [0, 0]] {
        let args = args6([case[0], case[1], 0, 0, 0, 0]);
        assert_eq!(evaluate(&forward, 9, &args), evaluate(&backward, 9, &args));
    }
}

#[test]
fn dword_comparison_ignores_the_high_half() {
    let rules = vec![FilterRule {
        sysno: 4,
        predicates: vec![pred(0, ArgLen::Dword, CmpOp::Eq, 0xdead_beef)],
    }];
    let p = policy(rules, Action::Allow, Action::Trace(1));
    assert_eq!(evaluate(&p, 4, &args6([0xdead_beef, 0, 0, 0, 0, 0])), Action::Trace(1));
    assert_eq!(
        evaluate(&p, 4, &args6([0xffff_ffff_dead_beef, 0, 0, 0, 0, 0])),
        Action::Trace(1)
    );
    assert_eq!(evaluate(&p, 4, &args6([0xdead_bee0, 0, 0, 0, 0, 0])), Action::Allow);
}

#[test]
fn qword_comparison_uses_all_bits() {
    let rules = vec![FilterRule {
        sysno: 4,
        predicates: vec![pred(0, ArgLen::Qword, CmpOp::Eq, 0xdead_beef)],
    }];
    let p = policy(rules, Action::Allow, Action::Trace(1));
    assert_eq!(evaluate(&p, 4, &args6([0xdead_beef, 0, 0, 0, 0, 0])), Action::Trace(1));
    assert_eq!(evaluate(&p, 4, &args6([0xffff_ffff_dead_beef, 0, 0, 0, 0, 0])), Action::Allow);
}

#[test]
fn masked_eq_compares_only_masked_bits() {
    let rules = vec![FilterRule {
        sysno: 5,
        predicates: vec![pred(2, ArgLen::Qword, CmpOp::MaskedEq(0xff00), 0x1200)],
    }];
    let p = policy(rules, Action::Allow, Action::Log);
    assert_eq!(evaluate(&p, 5, &args6([0, 0, 0x12ff, 0, 0, 0])), Action::Log);
    assert_eq!(evaluate(&p, 5, &args6([0, 0, 0xab34aa, 0, 0, 0])), Action::Allow);
    assert_eq!(evaluate(&p, 5, &args6([0, 0, 0x1200, 0, 0, 0])), Action::Log);
}

#[test]
fn unsigned_order_comparisons() {
    let lt = policy(
        vec![FilterRule { sysno: 6, predicates: vec![pred(0, ArgLen::Qword, CmpOp::Lt, 100)] }],
        Action::Allow,
        Action::Trap,
    );
    assert_eq!(evaluate(&lt, 6, &args6([99, 0, 0, 0, 0, 0])), Action::Trap);
    assert_eq!(evaluate(&lt, 6, &args6([100, 0, 0, 0, 0, 0])), Action::Allow);
    assert_eq!(evaluate(&lt, 6, &args6([u64::MAX, 0, 0, 0, 0, 0])), Action::Allow);
    let ne = policy(
        vec![FilterRule { sysno: 6, predicates: vec![pred(3, ArgLen::Qword, CmpOp::Ne, 7)] }],
        Action::Allow,
        Action::Trap,
    );
    assert_eq!(evaluate(&ne, 6, &args6([0, 0, 0, 7, 0, 0])), Action::Allow);
    assert_eq!(evaluate(&ne, 6, &args6([0, 0, 0, 8, 0, 0])), Action::Trap);
    let le = policy(
        vec![FilterRule { sysno: 6, predicates: vec![pred(4, ArgLen::Qword, CmpOp::Le, 7)] }],
        Action::Allow,
        Action::Trap,
    );
    assert_eq!(evaluate(&le, 6, &args6([0, 0, 0, 0, 7, 0])), Action::Trap);
    assert_eq!(evaluate(&le, 6, &args6([0, 0, 0, 0, 8, 0])), Action::Allow);
    let gt = policy(
        vec![FilterRule { sysno: 6, predicates: vec![pred(5, ArgLen::Qword, CmpOp::Gt, 7)] }],
        Action::Allow,
        Action::Trap,
    );
    assert_eq!(evaluate(&gt, 6, &args6([0, 0, 0, 0, 0, 8])), Action::Trap);
    assert_eq!(evaluate(&gt, 6, &args6([0, 0, 0, 0, 0, 7])), Action::Allow);
}

#[test]
fn rule_without_predicates_beside_conditional_rule_matches_always() {
    let r1 = FilterRule { sysno: 8, predicates: vec![pred(0, ArgLen::Qword, CmpOp::Eq, 1)] };
    let r2 = FilterRule { sysno: 8, predicates: Vec::new() };
    let p = policy(vec![r1, r2], Action::Allow, Action::Trace(0));
    assert_eq!(evaluate(&p, 8, &args6([123, 0, 0, 0, 0, 0])), Action::Trace(0));
}
