use sandbox_core::arch::{Arch, arch_from_name};
use sandbox_core::compile::{CompileError, compile};
use sandbox_core::policy::{Action, ArgLen, CmpOp, FilterRule, Predicate, evaluate};

fn trap_rules() -> Vec<FilterRule> {
    vec![
        FilterRule { sysno: 1, predicates: Vec::new() },
        FilterRule { sysno: 39, predicates: Vec::new() },
    ]
}

#[test]
fn arch_names_map_to_tags() {
    assert_eq!(arch_from_name("x86_64"), Arch::X86_64);
    assert_eq!(arch_from_name("aarch64"), Arch::Aarch64);
    assert_eq!(arch_from_name("riscv64"), Arch::Riscv64);
    assert_eq!(arch_from_name("mips"), Arch::Unknown);
    assert_eq!(arch_from_name(""), Arch::Unknown);
}

#[test]
fn empty_rule_set_compiles() {
    let cf = compile(Vec::new(), Action::Allow, Action::Trace(0), Arch::X86_64)
        .expect("an empty rule set is owed a filter");
    assert!(!cf.program.is_empty());
    assert!(cf.policy.rules.is_empty());
}

#[test]
fn compile_produces_a_nonempty_program_and_keeps_the_policy() {
    let cf = compile(trap_rules(), Action::Allow, Action::Trace(0), Arch::X86_64)
        .expect("compilation should succeed");
    assert!(!cf.program.is_empty());
    assert_eq!(cf.policy.rules.len(), 2);
    assert_eq!(cf.policy.rules[0].sysno, 1);
    assert_eq!(cf.policy.rules[1].sysno, 39);
    assert_eq!(cf.policy.default_action, Action::Allow);
    assert_eq!(cf.policy.match_action, Action::Trace(0));
    assert_eq!(cf.policy.arch, Arch::X86_64);
}

#[test]
fn compile_accepts_argument_predicates() {
    let rules = vec![FilterRule {
        sysno: 2,
        predicates: vec![
            Predicate { arg_index: 1, arg_len: ArgLen::Dword, op: CmpOp::Eq, value: 2 },
            Predicate { arg_index: 2, arg_len: ArgLen::Qword, op: CmpOp::MaskedEq(0xff), value: 1 },
        ],
    }];
    let cf = compile(rules, Action::Trap, Action::Allow, Arch::X86_64)
        .expect("compilation should succeed");
    assert!(!cf.program.is_empty());
}

#[test]
fn compiling_twice_yields_identical_classification_and_program() {
    let cf1 = compile(trap_rules(), Action::Allow, Action::Trace(0), Arch::X86_64).unwrap();
    let cf2 = compile(trap_rules(), Action::Allow, Action::Trace(0), Arch::X86_64).unwrap();
    assert_eq!(cf1.program, cf2.program);
    for number in [0u64, 1, 2, 39, 40, 0xffff_ffff] {
        for a0 in [0u64, 5, u64::MAX] {
            let args = vec![a0, 0, 0, 0, 0, 0];
            assert_eq!(
                evaluate(&cf1.policy, number, &args),
                evaluate(&cf2.policy, number, &args)
            );
        }
    }
}

#[test]
fn stored_policy_drives_the_reference_evaluator() {
    let rules = vec![FilterRule {
        sysno: 2,
        predicates: vec![Predicate { arg_index: 1, arg_len: ArgLen::Qword, op: CmpOp::Eq, value: 3 }],
    }];
    let cf = compile(rules, Action::Allow, Action::Trace(0), Arch::X86_64).unwrap();
    assert_eq!(evaluate(&cf.policy, 2, &vec![0, 3, 0, 0, 0, 0]), Action::Trace(0));
    assert_eq!(evaluate(&cf.policy, 2, &vec![0, 4, 0, 0, 0, 0]), Action::Allow);
    assert_eq!(evaluate(&cf.policy, 3, &vec![0, 3, 0, 0, 0, 0]), Action::Allow);
}

#[test]
fn unconditional_rule_wins_in_either_order() {
    // A rule without predicates ORs to "match on the number alone",
    // whatever its position among the rules for that syscall: both orders
    // must produce the very program that the lone unconditional rule does.
    let uncond = || FilterRule { sysno: 7, predicates: Vec::new() };
    let cond = || FilterRule {
        sysno: 7,
        predicates: vec![Predicate { arg_index: 0, arg_len: ArgLen::Qword, op: CmpOp::Eq, value: 1 }],
    };
    let first = compile(vec![uncond(), cond()], Action::Allow, Action::Trace(0), Arch::X86_64)
        .unwrap();
    let second = compile(vec![cond(), uncond()], Action::Allow, Action::Trace(0), Arch::X86_64)
        .unwrap();
    let alone = compile(vec![uncond()], Action::Allow, Action::Trace(0), Arch::X86_64).unwrap();
    assert_eq!(first.program, second.program);
    assert_eq!(first.program, alone.program);
}

#[test]
fn unknown_architecture_is_rejected() {
    let r = compile(trap_rules(), Action::Allow, Action::Trace(0), Arch::Unknown);
    assert_eq!(r.unwrap_err(), CompileError::UnsupportedArchitecture);
}

#[test]
fn out_of_range_argument_index_is_rejected() {
    let rules = vec![FilterRule {
        sysno: 1,
        predicates: vec![Predicate {
            arg_index: 6,
            arg_len: ArgLen::Qword,
            op: CmpOp::Eq,
            value: 0,
        }],
    }];
    let r = compile(rules, Action::Allow, Action::Trace(0), Arch::X86_64);
    assert_eq!(r.unwrap_err(), CompileError::InvalidPredicate);
}

#[test]
fn oversized_syscall_number_is_rejected() {
    let rules = vec![FilterRule { sysno: 0x1_0000_0000, predicates: Vec::new() }];
    let r = compile(rules, Action::Allow, Action::Trace(0), Arch::X86_64);
    assert_eq!(r.unwrap_err(), CompileError::InvalidSyscallNumber);
}

#[test]
fn identical_actions_are_rejected() {
    let r = compile(trap_rules(), Action::Allow, Action::Allow, Arch::X86_64);
    assert_eq!(r.unwrap_err(), CompileError::IdenticalActions);
}

#[test]
fn oversized_filter_is_rejected() {
    let mut predicates = Vec::new();
    for i in 0..1500u64 {
        predicates.push(Predicate {
            arg_index: (i % 6) as u8,
            arg_len: ArgLen::Qword,
            op: CmpOp::Eq,
            value: i,
        });
    }
    let rules = vec![FilterRule { sysno: 1, predicates }];
    let r = compile(rules, Action::Allow, Action::Trace(0), Arch::X86_64);
    assert_eq!(r.unwrap_err(), CompileError::FilterTooLarge);
}
