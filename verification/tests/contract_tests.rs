use aria_lang::contract_verifier::{MirContractVerifier, RangeAnalysis, VerificationMode};
use aria_lang::mir::{
    BasicBlock, BinOp, BlockId, Constant, ContractClause, Expr, FunctionContract, FunctionId, Local,
    MirFunction, MirProgram, MirType, Operand, Span, Terminator, TerminatorKind,
};

#[test]
fn test_verification_mode() {
    assert!(VerificationMode::Debug.is_enabled());
    assert!(VerificationMode::Debug.should_insert_checks());
    assert!(!VerificationMode::Debug.should_prove_static());

    assert!(VerificationMode::Release.is_enabled());
    assert!(VerificationMode::Release.should_insert_checks());
    assert!(VerificationMode::Release.should_prove_static());

    assert!(!VerificationMode::Disabled.is_enabled());
    assert!(!VerificationMode::Disabled.should_insert_checks());
}

#[test]
fn test_provably_true() {
    let verifier = MirContractVerifier::new(VerificationMode::Release);

    let true_clause = ContractClause {
        condition: Expr::Bool(true),
        message: None,
        span: Span::dummy(),
    };

    assert!(verifier.is_provably_true(&true_clause));

    let false_clause = ContractClause {
        condition: Expr::Bool(false),
        message: None,
        span: Span::dummy(),
    };

    assert!(!verifier.is_provably_true(&false_clause));
}

fn clause(condition: Expr, message: Option<&str>) -> ContractClause {
    ContractClause { condition, message: message.map(|m| m.to_string()), span: Span::dummy() }
}

/// A function with one block that returns.
fn returning_function(contract: FunctionContract) -> MirFunction {
    let mut f = MirFunction::new("f".to_string(), MirType::Int, Span::dummy());
    let b = f.new_block();
    f.block_mut(b).set_terminator(Terminator { kind: TerminatorKind::Return, span: Span::dummy() });
    f.contract = Some(contract);
    f
}

fn program_with(f: MirFunction) -> MirProgram {
    let mut program = MirProgram::new();
    program.functions.insert(FunctionId(0), f);
    program
}

#[test]
fn contract_precondition_check_is_inserted_at_entry() {
    let mut contract = FunctionContract::new();
    contract.requires.push(clause(Expr::Local(Local(0)), Some("x positive")));
    let mut program = program_with(returning_function(contract));

    let mut verifier = MirContractVerifier::new(VerificationMode::Debug);
    verifier.verify_program(&mut program);

    let f = &program.functions.entries[0].1;
    assert_eq!(f.blocks.len(), 2);
    match &f.blocks[0].terminator {
        Some(Terminator { kind: TerminatorKind::Assert { cond, expected, msg, target }, .. }) => {
            assert!(*expected);
            assert_eq!(msg, "Precondition violated: x positive");
            assert_eq!(*target, BlockId(1));
            assert!(matches!(cond, Operand::Copy(p) if p.local == Local(0)));
        }
        other => panic!("expected an assertion, found {:?}", other),
    }
    assert!(matches!(
        f.blocks[1].terminator,
        Some(Terminator { kind: TerminatorKind::Return, .. })
    ));
}

#[test]
fn contract_postcondition_checks_every_return() {
    let mut contract = FunctionContract::new();
    contract.ensures.push(clause(Expr::Result, None));
    let mut f = returning_function(contract);
    let b = f.new_block();
    f.block_mut(b).set_terminator(Terminator { kind: TerminatorKind::Return, span: Span::dummy() });
    let mut program = program_with(f);

    let mut verifier = MirContractVerifier::new(VerificationMode::ForceAll);
    verifier.verify_program(&mut program);

    let f = &program.functions.entries[0].1;
    assert_eq!(f.blocks.len(), 4);
    for (i, b) in [0usize, 1].iter().enumerate() {
        match &f.blocks[*b].terminator {
            Some(Terminator { kind: TerminatorKind::Assert { msg, target, .. }, .. }) => {
                assert_eq!(msg, "Postcondition violated");
                assert_eq!(*target, BlockId(2 + i as u32));
            }
            other => panic!("expected an assertion, found {:?}", other),
        }
    }
}

#[test]
fn contract_release_skips_constant_true() {
    let mut contract = FunctionContract::new();
    contract.requires.push(clause(Expr::Bool(true), None));
    contract.requires.push(clause(Expr::Bool(false), None));
    let mut program = program_with(returning_function(contract));

    let mut verifier = MirContractVerifier::new(VerificationMode::Release);
    verifier.verify_program(&mut program);

    let f = &program.functions.entries[0].1;
    // Only the `false` clause gets a check.
    assert_eq!(f.blocks.len(), 2);
    match &f.blocks[0].terminator {
        Some(Terminator { kind: TerminatorKind::Assert { cond, .. }, .. }) => {
            assert!(matches!(cond, Operand::Constant(Constant::Bool(false))));
        }
        other => panic!("expected an assertion, found {:?}", other),
    }
}

#[test]
fn contract_disabled_changes_nothing() {
    let mut contract = FunctionContract::new();
    contract.requires.push(clause(Expr::Bool(false), None));
    let mut program = program_with(returning_function(contract));

    let mut verifier = MirContractVerifier::new(VerificationMode::Disabled);
    verifier.verify_program(&mut program);
    assert_eq!(program.functions.entries[0].1.blocks.len(), 1);
}

#[test]
fn contract_binary_condition_gets_a_temporary() {
    let mut contract = FunctionContract::new();
    contract.requires.push(clause(
        Expr::Binary { op: BinOp::Lt, left: Box::new(Expr::Int(1)), right: Box::new(Expr::Int(2)) },
        None,
    ));
    let mut program = program_with(returning_function(contract));
    let locals_before = program.functions.entries[0].1.locals.len();

    let mut verifier = MirContractVerifier::new(VerificationMode::Debug);
    verifier.verify_program(&mut program);

    let f = &program.functions.entries[0].1;
    assert_eq!(f.locals.len(), locals_before + 1);
    assert_eq!(f.locals[locals_before].name.as_deref(), Some("_contract_temp"));
    assert_eq!(f.locals[locals_before].ty, MirType::Bool);
}

#[test]
fn contract_range_analysis_proves_nothing() {
    let mut analysis = RangeAnalysis::new();
    let f = returning_function(FunctionContract::new());
    analysis.analyze(&f);
    assert!(!analysis.prove_condition(&Expr::Bool(true)));
    let _ = BasicBlock::new(BlockId(0));
}
