use aria_lang::assoc::AssocMap;
use aria_lang::mir::{
    BinOp, BlockId, Constant, Local, MirFunction, MirType, Operand, Place, Rvalue, Span, Statement,
    StatementKind, SwitchTargets, Terminator, TerminatorKind, UnOp,
};
use aria_lang::optimize::{
    algebraic_simplify, constant_fold, copy_propagation, dead_code_elimination, find_reachable_blocks,
    optimize_function, resolve_copies, simplify_cfg, try_algebraic_simplify, try_fold_rvalue, OptLevel,
};

fn make_test_function() -> MirFunction {
    MirFunction::new("test".to_string(), MirType::Int, Span::dummy())
}

fn bin(op: BinOp, a: Constant, b: Constant) -> Rvalue {
    Rvalue::BinaryOp(op, Operand::Constant(a), Operand::Constant(b))
}

fn x() -> Operand {
    Operand::Copy(Place::from_local(Local(1)))
}

fn assign(dest: Local, rv: Rvalue) -> Statement {
    Statement { kind: StatementKind::Assign(Place::from_local(dest), rv), span: Span::dummy() }
}

fn term(kind: TerminatorKind) -> Terminator {
    Terminator { kind, span: Span::dummy() }
}

#[test]
fn test_constant_fold_add() {
    let folded = try_fold_rvalue(&bin(BinOp::Add, Constant::Int(1), Constant::Int(2)));
    assert!(matches!(folded, Some(Operand::Constant(Constant::Int(3)))));
}

#[test]
fn test_constant_fold_mul() {
    let folded = try_fold_rvalue(&bin(BinOp::Mul, Constant::Int(6), Constant::Int(7)));
    assert!(matches!(folded, Some(Operand::Constant(Constant::Int(42)))));
}

#[test]
fn test_constant_fold_comparison() {
    let folded = try_fold_rvalue(&bin(BinOp::Lt, Constant::Int(5), Constant::Int(10)));
    assert!(matches!(folded, Some(Operand::Constant(Constant::Bool(true)))));
}

#[test]
fn test_constant_fold_bool_and() {
    let folded = try_fold_rvalue(&bin(BinOp::And, Constant::Bool(true), Constant::Bool(false)));
    assert!(matches!(folded, Some(Operand::Constant(Constant::Bool(false)))));
}

#[test]
fn test_constant_fold_neg() {
    let folded = try_fold_rvalue(&Rvalue::UnaryOp(UnOp::Neg, Operand::Constant(Constant::Int(42))));
    assert!(matches!(folded, Some(Operand::Constant(Constant::Int(-42)))));
}

#[test]
fn test_constant_fold_not() {
    let folded = try_fold_rvalue(&Rvalue::UnaryOp(UnOp::Not, Operand::Constant(Constant::Bool(true))));
    assert!(matches!(folded, Some(Operand::Constant(Constant::Bool(false)))));
}

#[test]
fn test_find_reachable_blocks() {
    let mut func = make_test_function();
    let b0 = func.new_block();
    let b1 = func.new_block();
    let _b2 = func.new_block();

    func.block_mut(b0).set_terminator(term(TerminatorKind::Goto { target: b1 }));
    func.block_mut(b1).set_terminator(term(TerminatorKind::Return));

    let reachable = find_reachable_blocks(&func);
    assert!(reachable[0]);
    assert!(reachable[1]);
    assert!(!reachable[2]);
}

#[test]
fn test_resolve_transitive_copies() {
    let mut copies = AssocMap::new();
    copies.insert(Local(2), Local(1));
    copies.insert(Local(3), Local(2));
    copies.insert(Local(4), Local(3));

    let resolved = resolve_copies(&copies);

    assert_eq!(resolved.get(&Local(2)), Some(&Local(1)));
    assert_eq!(resolved.get(&Local(3)), Some(&Local(1)));
    assert_eq!(resolved.get(&Local(4)), Some(&Local(1)));
}

#[test]
fn test_copy_propagation() {
    let mut func = make_test_function();
    let _x = func.new_local(MirType::Int, Some("x".to_string()));
    let y = func.new_local(MirType::Int, Some("y".to_string()));
    let z = func.new_local(MirType::Int, Some("z".to_string()));

    let b0 = func.new_block();
    func.block_mut(b0).push_stmt(assign(y, Rvalue::Use(Operand::Copy(Place::from_local(Local(1))))));
    func.block_mut(b0).push_stmt(assign(z, Rvalue::Use(Operand::Copy(Place::from_local(y)))));
    func.block_mut(b0).set_terminator(term(TerminatorKind::Return));

    copy_propagation(&mut func);

    if let StatementKind::Assign(_, Rvalue::Use(Operand::Copy(place))) = &func.blocks[0].statements[1].kind {
        assert_eq!(place.local, Local(1));
    } else {
        panic!("Expected Copy assignment");
    }
}

#[test]
fn test_constant_fold_shift_left() {
    let folded = try_fold_rvalue(&bin(BinOp::Shl, Constant::Int(1), Constant::Int(4)));
    assert!(matches!(folded, Some(Operand::Constant(Constant::Int(16)))));
}

#[test]
fn test_constant_fold_shift_right() {
    let folded = try_fold_rvalue(&bin(BinOp::Shr, Constant::Int(32), Constant::Int(2)));
    assert!(matches!(folded, Some(Operand::Constant(Constant::Int(8)))));
}

#[test]
fn test_constant_fold_power_int() {
    let folded = try_fold_rvalue(&bin(BinOp::Pow, Constant::Int(2), Constant::Int(10)));
    assert!(matches!(folded, Some(Operand::Constant(Constant::Int(1024)))));
}

#[test]
fn test_constant_fold_bool_eq() {
    let folded = try_fold_rvalue(&bin(BinOp::Eq, Constant::Bool(true), Constant::Bool(true)));
    assert!(matches!(folded, Some(Operand::Constant(Constant::Bool(true)))));
}

#[test]
fn test_algebraic_add_zero_right() {
    let rv = Rvalue::BinaryOp(BinOp::Add, x(), Operand::Constant(Constant::Int(0)));
    assert!(matches!(try_algebraic_simplify(&rv), Some(Rvalue::Use(_))));
}

#[test]
fn test_algebraic_add_zero_left() {
    let rv = Rvalue::BinaryOp(BinOp::Add, Operand::Constant(Constant::Int(0)), x());
    assert!(matches!(try_algebraic_simplify(&rv), Some(Rvalue::Use(_))));
}

#[test]
fn test_algebraic_mul_one() {
    let rv = Rvalue::BinaryOp(BinOp::Mul, x(), Operand::Constant(Constant::Int(1)));
    assert!(matches!(try_algebraic_simplify(&rv), Some(Rvalue::Use(_))));
}

#[test]
fn test_algebraic_mul_zero() {
    let rv = Rvalue::BinaryOp(BinOp::Mul, x(), Operand::Constant(Constant::Int(0)));
    assert!(matches!(
        try_algebraic_simplify(&rv),
        Some(Rvalue::Use(Operand::Constant(Constant::Int(0))))
    ));
}

#[test]
fn test_algebraic_div_one() {
    let rv = Rvalue::BinaryOp(BinOp::Div, x(), Operand::Constant(Constant::Int(1)));
    assert!(matches!(try_algebraic_simplify(&rv), Some(Rvalue::Use(_))));
}

#[test]
fn test_algebraic_pow_zero() {
    let rv = Rvalue::BinaryOp(BinOp::Pow, x(), Operand::Constant(Constant::Int(0)));
    assert!(matches!(
        try_algebraic_simplify(&rv),
        Some(Rvalue::Use(Operand::Constant(Constant::Int(1))))
    ));
}

#[test]
fn test_algebraic_pow_one() {
    let rv = Rvalue::BinaryOp(BinOp::Pow, x(), Operand::Constant(Constant::Int(1)));
    assert!(matches!(try_algebraic_simplify(&rv), Some(Rvalue::Use(_))));
}

#[test]
fn test_algebraic_and_true() {
    let rv = Rvalue::BinaryOp(BinOp::And, x(), Operand::Constant(Constant::Bool(true)));
    assert!(matches!(try_algebraic_simplify(&rv), Some(Rvalue::Use(_))));
}

#[test]
fn test_algebraic_and_false() {
    let rv = Rvalue::BinaryOp(BinOp::And, x(), Operand::Constant(Constant::Bool(false)));
    assert!(matches!(
        try_algebraic_simplify(&rv),
        Some(Rvalue::Use(Operand::Constant(Constant::Bool(false))))
    ));
}

#[test]
fn test_algebraic_or_false() {
    let rv = Rvalue::BinaryOp(BinOp::Or, x(), Operand::Constant(Constant::Bool(false)));
    assert!(matches!(try_algebraic_simplify(&rv), Some(Rvalue::Use(_))));
}

#[test]
fn test_algebraic_or_true() {
    let rv = Rvalue::BinaryOp(BinOp::Or, x(), Operand::Constant(Constant::Bool(true)));
    assert!(matches!(
        try_algebraic_simplify(&rv),
        Some(Rvalue::Use(Operand::Constant(Constant::Bool(true))))
    ));
}

#[test]
fn test_algebraic_sub_self() {
    let rv = Rvalue::BinaryOp(BinOp::Sub, x(), x());
    assert!(matches!(
        try_algebraic_simplify(&rv),
        Some(Rvalue::Use(Operand::Constant(Constant::Int(0))))
    ));
}

#[test]
fn test_algebraic_xor_self() {
    let rv = Rvalue::BinaryOp(BinOp::BitXor, x(), x());
    assert!(matches!(
        try_algebraic_simplify(&rv),
        Some(Rvalue::Use(Operand::Constant(Constant::Int(0))))
    ));
}

#[test]
fn test_algebraic_eq_self() {
    let rv = Rvalue::BinaryOp(BinOp::Eq, x(), x());
    assert!(matches!(
        try_algebraic_simplify(&rv),
        Some(Rvalue::Use(Operand::Constant(Constant::Bool(true))))
    ));
}

#[test]
fn test_algebraic_ne_self() {
    let rv = Rvalue::BinaryOp(BinOp::Ne, x(), x());
    assert!(matches!(
        try_algebraic_simplify(&rv),
        Some(Rvalue::Use(Operand::Constant(Constant::Bool(false))))
    ));
}

#[test]
fn test_algebraic_and_self() {
    let rv = Rvalue::BinaryOp(BinOp::And, x(), x());
    match try_algebraic_simplify(&rv) {
        Some(Rvalue::Use(Operand::Copy(p))) => assert_eq!(p.local, Local(1)),
        _ => panic!("Expected simplified result"),
    }
}

#[test]
fn test_algebraic_or_self() {
    let rv = Rvalue::BinaryOp(BinOp::Or, x(), x());
    match try_algebraic_simplify(&rv) {
        Some(Rvalue::Use(Operand::Copy(p))) => assert_eq!(p.local, Local(1)),
        _ => panic!("Expected simplified result"),
    }
}

#[test]
fn test_algebraic_float_add_zero() {
    let rv = Rvalue::BinaryOp(BinOp::Add, x(), Operand::Constant(Constant::Float(0.0f64.to_bits())));
    assert!(matches!(try_algebraic_simplify(&rv), Some(Rvalue::Use(_))));
}

#[test]
fn test_algebraic_float_mul_one() {
    let rv = Rvalue::BinaryOp(BinOp::Mul, x(), Operand::Constant(Constant::Float(1.0f64.to_bits())));
    assert!(matches!(try_algebraic_simplify(&rv), Some(Rvalue::Use(_))));
}

#[test]
fn test_algebraic_float_mul_zero() {
    let rv = Rvalue::BinaryOp(BinOp::Mul, x(), Operand::Constant(Constant::Float(0.0f64.to_bits())));
    if let Some(Rvalue::Use(Operand::Constant(Constant::Float(f)))) = try_algebraic_simplify(&rv) {
        assert!((f64::from_bits(f) - 0.0).abs() < 0.001);
    } else {
        panic!("Expected Float constant 0.0");
    }
}

#[test]
fn test_algebraic_simplify_full_function() {
    let mut func = make_test_function();
    let xl = func.new_local(MirType::Int, Some("x".to_string()));
    let y = func.new_local(MirType::Int, Some("y".to_string()));

    let b0 = func.new_block();
    func.block_mut(b0).push_stmt(assign(
        y,
        Rvalue::BinaryOp(BinOp::Add, Operand::Copy(Place::from_local(xl)), Operand::Constant(Constant::Int(0))),
    ));
    func.block_mut(b0).set_terminator(term(TerminatorKind::Return));

    algebraic_simplify(&mut func);

    if let StatementKind::Assign(_, Rvalue::Use(Operand::Copy(place))) = &func.blocks[0].statements[0].kind {
        assert_eq!(place.local, xl);
    } else {
        panic!("Expected simplified assignment");
    }
}

#[test]
fn test_bitwise_shift_zero() {
    let shl = Rvalue::BinaryOp(BinOp::Shl, x(), Operand::Constant(Constant::Int(0)));
    assert!(matches!(try_algebraic_simplify(&shl), Some(Rvalue::Use(_))));
    let shr = Rvalue::BinaryOp(BinOp::Shr, x(), Operand::Constant(Constant::Int(0)));
    assert!(matches!(try_algebraic_simplify(&shr), Some(Rvalue::Use(_))));
}

#[test]
fn test_bitwise_xor_zero() {
    let rv = Rvalue::BinaryOp(BinOp::BitXor, x(), Operand::Constant(Constant::Int(0)));
    assert!(matches!(try_algebraic_simplify(&rv), Some(Rvalue::Use(_))));
}

#[test]
fn test_bitwise_or_zero() {
    let rv = Rvalue::BinaryOp(BinOp::BitOr, x(), Operand::Constant(Constant::Int(0)));
    assert!(matches!(try_algebraic_simplify(&rv), Some(Rvalue::Use(_))));
}

#[test]
fn test_sub_zero() {
    let rv = Rvalue::BinaryOp(BinOp::Sub, x(), Operand::Constant(Constant::Int(0)));
    assert!(matches!(try_algebraic_simplify(&rv), Some(Rvalue::Use(_))));
}

#[test]
fn test_intdiv_one() {
    let rv = Rvalue::BinaryOp(BinOp::IntDiv, x(), Operand::Constant(Constant::Int(1)));
    assert!(matches!(try_algebraic_simplify(&rv), Some(Rvalue::Use(_))));
}

#[test]
fn test_comparison_self() {
    let le = Rvalue::BinaryOp(BinOp::Le, x(), x());
    assert!(matches!(try_algebraic_simplify(&le), Some(Rvalue::Use(Operand::Constant(Constant::Bool(true))))));
    let ge = Rvalue::BinaryOp(BinOp::Ge, x(), x());
    assert!(matches!(try_algebraic_simplify(&ge), Some(Rvalue::Use(Operand::Constant(Constant::Bool(true))))));
    let lt = Rvalue::BinaryOp(BinOp::Lt, x(), x());
    assert!(matches!(try_algebraic_simplify(&lt), Some(Rvalue::Use(Operand::Constant(Constant::Bool(false))))));
    let gt = Rvalue::BinaryOp(BinOp::Gt, x(), x());
    assert!(matches!(try_algebraic_simplify(&gt), Some(Rvalue::Use(Operand::Constant(Constant::Bool(false))))));
}

#[test]
fn folding_wraps_divides_toward_zero_and_leaves_floats() {
    assert!(matches!(
        try_fold_rvalue(&bin(BinOp::Add, Constant::Int(i64::MAX), Constant::Int(1))),
        Some(Operand::Constant(Constant::Int(i64::MIN)))
    ));
    assert!(matches!(
        try_fold_rvalue(&bin(BinOp::Div, Constant::Int(-7), Constant::Int(2))),
        Some(Operand::Constant(Constant::Int(-3)))
    ));
    assert!(matches!(
        try_fold_rvalue(&bin(BinOp::Rem, Constant::Int(-7), Constant::Int(2))),
        Some(Operand::Constant(Constant::Int(-1)))
    ));
    assert!(try_fold_rvalue(&bin(BinOp::Div, Constant::Int(1), Constant::Int(0))).is_none());
    assert!(try_fold_rvalue(&bin(BinOp::Pow, Constant::Int(2), Constant::Int(21))).is_none());
    assert!(try_fold_rvalue(&bin(BinOp::Shl, Constant::Int(1), Constant::Int(64))).is_none());
    assert!(try_fold_rvalue(&bin(BinOp::Add, Constant::Float(0), Constant::Float(0))).is_none());
    match try_fold_rvalue(&Rvalue::UnaryOp(UnOp::Neg, Operand::Constant(Constant::Float(1.5f64.to_bits())))) {
        Some(Operand::Constant(Constant::Float(b))) => assert_eq!(f64::from_bits(b), -1.5),
        _ => panic!("Expected a float"),
    }
    assert!(matches!(
        try_fold_rvalue(&Rvalue::UnaryOp(UnOp::Not, Operand::Constant(Constant::Int(0)))),
        Some(Operand::Constant(Constant::Int(-1)))
    ));
}

#[test]
fn constant_fold_rewrites_statements() {
    let mut func = make_test_function();
    let b0 = func.new_block();
    func.block_mut(b0).push_stmt(assign(Local(0), bin(BinOp::Mul, Constant::Int(6), Constant::Int(7))));
    func.block_mut(b0).set_terminator(term(TerminatorKind::Return));
    constant_fold(&mut func);
    assert!(matches!(
        &func.blocks[0].statements[0].kind,
        StatementKind::Assign(_, Rvalue::Use(Operand::Constant(Constant::Int(42))))
    ));
}

#[test]
fn dead_code_elimination_clears_unreachable_and_unused() {
    let mut func = make_test_function();
    let a = func.new_local(MirType::Int, None);
    let b = func.new_local(MirType::Int, None);
    let b0 = func.new_block();
    let _b1 = func.new_block();
    func.block_mut(b0).push_stmt(assign(a, Rvalue::Use(Operand::const_int(1))));
    func.block_mut(b0).push_stmt(assign(b, Rvalue::Use(Operand::const_int(2))));
    func.block_mut(b0).push_stmt(assign(Local(0), Rvalue::Use(Operand::Copy(Place::from_local(a)))));
    func.block_mut(b0).set_terminator(term(TerminatorKind::Return));
    func.block_mut(BlockId(1)).push_stmt(assign(b, Rvalue::Use(Operand::const_int(3))));
    func.block_mut(BlockId(1)).set_terminator(term(TerminatorKind::Return));

    dead_code_elimination(&mut func);

    assert_eq!(func.blocks[0].statements.len(), 2);
    assert!(func.blocks[1].statements.is_empty());
    assert!(matches!(
        func.blocks[1].terminator,
        Some(Terminator { kind: TerminatorKind::Unreachable, .. })
    ));
}

#[test]
fn simplify_cfg_picks_switch_targets() {
    let mut func = make_test_function();
    let b0 = func.new_block();
    func.block_mut(b0).set_terminator(term(TerminatorKind::SwitchInt {
        discr: Operand::const_bool(false),
        targets: SwitchTargets::if_else(BlockId(1), BlockId(2)),
    }));
    let b1 = func.new_block();
    func.block_mut(b1).set_terminator(term(TerminatorKind::SwitchInt {
        discr: Operand::const_int(5),
        targets: SwitchTargets::new(vec![(5, BlockId(7)), (5, BlockId(8))], BlockId(9)),
    }));
    simplify_cfg(&mut func);
    assert!(matches!(
        func.blocks[0].terminator,
        Some(Terminator { kind: TerminatorKind::Goto { target: BlockId(2) }, .. })
    ));
    assert!(matches!(
        func.blocks[1].terminator,
        Some(Terminator { kind: TerminatorKind::Goto { target: BlockId(7) }, .. })
    ));
}

#[test]
fn optimize_basic_runs_the_pipeline() {
    let mut func = make_test_function();
    let t = func.new_local(MirType::Int, None);
    let b0 = func.new_block();
    func.block_mut(b0).push_stmt(assign(t, bin(BinOp::Add, Constant::Int(1), Constant::Int(2))));
    func.block_mut(b0).push_stmt(assign(
        Local(0),
        Rvalue::BinaryOp(BinOp::Mul, Operand::Copy(Place::from_local(t)), Operand::Constant(Constant::Int(1))),
    ));
    func.block_mut(b0).set_terminator(term(TerminatorKind::Return));
    optimize_function(&mut func, OptLevel::Basic);
    assert!(matches!(
        &func.blocks[0].statements[0].kind,
        StatementKind::Assign(_, Rvalue::Use(Operand::Constant(Constant::Int(3))))
    ));
    assert!(matches!(
        &func.blocks[0].statements[1].kind,
        StatementKind::Assign(_, Rvalue::Use(Operand::Copy(_)))
    ));
    let mut unchanged = make_test_function();
    optimize_function(&mut unchanged, OptLevel::Off);
    assert!(unchanged.blocks.is_empty());
    assert_eq!(OptLevel::default(), OptLevel::Off);
}
