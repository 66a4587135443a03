use aria_lang::ast::{BinaryOp, Contract, ContractClause, Expr, ExprKind, FloatLit, Ident, Stmt, StmtKind, UnaryOp};
use aria_lang::lower::LoweringContext;
use aria_lang::lower_expr::{visit_expr_idents, visit_stmt_idents};
use aria_lang::mir::{BinOp, Expr as MirExpr, Local, Span, UnOp};

fn sp() -> Span {
    Span { start: 0, end: 0 }
}

fn ex(kind: ExprKind) -> Expr {
    Expr { kind, span: sp() }
}

fn ident(name: &str) -> Expr {
    ex(ExprKind::Ident(name.to_string()))
}

fn int_lit(text: &str) -> Expr {
    ex(ExprKind::Integer(text.to_string()))
}

fn bin(op: BinaryOp, l: Expr, r: Expr) -> Expr {
    ex(ExprKind::Binary { op, left: Box::new(l), right: Box::new(r) })
}

#[test]
fn contract_literals_and_names() {
    let mut ctx = LoweringContext::new();
    assert!(matches!(ctx.lower_contract_expr(&int_lit("42")), Ok(MirExpr::Int(42))));
    assert!(matches!(ctx.lower_contract_expr(&int_lit("-7")), Ok(MirExpr::Int(-7))));
    // Text that does not read as an i64 lowers to 0.
    assert!(matches!(ctx.lower_contract_expr(&int_lit("99999999999999999999")), Ok(MirExpr::Int(0))));
    assert!(matches!(ctx.lower_contract_expr(&ex(ExprKind::Bool(true))), Ok(MirExpr::Bool(true))));
    let bits = 2.5f64.to_bits();
    assert!(matches!(ctx.lower_contract_expr(&ex(ExprKind::Float(FloatLit::Plain(bits)))), Ok(MirExpr::Float(b)) if b == bits));
    assert!(matches!(ctx.lower_contract_expr(&ex(ExprKind::Float(FloatLit::F64(bits)))), Ok(MirExpr::Float(0))));
    assert!(matches!(ctx.lower_contract_expr(&ident("x")), Ok(MirExpr::Local(Local(0)))));
    assert!(matches!(ctx.lower_contract_expr(&ex(ExprKind::SelfLower)), Ok(MirExpr::Local(Local(1)))));
    assert!(matches!(ctx.lower_contract_expr(&ex(ExprKind::Result)), Ok(MirExpr::Result)));
    // Anything else reads as `true`.
    assert!(matches!(ctx.lower_contract_expr(&ex(ExprKind::Nil)), Ok(MirExpr::Bool(true))));
}

#[test]
fn contract_operators_keep_their_shape() {
    let mut ctx = LoweringContext::new();
    let e = bin(BinaryOp::GtEq, ident("result"), int_lit("0"));
    match ctx.lower_contract_expr(&e) {
        Ok(MirExpr::Binary { op: BinOp::Ge, left, right }) => {
            assert!(matches!(*left, MirExpr::Local(Local(0))));
            assert!(matches!(*right, MirExpr::Int(0)));
        },
        other => panic!("unexpected {:?}", other),
    }
    // An operator with no contract counterpart reads as `==`.
    assert!(matches!(ctx.lower_contract_expr(&bin(BinaryOp::IntDiv, int_lit("1"), int_lit("2"))),
        Ok(MirExpr::Binary { op: BinOp::Eq, .. })));
    let neg = ex(ExprKind::Unary { op: UnaryOp::Neg, operand: Box::new(int_lit("3")) });
    assert!(matches!(ctx.lower_contract_expr(&neg), Ok(MirExpr::Unary { op: UnOp::Neg, .. })));
    let old = ex(ExprKind::Old(Box::new(ident("balance"))));
    assert!(matches!(ctx.lower_contract_expr(&old), Ok(MirExpr::Old(_))));
    let call = ex(ExprKind::MethodCall {
        object: Box::new(ident("items")),
        method: Ident { node: "contains".to_string(), span: sp() },
        args: vec![int_lit("1"), ident("y")],
    });
    match ctx.lower_contract_expr(&call) {
        Ok(MirExpr::MethodCall { method, args, .. }) => {
            assert_eq!(method, "contains");
            assert_eq!(args.len(), 2);
            assert!(matches!(args[0], MirExpr::Int(1)));
        },
        other => panic!("unexpected {:?}", other),
    }
}

#[test]
fn contracts_split_into_requires_and_ensures() {
    let mut ctx = LoweringContext::new();
    let clause = |e: Expr, msg: Option<&str>| ContractClause { condition: e, message: msg.map(|m| m.to_string()), span: sp() };
    let contracts = vec![
        Contract::Requires(clause(bin(BinaryOp::Gt, ident("n"), int_lit("0")), Some("n must be positive"))),
        Contract::Invariant(clause(ex(ExprKind::Bool(true)), None)),
        Contract::Ensures(clause(bin(BinaryOp::Gt, ex(ExprKind::Result), int_lit("0")), None)),
    ];
    let c = ctx.lower_contracts(&contracts).unwrap().unwrap();
    assert_eq!(c.requires.len(), 1);
    assert_eq!(c.ensures.len(), 1);
    assert_eq!(c.requires[0].message.as_deref(), Some("n must be positive"));
    assert!(matches!(c.ensures[0].condition, MirExpr::Binary { op: BinOp::Gt, .. }));

    let only_invariants = vec![Contract::Invariant(clause(ex(ExprKind::Bool(true)), None))];
    assert!(ctx.lower_contracts(&only_invariants).unwrap().is_none());
    assert!(ctx.lower_contracts(&Vec::new()).unwrap().is_none());
}

#[test]
fn identifiers_are_collected_in_order() {
    let e = bin(BinaryOp::Add, ident("a"), ex(ExprKind::Tuple(vec![ident("b"), int_lit("1"), ident("a")])));
    let mut out = Vec::new();
    visit_expr_idents(&e, &mut out);
    assert_eq!(out, vec!["a".to_string(), "b".to_string(), "a".to_string()]);

    let st = Stmt { kind: StmtKind::Return(Some(ident("z"))), span: sp() };
    visit_stmt_idents(&st, &mut out);
    assert_eq!(out.last().map(|s| s.as_str()), Some("z"));
}
