//! Lowering of expressions to MIR.

use vstd::prelude::*;
use crate::ast::{BinaryOp, Block, CallArg, Expr, ExprKind, FloatLit, MatchArm, MatchArmBody, Pattern, PatternKind, Stmt, StmtKind, StringPart, UnaryOp};
use crate::lower::{FunctionLoweringContext, MirError, jumps_below, operand_below, operand_for_local, infer_operand_type, infer_place_type, infer_polymorphic_builtin_return_type, ty_eq};
use crate::mir::{
    AggregateKind, BinOp, BlockId, Constant, Linkage, Local, MirType, Operand, Place, PlaceElem, Rvalue, Span,
    StatementKind, SwitchTargets, TerminatorKind, UnOp,
};
use crate::text::{owned_string, parse_i64, parse_i64_spec, str_chars, str_equal};

verus! {

broadcast use crate::lower::group_statements_kept;

// ============================================================================
// Identifiers an expression mentions
// ============================================================================

/// The views of a sequence of strings.
pub open spec fn names_view(v: Seq<String>) -> Seq<Seq<char>> {
    v.map_values(|s: String| s@)
}

/// The identifiers an expression mentions, in order of appearance. Inside
/// an `if` the statements of the branches count; the walk does not enter
/// other blocks, lambdas, matches, comprehensions, struct literals or
/// formatted parts of interpolated strings.
pub open spec fn expr_idents(e: Expr) -> Seq<Seq<char>>
    decreases e,
{
    match e.kind {
        ExprKind::Ident(name) => seq![name@],
        ExprKind::Binary { left, right, .. } => expr_idents(*left) + expr_idents(*right),
        ExprKind::Unary { operand, .. } => expr_idents(*operand),
        ExprKind::Call { func, args } => expr_idents(*func) + args_idents(args@),
        ExprKind::Field { object, .. } => expr_idents(*object),
        ExprKind::Index { object, index } => expr_idents(*object) + expr_idents(*index),
        ExprKind::If { condition, then_branch, elsif_branches, else_branch } =>
            expr_idents(*condition) + stmts_idents(then_branch.stmts@) + elsif_idents(elsif_branches@)
                + match else_branch {
                    Some(b) => stmts_idents(b.stmts@),
                    None => Seq::empty(),
                },
        ExprKind::Array(elems) => exprs_idents(elems@),
        ExprKind::Tuple(elems) => exprs_idents(elems@),
        ExprKind::Paren(inner) => expr_idents(*inner),
        ExprKind::Ternary { condition, then_expr, else_expr } =>
            expr_idents(*condition) + expr_idents(*then_expr) + expr_idents(*else_expr),
        ExprKind::MethodCall { object, args, .. } => expr_idents(*object) + exprs_idents(args@),
        ExprKind::Pipe { left, right } => expr_idents(*left) + expr_idents(*right),
        ExprKind::InterpolatedString(parts) => parts_idents(parts@),
        _ => Seq::empty(),
    }
}

/// The identifiers of a sequence of expressions, in order.
pub open spec fn exprs_idents(s: Seq<Expr>) -> Seq<Seq<char>>
    decreases s,
{
    if s.len() == 0 {
        Seq::empty()
    } else {
        exprs_idents(s.drop_last()) + expr_idents(s.last())
    }
}

/// The identifiers of the values of call arguments, in order.
pub open spec fn args_idents(s: Seq<CallArg>) -> Seq<Seq<char>>
    decreases s,
{
    if s.len() == 0 {
        Seq::empty()
    } else {
        args_idents(s.drop_last()) + expr_idents(s.last().value)
    }
}

/// The identifiers of the plain expression parts of an interpolated string.
pub open spec fn parts_idents(s: Seq<StringPart>) -> Seq<Seq<char>>
    decreases s,
{
    if s.len() == 0 {
        Seq::empty()
    } else {
        parts_idents(s.drop_last()) + match s.last() {
            StringPart::Expr(e) => expr_idents(*e),
            _ => Seq::empty(),
        }
    }
}

/// The identifiers of `elsif` branches: each condition, then the
/// statements of its block.
pub open spec fn elsif_idents(s: Seq<(Expr, Block)>) -> Seq<Seq<char>>
    decreases s,
{
    if s.len() == 0 {
        Seq::empty()
    } else {
        elsif_idents(s.drop_last()) + expr_idents(s.last().0) + stmts_idents(s.last().1.stmts@)
    }
}

/// The identifiers a statement mentions: those of an expression statement,
/// of a `let`'s value, of both sides of an assignment and of a returned
/// value.
pub open spec fn stmt_idents(st: Stmt) -> Seq<Seq<char>>
    decreases st,
{
    match st.kind {
        StmtKind::Expr(e) => expr_idents(e),
        StmtKind::Let { value, .. } => expr_idents(value),
        StmtKind::Assign { target, value, .. } => expr_idents(target) + expr_idents(value),
        StmtKind::Return(Some(e)) => expr_idents(e),
        _ => Seq::empty(),
    }
}

/// The identifiers of a sequence of statements, in order.
pub open spec fn stmts_idents(s: Seq<Stmt>) -> Seq<Seq<char>>
    decreases s,
{
    if s.len() == 0 {
        Seq::empty()
    } else {
        stmts_idents(s.drop_last()) + stmt_idents(s.last())
    }
}

/// Appends the identifiers that `expr` mentions to `out`.
pub fn visit_expr_idents(expr: &Expr, out: &mut Vec<String>)
    ensures
        names_view(final(out)@) == names_view(old(out)@) + expr_idents(*expr),
    decreases expr, 1nat,
{
    let ghost start = names_view(out@);
    match &expr.kind {
        ExprKind::Ident(name) => {
            out.push(name.clone());
            assert(names_view(out@) =~= start + seq![name@]);
        },
        ExprKind::Binary { left, right, .. } => {
            visit_expr_idents(left, out);
            visit_expr_idents(right, out);
            assert(names_view(out@) =~= start + expr_idents(*expr));
        },
        ExprKind::Unary { operand, .. } => visit_expr_idents(operand, out),
        ExprKind::Call { func, args } => {
            visit_expr_idents(func, out);
            visit_args_idents(expr, args, out);
            assert(names_view(out@) =~= start + expr_idents(*expr));
        },
        ExprKind::Field { object, .. } => visit_expr_idents(object, out),
        ExprKind::Index { object, index } => {
            visit_expr_idents(object, out);
            visit_expr_idents(index, out);
            assert(names_view(out@) =~= start + expr_idents(*expr));
        },
        ExprKind::If { condition, then_branch, elsif_branches, else_branch } => {
            visit_expr_idents(condition, out);
            visit_block_idents(then_branch, out);
            visit_elsif_idents(expr, elsif_branches, out);
            match else_branch {
                Some(b) => visit_block_idents(b, out),
                None => {},
            }
            assert(names_view(out@) =~= start + expr_idents(*expr));
        },
        ExprKind::Array(elems) => visit_exprs_idents(expr, elems, out),
        ExprKind::Tuple(elems) => visit_exprs_idents(expr, elems, out),
        ExprKind::Paren(inner) => visit_expr_idents(inner, out),
        ExprKind::Ternary { condition, then_expr, else_expr } => {
            visit_expr_idents(condition, out);
            visit_expr_idents(then_expr, out);
            visit_expr_idents(else_expr, out);
            assert(names_view(out@) =~= start + expr_idents(*expr));
        },
        ExprKind::MethodCall { object, args, .. } => {
            visit_expr_idents(object, out);
            visit_exprs_idents(expr, args, out);
            assert(names_view(out@) =~= start + expr_idents(*expr));
        },
        ExprKind::Pipe { left, right } => {
            visit_expr_idents(left, out);
            visit_expr_idents(right, out);
            assert(names_view(out@) =~= start + expr_idents(*expr));
        },
        ExprKind::InterpolatedString(parts) => visit_parts_idents(expr, parts, out),
        _ => {
            assert(names_view(out@) =~= start + expr_idents(*expr));
        },
    }
}

/// Appends the identifiers of the expressions of `v`, a part of `outer`.
fn visit_exprs_idents(outer: &Expr, v: &Vec<Expr>, out: &mut Vec<String>)
    requires
        decreases_to!(*outer => *v),
    ensures
        names_view(final(out)@) == names_view(old(out)@) + exprs_idents(v@),
    decreases outer, 0nat,
{
    let ghost start = names_view(out@);
    let mut i: usize = 0;
    while i < v.len()
        invariant
            decreases_to!(*outer => *v),
            0 <= i <= v@.len(),
            names_view(out@) == start + exprs_idents(v@.take(i as int)),
        decreases v@.len() - i,
    {
        proof {
            assert(decreases_to!(*v => v@));
            assert(decreases_to!(v@ => v@[i as int]));
            assert(v@.take(i + 1).drop_last() =~= v@.take(i as int));
        }
        visit_expr_idents(&v[i], out);
        i = i + 1;
    }
    assert(v@.take(v@.len() as int) =~= v@);
}

/// Appends the identifiers of the argument values of `v`, a part of `outer`.
fn visit_args_idents(outer: &Expr, v: &Vec<CallArg>, out: &mut Vec<String>)
    requires
        decreases_to!(*outer => *v),
    ensures
        names_view(final(out)@) == names_view(old(out)@) + args_idents(v@),
    decreases outer, 0nat,
{
    let ghost start = names_view(out@);
    let mut i: usize = 0;
    while i < v.len()
        invariant
            decreases_to!(*outer => *v),
            0 <= i <= v@.len(),
            names_view(out@) == start + args_idents(v@.take(i as int)),
        decreases v@.len() - i,
    {
        proof {
            assert(decreases_to!(*v => v@));
            assert(decreases_to!(v@ => v@[i as int]));
            assert(decreases_to!(v@[i as int] => v@[i as int].value));
            assert(v@.take(i + 1).drop_last() =~= v@.take(i as int));
        }
        visit_expr_idents(&v[i].value, out);
        i = i + 1;
    }
    assert(v@.take(v@.len() as int) =~= v@);
}

/// Appends the identifiers of the plain expression parts of `v`, a part of
/// `outer`.
fn visit_parts_idents(outer: &Expr, v: &Vec<StringPart>, out: &mut Vec<String>)
    requires
        decreases_to!(*outer => *v),
    ensures
        names_view(final(out)@) == names_view(old(out)@) + parts_idents(v@),
    decreases outer, 0nat,
{
    let ghost start = names_view(out@);
    let mut i: usize = 0;
    while i < v.len()
        invariant
            decreases_to!(*outer => *v),
            0 <= i <= v@.len(),
            names_view(out@) == start + parts_idents(v@.take(i as int)),
        decreases v@.len() - i,
    {
        proof {
            assert(decreases_to!(*v => v@));
            assert(decreases_to!(v@ => v@[i as int]));
            assert(v@.take(i + 1).drop_last() =~= v@.take(i as int));
        }
        match &v[i] {
            StringPart::Expr(e) => visit_expr_idents(e, out),
            _ => {
                assert(names_view(out@) =~= start + parts_idents(v@.take(i + 1)));
            },
        }
        i = i + 1;
    }
    assert(v@.take(v@.len() as int) =~= v@);
}

/// Appends the identifiers of `elsif` branches of `v`, a part of `outer`.
fn visit_elsif_idents(outer: &Expr, v: &Vec<(Expr, Block)>, out: &mut Vec<String>)
    requires
        decreases_to!(*outer => *v),
    ensures
        names_view(final(out)@) == names_view(old(out)@) + elsif_idents(v@),
    decreases outer, 0nat,
{
    let ghost start = names_view(out@);
    let mut i: usize = 0;
    while i < v.len()
        invariant
            decreases_to!(*outer => *v),
            0 <= i <= v@.len(),
            names_view(out@) == start + elsif_idents(v@.take(i as int)),
        decreases v@.len() - i,
    {
        proof {
            assert(decreases_to!(*v => v@));
            assert(decreases_to!(v@ => v@[i as int]));
            assert(decreases_to!(v@[i as int] => v@[i as int].0));
            assert(decreases_to!(v@[i as int] => v@[i as int].1));
            assert(v@.take(i + 1).drop_last() =~= v@.take(i as int));
        }
        let ghost mid = names_view(out@);
        visit_expr_idents(&v[i].0, out);
        visit_block_idents(&v[i].1, out);
        assert(names_view(out@) =~= mid + expr_idents(v@[i as int].0) + stmts_idents(v@[i as int].1.stmts@));
        i = i + 1;
    }
    assert(v@.take(v@.len() as int) =~= v@);
}

/// Appends the identifiers of the statements of a block.
fn visit_block_idents(b: &Block, out: &mut Vec<String>)
    ensures
        names_view(final(out)@) == names_view(old(out)@) + stmts_idents(b.stmts@),
    decreases b, 0nat,
{
    let ghost start = names_view(out@);
    let v = &b.stmts;
    let mut i: usize = 0;
    while i < v.len()
        invariant
            v == &b.stmts,
            0 <= i <= v@.len(),
            names_view(out@) == start + stmts_idents(v@.take(i as int)),
        decreases v@.len() - i,
    {
        proof {
            assert(decreases_to!(*b => b.stmts));
            assert(decreases_to!(b.stmts => v@));
            assert(decreases_to!(v@ => v@[i as int]));
            assert(v@.take(i + 1).drop_last() =~= v@.take(i as int));
        }
        visit_stmt_idents(&v[i], out);
        i = i + 1;
    }
    assert(v@.take(v@.len() as int) =~= v@);
}

/// Appends the identifiers that `stmt` mentions to `out`.
pub fn visit_stmt_idents(stmt: &Stmt, out: &mut Vec<String>)
    ensures
        names_view(final(out)@) == names_view(old(out)@) + stmt_idents(*stmt),
    decreases stmt, 1nat,
{
    let ghost start = names_view(out@);
    match &stmt.kind {
        StmtKind::Expr(e) => visit_expr_idents(e, out),
        StmtKind::Let { value, .. } => visit_expr_idents(value, out),
        StmtKind::Assign { target, value, .. } => {
            visit_expr_idents(target, out);
            visit_expr_idents(value, out);
            assert(names_view(out@) =~= start + stmt_idents(*stmt));
        },
        StmtKind::Return(Some(e)) => visit_expr_idents(e, out),
        _ => {
            assert(names_view(out@) =~= start + stmt_idents(*stmt));
        },
    }
}

// ============================================================================
// Lowering expressions
// ============================================================================

/// Every operand reads only locals numbered below `n`.
pub open spec fn ops_below(v: Seq<Operand>, n: int) -> bool {
    forall|i: int| 0 <= i < v.len() ==> operand_below(#[trigger] v[i], n)
}

/// Whether an operand reads local `l` whole, by copy or by move.
pub open spec fn reads_local(o: Operand, l: Local) -> bool {
    match o {
        Operand::Copy(p) => p.local == l && p.projection@.len() == 0,
        Operand::Move(p) => p.local == l && p.projection@.len() == 0,
        Operand::Constant(_) => false,
    }
}

/// The value of an integer literal: its text read as an `i64`, or 0.
pub open spec fn int_literal(t: Seq<char>) -> i64 {
    match parse_i64_spec(t) {
        Some(v) => v,
        None => 0,
    }
}

fn unsupported(feature: &str, span: Span) -> (e: MirError)
    ensures
        e == (MirError::UnsupportedFeature { feature: e->feature, span }),
        e->feature@ == feature@,
{
    MirError::UnsupportedFeature { feature: owned_string(feature), span }
}

fn internal(message: &str, span: Span) -> (e: MirError)
    ensures
        e == (MirError::Internal { message: e->message, span }),
        e->message@ == message@,
{
    MirError::Internal { message: owned_string(message), span }
}

/// The expressions that lowering does not support: ranges, `?`, safe
/// navigation, concurrency, contract-only forms, effect operations and
/// `Self` as a value.
pub open spec fn unsupported_expr(k: ExprKind) -> bool {
    ||| k is Range
    ||| k is Try
    ||| k is SafeNav
    ||| k is Spawn
    ||| k is Await
    ||| k is Select
    ||| k is ChannelSend
    ||| k is ChannelRecv
    ||| k is Old
    ||| k is Forall
    ||| k is Exists
    ||| k is Handle
    ||| k is Raise
    ||| k is Resume
    ||| k is SelfUpper
}

/// Lowers an expression to an operand, emitting its code into the current
/// block. Literals become constants (an integer's text read as an `i64`,
/// else 0); a name is its local, else the function of that name, else an
/// undefined variable. Every lowering keeps the state consistent and only
/// adds blocks and locals.
pub fn lower_expr(ctx: &mut FunctionLoweringContext, expr: &Expr) -> (r: Result<Operand, MirError>)
    requires
        old(ctx).ok(),
    ensures
        final(ctx).ok(),
        *final(final(ctx).ctx) == *final(old(ctx).ctx),
        *final(final(ctx).func) == *final(old(ctx).func),
        r is Ok ==> final(ctx).follows(*old(ctx)),
        r matches Ok(o) ==> operand_below(o, final(ctx).func_now().locals@.len() as int),
        expr.kind matches ExprKind::Integer(t) ==> r == Ok::<Operand, MirError>(Operand::Constant(Constant::Int(int_literal(t@)))),
        expr.kind matches ExprKind::Bool(b) ==> r == Ok::<Operand, MirError>(Operand::Constant(Constant::Bool(b))),
        expr.kind is Nil ==> r == Ok::<Operand, MirError>(Operand::Constant(Constant::Unit)),
        expr.kind matches ExprKind::Ident(name) ==> match old(ctx).locals.get_spec(name@) {
            Some(l) => r matches Ok(o) && reads_local(o, l) && *final(ctx) == *old(ctx),
            None => match old(ctx).ctx_now().fn_names_spec().get_spec(name@) {
                Some(id) => r == Ok::<Operand, MirError>(Operand::Constant(Constant::Function(id))),
                None => r matches Err(MirError::UndefinedVariable { name: n, span }) && n@ == name@ && span == expr.span,
            },
        },
        unsupported_expr(expr.kind) ==> (r matches Err(MirError::UnsupportedFeature { span, .. }) && span == expr.span
            && *final(ctx) == *old(ctx)),
        expr.kind is Error ==> (r matches Err(MirError::Internal { span, .. }) && span == expr.span && *final(ctx) == *old(ctx)),
        expr.kind is Result ==> (r matches Ok(Operand::Copy(p)) && p.local == Local(0) && p.projection@.len() == 0
            && *final(ctx) == *old(ctx)),
        expr.kind matches ExprKind::Binary { op, .. } ==> (!(op is And) && !(op is Or) ==> (r matches Ok(o) ==>
            computes_binary(final(ctx).func_now().blocks@[final(ctx).current_block.0 as int], o, op))),
        keeps_operand_order(*old(ctx), *final(ctx), *expr, r),
        computes_unary(*final(ctx), *expr, r),
    decreases expr, 2nat,
{
    match &expr.kind {
        ExprKind::Integer(t) => {
            let v = match parse_i64(t.as_str()) {
                Some(v) => v,
                None => 0,
            };
            Ok(Operand::const_int(v))
        },
        ExprKind::Float(f) => match f {
            FloatLit::Plain(b) => Ok(Operand::const_float(*b)),
            FloatLit::F32(b) => Ok(Operand::const_float32(*b)),
            FloatLit::F64(b) => Ok(Operand::const_float64(*b)),
        },
        ExprKind::String(text) => {
            let idx = ctx.ctx.intern_string(text.clone());
            Ok(Operand::Constant(Constant::String(idx)))
        },
        ExprKind::Char(text) => {
            let cs = str_chars(text.as_str());
            let c = if cs.len() > 0 { cs[0] } else { '\0' };
            Ok(Operand::Constant(Constant::Char(c)))
        },
        ExprKind::Bool(b) => Ok(Operand::const_bool(*b)),
        ExprKind::Nil => Ok(Operand::const_unit()),
        ExprKind::Ident(name) => {
            match ctx.lookup_local(name.as_str()) {
                Some(l) => Ok(operand_for_local(ctx, l)),
                None => match ctx.ctx.lookup_function(name.as_str()) {
                    Some(id) => Ok(Operand::Constant(Constant::Function(id))),
                    None => Err(MirError::UndefinedVariable { name: name.clone(), span: expr.span }),
                },
            }
        },
        ExprKind::SelfLower => {
            if ctx.func.params.len() == 0 {
                Err(MirError::UndefinedVariable { name: owned_string("self"), span: expr.span })
            } else {
                let p = ctx.func.params[0];
                Ok(operand_for_local(ctx, p))
            }
        },
        ExprKind::SelfUpper => Err(unsupported("Self type as value", expr.span)),
        ExprKind::Array(_) => lower_array(ctx, expr),
        ExprKind::Tuple(_) => lower_tuple(ctx, expr),
        ExprKind::MapOf(_) => lower_map(ctx, expr),
        ExprKind::Binary { .. } => lower_binary(ctx, expr),
        ExprKind::Unary { .. } => lower_unary(ctx, expr),
        ExprKind::Field { .. } => lower_field_access(ctx, expr),
        ExprKind::Index { .. } => lower_index(ctx, expr),
        ExprKind::If { .. } => lower_if_expr(ctx, expr),
        ExprKind::Ternary { .. } => lower_ternary(ctx, expr),
        ExprKind::Match { .. } => lower_match_expr(ctx, expr),
        ExprKind::Block(b) => {
            let v = lower_block(ctx, b)?;
            match v {
                Some(o) => Ok(o),
                None => Ok(Operand::const_unit()),
            }
        },
        ExprKind::MethodCall { .. } => lower_method_call(ctx, expr),
        ExprKind::Call { .. } => lower_call(ctx, expr),
        ExprKind::Pipe { .. } => lower_pipe(ctx, expr),
        ExprKind::StructInit { .. } => lower_struct_init(ctx, expr),
        ExprKind::InterpolatedString(_) => lower_interpolated_string(ctx, expr),
        ExprKind::Path(_) => lower_path(ctx, expr),
        ExprKind::Lambda { .. } => lower_closure(ctx, expr),
        ExprKind::BlockLambda { .. } => lower_closure(ctx, expr),
        ExprKind::ArrayComprehension { .. } => lower_comprehension(ctx, expr),
        ExprKind::MapComprehension { .. } => lower_comprehension(ctx, expr),
        ExprKind::Paren(inner) => lower_expr(ctx, inner),
        ExprKind::Unwrap(inner) => lower_expr(ctx, inner),
        ExprKind::Range { .. } => Err(unsupported("range expressions", expr.span)),
        ExprKind::Try(_) => Err(unsupported("try expressions", expr.span)),
        ExprKind::SafeNav { .. } => Err(unsupported("safe navigation", expr.span)),
        ExprKind::Spawn(_) => Err(unsupported("spawn expressions", expr.span)),
        ExprKind::Await(_) => Err(unsupported("await expressions", expr.span)),
        ExprKind::Select(_) => Err(unsupported("select expressions", expr.span)),
        ExprKind::ChannelSend { .. } => Err(unsupported("channel send expressions", expr.span)),
        ExprKind::ChannelRecv { .. } => Err(unsupported("channel receive expressions", expr.span)),
        ExprKind::Old(_) => Err(unsupported("old() in contracts", expr.span)),
        ExprKind::Result => Ok(Operand::Copy(Place::return_place())),
        ExprKind::Forall { .. } => Err(unsupported("forall quantifier", expr.span)),
        ExprKind::Exists { .. } => Err(unsupported("exists quantifier", expr.span)),
        ExprKind::Error => Err(internal("encountered error expression", expr.span)),
        ExprKind::Handle(_) => Err(unsupported("effect handlers (handle expression)", expr.span)),
        ExprKind::Raise(_) => Err(unsupported("effect raise", expr.span)),
        ExprKind::Resume(_) => Err(unsupported("effect resume", expr.span)),
    }
}

/// Lowers the expressions of `v`, a part of `outer`, left to right.
fn lower_operands(ctx: &mut FunctionLoweringContext, outer: &Expr, v: &Vec<Expr>) -> (r: Result<Vec<Operand>, MirError>)
    requires
        old(ctx).ok(),
        decreases_to!(*outer => *v),
    ensures
        final(ctx).ok(),
        *final(final(ctx).ctx) == *final(old(ctx).ctx),
        *final(final(ctx).func) == *final(old(ctx).func),
        r is Ok ==> final(ctx).follows(*old(ctx)),
        r matches Ok(ops) ==> ops@.len() == v@.len() && ops_below(ops@, final(ctx).func_now().locals@.len() as int),
    decreases outer, 0nat,
{
    let mut ops: Vec<Operand> = Vec::new();
    let mut i: usize = 0;
    while i < v.len()
        invariant
            decreases_to!(*outer => *v),
            0 <= i <= v@.len(),
            ctx.ok(),
            *final(ctx.ctx) == *final(old(ctx).ctx),
            *final(ctx.func) == *final(old(ctx).func),
            ctx.follows(*old(ctx)),
            ops@.len() == i,
            ops_below(ops@, ctx.func_now().locals@.len() as int),
        decreases v@.len() - i,
    {
        proof {
            assert(decreases_to!(*v => v@));
            assert(decreases_to!(v@ => v@[i as int]));
        }
        let o = lower_expr(ctx, &v[i])?;
        ops.push(o);
        i = i + 1;
    }
    Ok(ops)
}

/// The block's last statement stores `rv` in the place that `o` moves.
pub open spec fn stores_rvalue(block: crate::mir::BasicBlock, o: Operand, rv: Rvalue) -> bool {
    &&& block.statements@.len() > 0
    &&& o matches Operand::Move(p)
    &&& block.statements@.last().kind matches StatementKind::Assign(q, v)
        && q.local == p.local && q.projection@ == p.projection@ && v == rv
}

/// The block's last statement computes the source operator `op` on two
/// operands with the MIR operator written the same way, storing the result
/// in the place that `o` moves.
pub open spec fn computes_binary(block: crate::mir::BasicBlock, o: Operand, op: BinaryOp) -> bool {
    &&& block.statements@.len() > 0
    &&& o matches Operand::Move(p)
    &&& block.statements@.last().kind matches StatementKind::Assign(q, Rvalue::BinaryOp(m, _, _))
        && q.local == p.local && q.projection@ == p.projection@
        && crate::display::binop_text(m) == crate::ast::source_symbol(op)
}

/// A binary operator that computes a value from its two operands: not a
/// short-circuit connective and not a compound assignment.
pub open spec fn is_value_op(op: BinaryOp) -> bool {
    !(op is And || op is Or || op is AddAssign || op is SubAssign || op is MulAssign
        || op is DivAssign || op is IntDivAssign || op is ModAssign || op is PowAssign || op is BitAndAssign
        || op is BitOrAssign || op is BitXorAssign || op is ShlAssign || op is ShrAssign)
}

/// A binary expression on two names bound to locals is lowered, and its
/// last statement reads the left name's local as the first operand and the
/// right name's as the second.
pub open spec fn keeps_operand_order(before: FunctionLoweringContext, after: FunctionLoweringContext, expr: Expr, r: Result<Operand, MirError>) -> bool {
    match expr.kind {
        ExprKind::Binary { op, left, right } => match (left.kind, right.kind) {
            (ExprKind::Ident(x), ExprKind::Ident(y)) => match (before.locals.get_spec(x@), before.locals.get_spec(y@)) {
                (Some(lx), Some(ly)) => is_value_op(op) ==> (r is Ok && ({
                    let blk = after.func_now().blocks@[after.current_block.0 as int];
                    &&& blk.statements@.len() > 0
                    &&& blk.statements@.last().kind matches StatementKind::Assign(_, Rvalue::BinaryOp(_, l, rr))
                        && reads_local(l, lx) && reads_local(rr, ly)
                })),
                _ => true,
            },
            _ => true,
        },
        _ => true,
    }
}

/// A negation or `not` expression is lowered to a statement whose operator
/// negates an integer, or turns a boolean over, as constant folding
/// evaluates it.
pub open spec fn computes_unary(after: FunctionLoweringContext, expr: Expr, r: Result<Operand, MirError>) -> bool {
    match expr.kind {
        ExprKind::Unary { op, .. } => (op is Neg || op is Not) ==> (r is Ok ==> ({
            let blk = after.func_now().blocks@[after.current_block.0 as int];
            &&& blk.statements@.len() > 0
            &&& blk.statements@.last().kind matches StatementKind::Assign(_, Rvalue::UnaryOp(u, _))
                && (op is Neg ==> forall|a: i64| a != i64::MIN
                    ==> #[trigger] crate::optimize::fold_unary_spec(u, Constant::Int(a)) == Some(Constant::Int((-a) as i64)))
                && (op is Not ==> forall|x: bool|
                    #[trigger] crate::optimize::fold_unary_spec(u, Constant::Bool(x)) == Some(Constant::Bool(!x)))
        })),
        _ => true,
    }
}

/// Stores an rvalue in a new temporary of type `ty` and gives the
/// temporary, moved.
fn assign_temp(ctx: &mut FunctionLoweringContext, ty: MirType, rv: Rvalue, span: Span) -> (r: Operand)
    requires
        old(ctx).ok(),
    ensures
        final(ctx).ok(),
        *final(final(ctx).ctx) == *final(old(ctx).ctx),
        *final(final(ctx).func) == *final(old(ctx).func),
        final(ctx).follows(*old(ctx)),
        operand_below(r, final(ctx).func_now().locals@.len() as int),
        final(ctx).current_block == old(ctx).current_block,
        stores_rvalue(final(ctx).func_now().blocks@[final(ctx).current_block.0 as int], r, rv),
{
    let temp = ctx.new_temp(ty);
    ctx.emit_assign(Place::from_local(temp), rv, span);
    Operand::Move(Place::from_local(temp))
}

fn lower_array(ctx: &mut FunctionLoweringContext, expr: &Expr) -> (r: Result<Operand, MirError>)
    requires
        old(ctx).ok(),
        expr.kind is Array,
    ensures
        final(ctx).ok(),
        *final(final(ctx).ctx) == *final(old(ctx).ctx),
        *final(final(ctx).func) == *final(old(ctx).func),
        r is Ok ==> final(ctx).follows(*old(ctx)),
        r matches Ok(o) ==> operand_below(o, final(ctx).func_now().locals@.len() as int),
    decreases expr, 1nat,
{
    match &expr.kind {
        ExprKind::Array(elements) => {
            let operands = lower_operands(ctx, expr, elements)?;
            let elem_ty = if operands.len() > 0 {
                infer_operand_type(ctx, &operands[0])
            } else {
                MirType::Int
            };
            let arr_ty = MirType::Array(Box::new(elem_ty.clone_ty()));
            Ok(assign_temp(ctx, arr_ty, Rvalue::Aggregate(AggregateKind::Array(elem_ty), operands), expr.span))
        },
        _ => Err(internal("not an array", expr.span)),
    }
}

fn lower_tuple(ctx: &mut FunctionLoweringContext, expr: &Expr) -> (r: Result<Operand, MirError>)
    requires
        old(ctx).ok(),
        expr.kind is Tuple,
    ensures
        final(ctx).ok(),
        *final(final(ctx).ctx) == *final(old(ctx).ctx),
        *final(final(ctx).func) == *final(old(ctx).func),
        r is Ok ==> final(ctx).follows(*old(ctx)),
        r matches Ok(o) ==> operand_below(o, final(ctx).func_now().locals@.len() as int),
    decreases expr, 1nat,
{
    match &expr.kind {
        ExprKind::Tuple(elements) => {
            let operands = lower_operands(ctx, expr, elements)?;
            let mut tys: Vec<MirType> = Vec::new();
            let mut i: usize = 0;
            while i < operands.len()
                invariant
                    0 <= i <= operands@.len(),
                    ctx.ok(),
                    *final(ctx.ctx) == *final(old(ctx).ctx),
                    *final(ctx.func) == *final(old(ctx).func),
                decreases operands@.len() - i,
            {
                tys.push(infer_operand_type(ctx, &operands[i]));
                i = i + 1;
            }
            Ok(assign_temp(ctx, MirType::Tuple(tys), Rvalue::Aggregate(AggregateKind::Tuple, operands), expr.span))
        },
        _ => Err(internal("not a tuple", expr.span)),
    }
}

fn lower_map(ctx: &mut FunctionLoweringContext, expr: &Expr) -> (r: Result<Operand, MirError>)
    requires
        old(ctx).ok(),
    ensures
        final(ctx).ok(),
        *final(final(ctx).ctx) == *final(old(ctx).ctx),
        *final(final(ctx).func) == *final(old(ctx).func),
        r is Ok ==> final(ctx).follows(*old(ctx)),
        r matches Ok(o) ==> operand_below(o, final(ctx).func_now().locals@.len() as int),
{
    let ty = MirType::MapOf(Box::new(MirType::String), Box::new(MirType::Int));
    Ok(assign_temp(ctx, ty, Rvalue::Aggregate(AggregateKind::Tuple, Vec::new()), expr.span))
}

/// The MIR operator of a binary operator outside contracts; `None` for
/// the short-circuit and assignment operators.
/// The MIR operator of a source operator: the one written the same way.
/// The short-circuit connectives and compound assignments have none.
fn binop_of(op: BinaryOp) -> (r: Option<BinOp>)
    ensures
        r matches Some(m) ==> crate::display::binop_text(m) == crate::ast::source_symbol(op),
        r is None <==> (op is And || op is Or || op is AddAssign || op is SubAssign || op is MulAssign
            || op is DivAssign || op is IntDivAssign || op is ModAssign || op is PowAssign || op is BitAndAssign
            || op is BitOrAssign || op is BitXorAssign || op is ShlAssign || op is ShrAssign),
{
    match op {
        BinaryOp::Add => Some(BinOp::Add),
        BinaryOp::Sub => Some(BinOp::Sub),
        BinaryOp::Mul => Some(BinOp::Mul),
        BinaryOp::Div => Some(BinOp::Div),
        BinaryOp::IntDiv => Some(BinOp::IntDiv),
        BinaryOp::Mod => Some(BinOp::Rem),
        BinaryOp::Pow => Some(BinOp::Pow),
        BinaryOp::Eq => Some(BinOp::Eq),
        BinaryOp::NotEq => Some(BinOp::Ne),
        BinaryOp::Lt => Some(BinOp::Lt),
        BinaryOp::Gt => Some(BinOp::Gt),
        BinaryOp::LtEq => Some(BinOp::Le),
        BinaryOp::GtEq => Some(BinOp::Ge),
        BinaryOp::BitAnd => Some(BinOp::BitAnd),
        BinaryOp::BitOr => Some(BinOp::BitOr),
        BinaryOp::BitXor => Some(BinOp::BitXor),
        BinaryOp::Shl => Some(BinOp::Shl),
        BinaryOp::Shr => Some(BinOp::Shr),
        _ => None,
    }
}

/// Whether an operand reads a float: a float constant, or a local of a
/// float type read without projection.
fn reads_float(ctx: &FunctionLoweringContext, o: &Operand) -> (b: bool)
    requires
        operand_below(*o, ctx.func_now().locals@.len() as int),
{
    match o {
        Operand::Constant(c) => match c {
            Constant::Float(_) | Constant::Float32(_) | Constant::Float64(_) => true,
            _ => false,
        },
        Operand::Copy(p) | Operand::Move(p) => {
            if p.projection.len() == 0 {
                match &ctx.func.locals[p.local.0 as usize].ty {
                    MirType::Float | MirType::Float32 | MirType::Float64 => true,
                    _ => false,
                }
            } else {
                false
            }
        },
    }
}

fn lower_binary(ctx: &mut FunctionLoweringContext, expr: &Expr) -> (r: Result<Operand, MirError>)
    requires
        old(ctx).ok(),
        expr.kind is Binary,
    ensures
        final(ctx).ok(),
        *final(final(ctx).ctx) == *final(old(ctx).ctx),
        *final(final(ctx).func) == *final(old(ctx).func),
        r is Ok ==> final(ctx).follows(*old(ctx)),
        r matches Ok(o) ==> operand_below(o, final(ctx).func_now().locals@.len() as int),
        expr.kind matches ExprKind::Binary { op, .. } ==> (!(op is And) && !(op is Or) ==> (r matches Ok(o) ==>
            computes_binary(final(ctx).func_now().blocks@[final(ctx).current_block.0 as int], o, op))),
        keeps_operand_order(*old(ctx), *final(ctx), *expr, r),
        computes_unary(*final(ctx), *expr, r),
    decreases expr, 1nat,
{
    match &expr.kind {
        ExprKind::Binary { op, left, right } => {
            let span = expr.span;
            match op {
                BinaryOp::And => {
                    let result = ctx.new_temp(MirType::Bool);
                    let right_block = ctx.fresh_block();
                    let merge_block = ctx.fresh_block();
                    let left_op = lower_expr(ctx, left)?;
                    ctx.emit_terminator(
                        TerminatorKind::SwitchInt { discr: left_op, targets: SwitchTargets::if_else(right_block, merge_block) },
                        span,
                    );
                    ctx.enter_block(right_block);
                    let right_op = lower_expr(ctx, right)?;
                    ctx.emit_assign(Place::from_local(result), Rvalue::Use(right_op), span);
                    ctx.emit_terminator(TerminatorKind::Goto { target: merge_block }, span);
                    let _false_block = ctx.fresh_block();
                    ctx.enter_block(merge_block);
                    ctx.clear_terminator();
                    return Ok(Operand::Copy(Place::from_local(result)));
                },
                BinaryOp::Or => {
                    let result = ctx.new_temp(MirType::Bool);
                    let right_block = ctx.fresh_block();
                    let merge_block = ctx.fresh_block();
                    let left_op = lower_expr(ctx, left)?;
                    ctx.emit_assign(Place::from_local(result), Rvalue::Use(left_op.clone()), span);
                    ctx.emit_terminator(
                        TerminatorKind::SwitchInt { discr: left_op, targets: SwitchTargets::if_else(merge_block, right_block) },
                        span,
                    );
                    ctx.enter_block(right_block);
                    let right_op = lower_expr(ctx, right)?;
                    ctx.emit_assign(Place::from_local(result), Rvalue::Use(right_op), span);
                    ctx.emit_terminator(TerminatorKind::Goto { target: merge_block }, span);
                    ctx.enter_block(merge_block);
                    return Ok(Operand::Copy(Place::from_local(result)));
                },
                _ => {},
            }
            let left_op = lower_expr(ctx, left)?;
            let right_op = lower_expr(ctx, right)?;
            let left_ty = infer_operand_type(ctx, &left_op);
            let right_ty = infer_operand_type(ctx, &right_op);
            let mir_op = match binop_of(*op) {
                Some(m) => m,
                None => return Err(unsupported("binary operator", span)),
            };
            let result_ty = match mir_op {
                BinOp::Eq | BinOp::Ne | BinOp::Lt | BinOp::Le | BinOp::Gt | BinOp::Ge => MirType::Bool,
                _ => {
                    let is_string_add = match mir_op {
                        BinOp::Add => matches!(left_ty, MirType::String) || matches!(right_ty, MirType::String),
                        _ => false,
                    };
                    if is_string_add {
                        MirType::String
                    } else if reads_float(ctx, &left_op) || reads_float(ctx, &right_op) {
                        MirType::Float
                    } else {
                        MirType::Int
                    }
                },
            };
            Ok(assign_temp(ctx, result_ty, Rvalue::BinaryOp(mir_op, left_op, right_op), span))
        },
        _ => Err(internal("not a binary expression", expr.span)),
    }
}

fn lower_unary(ctx: &mut FunctionLoweringContext, expr: &Expr) -> (r: Result<Operand, MirError>)
    requires
        old(ctx).ok(),
        expr.kind is Unary,
    ensures
        final(ctx).ok(),
        *final(final(ctx).ctx) == *final(old(ctx).ctx),
        *final(final(ctx).func) == *final(old(ctx).func),
        r is Ok ==> final(ctx).follows(*old(ctx)),
        r matches Ok(o) ==> operand_below(o, final(ctx).func_now().locals@.len() as int),
        computes_unary(*final(ctx), *expr, r),
    decreases expr, 1nat,
{
    match &expr.kind {
        ExprKind::Unary { op, operand } => {
            let span = expr.span;
            match op {
                UnaryOp::Ref => {
                    let place = lower_expr_to_place(ctx, operand)?;
                    let inner_ty = infer_place_type(ctx, &place);
                    Ok(assign_temp(ctx, MirType::Ref(Box::new(inner_ty)), Rvalue::Ref(place), span))
                },
                UnaryOp::Deref => {
                    let inner = lower_expr(ctx, operand)?;
                    let inner_ty = infer_operand_type(ctx, &inner);
                    let result_ty = match inner_ty {
                        MirType::Ref(t) => *t,
                        _ => MirType::Unit,
                    };
                    let temp = ctx.new_temp(result_ty.clone_ty());
                    let ptr_temp = ctx.new_temp(MirType::Ref(Box::new(result_ty)));
                    ctx.emit_assign(Place::from_local(ptr_temp), Rvalue::Use(inner), span);
                    ctx.emit_assign(
                        Place::from_local(temp),
                        Rvalue::Use(Operand::Copy(Place::from_local(ptr_temp).deref())),
                        span,
                    );
                    Ok(Operand::Move(Place::from_local(temp)))
                },
                _ => {
                    let inner = lower_expr(ctx, operand)?;
                    let inner_ty = infer_operand_type(ctx, &inner);
                    let (mir_op, result_ty) = match op {
                        UnaryOp::Neg => (UnOp::Neg, inner_ty),
                        UnaryOp::Not => (UnOp::Not, MirType::Bool),
                        _ => (UnOp::BitNot, inner_ty),
                    };
                    Ok(assign_temp(ctx, result_ty, Rvalue::UnaryOp(mir_op, inner), span))
                },
            }
        },
        _ => Err(internal("not a unary expression", expr.span)),
    }
}

/// Reads a tuple field name as `str::parse::<u32>` does.
fn parse_field_index(s: &str) -> (r: Option<u32>) {
    let cs = str_chars(s);
    if cs.len() > 0 && cs[0] == '-' {
        return None;
    }
    match parse_i64(s) {
        Some(v) => if 0 <= v && v <= 4294967295 { Some(v as u32) } else { None },
        None => None,
    }
}

/// The field index a field name selects in a value of type `base_ty`: a
/// struct's field of that name, a tuple's numbered element, 0 for other
/// types; the type is that of the field where known.
fn field_of(ctx: &FunctionLoweringContext, base_ty: &MirType, field: &crate::ast::Ident, check_bounds: bool)
    -> (r: Result<(u32, MirType), MirError>)
    requires
        ctx.ok(),
{
    match base_ty {
        MirType::Struct(sid) => match ctx.ctx.lookup_struct_field(*sid, field.node.as_str()) {
            Some(found) => Ok(found),
            None => {
                let struct_name = match ctx.ctx.get_struct(*sid) {
                    Some(st) => st.name.clone(),
                    None => owned_string("unknown"),
                };
                Err(MirError::UndefinedField { struct_name, field_name: field.node.clone(), span: field.span })
            },
        },
        MirType::Tuple(elems) => match parse_field_index(field.node.as_str()) {
            Some(idx) => {
                if (idx as usize) < elems.len() {
                    Ok((idx, elems[idx as usize].clone_ty()))
                } else if check_bounds {
                    Err(internal("Tuple index out of bounds", field.span))
                } else {
                    Ok((idx, MirType::Unit))
                }
            },
            None => Err(internal("Invalid tuple field", field.span)),
        },
        _ => if check_bounds { Ok((0, MirType::Unit)) } else { Ok((0, MirType::Int)) },
    }
}

/// Lowers an expression to a place that can be assigned: a local, a field
/// or an indexed element of a place, or a dereference.
pub fn lower_expr_to_place(ctx: &mut FunctionLoweringContext, expr: &Expr) -> (r: Result<Place, MirError>)
    requires
        old(ctx).ok(),
    ensures
        final(ctx).ok(),
        *final(final(ctx).ctx) == *final(old(ctx).ctx),
        *final(final(ctx).func) == *final(old(ctx).func),
        r is Ok ==> final(ctx).follows(*old(ctx)),
        r matches Ok(p) ==> p.local.0 < final(ctx).func_now().locals@.len(),
        expr.kind matches ExprKind::Ident(name) ==> match old(ctx).locals.get_spec(name@) {
            Some(l) => r matches Ok(p) && p.local == l && p.projection@.len() == 0,
            None => r matches Err(MirError::UndefinedVariable { name: n, span }) && n@ == name@ && span == expr.span,
        },
    decreases expr, 2nat,
{
    match &expr.kind {
        ExprKind::Ident(name) => match ctx.lookup_local(name.as_str()) {
            Some(l) => Ok(Place::from_local(l)),
            None => Err(MirError::UndefinedVariable { name: name.clone(), span: expr.span }),
        },
        ExprKind::Field { object, field } => {
            let base = lower_expr_to_place(ctx, object)?;
            let base_ty = infer_place_type(ctx, &base);
            let (idx, _) = field_of(ctx, &base_ty, field, true)?;
            Ok(base.field(idx))
        },
        ExprKind::Index { object, index } => {
            let base = lower_expr_to_place(ctx, object)?;
            let idx_operand = lower_expr(ctx, index)?;
            let idx_local = ctx.new_temp(MirType::Int);
            ctx.emit_assign(Place::from_local(idx_local), Rvalue::Use(idx_operand), index.span);
            Ok(base.index(idx_local))
        },
        ExprKind::Unary { op: UnaryOp::Deref, operand } => {
            let base = lower_expr_to_place(ctx, operand)?;
            Ok(base.deref())
        },
        _ => Err(internal("expression is not assignable", expr.span)),
    }
}

fn lower_field_access(ctx: &mut FunctionLoweringContext, expr: &Expr) -> (r: Result<Operand, MirError>)
    requires
        old(ctx).ok(),
        expr.kind is Field,
    ensures
        final(ctx).ok(),
        *final(final(ctx).ctx) == *final(old(ctx).ctx),
        *final(final(ctx).func) == *final(old(ctx).func),
        r is Ok ==> final(ctx).follows(*old(ctx)),
        r matches Ok(o) ==> operand_below(o, final(ctx).func_now().locals@.len() as int),
    decreases expr, 1nat,
{
    match &expr.kind {
        ExprKind::Field { object, field } => {
            let base = lower_expr_to_place(ctx, object)?;
            let base_ty = infer_place_type(ctx, &base);
            let (idx, field_ty) = field_of(ctx, &base_ty, field, false)?;
            let place = base.field(idx);
            Ok(assign_temp(ctx, field_ty, Rvalue::Use(Operand::Copy(place)), expr.span))
        },
        _ => Err(internal("not a field access", expr.span)),
    }
}

fn lower_index(ctx: &mut FunctionLoweringContext, expr: &Expr) -> (r: Result<Operand, MirError>)
    requires
        old(ctx).ok(),
        expr.kind is Index,
    ensures
        final(ctx).ok(),
        *final(final(ctx).ctx) == *final(old(ctx).ctx),
        *final(final(ctx).func) == *final(old(ctx).func),
        r is Ok ==> final(ctx).follows(*old(ctx)),
        r matches Ok(o) ==> operand_below(o, final(ctx).func_now().locals@.len() as int),
    decreases expr, 1nat,
{
    match &expr.kind {
        ExprKind::Index { object, index } => {
            let base = lower_expr_to_place(ctx, object)?;
            let idx = lower_expr(ctx, index)?;
            let idx_local = ctx.new_temp(MirType::Int);
            ctx.emit_assign(Place::from_local(idx_local), Rvalue::Use(idx), index.span);
            let base_ty = infer_place_type(ctx, &base);
            let elem_ty = match base_ty {
                MirType::Array(elem) => *elem,
                MirType::String => MirType::Char,
                _ => MirType::Int,
            };
            let place = base.index(idx_local);
            Ok(assign_temp(ctx, elem_ty, Rvalue::Use(Operand::Copy(place)), expr.span))
        },
        _ => Err(internal("not an index expression", expr.span)),
    }
}

// ============================================================================
// Blocks and statements
// ============================================================================

/// Lowers the statements of a block; the value of a final expression
/// statement is the block's value. Lowering stops after a statement that
/// ends the current block.
pub fn lower_block(ctx: &mut FunctionLoweringContext, block: &Block) -> (r: Result<Option<Operand>, MirError>)
    requires
        old(ctx).ok(),
    ensures
        final(ctx).ok(),
        *final(final(ctx).ctx) == *final(old(ctx).ctx),
        *final(final(ctx).func) == *final(old(ctx).func),
        r is Ok ==> final(ctx).follows(*old(ctx)),
        r matches Ok(Some(o)) ==> operand_below(o, final(ctx).func_now().locals@.len() as int),
        block.stmts@.len() == 0 ==> r == Ok::<Option<Operand>, MirError>(None) && *final(ctx) == *old(ctx),
    decreases block, 2nat,
{
    let mut last: Option<Operand> = None;
    let n = block.stmts.len();
    let mut i: usize = 0;
    while i < n
        invariant
            n == block.stmts@.len(),
            0 <= i <= n,
            ctx.ok(),
            *final(ctx.ctx) == *final(old(ctx).ctx),
            *final(ctx.func) == *final(old(ctx).func),
            ctx.follows(*old(ctx)),
            n == 0 ==> *ctx == *old(ctx),
            last is None,
        decreases n - i,
    {
        proof {
            assert(decreases_to!(*block => block.stmts));
            assert(decreases_to!(block.stmts => block.stmts@));
            assert(decreases_to!(block.stmts@ => block.stmts@[i as int]));
        }
        let stmt = &block.stmts[i];
        if i == n - 1 {
            match &stmt.kind {
                StmtKind::Expr(e) => {
                    let v = lower_expr(ctx, e)?;
                    return Ok(Some(v));
                },
                _ => {},
            }
        }
        lower_stmt(ctx, stmt)?;
        if ctx.is_terminated() {
            break;
        }
        i = i + 1;
    }
    Ok(last)
}

/// Lowers a statement. `break` and `continue` end the current block with a
/// jump to the innermost loop's exit or head, and are internal errors
/// outside a loop; `defer` is not supported.
pub fn lower_stmt(ctx: &mut FunctionLoweringContext, stmt: &Stmt) -> (r: Result<(), MirError>)
    requires
        old(ctx).ok(),
    ensures
        final(ctx).ok(),
        *final(final(ctx).ctx) == *final(old(ctx).ctx),
        *final(final(ctx).func) == *final(old(ctx).func),
        r is Ok ==> final(ctx).follows(*old(ctx)),
        stmt.kind is Continue ==> if old(ctx).loop_stack@.len() == 0 {
            r matches Err(MirError::Internal { span, .. }) && span == stmt.span && *final(ctx) == *old(ctx)
        } else {
            &&& r is Ok
            &&& final(ctx).current_block == old(ctx).current_block
            &&& final(ctx).func_now().blocks@[old(ctx).current_block.0 as int].terminator
                == Some(crate::mir::Terminator { kind: TerminatorKind::Goto { target: old(ctx).loop_stack@.last().1 }, span: stmt.span })
        },
        stmt.kind matches StmtKind::Break(None) ==> if old(ctx).loop_stack@.len() == 0 {
            r matches Err(MirError::Internal { span, .. }) && span == stmt.span && *final(ctx) == *old(ctx)
        } else {
            &&& r is Ok
            &&& final(ctx).current_block == old(ctx).current_block
            &&& final(ctx).func_now().blocks@[old(ctx).current_block.0 as int].terminator
                == Some(crate::mir::Terminator { kind: TerminatorKind::Goto { target: old(ctx).loop_stack@.last().0 }, span: stmt.span })
        },
        stmt.kind is Defer ==> (r matches Err(MirError::UnsupportedFeature { span, .. }) && span == stmt.span && *final(ctx) == *old(ctx)),
    decreases stmt, 2nat,
{
    let span = stmt.span;
    match &stmt.kind {
        StmtKind::Expr(e) => {
            let _ = lower_expr(ctx, e)?;
            Ok(())
        },
        StmtKind::Let { pattern, ty, value } => {
            let val = lower_expr(ctx, value)?;
            let mir_ty = match ty {
                Some(t) => ctx.ctx.lower_type(t),
                None => infer_operand_type(ctx, &val),
            };
            lower_pattern_binding(ctx, pattern, val, mir_ty, span)
        },
        StmtKind::Var { name, ty, value } | StmtKind::Const { name, ty, value } => {
            let val = lower_expr(ctx, value)?;
            let mir_ty = match ty {
                Some(t) => ctx.ctx.lower_type(t),
                None => infer_operand_type(ctx, &val),
            };
            bind_local(ctx, name.node.clone(), mir_ty, val, span);
            Ok(())
        },
        StmtKind::Assign { target, op, value } => {
            let place = lower_expr_to_place(ctx, target)?;
            match op {
                Some(compound) => {
                    let current = Operand::Copy(place.clone());
                    let rhs = lower_expr(ctx, value)?;
                    let mir_op = match compound {
                        BinaryOp::AddAssign | BinaryOp::Add => BinOp::Add,
                        BinaryOp::SubAssign | BinaryOp::Sub => BinOp::Sub,
                        BinaryOp::MulAssign | BinaryOp::Mul => BinOp::Mul,
                        BinaryOp::DivAssign | BinaryOp::Div => BinOp::Div,
                        BinaryOp::IntDivAssign | BinaryOp::IntDiv => BinOp::IntDiv,
                        BinaryOp::ModAssign | BinaryOp::Mod => BinOp::Rem,
                        BinaryOp::BitAndAssign | BinaryOp::BitAnd => BinOp::BitAnd,
                        BinaryOp::BitOrAssign | BinaryOp::BitOr => BinOp::BitOr,
                        BinaryOp::BitXorAssign | BinaryOp::BitXor => BinOp::BitXor,
                        BinaryOp::ShlAssign | BinaryOp::Shl => BinOp::Shl,
                        BinaryOp::ShrAssign | BinaryOp::Shr => BinOp::Shr,
                        _ => return Err(unsupported("compound assignment", span)),
                    };
                    ctx.emit_assign(place, Rvalue::BinaryOp(mir_op, current, rhs), span);
                },
                None => {
                    let val = lower_expr(ctx, value)?;
                    ctx.emit_assign(place, Rvalue::Use(val), span);
                },
            }
            Ok(())
        },
        StmtKind::For { .. } => lower_for(ctx, stmt),
        StmtKind::While { .. } => lower_while(ctx, stmt),
        StmtKind::Loop { body } => {
            let body_block = ctx.fresh_block();
            let exit_block = ctx.fresh_block();
            ctx.emit_terminator(TerminatorKind::Goto { target: body_block }, span);
            ctx.enter_block(body_block);
            let ghost stack0 = ctx.loop_stack@;
            ctx.push_loop(exit_block, body_block);
            let _ = lower_block(ctx, body)?;
            ctx.pop_loop();
            assert(ctx.loop_stack@ =~= stack0);
            if !ctx.is_terminated() {
                ctx.emit_terminator(TerminatorKind::Goto { target: body_block }, span);
            }
            ctx.enter_block(exit_block);
            Ok(())
        },
        StmtKind::If { .. } => {
            lower_if(ctx, stmt)
        },
        StmtKind::Unless { .. } => lower_unless(ctx, stmt),
        StmtKind::Match { .. } => lower_match_stmt(ctx, stmt),
        StmtKind::Return(_) => lower_return(ctx, stmt),
        StmtKind::Break(value) => {
            match ctx.break_target() {
                Some(target) => {
                    match value {
                        Some(e) => {
                            let _ = lower_expr(ctx, e)?;
                        },
                        None => {},
                    }
                    ctx.emit_terminator(TerminatorKind::Goto { target }, span);
                    Ok(())
                },
                None => Err(internal("break outside of loop", span)),
            }
        },
        StmtKind::Continue => match ctx.continue_target() {
            Some(target) => {
                ctx.emit_terminator(TerminatorKind::Goto { target }, span);
                Ok(())
            },
            None => Err(internal("continue outside of loop", span)),
        },
        StmtKind::Defer(_) => Err(unsupported("defer statements", span)),
        StmtKind::Unsafe(b) => {
            let _ = lower_block(ctx, b)?;
            Ok(())
        },
        StmtKind::Item(item) => match &**item {
            crate::ast::Item::Function(f) => lower_nested_function(ctx, f),
            _ => Ok(()),
        },
    }
}

/// Block `after` is block `before` with two more statements: `l` made
/// live, then a read of `val` stored in `l` (with the span `span`), and the
/// same terminator.
pub open spec fn stores_local(before: crate::mir::BasicBlock, after: crate::mir::BasicBlock, l: Local, val: Operand, span: Span) -> bool {
    let n = before.statements@.len() as int;
    &&& after.statements@.len() == n + 2
    &&& after.statements@.take(n) == before.statements@
    &&& after.statements@[n] == crate::mir::Statement { kind: StatementKind::StorageLive(l), span }
    &&& after.statements@[n + 1].span == span
    &&& after.statements@[n + 1].kind matches StatementKind::Assign(p, crate::mir::Rvalue::Use(v))
        && p.local == l && p.projection@.len() == 0 && v == val
    &&& after.terminator == before.terminator
}

/// The state after binding a name: the name refers to a new local, the
/// function's last, whose type is `ty`, lowering goes on in the same block,
/// and that block stores `val` in the local (see `stores_local`).
pub open spec fn binds_name(before: FunctionLoweringContext, after: FunctionLoweringContext, name: Seq<char>, ty: MirType, val: Operand, span: Span) -> bool {
    let l = Local(before.func_now().locals@.len() as u32);
    let b = before.current_block.0 as int;
    &&& after.locals.get_spec(name) == Some(l)
    &&& after.func_now().locals@.len() == before.func_now().locals@.len() + 1
    &&& after.func_now().locals@.last().ty == ty
    &&& after.current_block == before.current_block
    &&& stores_local(before.func_now().blocks@[b], after.func_now().blocks@[b], l, val, span)
}

/// Declares a named local, marks it live and stores `val` in it.
fn bind_local(ctx: &mut FunctionLoweringContext, name: String, ty: MirType, val: Operand, span: Span)
    requires
        old(ctx).ok(),
    ensures
        final(ctx).ok(),
        *final(final(ctx).ctx) == *final(old(ctx).ctx),
        *final(final(ctx).func) == *final(old(ctx).func),
        final(ctx).follows(*old(ctx)),
        binds_name(*old(ctx), *final(ctx), name@, ty, val, span),
{
    let ghost b = ctx.current_block.0 as int;
    let ghost before = ctx.func_now().blocks@[b];
    let local = ctx.new_named_local(name, ty);
    ctx.emit_stmt(StatementKind::StorageLive(local), span);
    ctx.emit_assign(Place::from_local(local), Rvalue::Use(val), span);
    assert(ctx.func_now().blocks@[b].statements@.take(before.statements@.len() as int) =~= before.statements@);
}

fn lower_while(ctx: &mut FunctionLoweringContext, stmt: &Stmt) -> (r: Result<(), MirError>)
    requires
        old(ctx).ok(),
    ensures
        final(ctx).ok(),
        *final(final(ctx).ctx) == *final(old(ctx).ctx),
        *final(final(ctx).func) == *final(old(ctx).func),
        r is Ok ==> final(ctx).follows(*old(ctx)),
    decreases stmt, 1nat,
{
    match &stmt.kind {
        StmtKind::While { condition, body } => {
            let span = stmt.span;
            let cond_block = ctx.fresh_block();
            let body_block = ctx.fresh_block();
            let exit_block = ctx.fresh_block();
            ctx.emit_terminator(TerminatorKind::Goto { target: cond_block }, span);
            ctx.enter_block(cond_block);
            let cond = lower_expr(ctx, condition)?;
            ctx.emit_terminator(
                TerminatorKind::SwitchInt { discr: cond, targets: SwitchTargets::if_else(body_block, exit_block) },
                span,
            );
            ctx.enter_block(body_block);
            let ghost stack0 = ctx.loop_stack@;
            ctx.push_loop(exit_block, cond_block);
            let _ = lower_block(ctx, body)?;
            ctx.pop_loop();
            assert(ctx.loop_stack@ =~= stack0);
            if !ctx.is_terminated() {
                ctx.emit_terminator(TerminatorKind::Goto { target: cond_block }, span);
            }
            ctx.enter_block(exit_block);
            Ok(())
        },
        _ => Err(internal("not a while loop", stmt.span)),
    }
}

fn lower_for(ctx: &mut FunctionLoweringContext, stmt: &Stmt) -> (r: Result<(), MirError>)
    requires
        old(ctx).ok(),
    ensures
        final(ctx).ok(),
        *final(final(ctx).ctx) == *final(old(ctx).ctx),
        *final(final(ctx).func) == *final(old(ctx).func),
        r is Ok ==> final(ctx).follows(*old(ctx)),
    decreases stmt, 1nat,
{
    match &stmt.kind {
        StmtKind::For { pattern, iterable, body } => {
            let span = stmt.span;
            let loop_header = ctx.fresh_block();
            let loop_body = ctx.fresh_block();
            let loop_exit = ctx.fresh_block();
            let iter = lower_expr(ctx, iterable)?;
            let iter_ty = infer_operand_type(ctx, &iter);
            let elem_ty = match iter_ty {
                MirType::Array(elem) => *elem,
                MirType::String => MirType::Char,
                _ => MirType::Int,
            };
            ctx.emit_terminator(TerminatorKind::Goto { target: loop_header }, span);
            ctx.enter_block(loop_header);
            ctx.emit_terminator(TerminatorKind::Goto { target: loop_body }, span);
            ctx.enter_block(loop_body);
            let ghost stack0 = ctx.loop_stack@;
            ctx.push_loop(loop_exit, loop_header);
            match &pattern.kind {
                PatternKind::Ident(name) => {
                    let local = ctx.new_named_local(name.clone(), elem_ty);
                    ctx.emit_stmt(StatementKind::StorageLive(local), pattern.span);
                },
                _ => {},
            }
            let _ = lower_block(ctx, body)?;
            ctx.pop_loop();
            assert(ctx.loop_stack@ =~= stack0);
            if !ctx.is_terminated() {
                ctx.emit_terminator(TerminatorKind::Goto { target: loop_header }, span);
            }
            ctx.enter_block(loop_exit);
            Ok(())
        },
        _ => Err(internal("not a for loop", stmt.span)),
    }
}

/// Ends the current block with a jump to `target` unless it is ended.
fn goto_unless_terminated(ctx: &mut FunctionLoweringContext, target: BlockId, span: Span)
    requires
        old(ctx).ok(),
        target.0 < old(ctx).func_now().blocks@.len(),
    ensures
        final(ctx).ok(),
        *final(final(ctx).ctx) == *final(old(ctx).ctx),
        *final(final(ctx).func) == *final(old(ctx).func),
        final(ctx).follows(*old(ctx)),
        final(ctx).current_block == old(ctx).current_block,
{
    if !ctx.is_terminated() {
        ctx.emit_terminator(TerminatorKind::Goto { target }, span);
    }
}

/// Lowers an `if` statement: the condition branches to the then-block or
/// to the `elsif` chain and `else` block; every branch that does not end
/// otherwise jumps to the merge block, where lowering goes on.
fn lower_if(ctx: &mut FunctionLoweringContext, node: &Stmt) -> (r: Result<(), MirError>)
    requires
        old(ctx).ok(),
    ensures
        final(ctx).ok(),
        *final(final(ctx).ctx) == *final(old(ctx).ctx),
        *final(final(ctx).func) == *final(old(ctx).func),
        r is Ok ==> final(ctx).follows(*old(ctx)),
    decreases node, 1nat,
{
    match &node.kind {
        StmtKind::If { condition, then_branch, elsif_branches, else_branch } => {
            let span = node.span;
            let merge_block = ctx.fresh_block();
            let cond = lower_expr(ctx, condition)?;
            let then_block = ctx.fresh_block();
            let else_block = if elsif_branches.len() == 0 && else_branch.is_none() {
                merge_block
            } else {
                ctx.fresh_block()
            };
            ctx.emit_terminator(
                TerminatorKind::SwitchInt { discr: cond, targets: SwitchTargets::if_else(then_block, else_block) },
                span,
            );
            ctx.enter_block(then_block);
            let _ = lower_block(ctx, then_branch)?;
            goto_unless_terminated(ctx, merge_block, span);
            let mut current_else = else_block;
            let mut i: usize = 0;
            while i < elsif_branches.len()
                invariant
                    0 <= i <= elsif_branches@.len(),
                    ctx.ok(),
                    *final(ctx.ctx) == *final(old(ctx).ctx),
                    *final(ctx.func) == *final(old(ctx).func),
                    ctx.follows(*old(ctx)),
                    merge_block.0 < ctx.func_now().blocks@.len(),
                    current_else.0 < ctx.func_now().blocks@.len(),
                    node.kind == (StmtKind::If { condition: *condition, then_branch: *then_branch, elsif_branches: *elsif_branches, else_branch: *else_branch }),
                decreases elsif_branches@.len() - i,
            {
                if current_else.0 == merge_block.0 {
                    break;
                }
                proof {
                    assert(decreases_to!(*node => node.kind));
                    assert(decreases_to!(node.kind => node.kind->If_elsif_branches));
                    assert(decreases_to!(*elsif_branches => elsif_branches@));
                    assert(decreases_to!(elsif_branches@ => elsif_branches@[i as int]));
                    assert(decreases_to!(elsif_branches@[i as int] => elsif_branches@[i as int].0));
                    assert(decreases_to!(elsif_branches@[i as int] => elsif_branches@[i as int].1));
                }
                ctx.enter_block(current_else);
                let c = lower_expr(ctx, &elsif_branches[i].0)?;
                let elsif_then = ctx.fresh_block();
                let elsif_else = ctx.fresh_block();
                ctx.emit_terminator(
                    TerminatorKind::SwitchInt { discr: c, targets: SwitchTargets::if_else(elsif_then, elsif_else) },
                    span,
                );
                ctx.enter_block(elsif_then);
                let _ = lower_block(ctx, &elsif_branches[i].1)?;
                goto_unless_terminated(ctx, merge_block, span);
                current_else = elsif_else;
                i = i + 1;
            }
            match else_branch {
                Some(else_blk) => {
                    ctx.enter_block(current_else);
                    let _ = lower_block(ctx, else_blk)?;
                    goto_unless_terminated(ctx, merge_block, span);
                },
                None => {
                    if current_else.0 != merge_block.0 {
                        ctx.enter_block(current_else);
                        ctx.emit_terminator(TerminatorKind::Goto { target: merge_block }, span);
                    }
                },
            }
            ctx.enter_block(merge_block);
            Ok(())
        },
        _ => Err(internal("not an if statement", node.span)),
    }
}

fn lower_unless(ctx: &mut FunctionLoweringContext, stmt: &Stmt) -> (r: Result<(), MirError>)
    requires
        old(ctx).ok(),
    ensures
        final(ctx).ok(),
        *final(final(ctx).ctx) == *final(old(ctx).ctx),
        *final(final(ctx).func) == *final(old(ctx).func),
        r is Ok ==> final(ctx).follows(*old(ctx)),
    decreases stmt, 1nat,
{
    match &stmt.kind {
        StmtKind::Unless { condition, body, else_branch } => {
            let span = stmt.span;
            let merge_block = ctx.fresh_block();
            let cond = lower_expr(ctx, condition)?;
            let body_block = ctx.fresh_block();
            let else_block = match else_branch {
                Some(_) => ctx.fresh_block(),
                None => merge_block,
            };
            ctx.emit_terminator(
                TerminatorKind::SwitchInt { discr: cond, targets: SwitchTargets::if_else(else_block, body_block) },
                span,
            );
            ctx.enter_block(body_block);
            let _ = lower_block(ctx, body)?;
            goto_unless_terminated(ctx, merge_block, span);
            match else_branch {
                Some(else_blk) => {
                    ctx.enter_block(else_block);
                    let _ = lower_block(ctx, else_blk)?;
                    goto_unless_terminated(ctx, merge_block, span);
                },
                None => {},
            }
            ctx.enter_block(merge_block);
            Ok(())
        },
        _ => Err(internal("not an unless statement", stmt.span)),
    }
}

/// Whether `expected` accepts a returned value of type `actual`: the same
/// type, an `Int` where a float is expected, or any integer type where
/// `Int` is expected.
pub open spec fn return_compatible(expected: crate::mir::TypeV, actual: crate::mir::TypeV) -> bool {
    ||| expected == actual
    ||| (crate::mir::is_float_v(expected) && actual == crate::mir::TypeV::Int)
    ||| (expected == crate::mir::TypeV::Int && crate::mir::is_integer_v(actual))
}

fn types_compatible(expected: &MirType, actual: &MirType) -> (b: bool)
    ensures
        b == return_compatible(expected@, actual@),
{
    if ty_eq(expected, actual) {
        return true;
    }
    if expected.is_float() && matches!(actual, MirType::Int) {
        return true;
    }
    matches!(expected, MirType::Int) && actual.is_integer()
}

/// The type of a returned operand, as `infer_operand_type` gives it except
/// that indexing a tuple gives `Unit`.
fn return_operand_type(ctx: &FunctionLoweringContext, operand: &Operand) -> (r: MirType)
    requires
        ctx.ok(),
{
    match operand {
        Operand::Copy(place) | Operand::Move(place) => {
            let mut ty = if (place.local.0 as usize) < ctx.func.locals.len() {
                ctx.func.locals[place.local.0 as usize].ty.clone_ty()
            } else {
                MirType::Unit
            };
            let mut i: usize = 0;
            while i < place.projection.len()
                invariant
                    ctx.ok(),
                    0 <= i <= place.projection@.len(),
                decreases place.projection@.len() - i,
            {
                let next = match &place.projection[i] {
                    PlaceElem::Deref => match &ty {
                        MirType::Ref(inner) => inner.clone_ty(),
                        _ => MirType::Unit,
                    },
                    PlaceElem::Field(idx) => match &ty {
                        MirType::Tuple(elems) => if (*idx as usize) < elems.len() { elems[*idx as usize].clone_ty() } else { MirType::Unit },
                        MirType::Struct(sid) => match ctx.ctx.get_struct_field_type(*sid, *idx) {
                            Some(t) => t,
                            None => MirType::Unit,
                        },
                        _ => MirType::Unit,
                    },
                    PlaceElem::Index(_) | PlaceElem::ConstantIndex(_) => match &ty {
                        MirType::Array(elem) => elem.clone_ty(),
                        _ => MirType::Unit,
                    },
                    PlaceElem::Downcast(_) => ty.clone_ty(),
                };
                ty = next;
                i = i + 1;
            }
            ty
        },
        Operand::Constant(_) => infer_operand_type(ctx, operand),
    }
}

fn lower_return(ctx: &mut FunctionLoweringContext, stmt: &Stmt) -> (r: Result<(), MirError>)
    requires
        old(ctx).ok(),
    ensures
        final(ctx).ok(),
        *final(final(ctx).ctx) == *final(old(ctx).ctx),
        *final(final(ctx).func) == *final(old(ctx).func),
        r is Ok ==> final(ctx).follows(*old(ctx)),
    decreases stmt, 1nat,
{
    match &stmt.kind {
        StmtKind::Return(value) => {
            let span = stmt.span;
            let expected = ctx.func.return_ty.clone_ty();
            match value {
                Some(e) => {
                    let val = lower_expr(ctx, e)?;
                    let actual = return_operand_type(ctx, &val);
                    if !types_compatible(&expected, &actual) {
                        return Err(MirError::TypeMismatch { expected: expected.display(), found: actual.display(), span });
                    }
                    ctx.emit_assign(Place::return_place(), Rvalue::Use(val), e.span);
                },
                None => {
                    if !matches!(expected, MirType::Unit) {
                        return Err(MirError::TypeMismatch { expected: expected.display(), found: owned_string("()"), span });
                    }
                    ctx.emit_assign(Place::return_place(), Rvalue::Use(Operand::const_unit()), span);
                },
            }
            ctx.emit_terminator(TerminatorKind::Return, span);
            Ok(())
        },
        _ => Err(internal("not a return statement", stmt.span)),
    }
}

/// Lowers the arms of a match in turn: each arm's pattern is tested in a
/// check block, its body runs in an arm block and then jumps to the merge
/// block; a failed test goes on to the next arm, the last one to the merge
/// block. For a match expression each arm's value goes to `result`.
fn lower_arms(
    ctx: &mut FunctionLoweringContext,
    arms: &Vec<MatchArm>,
    scrutinee_local: Local,
    merge_block: BlockId,
    result: Option<Local>,
    span: Span,
) -> (r: Result<(), MirError>)
    requires
        old(ctx).ok(),
        scrutinee_local.0 < old(ctx).func_now().locals@.len(),
        merge_block.0 < old(ctx).func_now().blocks@.len(),
        result matches Some(l) ==> l.0 < old(ctx).func_now().locals@.len(),
    ensures
        final(ctx).ok(),
        *final(final(ctx).ctx) == *final(old(ctx).ctx),
        *final(final(ctx).func) == *final(old(ctx).func),
        r is Ok ==> final(ctx).follows(*old(ctx)),
    decreases arms, 0nat,
{
    let mut check_block = ctx.fresh_block();
    ctx.emit_terminator(TerminatorKind::Goto { target: check_block }, span);
    let n = arms.len();
    let mut i: usize = 0;
    while i < n
        invariant
            n == arms@.len(),
            0 <= i <= n,
            ctx.ok(),
            *final(ctx.ctx) == *final(old(ctx).ctx),
            *final(ctx.func) == *final(old(ctx).func),
            ctx.follows(*old(ctx)),
            scrutinee_local.0 < ctx.func_now().locals@.len(),
            merge_block.0 < ctx.func_now().blocks@.len(),
            check_block.0 < ctx.func_now().blocks@.len(),
            result matches Some(l) ==> l.0 < ctx.func_now().locals@.len(),
        decreases n - i,
    {
        proof {
            assert(decreases_to!(*arms => arms@));
            assert(decreases_to!(arms@ => arms@[i as int]));
            assert(decreases_to!(arms@[i as int] => arms@[i as int].pattern));
            assert(decreases_to!(arms@[i as int] => arms@[i as int].body));
        }
        let arm = &arms[i];
        ctx.enter_block(check_block);
        let arm_body_block = ctx.fresh_block();
        let next_arm_block = if i < n - 1 { ctx.fresh_block() } else { merge_block };
        lower_pattern_match(ctx, &arm.pattern, Place::from_local(scrutinee_local), arm_body_block, next_arm_block, arm.pattern.span)?;
        ctx.enter_block(arm_body_block);
        match &arm.body {
            MatchArmBody::Expr(e) => {
                let val = lower_expr(ctx, e)?;
                match result {
                    Some(l) => ctx.emit_assign(Place::from_local(l), Rvalue::Use(val), e.span),
                    None => {},
                }
            },
            MatchArmBody::Block(b) => {
                let v = lower_block(ctx, b)?;
                match result {
                    Some(l) => {
                        let value = match v {
                            Some(o) => o,
                            None => Operand::const_unit(),
                        };
                        ctx.emit_assign(Place::from_local(l), Rvalue::Use(value), span);
                    },
                    None => {},
                }
            },
        }
        goto_unless_terminated(ctx, merge_block, span);
        check_block = next_arm_block;
        i = i + 1;
    }
    Ok(())
}

fn lower_match_stmt(ctx: &mut FunctionLoweringContext, stmt: &Stmt) -> (r: Result<(), MirError>)
    requires
        old(ctx).ok(),
    ensures
        final(ctx).ok(),
        *final(final(ctx).ctx) == *final(old(ctx).ctx),
        *final(final(ctx).func) == *final(old(ctx).func),
        r is Ok ==> final(ctx).follows(*old(ctx)),
    decreases stmt, 1nat,
{
    match &stmt.kind {
        StmtKind::Match { scrutinee, arms } => {
            let merge_block = ctx.fresh_block();
            let scrutinee_op = lower_expr(ctx, scrutinee)?;
            let scrutinee_ty = infer_operand_type(ctx, &scrutinee_op);
            let scrutinee_local = ctx.new_temp(scrutinee_ty);
            ctx.emit_assign(Place::from_local(scrutinee_local), Rvalue::Use(scrutinee_op), scrutinee.span);
            lower_arms(ctx, arms, scrutinee_local, merge_block, None, stmt.span)?;
            ctx.enter_block(merge_block);
            Ok(())
        },
        _ => Err(internal("not a match statement", stmt.span)),
    }
}

// ============================================================================
// Patterns
// ============================================================================

/// A copy of a place.
fn copy_place(p: &Place) -> (r: Place)
    ensures
        r.local == p.local,
        r.projection@ == p.projection@,
{
    let mut proj: Vec<PlaceElem> = Vec::new();
    let mut i: usize = 0;
    while i < p.projection.len()
        invariant
            0 <= i <= p.projection@.len(),
            proj@ == p.projection@.take(i as int),
        decreases p.projection@.len() - i,
    {
        proj.push(p.projection[i]);
        i = i + 1;
        assert(proj@ =~= p.projection@.take(i as int));
    }
    assert(p.projection@.take(i as int) =~= p.projection@);
    Place { local: p.local, projection: proj }
}

/// Whether an operand reads exactly place `p`.
pub open spec fn reads_place(o: Operand, p: Place) -> bool {
    match o {
        Operand::Copy(q) => q == p,
        Operand::Move(q) => q == p,
        Operand::Constant(_) => false,
    }
}

/// Reads a place by copy when its type is `Copy`, by move otherwise.
fn operand_for_place(place: Place, ty: &MirType) -> (o: Operand)
    ensures
        match o {
            Operand::Copy(p) => p == place,
            Operand::Move(p) => p == place,
            Operand::Constant(_) => false,
        },
{
    if ty.is_copy() {
        Operand::Copy(place)
    } else {
        Operand::Move(place)
    }
}

/// Binds the names of an irrefutable pattern to parts of `value`, of type
/// `ty`: a name gets a new local; a tuple, array, struct or variant pattern
/// stores the value in a temporary and binds its parts; `name @ pattern`
/// binds both; a typed pattern uses its annotation. A literal, range or
/// rest pattern cannot bind and is an invalid pattern.
pub fn lower_pattern_binding(ctx: &mut FunctionLoweringContext, pattern: &Pattern, value: Operand, ty: MirType, span: Span)
    -> (r: Result<(), MirError>)
    requires
        old(ctx).ok(),
        operand_below(value, old(ctx).func_now().locals@.len() as int),
    ensures
        final(ctx).ok(),
        *final(final(ctx).ctx) == *final(old(ctx).ctx),
        *final(final(ctx).func) == *final(old(ctx).func),
        r is Ok ==> final(ctx).follows(*old(ctx)),
        (pattern.kind is Literal || pattern.kind is Range || pattern.kind is Rest)
            ==> r == Err::<(), MirError>(MirError::InvalidPattern { span: pattern.span }) && *final(ctx) == *old(ctx),
        pattern.kind is Wildcard ==> r is Ok && *final(ctx) == *old(ctx),
        pattern.kind matches PatternKind::Ident(name) ==> r is Ok && binds_name(*old(ctx), *final(ctx), name@, ty, value, span),
    decreases pattern, 2nat,
{
    match &pattern.kind {
        PatternKind::Wildcard => Ok(()),
        PatternKind::Ident(name) => {
            bind_local(ctx, name.clone(), ty, value, span);
            Ok(())
        },
        PatternKind::Literal(_) | PatternKind::Range { .. } | PatternKind::Rest(_) => Err(MirError::InvalidPattern { span: pattern.span }),
        PatternKind::Tuple(patterns) => {
            let temp = ctx.new_temp(ty.clone_ty());
            ctx.emit_assign(Place::from_local(temp), Rvalue::Use(value), span);
            let mut i: usize = 0;
            while i < patterns.len()
                invariant
                    0 <= i <= patterns@.len(),
                    pattern.kind == PatternKind::Tuple(*patterns),
                    ctx.ok(),
                    *final(ctx.ctx) == *final(old(ctx).ctx),
                    *final(ctx.func) == *final(old(ctx).func),
                    ctx.follows(*old(ctx)),
                    temp.0 < ctx.func_now().locals@.len(),
                decreases patterns@.len() - i,
            {
                proof {
                    assert(decreases_to!(*pattern => pattern.kind));
                    assert(decreases_to!(pattern.kind => pattern.kind->Tuple_0));
                    assert(decreases_to!(*patterns => patterns@));
                    assert(decreases_to!(patterns@ => patterns@[i as int]));
                }
                let elem_ty = match &ty {
                    MirType::Tuple(tys) => if i < tys.len() { tys[i].clone_ty() } else { MirType::Unit },
                    _ => MirType::Unit,
                };
                if i > 4294967295 {
                    return Err(internal("too many tuple elements", span));
                }
                let elem_place = Place::from_local(temp).field(i as u32);
                let elem_value = operand_for_place(elem_place, &elem_ty);
                lower_pattern_binding(ctx, &patterns[i], elem_value, elem_ty, patterns[i].span)?;
                i = i + 1;
            }
            Ok(())
        },
        PatternKind::Array { elements, rest } => {
            let temp = ctx.new_temp(ty.clone_ty());
            ctx.emit_assign(Place::from_local(temp), Rvalue::Use(value), span);
            let elem_ty = match &ty {
                MirType::Array(inner) => inner.clone_ty(),
                _ => MirType::Unit,
            };
            let mut i: usize = 0;
            while i < elements.len()
                invariant
                    0 <= i <= elements@.len(),
                    pattern.kind == (PatternKind::Array { elements: *elements, rest: *rest }),
                    ctx.ok(),
                    *final(ctx.ctx) == *final(old(ctx).ctx),
                    *final(ctx.func) == *final(old(ctx).func),
                    ctx.follows(*old(ctx)),
                    temp.0 < ctx.func_now().locals@.len(),
                decreases elements@.len() - i,
            {
                proof {
                    assert(decreases_to!(*pattern => pattern.kind));
                    assert(decreases_to!(pattern.kind => pattern.kind->Array_elements));
                    assert(decreases_to!(*elements => elements@));
                    assert(decreases_to!(elements@ => elements@[i as int]));
                }
                if i as u64 > 9223372036854775807u64 {
                    return Err(internal("too many array elements", span));
                }
                let idx_local = ctx.new_temp(MirType::Int);
                ctx.emit_assign(Place::from_local(idx_local), Rvalue::Use(Operand::const_int(i as i64)), elements[i].span);
                let elem_place = Place::from_local(temp).index(idx_local);
                let elem_value = operand_for_place(elem_place, &elem_ty);
                lower_pattern_binding(ctx, &elements[i], elem_value, elem_ty.clone_ty(), elements[i].span)?;
                i = i + 1;
            }
            match rest {
                Some(rest_pat) => Err(unsupported("rest patterns in arrays", rest_pat.span)),
                None => Ok(()),
            }
        },
        PatternKind::Struct { name, fields } => {
            let struct_id = match name {
                Some(tname) => ctx.ctx.lookup_struct(tname.node.as_str()),
                None => match &ty {
                    MirType::Struct(id) => Some(*id),
                    _ => None,
                },
            };
            let temp = ctx.new_temp(ty.clone_ty());
            ctx.emit_assign(Place::from_local(temp), Rvalue::Use(value), span);
            let mut i: usize = 0;
            while i < fields.len()
                invariant
                    0 <= i <= fields@.len(),
                    pattern.kind == (PatternKind::Struct { name: *name, fields: *fields }),
                    ctx.ok(),
                    *final(ctx.ctx) == *final(old(ctx).ctx),
                    *final(ctx.func) == *final(old(ctx).func),
                    ctx.follows(*old(ctx)),
                    temp.0 < ctx.func_now().locals@.len(),
                decreases fields@.len() - i,
            {
                proof {
                    assert(decreases_to!(*pattern => pattern.kind));
                    assert(decreases_to!(pattern.kind => pattern.kind->Struct_fields));
                    assert(decreases_to!(*fields => fields@));
                    assert(decreases_to!(fields@ => fields@[i as int]));
                    assert(decreases_to!(fields@[i as int] => fields@[i as int].pattern));
                }
                let field_pat = &fields[i];
                let (field_idx, field_ty) = match struct_id {
                    Some(sid) => match ctx.ctx.lookup_struct_field(sid, field_pat.name.node.as_str()) {
                        Some(found) => found,
                        None => (0, MirType::Unit),
                    },
                    None => (0, MirType::Unit),
                };
                let field_place = Place::from_local(temp).field(field_idx);
                let field_value = operand_for_place(field_place, &field_ty);
                match &field_pat.pattern {
                    Some(inner) => {
                        lower_pattern_binding(ctx, inner, field_value, field_ty, field_pat.span)?;
                    },
                    None => {
                        bind_local(ctx, field_pat.name.node.clone(), field_ty, field_value, field_pat.span);
                    },
                }
                i = i + 1;
            }
            Ok(())
        },
        PatternKind::Variant { path, variant, fields } => {
            let temp = ctx.new_temp(ty.clone_ty());
            ctx.emit_assign(Place::from_local(temp), Rvalue::Use(value), span);
            let enum_id = match &ty {
                MirType::Enum(id) => Some(*id),
                _ => if path.len() > 0 { ctx.ctx.lookup_enum(path[0].node.as_str()) } else { None },
            };
            let variant_idx = match enum_id {
                Some(eid) => match ctx.ctx.lookup_enum_variant(eid, variant.node.as_str()) {
                    Some(v) => v,
                    None => 0,
                },
                None => 0,
            };
            match fields {
                Some(field_pats) => {
                    let mut i: usize = 0;
                    while i < field_pats.len()
                        invariant
                            0 <= i <= field_pats@.len(),
                            pattern.kind == (PatternKind::Variant { path: *path, variant: *variant, fields: *fields }),
                            *fields == Some(*field_pats),
                            ctx.ok(),
                            *final(ctx.ctx) == *final(old(ctx).ctx),
                            *final(ctx.func) == *final(old(ctx).func),
                            ctx.follows(*old(ctx)),
                            temp.0 < ctx.func_now().locals@.len(),
                        decreases field_pats@.len() - i,
                    {
                        proof {
                            assert(decreases_to!(*pattern => pattern.kind));
                            assert(decreases_to!(pattern.kind => pattern.kind->Variant_fields));
                            assert(decreases_to!(*fields => (*fields)->Some_0));
                            assert(decreases_to!(*field_pats => field_pats@));
                            assert(decreases_to!(field_pats@ => field_pats@[i as int]));
                        }
                        if i > 4294967295 {
                            return Err(internal("too many variant fields", span));
                        }
                        let field_ty = match enum_id {
                            Some(eid) => match ctx.ctx.get_enum_variant_field_type(eid, variant_idx, i as u32) {
                                Some(t) => t,
                                None => MirType::Unit,
                            },
                            None => MirType::Unit,
                        };
                        let field_place = Place::from_local(temp).field(variant_idx).field(i as u32);
                        let field_value = operand_for_place(field_place, &field_ty);
                        lower_pattern_binding(ctx, &field_pats[i], field_value, field_ty, field_pats[i].span)?;
                        i = i + 1;
                    }
                    Ok(())
                },
                None => Ok(()),
            }
        },
        PatternKind::Or(patterns) => {
            if patterns.len() > 0 {
                proof {
                    assert(decreases_to!(*patterns => patterns@));
                    assert(decreases_to!(patterns@ => patterns@[0]));
                }
                lower_pattern_binding(ctx, &patterns[0], value, ty, span)
            } else {
                Ok(())
            }
        },
        PatternKind::Guard { pattern: inner, condition } => {
            lower_pattern_binding(ctx, inner, value, ty, span)?;
            let cond = lower_expr(ctx, condition)?;
            let next_block = ctx.fresh_block();
            ctx.emit_terminator(
                TerminatorKind::Assert { cond, expected: true, msg: owned_string("pattern guard failed"), target: next_block },
                condition.span,
            );
            ctx.enter_block(next_block);
            Ok(())
        },
        PatternKind::Binding { name, pattern: inner } => {
            let local = ctx.new_named_local(name.node.clone(), ty.clone_ty());
            ctx.emit_stmt(StatementKind::StorageLive(local), name.span);
            ctx.emit_assign(Place::from_local(local), Rvalue::Use(value.clone()), span);
            lower_pattern_binding(ctx, inner, value, ty, span)
        },
        PatternKind::Typed { pattern: inner, ty: annotation } => {
            let annotated = ctx.ctx.lower_type(annotation);
            lower_pattern_binding(ctx, inner, value, annotated, span)
        },
    }
}

/// Tests `scrutinee` against a pattern, binding its names, and jumps to
/// `match_block` when it matches and to `no_match_block` when it does not:
/// a wildcard always matches; a name binds the scrutinee and matches; a
/// literal compares for equality; a tuple tests its elements in a chain of
/// blocks; a variant compares the discriminant and binds name fields; a
/// range tests both bounds; an or-pattern tries each alternative in turn;
/// a guard tests its pattern, then its condition; any other pattern
/// matches.
pub fn lower_pattern_match(
    ctx: &mut FunctionLoweringContext,
    pattern: &Pattern,
    scrutinee: Place,
    match_block: BlockId,
    no_match_block: BlockId,
    span: Span,
) -> (r: Result<(), MirError>)
    requires
        old(ctx).ok(),
        scrutinee.local.0 < old(ctx).func_now().locals@.len(),
        match_block.0 < old(ctx).func_now().blocks@.len(),
        no_match_block.0 < old(ctx).func_now().blocks@.len(),
    ensures
        final(ctx).ok(),
        *final(final(ctx).ctx) == *final(old(ctx).ctx),
        *final(final(ctx).func) == *final(old(ctx).func),
        r is Ok ==> final(ctx).follows(*old(ctx)),
        pattern.kind is Wildcard ==> r is Ok && final(ctx).current_block == old(ctx).current_block
            && (*final(ctx).func).blocks@[old(ctx).current_block.0 as int].terminator
                == Some(crate::mir::Terminator { kind: TerminatorKind::Goto { target: match_block }, span }),
        pattern.kind matches PatternKind::Ident(name) ==> r is Ok && ({
            let l = Local(old(ctx).func_now().locals@.len() as u32);
            let b = old(ctx).current_block.0 as int;
            let before = old(ctx).func_now().blocks@[b];
            let after = final(ctx).func_now().blocks@[b];
            let n = before.statements@.len() as int;
            &&& final(ctx).locals.get_spec(name@) == Some(l)
            &&& final(ctx).func_now().locals@.len() == old(ctx).func_now().locals@.len() + 1
            &&& final(ctx).func_now().locals@.last().ty@ == old(ctx).func_now().locals@[scrutinee.local.0 as int].ty@
            &&& final(ctx).current_block == old(ctx).current_block
            &&& after.statements@.len() == n + 2
            &&& after.statements@[n] == crate::mir::Statement { kind: StatementKind::StorageLive(l), span }
            &&& after.statements@[n + 1].kind matches StatementKind::Assign(p, Rvalue::Use(v))
                && p.local == l && p.projection@.len() == 0 && reads_place(v, scrutinee)
            &&& after.terminator == Some(crate::mir::Terminator { kind: TerminatorKind::Goto { target: match_block }, span })
        }),
        pattern.kind is Literal ==> (r is Ok ==> ({
            let after = final(ctx).func_now().blocks@[final(ctx).current_block.0 as int];
            &&& after.terminator matches Some(t)
            &&& t.kind matches TerminatorKind::SwitchInt { targets, .. }
            &&& targets.targets@ == seq![(0i128, no_match_block)]
            &&& targets.otherwise == match_block
        })),
    decreases pattern, 2nat,
{
    match &pattern.kind {
        PatternKind::Wildcard => {
            ctx.emit_terminator(TerminatorKind::Goto { target: match_block }, span);
            Ok(())
        },
        PatternKind::Ident(name) => {
            let ty = ctx.func.local_decl(scrutinee.local).ty.clone_ty();
            let local = ctx.new_named_local(name.clone(), ty.clone_ty());
            ctx.emit_stmt(StatementKind::StorageLive(local), span);
            let v = operand_for_place(scrutinee, &ty);
            ctx.emit_assign(Place::from_local(local), Rvalue::Use(v), span);
            ctx.emit_terminator(TerminatorKind::Goto { target: match_block }, span);
            Ok(())
        },
        PatternKind::Literal(lit) => {
            let lit_val = lower_expr(ctx, lit)?;
            let ty = ctx.func.local_decl(scrutinee.local).ty.clone_ty();
            let scrutinee_val = operand_for_place(scrutinee, &ty);
            let equal_flag = ctx.new_temp(MirType::Bool);
            ctx.emit_assign(Place::from_local(equal_flag), Rvalue::BinaryOp(BinOp::Eq, scrutinee_val, lit_val), span);
            ctx.emit_terminator(
                TerminatorKind::SwitchInt {
                    discr: Operand::Copy(Place::from_local(equal_flag)),
                    targets: SwitchTargets::if_else(match_block, no_match_block),
                },
                span,
            );
            Ok(())
        },
        PatternKind::Tuple(patterns) => {
            let n = patterns.len();
            if n == 0 {
                ctx.emit_terminator(TerminatorKind::Goto { target: match_block }, span);
                return Ok(());
            }
            let mut check_blocks: Vec<BlockId> = Vec::new();
            let mut j: usize = 0;
            while j < n
                invariant
                    0 <= j <= n,
                    n == patterns@.len(),
                    check_blocks@.len() == j,
                    ctx.ok(),
                    *final(ctx.ctx) == *final(old(ctx).ctx),
                    *final(ctx.func) == *final(old(ctx).func),
                    ctx.follows(*old(ctx)),
                    forall|k: int| 0 <= k < j ==> (#[trigger] check_blocks@[k]).0 < ctx.func_now().blocks@.len(),
                decreases n - j,
            {
                let b = ctx.fresh_block();
                check_blocks.push(b);
                j = j + 1;
            }
            ctx.emit_terminator(TerminatorKind::Goto { target: check_blocks[0] }, span);
            let mut i: usize = 0;
            while i < n
                invariant
                    0 <= i <= n,
                    n == patterns@.len(),
                    check_blocks@.len() == n,
                    ctx.ok(),
                    *final(ctx.ctx) == *final(old(ctx).ctx),
                    *final(ctx.func) == *final(old(ctx).func),
                    ctx.follows(*old(ctx)),
                    forall|k: int| 0 <= k < n ==> (#[trigger] check_blocks@[k]).0 < ctx.func_now().blocks@.len(),
                    pattern.kind == PatternKind::Tuple(*patterns),
                    scrutinee.local.0 < ctx.func_now().locals@.len(),
                    match_block.0 < ctx.func_now().blocks@.len(),
                    no_match_block.0 < ctx.func_now().blocks@.len(),
                decreases n - i,
            {
                proof {
                    assert(decreases_to!(*pattern => pattern.kind));
                    assert(decreases_to!(pattern.kind => pattern.kind->Tuple_0));
                    assert(decreases_to!(*patterns => patterns@));
                    assert(decreases_to!(patterns@ => patterns@[i as int]));
                }
                if i > 4294967295 {
                    return Err(internal("too many tuple elements", span));
                }
                ctx.enter_block(check_blocks[i]);
                let elem_place = copy_place(&scrutinee).field(i as u32);
                let success = if i + 1 < n { check_blocks[i + 1] } else { match_block };
                lower_pattern_match(ctx, &patterns[i], elem_place, success, no_match_block, patterns[i].span)?;
                i = i + 1;
            }
            Ok(())
        },
        PatternKind::Variant { path, variant, fields } => {
            let discr = ctx.new_temp(MirType::Int);
            ctx.emit_assign(Place::from_local(discr), Rvalue::Discriminant(copy_place(&scrutinee)), span);
            let scrutinee_ty = ctx.func.local_decl(scrutinee.local).ty.clone_ty();
            let enum_id = match scrutinee_ty {
                MirType::Enum(id) => Some(id),
                _ => if path.len() > 0 { ctx.ctx.lookup_enum(path[0].node.as_str()) } else { None },
            };
            let variant_idx = match enum_id {
                Some(eid) => match ctx.ctx.lookup_enum_variant(eid, variant.node.as_str()) {
                    Some(v) => v,
                    None => 0,
                },
                None => 0,
            };
            let variant_match_block = ctx.fresh_block();
            let mut targets: Vec<(i128, BlockId)> = Vec::new();
            targets.push((variant_idx as i128, variant_match_block));
            ctx.emit_terminator(
                TerminatorKind::SwitchInt {
                    discr: Operand::Copy(Place::from_local(discr)),
                    targets: SwitchTargets::new(targets, no_match_block),
                },
                span,
            );
            ctx.enter_block(variant_match_block);
            match fields {
                Some(field_patterns) => {
                    let mut i: usize = 0;
                    while i < field_patterns.len()
                        invariant
                            0 <= i <= field_patterns@.len(),
                            pattern.kind is Variant,
                            ctx.ok(),
                            *final(ctx.ctx) == *final(old(ctx).ctx),
                            *final(ctx.func) == *final(old(ctx).func),
                            ctx.follows(*old(ctx)),
                            match_block.0 < ctx.func_now().blocks@.len(),
                        decreases field_patterns@.len() - i,
                    {
                        if i > 4294967295 {
                            return Err(internal("too many variant fields", span));
                        }
                        let field_ty = match enum_id {
                            Some(eid) => match ctx.ctx.get_enum_variant_field_type(eid, variant_idx, i as u32) {
                                Some(t) => t,
                                None => MirType::Unit,
                            },
                            None => MirType::Unit,
                        };
                        let field_place = copy_place(&scrutinee).downcast(variant_idx).field(i as u32);
                        match &field_patterns[i].kind {
                            PatternKind::Ident(name) => {
                                let local = ctx.new_named_local(name.clone(), field_ty.clone_ty());
                                ctx.emit_stmt(StatementKind::StorageLive(local), field_patterns[i].span);
                                let field_value = operand_for_place(field_place, &field_ty);
                                ctx.emit_assign(Place::from_local(local), Rvalue::Use(field_value), field_patterns[i].span);
                            },
                            _ => {},
                        }
                        i = i + 1;
                    }
                },
                None => {},
            }
            ctx.emit_terminator(TerminatorKind::Goto { target: match_block }, span);
            Ok(())
        },
        PatternKind::Range { start, end, inclusive } => {
            let ty = ctx.func.local_decl(scrutinee.local).ty.clone_ty();
            let scrutinee_val = operand_for_place(scrutinee, &ty);
            let start_val = lower_expr(ctx, start)?;
            let end_val = lower_expr(ctx, end)?;
            let ge_start = ctx.new_temp(MirType::Bool);
            ctx.emit_assign(Place::from_local(ge_start), Rvalue::BinaryOp(BinOp::Ge, scrutinee_val.clone(), start_val), span);
            let le_end = ctx.new_temp(MirType::Bool);
            let end_op = if *inclusive { BinOp::Le } else { BinOp::Lt };
            ctx.emit_assign(Place::from_local(le_end), Rvalue::BinaryOp(end_op, scrutinee_val, end_val), span);
            let in_range = ctx.new_temp(MirType::Bool);
            ctx.emit_assign(
                Place::from_local(in_range),
                Rvalue::BinaryOp(BinOp::And, Operand::Copy(Place::from_local(ge_start)), Operand::Copy(Place::from_local(le_end))),
                span,
            );
            ctx.emit_terminator(
                TerminatorKind::SwitchInt {
                    discr: Operand::Copy(Place::from_local(in_range)),
                    targets: SwitchTargets::if_else(match_block, no_match_block),
                },
                span,
            );
            Ok(())
        },
        PatternKind::Or(patterns) => {
            let n = patterns.len();
            if n == 0 {
                ctx.emit_terminator(TerminatorKind::Goto { target: no_match_block }, span);
                return Ok(());
            }
            let mut try_blocks: Vec<BlockId> = Vec::new();
            let mut j: usize = 0;
            while j < n
                invariant
                    0 <= j <= n,
                    n == patterns@.len(),
                    try_blocks@.len() == j,
                    ctx.ok(),
                    *final(ctx.ctx) == *final(old(ctx).ctx),
                    *final(ctx.func) == *final(old(ctx).func),
                    ctx.follows(*old(ctx)),
                    forall|k: int| 0 <= k < j ==> (#[trigger] try_blocks@[k]).0 < ctx.func_now().blocks@.len(),
                decreases n - j,
            {
                let b = ctx.fresh_block();
                try_blocks.push(b);
                j = j + 1;
            }
            ctx.emit_terminator(TerminatorKind::Goto { target: try_blocks[0] }, span);
            let mut i: usize = 0;
            while i < n
                invariant
                    0 <= i <= n,
                    n == patterns@.len(),
                    try_blocks@.len() == n,
                    ctx.ok(),
                    *final(ctx.ctx) == *final(old(ctx).ctx),
                    *final(ctx.func) == *final(old(ctx).func),
                    ctx.follows(*old(ctx)),
                    forall|k: int| 0 <= k < n ==> (#[trigger] try_blocks@[k]).0 < ctx.func_now().blocks@.len(),
                    pattern.kind == PatternKind::Or(*patterns),
                    scrutinee.local.0 < ctx.func_now().locals@.len(),
                    match_block.0 < ctx.func_now().blocks@.len(),
                    no_match_block.0 < ctx.func_now().blocks@.len(),
                decreases n - i,
            {
                proof {
                    assert(decreases_to!(*pattern => pattern.kind));
                    assert(decreases_to!(pattern.kind => pattern.kind->Or_0));
                    assert(decreases_to!(*patterns => patterns@));
                    assert(decreases_to!(patterns@ => patterns@[i as int]));
                }
                ctx.enter_block(try_blocks[i]);
                let next_try = if i + 1 < n { try_blocks[i + 1] } else { no_match_block };
                lower_pattern_match(ctx, &patterns[i], copy_place(&scrutinee), match_block, next_try, patterns[i].span)?;
                i = i + 1;
            }
            Ok(())
        },
        PatternKind::Guard { pattern: inner, condition } => {
            let guard_check_block = ctx.fresh_block();
            lower_pattern_match(ctx, inner, scrutinee, guard_check_block, no_match_block, span)?;
            ctx.enter_block(guard_check_block);
            let cond = lower_expr(ctx, condition)?;
            ctx.emit_terminator(
                TerminatorKind::SwitchInt { discr: cond, targets: SwitchTargets::if_else(match_block, no_match_block) },
                condition.span,
            );
            Ok(())
        },
        _ => {
            ctx.emit_terminator(TerminatorKind::Goto { target: match_block }, span);
            Ok(())
        },
    }
}

/// Lowers a function declared inside a body as a function of the program.
fn lower_nested_function(ctx: &mut FunctionLoweringContext, f: &crate::ast::FunctionDecl) -> (r: Result<(), MirError>)
    requires
        old(ctx).ok(),
    ensures
        final(ctx).ok(),
        *final(final(ctx).ctx) == *final(old(ctx).ctx),
        *final(final(ctx).func) == *final(old(ctx).func),
        r is Ok ==> final(ctx).follows(*old(ctx)),
    decreases f, 3nat,
{
    ctx.ctx.lower_function(f)
}

/// Lowers an `if` expression: like the statement, and each branch's value
/// (unit where it has none) is stored in a result temporary, typed by the
/// then-branch's value; the result is that temporary.
fn lower_if_expr(ctx: &mut FunctionLoweringContext, expr: &Expr) -> (r: Result<Operand, MirError>)
    requires
        old(ctx).ok(),
        expr.kind is If,
    ensures
        final(ctx).ok(),
        *final(final(ctx).ctx) == *final(old(ctx).ctx),
        *final(final(ctx).func) == *final(old(ctx).func),
        r is Ok ==> final(ctx).follows(*old(ctx)),
        r matches Ok(o) ==> operand_below(o, final(ctx).func_now().locals@.len() as int),
    decreases expr, 1nat,
{
    match &expr.kind {
        ExprKind::If { condition, then_branch, elsif_branches, else_branch } => {
            let span = expr.span;
            let merge_block = ctx.fresh_block();
            let cond = lower_expr(ctx, condition)?;
            let then_block = ctx.fresh_block();
            let else_block = if elsif_branches.len() == 0 && else_branch.is_none() {
                merge_block
            } else {
                ctx.fresh_block()
            };
            ctx.emit_terminator(
                TerminatorKind::SwitchInt { discr: cond, targets: SwitchTargets::if_else(then_block, else_block) },
                span,
            );
            ctx.enter_block(then_block);
            let then_value = lower_block(ctx, then_branch)?;
            let then_operand = match &then_value {
                Some(v) => v.clone(),
                None => Operand::const_unit(),
            };
            let result_ty = infer_operand_type(ctx, &then_operand);
            let result = ctx.new_temp(result_ty);
            if !ctx.is_terminated() {
                let value = match then_value {
                    Some(v) => v,
                    None => Operand::const_unit(),
                };
                ctx.emit_assign(Place::from_local(result), Rvalue::Use(value), span);
                ctx.emit_terminator(TerminatorKind::Goto { target: merge_block }, span);
            }
            let mut current_else = else_block;
            let mut i: usize = 0;
            while i < elsif_branches.len()
                invariant
                    0 <= i <= elsif_branches@.len(),
                    ctx.ok(),
                    *final(ctx.ctx) == *final(old(ctx).ctx),
                    *final(ctx.func) == *final(old(ctx).func),
                    ctx.follows(*old(ctx)),
                    merge_block.0 < ctx.func_now().blocks@.len(),
                    current_else.0 < ctx.func_now().blocks@.len(),
                    result.0 < ctx.func_now().locals@.len(),
                    expr.kind == (ExprKind::If { condition: *condition, then_branch: *then_branch, elsif_branches: *elsif_branches, else_branch: *else_branch }),
                decreases elsif_branches@.len() - i,
            {
                if current_else.0 == merge_block.0 {
                    break;
                }
                proof {
                    assert(decreases_to!(*expr => expr.kind));
                    assert(decreases_to!(expr.kind => expr.kind->If_elsif_branches));
                    assert(decreases_to!(*elsif_branches => elsif_branches@));
                    assert(decreases_to!(elsif_branches@ => elsif_branches@[i as int]));
                    assert(decreases_to!(elsif_branches@[i as int] => elsif_branches@[i as int].0));
                    assert(decreases_to!(elsif_branches@[i as int] => elsif_branches@[i as int].1));
                }
                ctx.enter_block(current_else);
                let c = lower_expr(ctx, &elsif_branches[i].0)?;
                let elsif_then = ctx.fresh_block();
                let elsif_else = ctx.fresh_block();
                ctx.emit_terminator(
                    TerminatorKind::SwitchInt { discr: c, targets: SwitchTargets::if_else(elsif_then, elsif_else) },
                    span,
                );
                ctx.enter_block(elsif_then);
                let elsif_value = lower_block(ctx, &elsif_branches[i].1)?;
                if !ctx.is_terminated() {
                    let value = match elsif_value {
                        Some(v) => v,
                        None => Operand::const_unit(),
                    };
                    ctx.emit_assign(Place::from_local(result), Rvalue::Use(value), span);
                    ctx.emit_terminator(TerminatorKind::Goto { target: merge_block }, span);
                }
                current_else = elsif_else;
                i = i + 1;
            }
            match else_branch {
                Some(else_blk) => {
                    ctx.enter_block(current_else);
                    let else_value = lower_block(ctx, else_blk)?;
                    if !ctx.is_terminated() {
                        let value = match else_value {
                            Some(v) => v,
                            None => Operand::const_unit(),
                        };
                        ctx.emit_assign(Place::from_local(result), Rvalue::Use(value), span);
                        ctx.emit_terminator(TerminatorKind::Goto { target: merge_block }, span);
                    }
                },
                None => {
                    if current_else.0 != merge_block.0 {
                        ctx.enter_block(current_else);
                        ctx.emit_assign(Place::from_local(result), Rvalue::Use(Operand::const_unit()), span);
                        ctx.emit_terminator(TerminatorKind::Goto { target: merge_block }, span);
                    }
                },
            }
            ctx.enter_block(merge_block);
            Ok(Operand::Copy(Place::from_local(result)))
        },
        _ => Err(internal("not an if expression", expr.span)),
    }
}

/// Lowers `c ? a : b` like an `if` expression with two branches.
fn lower_ternary(ctx: &mut FunctionLoweringContext, expr: &Expr) -> (r: Result<Operand, MirError>)
    requires
        old(ctx).ok(),
        expr.kind is Ternary,
    ensures
        final(ctx).ok(),
        *final(final(ctx).ctx) == *final(old(ctx).ctx),
        *final(final(ctx).func) == *final(old(ctx).func),
        r is Ok ==> final(ctx).follows(*old(ctx)),
        r matches Ok(o) ==> operand_below(o, final(ctx).func_now().locals@.len() as int),
    decreases expr, 1nat,
{
    match &expr.kind {
        ExprKind::Ternary { condition, then_expr, else_expr } => {
            let span = expr.span;
            let then_block = ctx.fresh_block();
            let else_block = ctx.fresh_block();
            let merge_block = ctx.fresh_block();
            let cond = lower_expr(ctx, condition)?;
            ctx.emit_terminator(
                TerminatorKind::SwitchInt { discr: cond, targets: SwitchTargets::if_else(then_block, else_block) },
                span,
            );
            ctx.enter_block(then_block);
            let then_val = lower_expr(ctx, then_expr)?;
            let result_ty = infer_operand_type(ctx, &then_val);
            let result = ctx.new_temp(result_ty);
            ctx.emit_assign(Place::from_local(result), Rvalue::Use(then_val), then_expr.span);
            ctx.emit_terminator(TerminatorKind::Goto { target: merge_block }, span);
            ctx.enter_block(else_block);
            let else_val = lower_expr(ctx, else_expr)?;
            ctx.emit_assign(Place::from_local(result), Rvalue::Use(else_val), else_expr.span);
            ctx.emit_terminator(TerminatorKind::Goto { target: merge_block }, span);
            ctx.enter_block(merge_block);
            Ok(Operand::Copy(Place::from_local(result)))
        },
        _ => Err(internal("not a ternary expression", expr.span)),
    }
}

/// Lowers a match expression: the scrutinee is stored in a temporary and
/// the arms are tested in turn; each arm's value goes to a result temporary
/// (typed as the scrutinee for an expression first arm, unit otherwise).
fn lower_match_expr(ctx: &mut FunctionLoweringContext, expr: &Expr) -> (r: Result<Operand, MirError>)
    requires
        old(ctx).ok(),
        expr.kind is Match,
    ensures
        final(ctx).ok(),
        *final(final(ctx).ctx) == *final(old(ctx).ctx),
        *final(final(ctx).func) == *final(old(ctx).func),
        r is Ok ==> final(ctx).follows(*old(ctx)),
        r matches Ok(o) ==> operand_below(o, final(ctx).func_now().locals@.len() as int),
    decreases expr, 1nat,
{
    match &expr.kind {
        ExprKind::Match { scrutinee, arms } => {
            let merge_block = ctx.fresh_block();
            let scrutinee_op = lower_expr(ctx, scrutinee)?;
            let scrutinee_ty = infer_operand_type(ctx, &scrutinee_op);
            let scrutinee_local = ctx.new_temp(scrutinee_ty.clone_ty());
            ctx.emit_assign(Place::from_local(scrutinee_local), Rvalue::Use(scrutinee_op), scrutinee.span);
            let result_ty = if arms.len() > 0 {
                match &arms[0].body {
                    MatchArmBody::Expr(_) => scrutinee_ty,
                    MatchArmBody::Block(_) => MirType::Unit,
                }
            } else {
                MirType::Unit
            };
            let result = ctx.new_temp(result_ty);
            lower_arms(ctx, arms, scrutinee_local, merge_block, Some(result), expr.span)?;
            ctx.enter_block(merge_block);
            Ok(Operand::Copy(Place::from_local(result)))
        },
        _ => Err(internal("not a match expression", expr.span)),
    }
}

/// Ends the current block with a call of `func` on `args` whose result goes
/// to a new temporary of type `ret`, and continues in a new block; the
/// result is the temporary.
fn emit_call(ctx: &mut FunctionLoweringContext, func: Operand, args: Vec<Operand>, ret: MirType, span: Span) -> (r: Operand)
    requires
        old(ctx).ok(),
    ensures
        final(ctx).ok(),
        *final(final(ctx).ctx) == *final(old(ctx).ctx),
        *final(final(ctx).func) == *final(old(ctx).func),
        final(ctx).follows(*old(ctx)),
        operand_below(r, final(ctx).func_now().locals@.len() as int),
{
    let result = ctx.new_temp(ret);
    let next_block = ctx.fresh_block();
    ctx.emit_terminator(
        TerminatorKind::Call { func, args, dest: Place::from_local(result), target: Some(next_block) },
        span,
    );
    ctx.enter_block(next_block);
    Operand::Move(Place::from_local(result))
}

/// The return type of a function of the program, unit when there is none.
fn return_type_of(ctx: &FunctionLoweringContext, id: crate::mir::FunctionId, default: MirType) -> (t: MirType)
    requires
        ctx.ok(),
{
    match ctx.ctx.get_function(&id) {
        Some(f) => f.return_ty.clone_ty(),
        None => default,
    }
}

/// Lowers `object.method(args)` as a call of the function named `method`
/// with the receiver first; an unknown method is an undefined function.
fn lower_method_call(ctx: &mut FunctionLoweringContext, expr: &Expr) -> (r: Result<Operand, MirError>)
    requires
        old(ctx).ok(),
        expr.kind is MethodCall,
    ensures
        final(ctx).ok(),
        *final(final(ctx).ctx) == *final(old(ctx).ctx),
        *final(final(ctx).func) == *final(old(ctx).func),
        r is Ok ==> final(ctx).follows(*old(ctx)),
        r matches Ok(o) ==> operand_below(o, final(ctx).func_now().locals@.len() as int),
    decreases expr, 1nat,
{
    match &expr.kind {
        ExprKind::MethodCall { object, method, args } => {
            let receiver = lower_expr(ctx, object)?;
            let rest = lower_operands(ctx, expr, args)?;
            let mut all_args: Vec<Operand> = Vec::new();
            all_args.push(receiver);
            let mut i: usize = 0;
            while i < rest.len()
                invariant
                    0 <= i <= rest@.len(),
                decreases rest@.len() - i,
            {
                all_args.push(rest[i].clone());
                i = i + 1;
            }
            let fn_id = match ctx.ctx.lookup_function(method.node.as_str()) {
                Some(id) => id,
                None => return Err(MirError::UndefinedFunction { name: method.node.clone(), span: method.span }),
            };
            let ret = return_type_of(ctx, fn_id, MirType::Unit);
            Ok(emit_call(ctx, Operand::Constant(Constant::Function(fn_id)), all_args, ret, expr.span))
        },
        _ => Err(internal("not a method call", expr.span)),
    }
}

/// Lowers the argument values of a call, a part of `outer`, left to right.
fn lower_call_args(ctx: &mut FunctionLoweringContext, outer: &Expr, v: &Vec<CallArg>) -> (r: Result<Vec<Operand>, MirError>)
    requires
        old(ctx).ok(),
        decreases_to!(*outer => *v),
    ensures
        final(ctx).ok(),
        *final(final(ctx).ctx) == *final(old(ctx).ctx),
        *final(final(ctx).func) == *final(old(ctx).func),
        r is Ok ==> final(ctx).follows(*old(ctx)),
        r matches Ok(ops) ==> ops@.len() == v@.len(),
    decreases outer, 0nat,
{
    let mut ops: Vec<Operand> = Vec::new();
    let mut i: usize = 0;
    while i < v.len()
        invariant
            decreases_to!(*outer => *v),
            0 <= i <= v@.len(),
            ctx.ok(),
            *final(ctx.ctx) == *final(old(ctx).ctx),
            *final(ctx.func) == *final(old(ctx).func),
            ctx.follows(*old(ctx)),
            ops@.len() == i,
        decreases v@.len() - i,
    {
        proof {
            assert(decreases_to!(*v => v@));
            assert(decreases_to!(v@ => v@[i as int]));
            assert(decreases_to!(v@[i as int] => v@[i as int].value));
        }
        let o = lower_expr(ctx, &v[i].value)?;
        ops.push(o);
        i = i + 1;
    }
    Ok(ops)
}

/// Lowers `left |> right` as the call `right(left)`.
fn lower_pipe(ctx: &mut FunctionLoweringContext, expr: &Expr) -> (r: Result<Operand, MirError>)
    requires
        old(ctx).ok(),
        expr.kind is Pipe,
    ensures
        final(ctx).ok(),
        *final(final(ctx).ctx) == *final(old(ctx).ctx),
        *final(final(ctx).func) == *final(old(ctx).func),
        r is Ok ==> final(ctx).follows(*old(ctx)),
        r matches Ok(o) ==> operand_below(o, final(ctx).func_now().locals@.len() as int),
    decreases expr, 1nat,
{
    match &expr.kind {
        ExprKind::Pipe { left, right } => {
            let arg = lower_expr(ctx, left)?;
            let func = lower_expr(ctx, right)?;
            let ret = match &func {
                Operand::Constant(Constant::Function(id)) => return_type_of(ctx, *id, MirType::Int),
                _ => MirType::Int,
            };
            let mut args: Vec<Operand> = Vec::new();
            args.push(arg);
            Ok(emit_call(ctx, func, args, ret, expr.span))
        },
        _ => Err(internal("not a pipe", expr.span)),
    }
}

/// Lowers a struct literal: the struct must be known (else an undefined
/// type); each field's value is lowered, a bare `name:` reading the local of
/// that name (else an undefined variable).
fn lower_struct_init(ctx: &mut FunctionLoweringContext, expr: &Expr) -> (r: Result<Operand, MirError>)
    requires
        old(ctx).ok(),
        expr.kind is StructInit,
    ensures
        final(ctx).ok(),
        *final(final(ctx).ctx) == *final(old(ctx).ctx),
        *final(final(ctx).func) == *final(old(ctx).func),
        r is Ok ==> final(ctx).follows(*old(ctx)),
        r matches Ok(o) ==> operand_below(o, final(ctx).func_now().locals@.len() as int),
    decreases expr, 1nat,
{
    match &expr.kind {
        ExprKind::StructInit { name, fields } => {
            let struct_id = match ctx.ctx.lookup_struct(name.node.as_str()) {
                Some(id) => id,
                None => return Err(MirError::UndefinedType { name: name.node.clone(), span: name.span }),
            };
            let mut field_ops: Vec<Operand> = Vec::new();
            let mut i: usize = 0;
            while i < fields.len()
                invariant
                    0 <= i <= fields@.len(),
                    ctx.ok(),
                    *final(ctx.ctx) == *final(old(ctx).ctx),
                    *final(ctx.func) == *final(old(ctx).func),
                    ctx.follows(*old(ctx)),
                    expr.kind == (ExprKind::StructInit { name: *name, fields: *fields }),
                decreases fields@.len() - i,
            {
                proof {
                    assert(decreases_to!(*expr => expr.kind));
                    assert(decreases_to!(expr.kind => expr.kind->StructInit_fields));
                    assert(decreases_to!(*fields => fields@));
                    assert(decreases_to!(fields@ => fields@[i as int]));
                    assert(decreases_to!(fields@[i as int] => fields@[i as int].value));
                }
                let val = match &fields[i].value {
                    Some(e) => lower_expr(ctx, e)?,
                    None => match ctx.lookup_local(fields[i].name.node.as_str()) {
                        Some(l) => Operand::Copy(Place::from_local(l)),
                        None => return Err(MirError::UndefinedVariable { name: fields[i].name.node.clone(), span: fields[i].name.span }),
                    },
                };
                field_ops.push(val);
                i = i + 1;
            }
            Ok(assign_temp(ctx, MirType::Struct(struct_id), Rvalue::Aggregate(AggregateKind::Struct(struct_id), field_ops), expr.span))
        },
        _ => Err(internal("not a struct literal", expr.span)),
    }
}

/// Lowers an expression to a string: a string value as it is, anything else
/// through the `to_string` builtin.
fn lower_string_part_expr(ctx: &mut FunctionLoweringContext, e: &Expr, span: Span) -> (r: Result<Operand, MirError>)
    requires
        old(ctx).ok(),
    ensures
        final(ctx).ok(),
        *final(final(ctx).ctx) == *final(old(ctx).ctx),
        *final(final(ctx).func) == *final(old(ctx).func),
        r is Ok ==> final(ctx).follows(*old(ctx)),
        r matches Ok(o) ==> operand_below(o, final(ctx).func_now().locals@.len() as int),
    decreases e, 3nat,
{
    let val = lower_expr(ctx, e)?;
    let val_ty = infer_operand_type(ctx, &val);
    if matches!(val_ty, MirType::String) {
        return Ok(val);
    }
    match ctx.ctx.lookup_function("to_string") {
        Some(fn_id) => {
            let mut args: Vec<Operand> = Vec::new();
            args.push(val);
            Ok(emit_call(ctx, Operand::Constant(Constant::Function(fn_id)), args, MirType::String, span))
        },
        None => Err(internal("the to_string builtin is not registered", span)),
    }
}

/// Lowers one part of an interpolated string to a string operand.
fn lower_string_part(ctx: &mut FunctionLoweringContext, part: &StringPart, span: Span) -> (r: Result<Operand, MirError>)
    requires
        old(ctx).ok(),
    ensures
        final(ctx).ok(),
        *final(final(ctx).ctx) == *final(old(ctx).ctx),
        *final(final(ctx).func) == *final(old(ctx).func),
        r is Ok ==> final(ctx).follows(*old(ctx)),
        r matches Ok(o) ==> operand_below(o, final(ctx).func_now().locals@.len() as int),
    decreases part, 4nat,
{
    match part {
        StringPart::Literal(text) => {
            let idx = ctx.ctx.intern_string(text.clone());
            Ok(Operand::Constant(Constant::String(idx)))
        },
        StringPart::Expr(e) => lower_string_part_expr(ctx, e, span),
        StringPart::FormattedExpr { expr: e, .. } => lower_string_part_expr(ctx, e, span),
    }
}

/// Lowers an interpolated string: each part becomes a string and the parts
/// are concatenated left to right; no parts give the empty string.
fn lower_interpolated_string(ctx: &mut FunctionLoweringContext, expr: &Expr) -> (r: Result<Operand, MirError>)
    requires
        old(ctx).ok(),
        expr.kind is InterpolatedString,
    ensures
        final(ctx).ok(),
        *final(final(ctx).ctx) == *final(old(ctx).ctx),
        *final(final(ctx).func) == *final(old(ctx).func),
        r is Ok ==> final(ctx).follows(*old(ctx)),
        r matches Ok(o) ==> operand_below(o, final(ctx).func_now().locals@.len() as int),
    decreases expr, 1nat,
{
    match &expr.kind {
        ExprKind::InterpolatedString(parts) => {
            let span = expr.span;
            if parts.len() == 0 {
                let idx = ctx.ctx.intern_string(owned_string(""));
                return Ok(Operand::Constant(Constant::String(idx)));
            }
            proof {
                assert(decreases_to!(*expr => expr.kind));
                assert(decreases_to!(expr.kind => expr.kind->InterpolatedString_0));
                assert(decreases_to!(*parts => parts@));
                assert(decreases_to!(parts@ => parts@[0]));
            }
            let mut result_op = lower_string_part(ctx, &parts[0], span)?;
            let mut i: usize = 1;
            while i < parts.len()
                invariant
                    1 <= i <= parts@.len(),
                    ctx.ok(),
                    *final(ctx.ctx) == *final(old(ctx).ctx),
                    *final(ctx.func) == *final(old(ctx).func),
                    ctx.follows(*old(ctx)),
                    operand_below(result_op, ctx.func_now().locals@.len() as int),
                    expr.kind == ExprKind::InterpolatedString(*parts),
                decreases parts@.len() - i,
            {
                proof {
                    assert(decreases_to!(*expr => expr.kind));
                    assert(decreases_to!(expr.kind => expr.kind->InterpolatedString_0));
                    assert(decreases_to!(*parts => parts@));
                    assert(decreases_to!(parts@ => parts@[i as int]));
                }
                let part_op = lower_string_part(ctx, &parts[i], span)?;
                result_op = assign_temp(ctx, MirType::String, Rvalue::BinaryOp(BinOp::Add, result_op, part_op), span);
                i = i + 1;
            }
            Ok(result_op)
        },
        _ => Err(internal("not an interpolated string", expr.span)),
    }
}

/// Lowers `a::b::c`: the function of the joined name, else the local of
/// that name, else the function named by the last segment, else an
/// undefined variable.
fn lower_path(ctx: &mut FunctionLoweringContext, expr: &Expr) -> (r: Result<Operand, MirError>)
    requires
        old(ctx).ok(),
        expr.kind is Path,
    ensures
        final(ctx).ok(),
        *final(final(ctx).ctx) == *final(old(ctx).ctx),
        *final(final(ctx).func) == *final(old(ctx).func),
        r is Ok ==> final(ctx).follows(*old(ctx)),
        r matches Ok(o) ==> operand_below(o, final(ctx).func_now().locals@.len() as int),
    decreases expr, 1nat,
{
    match &expr.kind {
        ExprKind::Path(segments) => {
            let mut joined: Vec<char> = Vec::new();
            let mut i: usize = 0;
            while i < segments.len()
                invariant
                    0 <= i <= segments@.len(),
                decreases segments@.len() - i,
            {
                if i > 0 {
                    joined.push(':');
                    joined.push(':');
                }
                let seg = str_chars(segments[i].node.as_str());
                crate::text::push_all(&mut joined, seg.as_slice());
                i = i + 1;
            }
            let name = crate::text::string_from_chars(joined.as_slice());
            match ctx.ctx.lookup_function(name.as_str()) {
                Some(id) => return Ok(Operand::Constant(Constant::Function(id))),
                None => {},
            }
            match ctx.lookup_local(name.as_str()) {
                Some(l) => return Ok(Operand::Copy(Place::from_local(l))),
                None => {},
            }
            if segments.len() > 0 {
                match ctx.ctx.lookup_function(segments[segments.len() - 1].node.as_str()) {
                    Some(id) => return Ok(Operand::Constant(Constant::Function(id))),
                    None => {},
                }
            }
            Err(MirError::UndefinedVariable { name, span: expr.span })
        },
        _ => Err(internal("not a path", expr.span)),
    }
}

/// Lowers a call: the callee and the argument values are lowered, and the
/// result type is the builtin's (from its first argument where it depends
/// on it), a generic function's return type with the type parameters
/// inferred from the arguments, the function's return type, or `Int` for
/// a callee that is not a known function.
fn lower_call(ctx: &mut FunctionLoweringContext, expr: &Expr) -> (r: Result<Operand, MirError>)
    requires
        old(ctx).ok(),
        expr.kind is Call,
    ensures
        final(ctx).ok(),
        *final(final(ctx).ctx) == *final(old(ctx).ctx),
        *final(final(ctx).func) == *final(old(ctx).func),
        r is Ok ==> final(ctx).follows(*old(ctx)),
        r matches Ok(o) ==> operand_below(o, final(ctx).func_now().locals@.len() as int),
    decreases expr, 1nat,
{
    match &expr.kind {
        ExprKind::Call { func, args } => {
            let callee = lower_expr(ctx, func)?;
            let arg_operands = lower_call_args(ctx, expr, args)?;
            let ret = match &callee {
                Operand::Constant(Constant::Function(fn_id)) => match ctx.ctx.get_function(fn_id) {
                    Some(mir_func) => match &mir_func.linkage {
                        Linkage::Builtin(kind) => infer_polymorphic_builtin_return_type(ctx, *kind, arg_operands.as_slice(), &mir_func.return_ty),
                        _ => {
                            if mir_func.type_params.len() > 0 && params_declared(mir_func) {
                                let type_args = crate::lower::infer_type_args_for_generic(ctx, mir_func, arg_operands.as_slice());
                                crate::lower::substitute_type_params(&mir_func.return_ty, &type_args)
                            } else {
                                mir_func.return_ty.clone_ty()
                            }
                        },
                    },
                    None => MirType::Int,
                },
                _ => MirType::Int,
            };
            Ok(emit_call(ctx, callee, arg_operands, ret, expr.span))
        },
        _ => Err(internal("not a call", expr.span)),
    }
}

/// Whether every parameter of a function is one of its locals.
fn params_declared(f: &crate::mir::MirFunction) -> (b: bool)
    ensures
        b ==> forall|i: int| 0 <= i < f.params@.len() ==> (#[trigger] f.params@[i]).0 < f.locals@.len(),
{
    let mut i: usize = 0;
    while i < f.params.len()
        invariant
            0 <= i <= f.params@.len(),
            forall|j: int| 0 <= j < i ==> (#[trigger] f.params@[j]).0 < f.locals@.len(),
        decreases f.params@.len() - i,
    {
        if (f.params[i].0 as usize) >= f.locals.len() {
            return false;
        }
        i = i + 1;
    }
    true
}

/// A name `prefix` followed by the decimal digits of `n`.
fn numbered_name(prefix: &str, n: usize) -> (r: String) {
    let mut out = str_chars(prefix);
    crate::text::push_decimal(&mut out, n as u64);
    crate::text::string_from_chars(out.as_slice())
}

/// Whether `name` is the name of one of the parameters.
fn is_param_name(params: &Vec<crate::ast::Param>, name: &str) -> (b: bool) {
    let mut i: usize = 0;
    while i < params.len()
        invariant
            0 <= i <= params@.len(),
        decreases params@.len() - i,
    {
        if str_equal(params[i].name.node.as_str(), name) {
            return true;
        }
        i = i + 1;
    }
    false
}

/// The variables of the enclosing scope that the names `names` capture:
/// each name that is no parameter and is bound to a local, once, in order
/// of first use, with the local and its type.
fn collect_captures(ctx: &FunctionLoweringContext, params: &Vec<crate::ast::Param>, names: &Vec<String>)
    -> (r: Vec<(String, Local, MirType)>)
    requires
        ctx.ok(),
    ensures
        forall|i: int| 0 <= i < r@.len() ==> (#[trigger] r@[i]).1.0 < ctx.func_now().locals@.len(),
{
    let mut captures: Vec<(String, Local, MirType)> = Vec::new();
    let mut i: usize = 0;
    while i < names.len()
        invariant
            0 <= i <= names@.len(),
            ctx.ok(),
            forall|k: int| 0 <= k < captures@.len() ==> (#[trigger] captures@[k]).1.0 < ctx.func_now().locals@.len(),
        decreases names@.len() - i,
    {
        let name = names[i].as_str();
        if !is_param_name(params, name) {
            match ctx.lookup_local(name) {
                Some(l) => {
                    let mut seen = false;
                    let mut k: usize = 0;
                    while k < captures.len()
                        invariant
                            0 <= k <= captures@.len(),
                        decreases captures@.len() - k,
                    {
                        if str_equal(captures[k].0.as_str(), name) {
                            seen = true;
                        }
                        k = k + 1;
                    }
                    if !seen {
                        let ty = ctx.func.locals[l.0 as usize].ty.clone_ty();
                        captures.push((names[i].clone(), l, ty));
                    }
                },
                None => {},
            }
        }
        i = i + 1;
    }
    captures
}

/// The parameter types of a lambda: each annotation lowered, `Int` where
/// there is none.
fn lambda_param_types(ctx: &FunctionLoweringContext, params: &Vec<crate::ast::Param>) -> (r: Vec<MirType>)
    ensures
        r@.len() == params@.len(),
{
    let mut tys: Vec<MirType> = Vec::new();
    let mut i: usize = 0;
    while i < params.len()
        invariant
            0 <= i <= params@.len(),
            tys@.len() == i,
        decreases params@.len() - i,
    {
        let t = match &params[i].ty {
            Some(t) => ctx.ctx.lower_type(t),
            None => MirType::Int,
        };
        tys.push(t);
        i = i + 1;
    }
    tys
}

/// A new function for a lambda: its entry block and one local per
/// parameter, which are its parameters.
fn lambda_function(name: String, ret: MirType, span: Span, params: &Vec<crate::ast::Param>, tys: &Vec<MirType>)
    -> (f: crate::mir::MirFunction)
    requires
        tys@.len() == params@.len(),
    ensures
        f.wf(),
        f.blocks@.len() == 1,
        f.blocks@[0].terminator is None,
        f.locals@.len() >= 1,
        f.params@.len() == params@.len(),
        forall|i: int| 0 <= i < f.params@.len() ==> (#[trigger] f.params@[i]).0 < f.locals@.len(),
{
    let mut f = crate::mir::MirFunction::new(name, ret, span);
    let _entry = f.new_block();
    let mut i: usize = 0;
    while i < params.len()
        invariant
            0 <= i <= params@.len(),
            tys@.len() == params@.len(),
            f.wf(),
            f.blocks@.len() == 1,
            f.blocks@[0].terminator is None,
            f.locals@.len() >= 1,
            f.params@.len() == i,
            forall|k: int| 0 <= k < f.params@.len() ==> (#[trigger] f.params@[k]).0 < f.locals@.len(),
        decreases params@.len() - i,
    {
        let local = f.new_local(tys[i].clone_ty(), Some(params[i].name.node.clone()));
        f.params.push(local);
        i = i + 1;
    }
    f
}


/// Lowers a lambda, `|params| expr` or `|params| { stmts }`. Its body
/// becomes a new function of the program, named after the lambda's offset,
/// whose parameters are the lambda's (typed `Int` where not annotated) and
/// which has a local for each variable of the enclosing scope that the body
/// names; its return type is that of the body's value (`Int`, or unit for a
/// block, where there is none). The result is a closure temporary holding
/// that function and the captured variables. An error in the body is the
/// lambda's error; running out of function identifiers is an internal error.
fn lower_closure(ctx: &mut FunctionLoweringContext, expr: &Expr) -> (r: Result<Operand, MirError>)
    requires
        old(ctx).ok(),
        expr.kind is Lambda || expr.kind is BlockLambda,
    ensures
        final(ctx).ok(),
        *final(final(ctx).ctx) == *final(old(ctx).ctx),
        *final(final(ctx).func) == *final(old(ctx).func),
        r is Ok ==> final(ctx).follows(*old(ctx)),
        r matches Ok(o) ==> operand_below(o, final(ctx).func_now().locals@.len() as int),
    decreases expr, 1nat,
{
    let span = expr.span;
    let mut names: Vec<String> = Vec::new();
    let (params, is_block) = match &expr.kind {
        ExprKind::Lambda { params, body } => {
            visit_expr_idents(body, &mut names);
            (params, false)
        },
        ExprKind::BlockLambda { params, body } => {
            visit_block_idents(body, &mut names);
            (params, true)
        },
        _ => {
            return Err(internal("not a lambda", span));
        },
    };
    let captures = collect_captures(ctx, params, &names);
    let mut capture_operands: Vec<Operand> = Vec::new();
    let mut c: usize = 0;
    while c < captures.len()
        invariant
            0 <= c <= captures@.len(),
            ctx.ok(),
            forall|i: int| 0 <= i < captures@.len() ==> (#[trigger] captures@[i]).1.0 < ctx.func_now().locals@.len(),
        decreases captures@.len() - c,
    {
        capture_operands.push(operand_for_local(ctx, captures[c].1));
        c = c + 1;
    }
    let param_types = lambda_param_types(ctx, params);
    let name = if is_block {
        numbered_name("__block_lambda_", span.start)
    } else {
        numbered_name("__lambda_", span.start)
    };
    let default_ret = if is_block { MirType::Unit } else { MirType::Int };
    let mut lambda_fn = lambda_function(name, default_ret, span, params, &param_types);
    let ghost n0 = ctx.ctx_now().next_fn();
    let body_result: Result<(), MirError>;
    {
        let mut fn_ctx = FunctionLoweringContext::new(ctx.ctx, &mut lambda_fn);
        let ghost ctx_at_end = *final(fn_ctx.ctx);
        let ghost func_at_end = *final(fn_ctx.func);
        assert(fn_ctx.ok());
        let mut i: usize = 0;
        while i < params.len()
            invariant
                0 <= i <= params@.len(),
                fn_ctx.ok(),
                fn_ctx.func_now().params@.len() == params@.len(),
                *final(fn_ctx.ctx) == ctx_at_end,
                *final(fn_ctx.func) == func_at_end,
                fn_ctx.ctx_now().next_fn() == n0,
            decreases params@.len() - i,
        {
            let p = fn_ctx.func.params[i];
            fn_ctx.bind_name(params[i].name.node.clone(), p);
            i = i + 1;
        }
        let mut j: usize = 0;
        while j < captures.len()
            invariant
                0 <= j <= captures@.len(),
                fn_ctx.ok(),
                *final(fn_ctx.ctx) == ctx_at_end,
                *final(fn_ctx.func) == func_at_end,
                fn_ctx.ctx_now().next_fn() == n0,
            decreases captures@.len() - j,
        {
            let _ = fn_ctx.new_named_local(captures[j].0.clone(), captures[j].2.clone_ty());
            j = j + 1;
        }
        body_result = match &expr.kind {
            ExprKind::Lambda { body, .. } => match lower_expr(&mut fn_ctx, body) {
                Ok(v) => {
                    let t = infer_operand_type(&fn_ctx, &v);
                    fn_ctx.set_return_type(t);
                    fn_ctx.emit_assign(Place::return_place(), Rvalue::Use(v), span);
                    fn_ctx.ensure_terminated();
                    Ok(())
                },
                Err(e) => Err(e),
            },
            ExprKind::BlockLambda { body, .. } => match lower_block(&mut fn_ctx, body) {
                Ok(value) => {
                    match value {
                        Some(v) => {
                            let t = infer_operand_type(&fn_ctx, &v);
                            fn_ctx.set_return_type(t);
                            fn_ctx.emit_assign(Place::return_place(), Rvalue::Use(v), span);
                        },
                        None => {},
                    }
                    fn_ctx.ensure_terminated();
                    Ok(())
                },
                Err(e) => Err(e),
            },
            _ => Ok(()),
        };
        assert(fn_ctx.ok());
        assert(body_result is Ok ==> fn_ctx.ctx_now().next_fn() >= n0);
        proof {
            assert(has_resolved(fn_ctx));
        }
    }
    body_result?;
    if ctx.ctx.next_function_id() == u32::MAX {
        return Err(internal("too many functions", span));
    }
    let ret = lambda_fn.return_ty.clone_ty();
    let fn_id = ctx.ctx.register_anonymous_function(lambda_fn);
    let closure_ty = MirType::Closure { params: param_types, ret: Box::new(ret) };
    Ok(assign_temp(ctx, closure_ty, Rvalue::Closure(fn_id, capture_operands), span))
}


/// Lowers a comprehension, `[element for pattern in iterable if condition]`
/// or `{key: value for pattern in iterable if condition}`. The iterable is
/// stored in a temporary and the result starts empty; a loop header jumps
/// to the body, which binds a name pattern to the element type (the
/// array's element, a string's character, else `Int`), tests the condition
/// (jumping back to the header when it fails), and then evaluates the
/// element, retyping the result array by it and pushing it through the
/// `push` builtin where one is registered, or the key and value, retyping
/// the result map by them; the body then jumps back to the header. Lowering
/// goes on in the loop's exit block, and the result is the result temporary.
fn lower_comprehension(ctx: &mut FunctionLoweringContext, expr: &Expr) -> (r: Result<Operand, MirError>)
    requires
        old(ctx).ok(),
        expr.kind is ArrayComprehension || expr.kind is MapComprehension,
    ensures
        final(ctx).ok(),
        *final(final(ctx).ctx) == *final(old(ctx).ctx),
        *final(final(ctx).func) == *final(old(ctx).func),
        r is Ok ==> final(ctx).follows(*old(ctx)),
        r matches Ok(o) ==> operand_below(o, final(ctx).func_now().locals@.len() as int),
    decreases expr, 1nat,
{
    let span = expr.span;
    let is_map = match &expr.kind {
        ExprKind::MapComprehension { .. } => true,
        _ => false,
    };
    let (pattern, iterable, condition) = match &expr.kind {
        ExprKind::ArrayComprehension { pattern, iterable, condition, .. } => (pattern, iterable, condition),
        ExprKind::MapComprehension { pattern, iterable, condition, .. } => (pattern, iterable, condition),
        _ => {
            return Err(internal("not a comprehension", span));
        },
    };
    let iter_op = lower_expr(ctx, iterable)?;
    let iter_ty = infer_operand_type(ctx, &iter_op);
    let elem_ty = match &iter_ty {
        MirType::Array(elem) => elem.clone_ty(),
        MirType::String => if is_map { MirType::Int } else { MirType::Char },
        _ => MirType::Int,
    };
    let iter_local = ctx.new_temp(iter_ty);
    ctx.emit_assign(Place::from_local(iter_local), Rvalue::Use(iter_op), span);
    let result = if is_map {
        let t = ctx.new_temp(MirType::MapOf(Box::new(MirType::String), Box::new(MirType::Int)));
        ctx.emit_assign(Place::from_local(t), Rvalue::Aggregate(AggregateKind::Tuple, Vec::new()), span);
        t
    } else {
        let t = ctx.new_temp(MirType::Array(Box::new(MirType::Int)));
        ctx.emit_assign(Place::from_local(t), Rvalue::Aggregate(AggregateKind::Array(MirType::Int), Vec::new()), span);
        t
    };
    let loop_header = ctx.fresh_block();
    let loop_body = ctx.fresh_block();
    let loop_exit = ctx.fresh_block();
    ctx.emit_terminator(TerminatorKind::Goto { target: loop_header }, span);
    ctx.enter_block(loop_header);
    ctx.emit_terminator(TerminatorKind::Goto { target: loop_body }, span);
    ctx.enter_block(loop_body);
    ctx.push_loop(loop_exit, loop_header);
    let ghost pushed = ctx.loop_stack@;
    assert(pushed.drop_last() =~= old(ctx).loop_stack@);
    match &pattern.kind {
        PatternKind::Ident(name) => {
            let _ = ctx.new_named_local(name.clone(), elem_ty);
        },
        _ => {},
    }
    match condition {
        Some(cond_expr) => {
            let cond_val = lower_expr(ctx, cond_expr)?;
            let true_block = ctx.fresh_block();
            let skip_block = ctx.fresh_block();
            ctx.emit_terminator(
                TerminatorKind::SwitchInt { discr: cond_val, targets: SwitchTargets::if_else(true_block, skip_block) },
                span,
            );
            ctx.enter_block(skip_block);
            ctx.emit_terminator(TerminatorKind::Goto { target: loop_header }, span);
            ctx.enter_block(true_block);
        },
        None => {},
    }
    match &expr.kind {
        ExprKind::MapComprehension { key, value, .. } => {
            let key_val = lower_expr(ctx, key)?;
            let value_val = lower_expr(ctx, value)?;
            let key_ty = infer_operand_type(ctx, &key_val);
            let value_ty = infer_operand_type(ctx, &value_val);
            ctx.set_local_type(result, MirType::MapOf(Box::new(key_ty), Box::new(value_ty)));
            let _ = ctx.new_temp(MirType::Unit);
        },
        ExprKind::ArrayComprehension { element, .. } => {
            let elem_val = lower_expr(ctx, element)?;
            let elem_result_ty = infer_operand_type(ctx, &elem_val);
            ctx.set_local_type(result, MirType::Array(Box::new(elem_result_ty)));
            match ctx.ctx.lookup_function("push") {
                Some(push_fn) => {
                    let mut args: Vec<Operand> = Vec::new();
                    args.push(Operand::Move(Place::from_local(result)));
                    args.push(elem_val);
                    let _ = emit_call(ctx, Operand::Constant(Constant::Function(push_fn)), args, MirType::Unit, span);
                },
                None => {},
            }
        },
        _ => {},
    }
    assert(ctx.loop_stack@ == pushed);
    ctx.pop_loop();
    goto_unless_terminated(ctx, loop_header, span);
    ctx.enter_block(loop_exit);
    Ok(Operand::Move(Place::from_local(result)))
}


/// What a lowered binary expression computes: where lowering leaves a block
/// whose last statement computes the source operator `op` (see
/// `lower_expr`), the MIR operator of that statement compares integers as
/// `op` does (`<`, `>`, `<=`, `>=`, `==`, `!=`), adds, subtracts and
/// multiplies as `op` does where the result fits, and for `&`, `|`, `^`,
/// `/` and `%` behaves as those do on `a` and zero, one or itself.
pub proof fn law_lowered_binary_computes_its_operator(block: crate::mir::BasicBlock, o: Operand, op: BinaryOp, a: i64, b: i64)
    requires
        computes_binary(block, o, op),
    ensures
        block.statements@.last().kind matches StatementKind::Assign(_, Rvalue::BinaryOp(m, _, _)) && ({
            let fold = |x: i64, y: i64| crate::optimize::fold_rvalue_spec(crate::optimize::int_op(m, x, y));
            &&& op is Lt ==> fold(a, b) == Some(Constant::Bool(a < b))
            &&& op is Gt ==> fold(a, b) == Some(Constant::Bool(a > b))
            &&& op is LtEq ==> fold(a, b) == Some(Constant::Bool(a <= b))
            &&& op is GtEq ==> fold(a, b) == Some(Constant::Bool(a >= b))
            &&& op is Eq ==> fold(a, b) == Some(Constant::Bool(a == b))
            &&& op is NotEq ==> fold(a, b) == Some(Constant::Bool(a != b))
            &&& op is Add && i64::MIN <= a + b <= i64::MAX ==> fold(a, b) == Some(Constant::Int((a + b) as i64))
            &&& op is Sub && i64::MIN <= a - b <= i64::MAX ==> fold(a, b) == Some(Constant::Int((a - b) as i64))
            &&& op is Mul && i64::MIN <= a * b <= i64::MAX ==> fold(a, b) == Some(Constant::Int((a * b) as i64))
            &&& op is BitAnd ==> fold(a, 0) == Some(Constant::Int(0)) && fold(a, a) == Some(Constant::Int(a))
            &&& op is BitOr ==> fold(a, 0) == Some(Constant::Int(a)) && fold(a, -1i64) == Some(Constant::Int(-1i64))
            &&& op is BitXor ==> fold(a, a) == Some(Constant::Int(0)) && fold(a, 0) == Some(Constant::Int(a))
            &&& op is Div ==> fold(a, 1) == Some(Constant::Int(a))
            &&& op is Mod ==> fold(a, 1) == Some(Constant::Int(0))
        }),
{
    let m = match block.statements@.last().kind {
        StatementKind::Assign(_, Rvalue::BinaryOp(m, _, _)) => m,
        _ => BinOp::Add,
    };
    crate::display::law_printed_symbol_is_the_operation(m, a, b, true);
    crate::display::law_printed_symbol_is_the_operation(m, a, a, true);
    crate::display::law_printed_symbol_is_the_operation(m, a, 0, true);
    crate::display::law_printed_symbol_is_the_operation(m, a, -1i64, true);
    crate::display::law_printed_symbol_is_the_operation(m, a, 1, true);
}

} // verus!
