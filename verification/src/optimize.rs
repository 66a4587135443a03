//! Optimization passes over MIR functions.
//!
//! - Constant folding evaluates integer and boolean operations on constants.
//! - Algebraic simplification applies identities such as `x + 0 = x`.
//! - Dead code elimination empties unreachable blocks and drops assignments
//!   to locals that are never read.
//! - Copy propagation replaces copied locals by their sources.
//! - CFG simplification turns switches on constants into jumps.
//!
//! The meaning of an rvalue is given by `rvalue_value`, an evaluator over
//! integer and boolean constants; the passes are proved to keep it.
//! Floating-point arithmetic is not evaluated here: float operands are left
//! for a pass outside the library.

use vstd::prelude::*;
use vstd::wrapping::i64_specs;
use crate::assoc::AssocMap;
use crate::mir::{
    BasicBlock, BinOp, BlockId, Constant, Local, MirFunction, MirProgram, Operand, Place, Rvalue,
    Statement, StatementKind, Terminator, TerminatorKind, UnOp, Span,
};

verus! {

// ============================================================================
// Integer arithmetic as the target machine computes it
// ============================================================================

/// The absolute value.
pub open spec fn abs_int(a: int) -> int {
    if a >= 0 {
        a
    } else {
        -a
    }
}

/// Division rounding toward zero.
pub open spec fn tdiv(a: int, b: int) -> int {
    let q = abs_int(a) / abs_int(b);
    if (a < 0) != (b < 0) {
        -q
    } else {
        q
    }
}

/// The remainder of division rounding toward zero; it has the sign of `a`.
pub open spec fn trem(a: int, b: int) -> int {
    let r = abs_int(a) % abs_int(b);
    if a < 0 {
        -r
    } else {
        r
    }
}

/// `a` to the power `n`, wrapping around at the bounds of `i64`.
pub open spec fn pow_wrap(a: i64, n: nat) -> i64
    decreases n,
{
    if n == 0 {
        1
    } else {
        i64_specs::wrapping_mul(pow_wrap(a, (n - 1) as nat), a)
    }
}

fn magnitude(a: i64) -> (m: u64)
    ensures
        m == abs_int(a as int),
{
    if a >= 0 {
        a as u64
    } else {
        (0i128 - (a as i128)) as u64
    }
}

fn div_trunc(a: i64, b: i64) -> (q: i64)
    requires
        b != 0,
        !(a == i64::MIN && b == -1),
    ensures
        q == tdiv(a as int, b as int),
{
    let ua = magnitude(a);
    let ub = magnitude(b);
    let uq = ua / ub;
    assert(uq <= ua) by (nonlinear_arith)
        requires
            ub >= 1,
            uq == ua / ub,
    ;
    assert(ub >= 2 ==> uq <= ua / 2) by (nonlinear_arith)
        requires
            ub >= 1,
            uq == ua / ub,
    ;
    if (a < 0) != (b < 0) {
        (0i128 - (uq as i128)) as i64
    } else {
        assert(uq <= i64::MAX) by {
            if a == i64::MIN {
                assert(ub >= 2);
            }
        }
        uq as i64
    }
}

fn rem_trunc(a: i64, b: i64) -> (r: i64)
    requires
        b != 0,
    ensures
        r == trem(a as int, b as int),
{
    let ua = magnitude(a);
    let ub = magnitude(b);
    let ur = ua % ub;
    if a < 0 {
        (0i128 - (ur as i128)) as i64
    } else {
        ur as i64
    }
}

fn pow_small(a: i64, n: u32) -> (r: i64)
    ensures
        r == pow_wrap(a, n as nat),
{
    let mut r: i64 = 1;
    let mut k: u32 = 0;
    while k < n
        invariant
            k <= n,
            r == pow_wrap(a, k as nat),
        decreases n - k,
    {
        r = r.wrapping_mul(a);
        k = k + 1;
    }
    r
}

// ============================================================================
// Folding constants
// ============================================================================

/// What folding gives for a binary operation on two integers.
pub open spec fn fold_int_binary(op: BinOp, a: i64, b: i64) -> Option<Constant> {
    match op {
        BinOp::Add => Some(Constant::Int(i64_specs::wrapping_add(a, b))),
        BinOp::Sub => Some(Constant::Int(i64_specs::wrapping_sub(a, b))),
        BinOp::Mul => Some(Constant::Int(i64_specs::wrapping_mul(a, b))),
        BinOp::Div => if b != 0 {
            Some(Constant::Int(tdiv(a as int, b as int) as i64))
        } else {
            None
        },
        BinOp::Rem => if b != 0 {
            Some(Constant::Int(trem(a as int, b as int) as i64))
        } else {
            None
        },
        BinOp::Eq => Some(Constant::Bool(a == b)),
        BinOp::Ne => Some(Constant::Bool(a != b)),
        BinOp::Lt => Some(Constant::Bool(a < b)),
        BinOp::Le => Some(Constant::Bool(a <= b)),
        BinOp::Gt => Some(Constant::Bool(a > b)),
        BinOp::Ge => Some(Constant::Bool(a >= b)),
        BinOp::BitAnd => Some(Constant::Int(a & b)),
        BinOp::BitOr => Some(Constant::Int(a | b)),
        BinOp::BitXor => Some(Constant::Int(a ^ b)),
        BinOp::Shl => if 0 <= b < 64 {
            Some(Constant::Int(i64_specs::wrapping_shl(a, b as u32)))
        } else {
            None
        },
        BinOp::Shr => if 0 <= b < 64 {
            Some(Constant::Int(i64_specs::wrapping_shr(a, b as u32)))
        } else {
            None
        },
        BinOp::Pow => if 0 <= b <= 20 {
            Some(Constant::Int(pow_wrap(a, b as nat)))
        } else {
            None
        },
        _ => None,
    }
}

/// What folding gives for a binary operation on two constants: integer
/// and boolean operations are evaluated, anything else is left alone.
pub open spec fn fold_binary_spec(op: BinOp, l: Constant, r: Constant) -> Option<Constant> {
    match l {
        Constant::Int(a) => match r {
            Constant::Int(b) => fold_int_binary(op, a, b),
            _ => None,
        },
        Constant::Bool(a) => match r {
            Constant::Bool(b) => match op {
                BinOp::And => Some(Constant::Bool(a && b)),
                BinOp::Or => Some(Constant::Bool(a || b)),
                BinOp::Eq => Some(Constant::Bool(a == b)),
                BinOp::Ne => Some(Constant::Bool(a != b)),
                _ => None,
            },
            _ => None,
        },
        _ => None,
    }
}

/// The sign bit of a 64-bit float.
pub open spec fn float_sign_bit() -> u64 {
    0x8000_0000_0000_0000u64
}

/// What folding gives for a unary operation on a constant; negating a
/// float flips its sign bit.
pub open spec fn fold_unary_spec(op: UnOp, c: Constant) -> Option<Constant> {
    match op {
        UnOp::Neg => match c {
            Constant::Int(n) => Some(Constant::Int((-n) as i64)),
            Constant::Float(f) => Some(Constant::Float(f ^ float_sign_bit())),
            _ => None,
        },
        UnOp::Not => match c {
            Constant::Bool(b) => Some(Constant::Bool(!b)),
            Constant::Int(n) => Some(Constant::Int(!n)),
            _ => None,
        },
        _ => None,
    }
}

/// The folds whose machine arithmetic overflows: `i64::MIN / -1`,
/// `i64::MIN % -1` and `-i64::MIN`.
pub open spec fn fold_overflows(rv: Rvalue) -> bool {
    match rv {
        Rvalue::BinaryOp(op, Operand::Constant(Constant::Int(a)), Operand::Constant(Constant::Int(b))) =>
            (op == BinOp::Div || op == BinOp::Rem) && a == i64::MIN && b == -1,
        Rvalue::UnaryOp(UnOp::Neg, Operand::Constant(Constant::Int(n))) => n == i64::MIN,
        _ => false,
    }
}

/// What folding gives for an rvalue: an operation on constants that folds.
pub open spec fn fold_rvalue_spec(rv: Rvalue) -> Option<Constant> {
    match rv {
        Rvalue::BinaryOp(op, Operand::Constant(l), Operand::Constant(r)) => fold_binary_spec(op, l, r),
        Rvalue::UnaryOp(op, Operand::Constant(c)) => fold_unary_spec(op, c),
        _ => None,
    }
}

/// Whether folding the statement would overflow.
pub open spec fn stmt_fold_overflows(s: Statement) -> bool {
    match s.kind {
        StatementKind::Assign(_, rv) => fold_overflows(rv),
        _ => false,
    }
}

/// A statement after folding: an assignment of a foldable rvalue assigns
/// the constant instead.
pub open spec fn fold_statement(s: Statement) -> Statement {
    match s.kind {
        StatementKind::Assign(p, rv) => match fold_rvalue_spec(rv) {
            Some(c) => Statement {
                kind: StatementKind::Assign(p, Rvalue::Use(Operand::Constant(c))),
                span: s.span,
            },
            None => s,
        },
        _ => s,
    }
}

/// No statement of the blocks would overflow when folded.
pub open spec fn blocks_fold_safely(blocks: Seq<BasicBlock>) -> bool {
    forall|b: int, i: int|
        0 <= b < blocks.len() && 0 <= i < blocks[b].statements@.len()
            ==> !stmt_fold_overflows(#[trigger] blocks[b].statements@[i])
}

fn fold_binary_op(op: BinOp, left: &Constant, right: &Constant) -> (r: Option<Operand>)
    requires
        !fold_overflows(Rvalue::BinaryOp(op, Operand::Constant(*left), Operand::Constant(*right))),
    ensures
        match fold_binary_spec(op, *left, *right) {
            Some(c) => r == Some(Operand::Constant(c)),
            None => r is None,
        },
{
    match (left, right) {
        (Constant::Int(a), Constant::Int(b)) => {
            let a = *a;
            let b = *b;
            let c = match op {
                BinOp::Add => Some(Constant::Int(a.wrapping_add(b))),
                BinOp::Sub => Some(Constant::Int(a.wrapping_sub(b))),
                BinOp::Mul => Some(Constant::Int(a.wrapping_mul(b))),
                BinOp::Div => if b != 0 {
                    Some(Constant::Int(div_trunc(a, b)))
                } else {
                    None
                },
                BinOp::Rem => if b != 0 {
                    Some(Constant::Int(rem_trunc(a, b)))
                } else {
                    None
                },
                BinOp::Eq => Some(Constant::Bool(a == b)),
                BinOp::Ne => Some(Constant::Bool(a != b)),
                BinOp::Lt => Some(Constant::Bool(a < b)),
                BinOp::Le => Some(Constant::Bool(a <= b)),
                BinOp::Gt => Some(Constant::Bool(a > b)),
                BinOp::Ge => Some(Constant::Bool(a >= b)),
                BinOp::BitAnd => Some(Constant::Int(a & b)),
                BinOp::BitOr => Some(Constant::Int(a | b)),
                BinOp::BitXor => Some(Constant::Int(a ^ b)),
                BinOp::Shl => if 0 <= b && b < 64 {
                    Some(Constant::Int(a.wrapping_shl(b as u32)))
                } else {
                    None
                },
                BinOp::Shr => if 0 <= b && b < 64 {
                    Some(Constant::Int(a.wrapping_shr(b as u32)))
                } else {
                    None
                },
                BinOp::Pow => if 0 <= b && b <= 20 {
                    Some(Constant::Int(pow_small(a, b as u32)))
                } else {
                    None
                },
                _ => None,
            };
            match c {
                Some(c) => Some(Operand::Constant(c)),
                None => None,
            }
        },
        (Constant::Bool(a), Constant::Bool(b)) => {
            let a = *a;
            let b = *b;
            match op {
                BinOp::And => Some(Operand::Constant(Constant::Bool(a && b))),
                BinOp::Or => Some(Operand::Constant(Constant::Bool(a || b))),
                BinOp::Eq => Some(Operand::Constant(Constant::Bool(a == b))),
                BinOp::Ne => Some(Operand::Constant(Constant::Bool(a != b))),
                _ => None,
            }
        },
        _ => None,
    }
}

fn fold_unary_op(op: UnOp, operand: &Constant) -> (r: Option<Operand>)
    requires
        !fold_overflows(Rvalue::UnaryOp(op, Operand::Constant(*operand))),
    ensures
        match fold_unary_spec(op, *operand) {
            Some(c) => r == Some(Operand::Constant(c)),
            None => r is None,
        },
{
    match (op, operand) {
        (UnOp::Neg, Constant::Int(n)) => Some(Operand::Constant(Constant::Int(-*n))),
        (UnOp::Neg, Constant::Float(f)) => Some(Operand::Constant(Constant::Float(*f ^ 0x8000_0000_0000_0000u64))),
        (UnOp::Not, Constant::Bool(b)) => Some(Operand::Constant(Constant::Bool(!*b))),
        (UnOp::Not, Constant::Int(n)) => Some(Operand::Constant(Constant::Int(!*n))),
        _ => None,
    }
}

/// The constant an operation on constants folds to, if it folds.
pub fn try_fold_rvalue(rvalue: &Rvalue) -> (r: Option<Operand>)
    requires
        !fold_overflows(*rvalue),
    ensures
        match fold_rvalue_spec(*rvalue) {
            Some(c) => r == Some(Operand::Constant(c)),
            None => r is None,
        },
{
    match rvalue {
        Rvalue::BinaryOp(op, Operand::Constant(l), Operand::Constant(r)) => fold_binary_op(*op, l, r),
        Rvalue::UnaryOp(op, Operand::Constant(c)) => fold_unary_op(*op, c),
        _ => None,
    }
}

fn fold_statement_exec(s: Statement) -> (r: Statement)
    requires
        !stmt_fold_overflows(s),
    ensures
        r == fold_statement(s),
{
    let Statement { kind, span } = s;
    match kind {
        StatementKind::Assign(p, rv) => {
            let folded = try_fold_rvalue(&rv);
            match folded {
                Some(o) => Statement { kind: StatementKind::Assign(p, Rvalue::Use(o)), span },
                None => Statement { kind: StatementKind::Assign(p, rv), span },
            }
        },
        other => Statement { kind: other, span },
    }
}

// ============================================================================
// Rewriting the statements of a function
// ============================================================================

/// Each element of `v`, rewritten by `f`, in order.
fn map_vec<T, F: Fn(T) -> T>(v: Vec<T>, f: &F, Ghost(rel): Ghost<spec_fn(T, T) -> bool>) -> (r: Vec<T>)
    requires
        forall|i: int| 0 <= i < v@.len() ==> f.requires((v@[i],)),
        forall|x: T, y: T| f.ensures((x,), y) ==> rel(x, y),
    ensures
        r@.len() == v@.len(),
        forall|i: int| 0 <= i < v@.len() ==> rel(v@[i], #[trigger] r@[i]),
{
    let ghost orig = v@;
    let mut rest = v;
    let mut out: Vec<T> = Vec::new();
    while rest.len() > 0
        invariant
            out@.len() + rest@.len() == orig.len(),
            rest@ == orig.skip(out@.len() as int),
            forall|i: int| 0 <= i < orig.len() ==> f.requires((orig[i],)),
            forall|x: T, y: T| f.ensures((x,), y) ==> rel(x, y),
            forall|i: int| 0 <= i < out@.len() ==> rel(orig[i], #[trigger] out@[i]),
        decreases rest@.len(),
    {
        let ghost k = out@.len() as int;
        let x = rest.remove(0);
        assert(x == orig[k]);
        let y = f(x);
        out.push(y);
        assert(rest@ =~= orig.skip(out@.len() as int));
    }
    out
}

/// The blocks keep their identifiers and terminators, and each statement
/// is rewritten by `g`.
pub open spec fn blocks_map_statements(
    before: Seq<BasicBlock>,
    after: Seq<BasicBlock>,
    g: spec_fn(Statement) -> Statement,
) -> bool {
    &&& after.len() == before.len()
    &&& forall|b: int| 0 <= b < before.len() ==> {
        &&& (#[trigger] after[b]).id == before[b].id
        &&& after[b].terminator == before[b].terminator
        &&& after[b].statements@.len() == before[b].statements@.len()
        &&& forall|i: int| 0 <= i < before[b].statements@.len()
            ==> #[trigger] after[b].statements@[i] == g(before[b].statements@[i])
    }
}

/// Everything but the blocks is unchanged.
pub open spec fn same_but_blocks(f: MirFunction, g: MirFunction) -> bool {
    &&& g.name == f.name
    &&& g.span == f.span
    &&& g.params == f.params
    &&& g.return_ty == f.return_ty
    &&& g.locals == f.locals
    &&& g.is_public == f.is_public
    &&& g.linkage == f.linkage
    &&& g.effect_row == f.effect_row
    &&& g.evidence_params == f.evidence_params
    &&& g.evidence_layout == f.evidence_layout
    &&& g.handler_blocks == f.handler_blocks
    &&& g.effect_statements == f.effect_statements
    &&& g.effect_terminators == f.effect_terminators
    &&& g.type_params == f.type_params
    &&& g.generic_origin == f.generic_origin
    &&& g.type_args == f.type_args
    &&& g.contract == f.contract
    &&& g.attributes == f.attributes
}

fn fold_block(b: BasicBlock) -> (r: BasicBlock)
    requires
        forall|i: int| 0 <= i < b.statements@.len() ==> !stmt_fold_overflows(#[trigger] b.statements@[i]),
    ensures
        r.id == b.id,
        r.terminator == b.terminator,
        r.statements@.len() == b.statements@.len(),
        forall|i: int| 0 <= i < b.statements@.len() ==> #[trigger] r.statements@[i] == fold_statement(b.statements@[i]),
{
    let BasicBlock { id, statements, terminator } = b;
    let statements = map_vec(statements, &fold_statement_exec, Ghost(|s: Statement, t: Statement| t == fold_statement(s)));
    BasicBlock { id, statements, terminator }
}

/// Folds operations on constants in every statement.
///
/// Examples: `1 + 2` becomes `3`; `true && false` becomes `false`.
pub fn constant_fold(func: &mut MirFunction)
    requires
        blocks_fold_safely(old(func).blocks@),
    ensures
        folded(*old(func), *final(func)),
{
    let mut blocks: Vec<BasicBlock> = Vec::new();
    std::mem::swap(&mut blocks, &mut func.blocks);
    let ghost before = blocks@;
    assert forall|k: int| 0 <= k < blocks@.len() implies call_requires(fold_block, (blocks@[k],)) by {
        assert forall|i: int| 0 <= i < blocks@[k].statements@.len() implies !stmt_fold_overflows(#[trigger] blocks@[k].statements@[i]) by {
            assert(!stmt_fold_overflows(before[k].statements@[i]));
        }
    }
    let blocks = map_vec(
        blocks,
        &fold_block,
        Ghost(|a: BasicBlock, b: BasicBlock| {
            &&& b.id == a.id
            &&& b.terminator == a.terminator
            &&& b.statements@.len() == a.statements@.len()
            &&& forall|i: int| 0 <= i < a.statements@.len() ==> #[trigger] b.statements@[i] == fold_statement(a.statements@[i])
        }),
    );
    func.blocks = blocks;
}


// ============================================================================
// The value of an rvalue
// ============================================================================

/// The value of an operand when each local in `env` holds its constant;
/// places with projections have no value here.
pub open spec fn operand_value(o: Operand, env: Map<Local, Constant>) -> Option<Constant> {
    match o {
        Operand::Constant(c) => Some(c),
        Operand::Copy(p) => place_value(p, env),
        Operand::Move(p) => place_value(p, env),
    }
}

/// The value held in a place without projections.
pub open spec fn place_value(p: Place, env: Map<Local, Constant>) -> Option<Constant> {
    if p.projection@.len() == 0 && env.contains_key(p.local) {
        Some(env[p.local])
    } else {
        None
    }
}

/// The value of an rvalue, for uses and for integer and boolean operations;
/// `None` where this evaluator gives none.
pub open spec fn rvalue_value(rv: Rvalue, env: Map<Local, Constant>) -> Option<Constant> {
    match rv {
        Rvalue::Use(o) => operand_value(o, env),
        Rvalue::BinaryOp(op, l, r) => match (operand_value(l, env), operand_value(r, env)) {
            (Some(a), Some(b)) => fold_binary_spec(op, a, b),
            _ => None,
        },
        Rvalue::UnaryOp(op, o) => match operand_value(o, env) {
            Some(a) => fold_unary_spec(op, a),
            None => None,
        },
        _ => None,
    }
}

/// Folding keeps the value of every statement: where the old rvalue has a
/// value, the folded one has the same.
pub proof fn lemma_fold_keeps_value(s: Statement, env: Map<Local, Constant>)
    ensures
        match (s.kind, fold_statement(s).kind) {
            (StatementKind::Assign(p, rv), StatementKind::Assign(q, rv2)) =>
                q == p && (rvalue_value(rv, env) is Some ==> rvalue_value(rv2, env) == rvalue_value(rv, env)),
            _ => fold_statement(s) == s,
        },
{
}

// ============================================================================
// Algebraic simplification
// ============================================================================

/// Whether float bits are those of `0.0` or `-0.0`.
pub open spec fn is_float_zero(bits: u64) -> bool {
    bits == 0 || bits == 0x8000_0000_0000_0000u64
}

/// Whether float bits are those of `1.0`.
pub open spec fn is_float_one(bits: u64) -> bool {
    bits == 0x3FF0_0000_0000_0000u64
}

/// Identities with a constant on the right: `x + 0`, `x - 0`, `x * 1`,
/// `x * 0`, `x / 1`, `x // 1`, `x ** 0`, `x ** 1`, `x | 0`, `x & -1`,
/// `x ^ 0`, `x << 0`, `x >> 0`, `x && true`, `x && false`, `x || false`,
/// `x || true`, and for floats `x + 0.0`, `x - 0.0`, `x * 1.0`, `x * 0.0`,
/// `x / 1.0`.
pub open spec fn right_identity(op: BinOp, left: Operand, right: Operand) -> Option<Rvalue> {
    match right {
        Operand::Constant(Constant::Int(v)) => {
            if (op == BinOp::Add || op == BinOp::Sub) && v == 0 {
                Some(Rvalue::Use(left))
            } else if op == BinOp::Mul && v == 1 {
                Some(Rvalue::Use(left))
            } else if op == BinOp::Mul && v == 0 {
                Some(Rvalue::Use(Operand::Constant(Constant::Int(0))))
            } else if (op == BinOp::Div || op == BinOp::IntDiv) && v == 1 {
                Some(Rvalue::Use(left))
            } else if op == BinOp::Pow && v == 0 {
                Some(Rvalue::Use(Operand::Constant(Constant::Int(1))))
            } else if op == BinOp::Pow && v == 1 {
                Some(Rvalue::Use(left))
            } else if (op == BinOp::BitOr || op == BinOp::BitXor || op == BinOp::Shl || op == BinOp::Shr) && v == 0 {
                Some(Rvalue::Use(left))
            } else if op == BinOp::BitAnd && v == -1 {
                Some(Rvalue::Use(left))
            } else {
                None
            }
        },
        Operand::Constant(Constant::Bool(v)) => {
            if op == BinOp::And {
                if v {
                    Some(Rvalue::Use(left))
                } else {
                    Some(Rvalue::Use(Operand::Constant(Constant::Bool(false))))
                }
            } else if op == BinOp::Or {
                if v {
                    Some(Rvalue::Use(Operand::Constant(Constant::Bool(true))))
                } else {
                    Some(Rvalue::Use(left))
                }
            } else {
                None
            }
        },
        Operand::Constant(Constant::Float(f)) => {
            if (op == BinOp::Add || op == BinOp::Sub) && is_float_zero(f) {
                Some(Rvalue::Use(left))
            } else if op == BinOp::Mul && is_float_one(f) {
                Some(Rvalue::Use(left))
            } else if op == BinOp::Mul && is_float_zero(f) {
                Some(Rvalue::Use(Operand::Constant(Constant::Float(0))))
            } else if op == BinOp::Div && is_float_one(f) {
                Some(Rvalue::Use(left))
            } else {
                None
            }
        },
        _ => None,
    }
}

/// Identities with a constant on the left: `0 + x`, `1 * x`, `0 * x`,
/// `0 | x`, `-1 & x`, `0 ^ x`, `true && x`, `false && x`, `false || x`,
/// `true || x`, and for floats `0.0 + x`, `1.0 * x`, `0.0 * x`.
pub open spec fn left_identity(op: BinOp, left: Operand, right: Operand) -> Option<Rvalue> {
    match left {
        Operand::Constant(Constant::Int(v)) => {
            if op == BinOp::Add && v == 0 {
                Some(Rvalue::Use(right))
            } else if op == BinOp::Mul && v == 1 {
                Some(Rvalue::Use(right))
            } else if op == BinOp::Mul && v == 0 {
                Some(Rvalue::Use(Operand::Constant(Constant::Int(0))))
            } else if (op == BinOp::BitOr || op == BinOp::BitXor) && v == 0 {
                Some(Rvalue::Use(right))
            } else if op == BinOp::BitAnd && v == -1 {
                Some(Rvalue::Use(right))
            } else {
                None
            }
        },
        Operand::Constant(Constant::Bool(v)) => {
            if op == BinOp::And {
                if v {
                    Some(Rvalue::Use(right))
                } else {
                    Some(Rvalue::Use(Operand::Constant(Constant::Bool(false))))
                }
            } else if op == BinOp::Or {
                if v {
                    Some(Rvalue::Use(Operand::Constant(Constant::Bool(true))))
                } else {
                    Some(Rvalue::Use(right))
                }
            } else {
                None
            }
        },
        Operand::Constant(Constant::Float(f)) => {
            if op == BinOp::Add && is_float_zero(f) {
                Some(Rvalue::Use(right))
            } else if op == BinOp::Mul && is_float_one(f) {
                Some(Rvalue::Use(right))
            } else if op == BinOp::Mul && is_float_zero(f) {
                Some(Rvalue::Use(Operand::Constant(Constant::Float(0))))
            } else {
                None
            }
        },
        _ => None,
    }
}

/// The place an operand reads, if it reads one.
pub open spec fn operand_place(o: Operand) -> Option<Place> {
    match o {
        Operand::Copy(p) => Some(p),
        Operand::Move(p) => Some(p),
        Operand::Constant(_) => None,
    }
}

/// Whether both operands read the same local without projections.
pub open spec fn same_local(left: Operand, right: Operand) -> bool {
    &&& operand_place(left) is Some
    &&& operand_place(right) is Some
    &&& operand_place(left).unwrap().local == operand_place(right).unwrap().local
    &&& operand_place(left).unwrap().projection@.len() == 0
    &&& operand_place(right).unwrap().projection@.len() == 0
}

/// Identities of an operation on one local twice: `x - x` and `x ^ x` are
/// 0, `x == x`, `x <= x`, `x >= x` are true, `x != x`, `x < x`, `x > x`
/// are false, and `x & x`, `x | x`, `x && x`, `x || x` are `x`.
pub open spec fn self_identity(op: BinOp, left: Operand, right: Operand) -> Option<Rvalue> {
    if same_local(left, right) {
        match op {
            BinOp::Sub | BinOp::BitXor => Some(Rvalue::Use(Operand::Constant(Constant::Int(0)))),
            BinOp::Eq | BinOp::Le | BinOp::Ge => Some(Rvalue::Use(Operand::Constant(Constant::Bool(true)))),
            BinOp::Ne | BinOp::Lt | BinOp::Gt => Some(Rvalue::Use(Operand::Constant(Constant::Bool(false)))),
            BinOp::BitAnd | BinOp::BitOr | BinOp::And | BinOp::Or => Some(Rvalue::Use(left)),
            _ => None,
        }
    } else {
        None
    }
}

/// The simplification of a binary operation: the right-hand identities
/// first, then the left-hand ones, then those of one local twice.
pub open spec fn simplify_binary_spec(op: BinOp, left: Operand, right: Operand) -> Option<Rvalue> {
    match right_identity(op, left, right) {
        Some(r) => Some(r),
        None => match left_identity(op, left, right) {
            Some(r) => Some(r),
            None => self_identity(op, left, right),
        },
    }
}

/// The simplification of a unary operation: `!true` is `false` and
/// `!false` is `true`.
pub open spec fn simplify_unary_spec(op: UnOp, operand: Operand) -> Option<Rvalue> {
    match (op, operand) {
        (UnOp::Not, Operand::Constant(Constant::Bool(b))) => Some(Rvalue::Use(Operand::Constant(Constant::Bool(!b)))),
        _ => None,
    }
}

/// An rvalue after simplification.
pub open spec fn simplify_rvalue_spec(rv: Rvalue) -> Rvalue {
    match rv {
        Rvalue::BinaryOp(op, l, r) => match simplify_binary_spec(op, l, r) {
            Some(s) => s,
            None => rv,
        },
        Rvalue::UnaryOp(op, o) => match simplify_unary_spec(op, o) {
            Some(s) => s,
            None => rv,
        },
        _ => rv,
    }
}

/// A statement after simplification of its rvalue.
pub open spec fn simplify_statement(s: Statement) -> Statement {
    match s.kind {
        StatementKind::Assign(p, rv) => Statement {
            kind: StatementKind::Assign(p, simplify_rvalue_spec(rv)),
            span: s.span,
        },
        _ => s,
    }
}

/// What a binary simplification keeps.
enum Outcome {
    KeepLeft,
    KeepRight,
    Value(Constant),
    Unchanged,
}

fn is_float_zero_exec(bits: u64) -> (b: bool)
    ensures
        b == is_float_zero(bits),
{
    bits == 0 || bits == 0x8000_0000_0000_0000u64
}

fn is_float_one_exec(bits: u64) -> (b: bool)
    ensures
        b == is_float_one(bits),
{
    bits == 0x3FF0_0000_0000_0000u64
}

fn decide_right(op: BinOp, right: &Operand) -> (d: Outcome)
    ensures
        forall|left: Operand| match d {
            Outcome::KeepLeft => right_identity(op, left, *right) == Some(Rvalue::Use(left)),
            Outcome::KeepRight => false,
            Outcome::Value(c) => right_identity(op, left, *right) == Some(Rvalue::Use(Operand::Constant(c))),
            Outcome::Unchanged => right_identity(op, left, *right) is None,
        },
{
    match right {
        Operand::Constant(Constant::Int(v)) => {
            let v = *v;
            if (op == BinOp::Add || op == BinOp::Sub) && v == 0 {
                Outcome::KeepLeft
            } else if op == BinOp::Mul && v == 1 {
                Outcome::KeepLeft
            } else if op == BinOp::Mul && v == 0 {
                Outcome::Value(Constant::Int(0))
            } else if (op == BinOp::Div || op == BinOp::IntDiv) && v == 1 {
                Outcome::KeepLeft
            } else if op == BinOp::Pow && v == 0 {
                Outcome::Value(Constant::Int(1))
            } else if op == BinOp::Pow && v == 1 {
                Outcome::KeepLeft
            } else if (op == BinOp::BitOr || op == BinOp::BitXor || op == BinOp::Shl || op == BinOp::Shr) && v == 0 {
                Outcome::KeepLeft
            } else if op == BinOp::BitAnd && v == -1 {
                Outcome::KeepLeft
            } else {
                Outcome::Unchanged
            }
        },
        Operand::Constant(Constant::Bool(v)) => {
            if op == BinOp::And {
                if *v {
                    Outcome::KeepLeft
                } else {
                    Outcome::Value(Constant::Bool(false))
                }
            } else if op == BinOp::Or {
                if *v {
                    Outcome::Value(Constant::Bool(true))
                } else {
                    Outcome::KeepLeft
                }
            } else {
                Outcome::Unchanged
            }
        },
        Operand::Constant(Constant::Float(f)) => {
            let f = *f;
            if (op == BinOp::Add || op == BinOp::Sub) && is_float_zero_exec(f) {
                Outcome::KeepLeft
            } else if op == BinOp::Mul && is_float_one_exec(f) {
                Outcome::KeepLeft
            } else if op == BinOp::Mul && is_float_zero_exec(f) {
                Outcome::Value(Constant::Float(0))
            } else if op == BinOp::Div && is_float_one_exec(f) {
                Outcome::KeepLeft
            } else {
                Outcome::Unchanged
            }
        },
        _ => Outcome::Unchanged,
    }
}

fn decide_left(op: BinOp, left: &Operand) -> (d: Outcome)
    ensures
        forall|right: Operand| match d {
            Outcome::KeepLeft => false,
            Outcome::KeepRight => left_identity(op, *left, right) == Some(Rvalue::Use(right)),
            Outcome::Value(c) => left_identity(op, *left, right) == Some(Rvalue::Use(Operand::Constant(c))),
            Outcome::Unchanged => left_identity(op, *left, right) is None,
        },
{
    match left {
        Operand::Constant(Constant::Int(v)) => {
            let v = *v;
            if op == BinOp::Add && v == 0 {
                Outcome::KeepRight
            } else if op == BinOp::Mul && v == 1 {
                Outcome::KeepRight
            } else if op == BinOp::Mul && v == 0 {
                Outcome::Value(Constant::Int(0))
            } else if (op == BinOp::BitOr || op == BinOp::BitXor) && v == 0 {
                Outcome::KeepRight
            } else if op == BinOp::BitAnd && v == -1 {
                Outcome::KeepRight
            } else {
                Outcome::Unchanged
            }
        },
        Operand::Constant(Constant::Bool(v)) => {
            if op == BinOp::And {
                if *v {
                    Outcome::KeepRight
                } else {
                    Outcome::Value(Constant::Bool(false))
                }
            } else if op == BinOp::Or {
                if *v {
                    Outcome::Value(Constant::Bool(true))
                } else {
                    Outcome::KeepRight
                }
            } else {
                Outcome::Unchanged
            }
        },
        Operand::Constant(Constant::Float(f)) => {
            let f = *f;
            if op == BinOp::Add && is_float_zero_exec(f) {
                Outcome::KeepRight
            } else if op == BinOp::Mul && is_float_one_exec(f) {
                Outcome::KeepRight
            } else if op == BinOp::Mul && is_float_zero_exec(f) {
                Outcome::Value(Constant::Float(0))
            } else {
                Outcome::Unchanged
            }
        },
        _ => Outcome::Unchanged,
    }
}

fn is_same_local(left: &Operand, right: &Operand) -> (b: bool)
    ensures
        b == same_local(*left, *right),
{
    let lp = match left {
        Operand::Copy(p) => p,
        Operand::Move(p) => p,
        Operand::Constant(_) => {
            return false;
        },
    };
    let rp = match right {
        Operand::Copy(p) => p,
        Operand::Move(p) => p,
        Operand::Constant(_) => {
            return false;
        },
    };
    lp.local.0 == rp.local.0 && lp.projection.len() == 0 && rp.projection.len() == 0
}

fn decide_self(op: BinOp, left: &Operand, right: &Operand) -> (d: Outcome)
    ensures
        match d {
            Outcome::KeepLeft => self_identity(op, *left, *right) == Some(Rvalue::Use(*left)),
            Outcome::KeepRight => false,
            Outcome::Value(c) => self_identity(op, *left, *right) == Some(Rvalue::Use(Operand::Constant(c))),
            Outcome::Unchanged => self_identity(op, *left, *right) is None,
        },
{
    if is_same_local(left, right) {
        match op {
            BinOp::Sub | BinOp::BitXor => Outcome::Value(Constant::Int(0)),
            BinOp::Eq | BinOp::Le | BinOp::Ge => Outcome::Value(Constant::Bool(true)),
            BinOp::Ne | BinOp::Lt | BinOp::Gt => Outcome::Value(Constant::Bool(false)),
            BinOp::BitAnd | BinOp::BitOr | BinOp::And | BinOp::Or => Outcome::KeepLeft,
            _ => Outcome::Unchanged,
        }
    } else {
        Outcome::Unchanged
    }
}

fn simplify_rvalue(rv: Rvalue) -> (r: Rvalue)
    ensures
        r == simplify_rvalue_spec(rv),
{
    match rv {
        Rvalue::BinaryOp(op, left, right) => {
            let mut d = decide_right(op, &right);
            if let Outcome::Unchanged = d {
                d = decide_left(op, &left);
                if let Outcome::Unchanged = d {
                    d = decide_self(op, &left, &right);
                }
            }
            match d {
                Outcome::KeepLeft => Rvalue::Use(left),
                Outcome::KeepRight => Rvalue::Use(right),
                Outcome::Value(c) => Rvalue::Use(Operand::Constant(c)),
                Outcome::Unchanged => Rvalue::BinaryOp(op, left, right),
            }
        },
        Rvalue::UnaryOp(op, operand) => {
            match (op, &operand) {
                (UnOp::Not, Operand::Constant(Constant::Bool(b))) => Rvalue::Use(Operand::Constant(Constant::Bool(!*b))),
                _ => Rvalue::UnaryOp(op, operand),
            }
        },
        other => other,
    }
}

/// Whether two operands are the same: the same constant, or the same kind
/// of read of the same place.
pub open spec fn operand_same(a: Operand, b: Operand) -> bool {
    match (a, b) {
        (Operand::Copy(p), Operand::Copy(q)) => p.local == q.local && p.projection@ == q.projection@,
        (Operand::Move(p), Operand::Move(q)) => p.local == q.local && p.projection@ == q.projection@,
        (Operand::Constant(c), Operand::Constant(d)) => c == d,
        _ => false,
    }
}

fn copy_operand(o: &Operand) -> (r: Operand)
    ensures
        operand_same(r, *o),
{
    match o {
        Operand::Copy(p) => Operand::Copy(Place { local: p.local, projection: copy_projection(&p.projection) }),
        Operand::Move(p) => Operand::Move(Place { local: p.local, projection: copy_projection(&p.projection) }),
        Operand::Constant(c) => Operand::Constant(*c),
    }
}

fn copy_projection(v: &Vec<crate::mir::PlaceElem>) -> (r: Vec<crate::mir::PlaceElem>)
    ensures
        r@ == v@,
{
    let mut r: Vec<crate::mir::PlaceElem> = Vec::new();
    let mut i: usize = 0;
    while i < v.len()
        invariant
            0 <= i <= v@.len(),
            r@ == v@.take(i as int),
        decreases v@.len() - i,
    {
        r.push(v[i]);
        i = i + 1;
        assert(r@ =~= v@.take(i as int));
    }
    assert(v@.take(v@.len() as int) =~= v@);
    r
}

/// The simplification of an rvalue by algebraic identities, if one
/// applies; it is always a use of an operand.
pub fn try_algebraic_simplify(rvalue: &Rvalue) -> (r: Option<Rvalue>)
    ensures
        match rvalue {
            Rvalue::BinaryOp(op, l, rr) => match simplify_binary_spec(*op, *l, *rr) {
                Some(Rvalue::Use(o)) => r matches Some(Rvalue::Use(o2)) && operand_same(o2, o),
                _ => r is None,
            },
            Rvalue::UnaryOp(op, o) => match simplify_unary_spec(*op, *o) {
                Some(Rvalue::Use(x)) => r matches Some(Rvalue::Use(o2)) && operand_same(o2, x),
                _ => r is None,
            },
            _ => r is None,
        },
{
    match rvalue {
        Rvalue::BinaryOp(op, left, right) => {
            let mut d = decide_right(*op, right);
            if let Outcome::Unchanged = d {
                d = decide_left(*op, left);
                if let Outcome::Unchanged = d {
                    d = decide_self(*op, left, right);
                }
            }
            match d {
                Outcome::KeepLeft => Some(Rvalue::Use(copy_operand(left))),
                Outcome::KeepRight => Some(Rvalue::Use(copy_operand(right))),
                Outcome::Value(c) => Some(Rvalue::Use(Operand::Constant(c))),
                Outcome::Unchanged => None,
            }
        },
        Rvalue::UnaryOp(op, operand) => {
            match (op, operand) {
                (UnOp::Not, Operand::Constant(Constant::Bool(b))) => Some(Rvalue::Use(Operand::Constant(Constant::Bool(!*b)))),
                _ => None,
            }
        },
        _ => None,
    }
}

fn simplify_statement_exec(s: Statement) -> (r: Statement)
    ensures
        r == simplify_statement(s),
{
    let Statement { kind, span } = s;
    match kind {
        StatementKind::Assign(p, rv) => Statement { kind: StatementKind::Assign(p, simplify_rvalue(rv)), span },
        other => Statement { kind: other, span },
    }
}

fn simplify_block(b: BasicBlock) -> (r: BasicBlock)
    ensures
        r.id == b.id,
        r.terminator == b.terminator,
        r.statements@.len() == b.statements@.len(),
        forall|i: int| 0 <= i < b.statements@.len() ==> #[trigger] r.statements@[i] == simplify_statement(b.statements@[i]),
{
    let BasicBlock { id, statements, terminator } = b;
    let statements = map_vec(statements, &simplify_statement_exec, Ghost(|s: Statement, t: Statement| t == simplify_statement(s)));
    BasicBlock { id, statements, terminator }
}

/// Simplifies every statement with algebraic identities.
///
/// Examples: `x + 0` becomes `x`, `x * 0` becomes `0`, `x && false` becomes
/// `false`, `x - x` becomes `0` when both read the same local.
pub fn algebraic_simplify(func: &mut MirFunction)
    ensures
        simplified(*old(func), *final(func)),
{
    let mut blocks: Vec<BasicBlock> = Vec::new();
    std::mem::swap(&mut blocks, &mut func.blocks);
    let blocks = map_vec(
        blocks,
        &simplify_block,
        Ghost(|a: BasicBlock, b: BasicBlock| {
            &&& b.id == a.id
            &&& b.terminator == a.terminator
            &&& b.statements@.len() == a.statements@.len()
            &&& forall|i: int| 0 <= i < a.statements@.len() ==> #[trigger] b.statements@[i] == simplify_statement(a.statements@[i])
        }),
    );
    func.blocks = blocks;
}


proof fn lemma_int_identities(a: i64)
    ensures
        i64_specs::wrapping_add(a, 0) == a,
        i64_specs::wrapping_add(0, a) == a,
        i64_specs::wrapping_sub(a, 0) == a,
        i64_specs::wrapping_sub(a, a) == 0,
        i64_specs::wrapping_mul(a, 1) == a,
        i64_specs::wrapping_mul(1, a) == a,
        i64_specs::wrapping_mul(a, 0) == 0,
        i64_specs::wrapping_mul(0, a) == 0,
        pow_wrap(a, 0) == 1,
        pow_wrap(a, 1) == a,
        tdiv(a as int, 1) == a,
        a | 0 == a,
        0 | a == a,
        a ^ 0 == a,
        0 ^ a == a,
        a & (-1i64) == a,
        (-1i64) & a == a,
        a ^ a == 0,
        a & a == a,
        a | a == a,
        i64_specs::wrapping_shl(a, 0) == a,
        i64_specs::wrapping_shr(a, 0) == a,
{
    assert(a | 0 == a) by (bit_vector);
    assert(0 | a == a) by (bit_vector);
    assert(a ^ 0 == a) by (bit_vector);
    assert(0 ^ a == a) by (bit_vector);
    assert(a & (-1i64) == a) by (bit_vector);
    assert((-1i64) & a == a) by (bit_vector);
    assert(a ^ a == 0) by (bit_vector);
    assert(a & a == a) by (bit_vector);
    assert(a | a == a) by (bit_vector);
    assert(a << 0u32 == a) by (bit_vector);
    assert(a >> 0u32 == a) by (bit_vector);
    assert(0u32 % 64u32 == 0u32);
    assert(abs_int(a as int) / 1 == abs_int(a as int));
    let r: int = 0x1_0000_0000_0000_0000;
    assert(i64_specs::signed_crop(a as int) == a) by {
        if a >= 0 {
            assert((a as int) % r == a as int);
        } else {
            assert((a as int) % r == (a as int) + r);
        }
    }
    assert(i64_specs::signed_crop(0) == 0);
    assert(a * 1 == a);
    assert(1 * a == a);
    assert(a * 0 == 0);
    assert(0 * a == 0);
    assert(i64_specs::wrapping_mul(1, pow_wrap(a, 0)) == pow_wrap(a, 0));
    assert(pow_wrap(a, 1) == i64_specs::wrapping_mul(pow_wrap(a, 0), a));
}

/// Simplification keeps the value of an rvalue: wherever the rvalue has a
/// value under `env`, its simplification has the same one.
pub proof fn lemma_simplify_keeps_value(rv: Rvalue, env: Map<Local, Constant>)
    ensures
        rvalue_value(rv, env) is Some ==> rvalue_value(simplify_rvalue_spec(rv), env) == rvalue_value(rv, env),
{
    match rv {
        Rvalue::BinaryOp(op, l, r) => {
            if rvalue_value(rv, env) is Some {
                let a = operand_value(l, env).unwrap();
                let b = operand_value(r, env).unwrap();
                if let Constant::Int(x) = a {
                    lemma_int_identities(x);
                }
                if let Constant::Int(y) = b {
                    lemma_int_identities(y);
                }
            }
        },
        _ => {},
    }
}


// ============================================================================
// Reachability
// ============================================================================

/// The blocks a terminator may jump to, in order.
pub open spec fn successors_spec(t: Terminator) -> Seq<BlockId> {
    match t.kind {
        TerminatorKind::Goto { target } => seq![target],
        TerminatorKind::SwitchInt { targets, .. } =>
            targets.targets@.map_values(|p: (i128, BlockId)| p.1).push(targets.otherwise),
        TerminatorKind::Call { target, .. } => match target {
            Some(b) => seq![b],
            None => Seq::empty(),
        },
        TerminatorKind::Return => Seq::empty(),
        TerminatorKind::Unreachable => Seq::empty(),
        TerminatorKind::Drop { target, .. } => seq![target],
        TerminatorKind::Assert { target, .. } => seq![target],
    }
}

/// The successors of block `b`; a block that does not exist or has no
/// terminator has none.
pub open spec fn block_succs(blocks: Seq<BasicBlock>, b: BlockId) -> Seq<BlockId> {
    if b.0 < blocks.len() {
        match blocks[b.0 as int].terminator {
            Some(t) => successors_spec(t),
            None => Seq::empty(),
        }
    } else {
        Seq::empty()
    }
}

/// Whether `path` starts at the entry block and follows jumps.
pub open spec fn is_path(blocks: Seq<BasicBlock>, path: Seq<BlockId>) -> bool {
    &&& path.len() > 0
    &&& path[0] == BlockId(0)
    &&& forall|k: int| 0 <= k < path.len() - 1 ==> #[trigger] block_succs(blocks, path[k]).contains(path[k + 1])
}

/// Whether `b` can be reached from the entry block.
pub open spec fn reachable(blocks: Seq<BasicBlock>, b: BlockId) -> bool {
    exists|path: Seq<BlockId>| #[trigger] is_path(blocks, path) && path.last() == b
}

proof fn lemma_reachable_step(blocks: Seq<BasicBlock>, a: BlockId, b: BlockId)
    requires
        reachable(blocks, a),
        block_succs(blocks, a).contains(b),
    ensures
        reachable(blocks, b),
{
    let path = choose|path: Seq<BlockId>| #[trigger] is_path(blocks, path) && path.last() == a;
    let p2 = path.push(b);
    assert forall|k: int| 0 <= k < p2.len() - 1 implies #[trigger] block_succs(blocks, p2[k]).contains(p2[k + 1]) by {
        if k < path.len() - 1 {
            assert(p2[k] == path[k] && p2[k + 1] == path[k + 1]);
            assert(block_succs(blocks, path[k]).contains(path[k + 1]));
        }
    }
    assert(is_path(blocks, p2));
}

proof fn lemma_entry_reachable(blocks: Seq<BasicBlock>)
    ensures
        reachable(blocks, BlockId(0)),
{
    assert(is_path(blocks, seq![BlockId(0)]));
}

/// Every block of a path lies in a set of in-range blocks that holds the
/// entry and is closed under successors.
proof fn lemma_closed_contains_path(blocks: Seq<BasicBlock>, visited: Seq<bool>, path: Seq<BlockId>, k: int)
    requires
        visited.len() == blocks.len(),
        blocks.len() > 0 ==> visited[0],
        forall|i: int, s: BlockId| 0 <= i < visited.len() && visited[i] && #[trigger] block_succs(blocks, BlockId(i as u32)).contains(s)
            ==> s.0 >= visited.len() || visited[s.0 as int],
        blocks.len() <= u32::MAX,
        is_path(blocks, path),
        0 <= k < path.len(),
        path[k].0 < blocks.len(),
    ensures
        visited[path[k].0 as int],
    decreases k,
{
    if k > 0 {
        let j = k - 1;
        let a = path[j];
        assert(block_succs(blocks, path[j]).contains(path[j + 1]));
        assert(path[j + 1] == path[k]);
        if a.0 >= blocks.len() {
            assert(block_succs(blocks, a) =~= Seq::<BlockId>::empty());
            assert(!Seq::<BlockId>::empty().contains(path[k]));
        }
        lemma_closed_contains_path(blocks, visited, path, k - 1);
        assert(BlockId(a.0 as int as u32) == a);
    }
}

/// The number of `false` entries.
pub open spec fn count_false(s: Seq<bool>) -> nat
    decreases s.len(),
{
    if s.len() == 0 {
        0
    } else {
        count_false(s.drop_last()) + if s.last() {
            0nat
        } else {
            1nat
        }
    }
}

proof fn lemma_count_false_set(s: Seq<bool>, i: int)
    requires
        0 <= i < s.len(),
        !s[i],
    ensures
        count_false(s.update(i, true)) + 1 == count_false(s),
    decreases s.len(),
{
    if i == s.len() - 1 {
        assert(s.update(i, true).drop_last() =~= s.drop_last());
    } else {
        lemma_count_false_set(s.drop_last(), i);
        assert(s.update(i, true).drop_last() =~= s.drop_last().update(i, true));
    }
}

fn successors(term: &Terminator) -> (r: Vec<BlockId>)
    ensures
        r@ == successors_spec(*term),
{
    match &term.kind {
        TerminatorKind::Goto { target } => {
            let mut v: Vec<BlockId> = Vec::new();
            v.push(*target);
            v
        },
        TerminatorKind::SwitchInt { targets, .. } => {
            let mut v: Vec<BlockId> = Vec::new();
            let mut i: usize = 0;
            while i < targets.targets.len()
                invariant
                    0 <= i <= targets.targets@.len(),
                    v@ == targets.targets@.take(i as int).map_values(|p: (i128, BlockId)| p.1),
                decreases targets.targets@.len() - i,
            {
                v.push(targets.targets[i].1);
                i = i + 1;
                assert(v@ =~= targets.targets@.take(i as int).map_values(|p: (i128, BlockId)| p.1));
            }
            assert(targets.targets@.take(i as int) =~= targets.targets@);
            v.push(targets.otherwise);
            v
        },
        TerminatorKind::Call { target, .. } => {
            let mut v: Vec<BlockId> = Vec::new();
            if let Some(b) = target {
                v.push(*b);
            }
            v
        },
        TerminatorKind::Return | TerminatorKind::Unreachable => Vec::new(),
        TerminatorKind::Drop { target, .. } => {
            let mut v: Vec<BlockId> = Vec::new();
            v.push(*target);
            v
        },
        TerminatorKind::Assert { target, .. } => {
            let mut v: Vec<BlockId> = Vec::new();
            v.push(*target);
            v
        },
    }
}

/// For each block, whether it is reachable from the entry block.
pub fn find_reachable_blocks(func: &MirFunction) -> (r: Vec<bool>)
    requires
        func.blocks@.len() <= u32::MAX,
    ensures
        r@.len() == func.blocks@.len(),
        forall|i: int| 0 <= i < func.blocks@.len() ==> #[trigger] r@[i] == reachable(func.blocks@, BlockId(i as u32)),
{
    reachable_in(&func.blocks)
}

fn reachable_in(blocks: &Vec<BasicBlock>) -> (r: Vec<bool>)
    requires
        blocks@.len() <= u32::MAX,
    ensures
        r@.len() == blocks@.len(),
        forall|i: int| 0 <= i < blocks@.len() ==> #[trigger] r@[i] == reachable(blocks@, BlockId(i as u32)),
{
    let n = blocks.len();
    let mut visited: Vec<bool> = Vec::new();
    let mut k: usize = 0;
    while k < n
        invariant
            k <= n,
            n == blocks@.len(),
            visited@.len() == k,
            forall|j: int| 0 <= j < k ==> !visited@[j],
        decreases n - k,
    {
        visited.push(false);
        k = k + 1;
    }
    let mut worklist: Vec<BlockId> = Vec::new();
    worklist.push(BlockId(0));
    proof {
        lemma_entry_reachable(blocks@);
        assert(worklist@[0] == BlockId(0));
    }
    while worklist.len() > 0
        invariant
            n == blocks@.len(),
            n <= u32::MAX,
            visited@.len() == n,
            forall|i: int| 0 <= i < n && #[trigger] visited@[i] ==> reachable(blocks@, BlockId(i as u32)),
            forall|j: int| 0 <= j < worklist@.len() ==> reachable(blocks@, #[trigger] worklist@[j]),
            forall|i: int, s: BlockId| 0 <= i < n && visited@[i] && #[trigger] block_succs(blocks@, BlockId(i as u32)).contains(s)
                ==> s.0 >= n || visited@[s.0 as int] || worklist@.contains(s),
            n > 0 ==> visited@[0] || worklist@.contains(BlockId(0)),
        decreases count_false(visited@), worklist@.len(),
    {
        let ghost wl = worklist@;
        let b = worklist.pop().unwrap();
        assert(wl == worklist@.push(b));
        assert(forall|x: BlockId| wl.contains(x) ==> x == b || worklist@.contains(x)) by {
            assert forall|x: BlockId| wl.contains(x) implies x == b || worklist@.contains(x) by {
                let j = choose|j: int| 0 <= j < wl.len() && wl[j] == x;
                if j < worklist@.len() {
                    assert(worklist@[j] == x);
                }
            }
        }
        assert(reachable(blocks@, b)) by {
            assert(wl[wl.len() - 1] == b);
        }
        let i = b.0 as usize;
        if i >= n || visited[i] {
            assert(forall|j: int| 0 <= j < worklist@.len() ==> reachable(blocks@, #[trigger] worklist@[j])) by {
                assert forall|j: int| 0 <= j < worklist@.len() implies reachable(blocks@, #[trigger] worklist@[j]) by {
                    assert(wl[j] == worklist@[j]);
                }
            }
        } else {
            let ghost before = visited@;
            proof {
                lemma_count_false_set(visited@, i as int);
            }
            visited.set(i, true);
            assert(BlockId(i as u32) == b);
            match &blocks[i].terminator {
                Some(term) => {
                    let succs = successors(term);
                    assert(succs@ == block_succs(blocks@, b));
                    let ghost mid = worklist@;
                    let mut j: usize = 0;
                    while j < succs.len()
                        invariant
                            0 <= j <= succs@.len(),
                            succs@ == block_succs(blocks@, b),
                            reachable(blocks@, b),
                            worklist@ == mid + succs@.take(j as int),
                            forall|x: int| 0 <= x < mid.len() ==> reachable(blocks@, #[trigger] mid[x]),
                        decreases succs@.len() - j,
                    {
                        proof {
                            lemma_reachable_step(blocks@, b, succs@[j as int]);
                        }
                        worklist.push(succs[j]);
                        j = j + 1;
                        assert(worklist@ =~= mid + succs@.take(j as int));
                    }
                    assert(succs@.take(j as int) =~= succs@);
                    assert forall|x: int| 0 <= x < worklist@.len() implies reachable(blocks@, #[trigger] worklist@[x]) by {
                        if x < mid.len() {
                            assert(wl[x] == mid[x]);
                        } else {
                            assert(worklist@[x] == succs@[x - mid.len()]);
                            lemma_reachable_step(blocks@, b, succs@[x - mid.len()]);
                        }
                    }
                    assert forall|y: BlockId| mid.contains(y) implies worklist@.contains(y) by {
                        let q = choose|q: int| 0 <= q < mid.len() && mid[q] == y;
                        assert(worklist@[q] == y);
                    }
                    assert forall|y: BlockId| succs@.contains(y) implies worklist@.contains(y) by {
                        let q = choose|q: int| 0 <= q < succs@.len() && succs@[q] == y;
                        assert(worklist@[mid.len() + q] == y);
                    }
                },
                None => {
                    assert(block_succs(blocks@, b) =~= Seq::empty());
                    assert forall|j: int| 0 <= j < worklist@.len() implies reachable(blocks@, #[trigger] worklist@[j]) by {
                        assert(wl[j] == worklist@[j]);
                    }
                },
            }
            assert forall|q: int| 0 <= q < n && #[trigger] visited@[q] implies reachable(blocks@, BlockId(q as u32)) by {
                if q != i {
                    assert(before[q]);
                }
            }
        }
    }
    assert forall|q: int| 0 <= q < blocks@.len() implies #[trigger] visited@[q] == reachable(blocks@, BlockId(q as u32)) by {
        if reachable(blocks@, BlockId(q as u32)) {
            let path = choose|path: Seq<BlockId>| #[trigger] is_path(blocks@, path) && path.last() == BlockId(q as u32);
            lemma_closed_contains_path(blocks@, visited@, path, path.len() - 1);
        }
    }
    visited
}


// ============================================================================
// Dead code elimination
// ============================================================================

/// Whether an operand reads local `l`.
pub open spec fn operand_uses(o: Operand, l: Local) -> bool {
    match o {
        Operand::Copy(p) => p.local == l,
        Operand::Move(p) => p.local == l,
        Operand::Constant(_) => false,
    }
}

/// Whether one of the operands reads local `l`.
pub open spec fn operands_use(ops: Seq<Operand>, l: Local) -> bool {
    exists|i: int| 0 <= i < ops.len() && #[trigger] operand_uses(ops[i], l)
}

/// Whether an rvalue reads local `l`: through an operand, or as the base of
/// a borrowed, inspected or measured place.
pub open spec fn rvalue_uses(rv: Rvalue, l: Local) -> bool {
    match rv {
        Rvalue::Use(o) => operand_uses(o, l),
        Rvalue::UnaryOp(_, o) => operand_uses(o, l),
        Rvalue::Cast(_, o, _) => operand_uses(o, l),
        Rvalue::BinaryOp(_, a, b) => operand_uses(a, l) || operand_uses(b, l),
        Rvalue::Ref(p) => p.local == l,
        Rvalue::RefMut(p) => p.local == l,
        Rvalue::Discriminant(p) => p.local == l,
        Rvalue::Len(p) => p.local == l,
        Rvalue::Aggregate(_, ops) => operands_use(ops@, l),
        Rvalue::Closure(_, ops) => operands_use(ops@, l),
    }
}

/// Whether a terminator reads local `l`.
pub open spec fn terminator_uses(t: Terminator, l: Local) -> bool {
    match t.kind {
        TerminatorKind::SwitchInt { discr, .. } => operand_uses(discr, l),
        TerminatorKind::Call { func, args, .. } => operand_uses(func, l) || operands_use(args@, l),
        TerminatorKind::Assert { cond, .. } => operand_uses(cond, l),
        TerminatorKind::Drop { place, .. } => place.local == l,
        _ => false,
    }
}

/// Whether a statement reads local `l`.
pub open spec fn stmt_uses(s: Statement, l: Local) -> bool {
    match s.kind {
        StatementKind::Assign(_, rv) => rvalue_uses(rv, l),
        _ => false,
    }
}

/// Whether a block reads local `l`.
pub open spec fn block_uses(b: BasicBlock, l: Local) -> bool {
    (exists|i: int| 0 <= i < b.statements@.len() && #[trigger] stmt_uses(b.statements@[i], l))
        || (b.terminator matches Some(t) && terminator_uses(t, l))
}

/// Whether some block reads local `l`.
pub open spec fn blocks_use(blocks: Seq<BasicBlock>, l: Local) -> bool {
    exists|b: int| 0 <= b < blocks.len() && #[trigger] block_uses(blocks[b], l)
}

/// Whether a reachable block reads local `l`.
pub open spec fn live_use(blocks: Seq<BasicBlock>, l: Local) -> bool {
    exists|b: int| 0 <= b < blocks.len() && reachable(blocks, BlockId(b as u32)) && #[trigger] block_uses(blocks[b], l)
}

/// Whether dead code elimination keeps a statement: anything but an
/// assignment, and assignments to the return place or to a local that a
/// reachable block reads.
pub open spec fn keeps_statement(blocks: Seq<BasicBlock>, s: Statement) -> bool {
    match s.kind {
        StatementKind::Assign(p, _) => p.local == Local(0) || live_use(blocks, p.local),
        _ => true,
    }
}

/// The terminator of a block that can never run.
pub open spec fn unreachable_terminator() -> Terminator {
    Terminator { kind: TerminatorKind::Unreachable, span: Span::dummy_spec() }
}

fn collect_used_in_operand(operand: &Operand, used: &mut Vec<Local>)
    ensures
        forall|x: Local| #[trigger] final(used)@.contains(x) <==> old(used)@.contains(x) || operand_uses(*operand, x),
{
    match operand {
        Operand::Copy(place) | Operand::Move(place) => {
            used.push(place.local);
            assert forall|x: Local| #[trigger] used@.contains(x) <==> old(used)@.contains(x) || operand_uses(*operand, x) by {
                if old(used)@.contains(x) {
                    let j = choose|j: int| 0 <= j < old(used)@.len() && old(used)@[j] == x;
                    assert(used@[j] == x);
                }
                if x == place.local {
                    assert(used@[used@.len() - 1] == x);
                }
                if used@.contains(x) {
                    let j = choose|j: int| 0 <= j < used@.len() && used@[j] == x;
                    if j < old(used)@.len() {
                        assert(old(used)@[j] == x);
                    }
                }
            }
        },
        Operand::Constant(_) => {},
    }
}

fn collect_used_in_operands(ops: &Vec<Operand>, used: &mut Vec<Local>)
    ensures
        forall|x: Local| #[trigger] final(used)@.contains(x) <==> old(used)@.contains(x) || operands_use(ops@, x),
{
    let mut i: usize = 0;
    while i < ops.len()
        invariant
            0 <= i <= ops@.len(),
            forall|x: Local| #[trigger] used@.contains(x) <==> old(used)@.contains(x) || operands_use(ops@.take(i as int), x),
        decreases ops@.len() - i,
    {
        collect_used_in_operand(&ops[i], used);
        i = i + 1;
        assert forall|x: Local| operands_use(ops@.take(i as int), x) <==> operands_use(ops@.take(i - 1), x) || operand_uses(ops@[i - 1], x) by {
            if operands_use(ops@.take(i as int), x) {
                let j = choose|j: int| 0 <= j < ops@.take(i as int).len() && #[trigger] operand_uses(ops@.take(i as int)[j], x);
                if j < i - 1 {
                    assert(ops@.take(i - 1)[j] == ops@.take(i as int)[j]);
                }
            }
            if operands_use(ops@.take(i - 1), x) {
                let j = choose|j: int| 0 <= j < ops@.take(i - 1).len() && #[trigger] operand_uses(ops@.take(i - 1)[j], x);
                assert(ops@.take(i as int)[j] == ops@.take(i - 1)[j]);
            }
            if operand_uses(ops@[i - 1], x) {
                assert(ops@.take(i as int)[i - 1] == ops@[i - 1]);
            }
        }
    }
    assert(ops@.take(ops@.len() as int) =~= ops@);
}

fn collect_used_in_rvalue(rvalue: &Rvalue, used: &mut Vec<Local>)
    ensures
        forall|x: Local| #[trigger] final(used)@.contains(x) <==> old(used)@.contains(x) || rvalue_uses(*rvalue, x),
{
    match rvalue {
        Rvalue::Use(op) | Rvalue::UnaryOp(_, op) | Rvalue::Cast(_, op, _) => {
            collect_used_in_operand(op, used);
        },
        Rvalue::BinaryOp(_, left, right) => {
            collect_used_in_operand(left, used);
            collect_used_in_operand(right, used);
        },
        Rvalue::Ref(place) | Rvalue::RefMut(place) | Rvalue::Discriminant(place) | Rvalue::Len(place) => {
            collect_used_in_operand(&Operand::Copy(Place { local: place.local, projection: Vec::new() }), used);
        },
        Rvalue::Aggregate(_, operands) | Rvalue::Closure(_, operands) => {
            collect_used_in_operands(operands, used);
        },
    }
}

fn collect_used_in_terminator(term: &Terminator, used: &mut Vec<Local>)
    ensures
        forall|x: Local| #[trigger] final(used)@.contains(x) <==> old(used)@.contains(x) || terminator_uses(*term, x),
{
    match &term.kind {
        TerminatorKind::SwitchInt { discr, .. } => {
            collect_used_in_operand(discr, used);
        },
        TerminatorKind::Call { func, args, .. } => {
            collect_used_in_operand(func, used);
            collect_used_in_operands(args, used);
        },
        TerminatorKind::Assert { cond, .. } => {
            collect_used_in_operand(cond, used);
        },
        TerminatorKind::Drop { place, .. } => {
            collect_used_in_operand(&Operand::Copy(Place { local: place.local, projection: Vec::new() }), used);
        },
        _ => {},
    }
}

/// The locals that some block reads (possibly listed more than once).
fn find_used_locals(blocks: &Vec<BasicBlock>) -> (used: Vec<Local>)
    ensures
        forall|x: Local| #[trigger] used@.contains(x) <==> blocks_use(blocks@, x),
{
    let mut used: Vec<Local> = Vec::new();
    let mut b: usize = 0;
    while b < blocks.len()
        invariant
            0 <= b <= blocks@.len(),
            forall|x: Local| #[trigger] used@.contains(x) <==> blocks_use(blocks@.take(b as int), x),
        decreases blocks@.len() - b,
    {
        let block = &blocks[b];
        let ghost at_start = used@;
        let mut i: usize = 0;
        while i < block.statements.len()
            invariant
                0 <= i <= block.statements@.len(),
                forall|x: Local| #[trigger] used@.contains(x) <==> at_start.contains(x)
                    || exists|j: int| 0 <= j < i && #[trigger] stmt_uses(block.statements@[j], x),
            decreases block.statements@.len() - i,
        {
            let ghost before = used@;
            match &block.statements[i].kind {
                StatementKind::Assign(_, rvalue) => {
                    collect_used_in_rvalue(rvalue, &mut used);
                },
                _ => {},
            }
            assert(forall|x: Local| #[trigger] used@.contains(x) <==> before.contains(x) || stmt_uses(block.statements@[i as int], x));
            assert forall|x: Local| #[trigger] used@.contains(x) <==> at_start.contains(x)
                || exists|j: int| 0 <= j < i + 1 && #[trigger] stmt_uses(block.statements@[j], x) by {
                if exists|j: int| 0 <= j < i + 1 && #[trigger] stmt_uses(block.statements@[j], x) {
                    let j = choose|j: int| 0 <= j < i + 1 && #[trigger] stmt_uses(block.statements@[j], x);
                    if j < i {
                        assert(before.contains(x));
                    }
                }
                if stmt_uses(block.statements@[i as int], x) {
                    assert(stmt_uses(block.statements@[i as int], x));
                }
                if before.contains(x) && !at_start.contains(x) {
                    let j = choose|j: int| 0 <= j < i && #[trigger] stmt_uses(block.statements@[j], x);
                    assert(stmt_uses(block.statements@[j], x));
                }
            }
            i = i + 1;
        }
        let ghost mid = used@;
        match &block.terminator {
            Some(term) => {
                collect_used_in_terminator(term, &mut used);
            },
            None => {},
        }
        assert forall|x: Local| #[trigger] used@.contains(x) <==> at_start.contains(x) || block_uses(*block, x) by {
            if exists|j: int| 0 <= j < block.statements@.len() && #[trigger] stmt_uses(block.statements@[j], x) {
                let j = choose|j: int| 0 <= j < block.statements@.len() && #[trigger] stmt_uses(block.statements@[j], x);
                assert(mid.contains(x));
            }
            if mid.contains(x) && !at_start.contains(x) {
                let j = choose|j: int| 0 <= j < i && #[trigger] stmt_uses(block.statements@[j], x);
                assert(stmt_uses(block.statements@[j], x));
            }
        }
        b = b + 1;
        assert forall|x: Local| #[trigger] used@.contains(x) <==> blocks_use(blocks@.take(b as int), x) by {
            let t = blocks@.take(b as int);
            let t0 = blocks@.take(b - 1);
            assert(t[b - 1] == blocks@[b - 1]);
            if blocks_use(t, x) {
                let k = choose|k: int| 0 <= k < t.len() && #[trigger] block_uses(t[k], x);
                if k < b - 1 {
                    assert(t0[k] == t[k]);
                }
            }
            if blocks_use(t0, x) {
                let k = choose|k: int| 0 <= k < t0.len() && #[trigger] block_uses(t0[k], x);
                assert(t[k] == t0[k]);
            }
            if block_uses(blocks@[b - 1], x) {
                assert(block_uses(t[b - 1], x));
            }
        }
    }
    assert(blocks@.take(blocks@.len() as int) =~= blocks@);
    used
}

/// Whether dead code elimination keeps a statement, given the list of
/// locals read.
pub open spec fn keeps_with(used: Seq<Local>, s: Statement) -> bool {
    match s.kind {
        StatementKind::Assign(p, _) => p.local == Local(0) || used.contains(p.local),
        _ => true,
    }
}

fn contains_local(used: &Vec<Local>, l: Local) -> (b: bool)
    ensures
        b == used@.contains(l),
{
    let mut i: usize = 0;
    while i < used.len()
        invariant
            0 <= i <= used@.len(),
            forall|j: int| 0 <= j < i ==> used@[j] != l,
        decreases used@.len() - i,
    {
        if used[i].0 == l.0 {
            assert(used@[i as int] == l);
            return true;
        }
        i = i + 1;
    }
    false
}

fn retain_live(stmts: Vec<Statement>, used: &Vec<Local>) -> (r: Vec<Statement>)
    ensures
        r@ == stmts@.filter(|s: Statement| keeps_with(used@, s)),
{
    let ghost orig = stmts@;
    let ghost pred = |s: Statement| keeps_with(used@, s);
    let mut rest = stmts;
    let mut out: Vec<Statement> = Vec::new();
    let ghost mut k: int = 0;
    while rest.len() > 0
        invariant
            0 <= k <= orig.len(),
            rest@ == orig.skip(k),
            pred == (|s: Statement| keeps_with(used@, s)),
            out@ == orig.take(k).filter(pred),
        decreases rest@.len(),
    {
        let s = rest.remove(0);
        assert(s == orig[k]);
        proof {
            reveal_with_fuel(Seq::<_>::filter, 1);
        }
        assert(orig.take(k + 1).drop_last() =~= orig.take(k));
        assert(orig.take(k + 1).last() == s);
        let keep = match &s.kind {
            StatementKind::Assign(place, _) => place.local.0 == 0 || contains_local(used, place.local),
            _ => true,
        };
        if keep {
            out.push(s);
        }
        proof {
            k = k + 1;
        }
        assert(rest@ =~= orig.skip(k));
    }
    assert(orig.take(k) =~= orig);
    out
}

/// The statements dead code elimination keeps.
pub open spec fn keep_pred(blocks: Seq<BasicBlock>) -> spec_fn(Statement) -> bool {
    |s: Statement| keeps_statement(blocks, s)
}

/// The unreachable blocks are emptied and end in `Unreachable`; the
/// reachable ones keep their terminator and the statements that dead code
/// elimination keeps.
pub open spec fn blocks_dce(before: Seq<BasicBlock>, after: Seq<BasicBlock>) -> bool {
    &&& after.len() == before.len()
    &&& forall|i: int| 0 <= i < before.len() ==> {
        let b0 = before[i];
        let b1 = #[trigger] after[i];
        &&& b1.id == b0.id
        &&& reachable(before, BlockId(i as u32)) ==> {
            &&& b1.terminator == b0.terminator
            &&& b1.statements@ == b0.statements@.filter(keep_pred(before))
        }
        &&& !reachable(before, BlockId(i as u32)) ==> {
            &&& b1.statements@.len() == 0
            &&& b1.terminator == Some(unreachable_terminator())
        }
    }
}

/// Empties the blocks that cannot be reached from the entry block, giving
/// them an `Unreachable` terminator, then drops the assignments to locals
/// that no reachable block reads, except to the return place.
pub fn dead_code_elimination(func: &mut MirFunction)
    requires
        old(func).blocks@.len() <= u32::MAX,
    ensures
        dead_code_removed(*old(func), *final(func)),
{
    let ghost orig = func.blocks@;
    let reachable_blocks = reachable_in(&func.blocks);
    let n = func.blocks.len();
    let mut i: usize = 0;
    while i < n
        invariant
            n == orig.len(),
            n <= u32::MAX,
            func.blocks@.len() == n,
            same_but_blocks(*old(func), *func),
            0 <= i <= n,
            reachable_blocks@.len() == n,
            forall|q: int| 0 <= q < n ==> #[trigger] reachable_blocks@[q] == reachable(orig, BlockId(q as u32)),
            forall|q: int| i <= q < n ==> #[trigger] func.blocks@[q] == orig[q],
            forall|q: int| 0 <= q < i ==> {
                &&& (#[trigger] func.blocks@[q]).id == orig[q].id
                &&& reachable(orig, BlockId(q as u32)) ==> func.blocks@[q] == orig[q]
                &&& !reachable(orig, BlockId(q as u32)) ==> func.blocks@[q].statements@.len() == 0
                    && func.blocks@[q].terminator == Some(unreachable_terminator())
            },
        decreases n - i,
    {
        if !reachable_blocks[i] {
            let id = func.blocks[i].id;
            let cleared = BasicBlock {
                id,
                statements: Vec::new(),
                terminator: Some(Terminator { kind: TerminatorKind::Unreachable, span: Span::dummy() }),
            };
            func.blocks.set(i, cleared);
        }
        i = i + 1;
    }
    let ghost mid = func.blocks@;
    let used = find_used_locals(&func.blocks);
    assert forall|x: Local| #[trigger] used@.contains(x) <==> live_use(orig, x) by {
        if blocks_use(mid, x) {
            let b = choose|b: int| 0 <= b < mid.len() && #[trigger] block_uses(mid[b], x);
            if !reachable(orig, BlockId(b as u32)) {
                assert(!terminator_uses(unreachable_terminator(), x));
                assert(false);
            }
            assert(mid[b] == orig[b]);
        }
        if live_use(orig, x) {
            let b = choose|b: int| 0 <= b < orig.len() && reachable(orig, BlockId(b as u32)) && #[trigger] block_uses(orig[b], x);
            assert(mid[b] == orig[b]);
        }
    }
    let ghost keep_used = |s: Statement| keeps_with(used@, s);
    let ghost keep_live = |s: Statement| keeps_statement(orig, s);
    assert(keep_used =~= keep_live);
    let mut blocks: Vec<BasicBlock> = Vec::new();
    std::mem::swap(&mut blocks, &mut func.blocks);
    let mut rest = blocks;
    let mut out: Vec<BasicBlock> = Vec::new();
    while rest.len() > 0
        invariant
            out@.len() + rest@.len() == mid.len(),
            rest@ == mid.skip(out@.len() as int),
            keep_used == keep_live,
            keep_used == (|s: Statement| keeps_with(used@, s)),
            forall|q: int| 0 <= q < out@.len() ==> {
                &&& (#[trigger] out@[q]).id == mid[q].id
                &&& out@[q].terminator == mid[q].terminator
                &&& out@[q].statements@ == mid[q].statements@.filter(keep_used)
            },
        decreases rest@.len(),
    {
        let ghost q = out@.len() as int;
        let block = rest.remove(0);
        assert(block == mid[q]);
        let BasicBlock { id, statements, terminator } = block;
        let statements = retain_live(statements, &used);
        out.push(BasicBlock { id, statements, terminator });
        assert(rest@ =~= mid.skip(out@.len() as int));
    }
    func.blocks = out;
    assert forall|q: int| 0 <= q < orig.len() && !reachable(orig, BlockId(q as u32)) implies
        #[trigger] func.blocks@[q].statements@.len() == 0 by {
        assert(mid[q].statements@ =~= Seq::<Statement>::empty());
        assert(Seq::<Statement>::empty().filter(keep_used) =~= Seq::<Statement>::empty()) by {
            reveal_with_fuel(Seq::<_>::filter, 1);
        }
    }
}


// ============================================================================
// Copy propagation
// ============================================================================

/// The copy a statement makes: `d = copy s` with neither place projected.
pub open spec fn stmt_copy(s: Statement) -> Option<(Local, Local)> {
    match s.kind {
        StatementKind::Assign(p, Rvalue::Use(Operand::Copy(src))) =>
            if p.projection@.len() == 0 && src.projection@.len() == 0 {
                Some((p.local, src.local))
            } else {
                None
            },
        _ => None,
    }
}

/// The source of the last copy into `d` among the statements.
pub open spec fn last_copy_in(stmts: Seq<Statement>, d: Local) -> Option<Local>
    decreases stmts.len(),
{
    if stmts.len() == 0 {
        None
    } else {
        match stmt_copy(stmts.last()) {
            Some((x, y)) => if x == d {
                Some(y)
            } else {
                last_copy_in(stmts.drop_last(), d)
            },
            None => last_copy_in(stmts.drop_last(), d),
        }
    }
}

/// The source of the last copy into `d`, blocks taken in order.
pub open spec fn last_copy(blocks: Seq<BasicBlock>, d: Local) -> Option<Local>
    decreases blocks.len(),
{
    if blocks.len() == 0 {
        None
    } else {
        match last_copy_in(blocks.last().statements@, d) {
            Some(y) => Some(y),
            None => last_copy(blocks.drop_last(), d),
        }
    }
}

/// The local reached from `s` after `k` steps along `next`.
pub open spec fn copy_step(next: spec_fn(Local) -> Option<Local>, s: Local, k: nat) -> Local
    decreases k,
{
    if k == 0 {
        s
    } else {
        let prev = copy_step(next, s, (k - 1) as nat);
        match next(prev) {
            Some(n) => n,
            None => prev,
        }
    }
}

/// Whether following `next` from `s` stops after `k` steps: the first `k`
/// locals have a successor and differ, and the `k`-th has none or repeats
/// one of them.
pub open spec fn chase_stops_at(next: spec_fn(Local) -> Option<Local>, s: Local, k: nat) -> bool {
    &&& forall|j: nat| j < k ==> (#[trigger] next(copy_step(next, s, j))) is Some
    &&& forall|i: nat, j: nat| i < j < k ==> #[trigger] copy_step(next, s, i) != #[trigger] copy_step(next, s, j)
    &&& (next(copy_step(next, s, k)) is None || exists|j: nat| j < k && #[trigger] copy_step(next, s, j) == copy_step(next, s, k))
}

/// Where following `next` from `s` stops.
pub open spec fn chase_end(next: spec_fn(Local) -> Option<Local>, s: Local) -> Local {
    copy_step(next, s, choose|k: nat| chase_stops_at(next, s, k))
}

/// A chase stops at one step only.
pub proof fn lemma_chase_stop_unique(next: spec_fn(Local) -> Option<Local>, s: Local, k1: nat, k2: nat)
    requires
        chase_stops_at(next, s, k1),
        chase_stops_at(next, s, k2),
    ensures
        k1 == k2,
{
    if k1 < k2 {
        assert(next(copy_step(next, s, k1)) is Some);
        let j = choose|j: nat| j < k1 && #[trigger] copy_step(next, s, j) == copy_step(next, s, k1);
        assert(copy_step(next, s, j) != copy_step(next, s, k1));
    } else if k2 < k1 {
        assert(next(copy_step(next, s, k2)) is Some);
        let j = choose|j: nat| j < k2 && #[trigger] copy_step(next, s, j) == copy_step(next, s, k2);
        assert(copy_step(next, s, j) != copy_step(next, s, k2));
    }
}

/// What a local is replaced by: the end of the chain of copies that starts
/// at the source of its last copy; a local that is no copy stays.
pub open spec fn resolved_local(blocks: Seq<BasicBlock>, l: Local) -> Local {
    match last_copy(blocks, l) {
        Some(s) => chase_end(|x: Local| last_copy(blocks, x), s),
        None => l,
    }
}

proof fn lemma_distinct_keys_bound(v: Seq<Local>, m: AssocMap<Local, Local>)
    requires
        v.no_duplicates(),
        forall|i: int| 0 <= i < v.len() ==> m.has(#[trigger] v[i]),
    ensures
        v.len() <= m.entries@.len(),
{
    let ks = m.keys();
    assert forall|x: Local| v.to_set().contains(x) implies ks.to_set().contains(x) by {
        let i = choose|i: int| 0 <= i < v.len() && v[i] == x;
        assert(m.has(v[i]));
        let j = choose|j: int| 0 <= j < m.entries@.len() && #[trigger] m.entries@[j].0 == x;
        assert(ks[j] == x);
    }
    ks.lemma_cardinality_of_set();
    v.unique_seq_to_set();
    vstd::set_lib::lemma_len_subset(v.to_set(), ks.to_set());
}

/// The successor function of a copy map.
pub open spec fn lookup_fn(m: AssocMap<Local, Local>) -> spec_fn(Local) -> Option<Local> {
    |x: Local| m.get_spec(x)
}

fn chase(copies: &AssocMap<Local, Local>, src: Local) -> (r: Local)
    requires
        copies.wf(),
    ensures
        exists|k: nat| #[trigger] chase_stops_at(lookup_fn(*copies), src, k) && r == copy_step(lookup_fn(*copies), src, k),
{
    let ghost next = lookup_fn(*copies);
    let mut current = src;
    let mut visited: Vec<Local> = Vec::new();
    let ghost mut k: nat = 0;
    loop
        invariant
            copies.wf(),
            next == lookup_fn(*copies),
            current == copy_step(next, src, k),
            visited@.len() == k,
            forall|j: int| 0 <= j < k ==> #[trigger] visited@[j] == copy_step(next, src, j as nat),
            forall|j: nat| j < k ==> (#[trigger] next(copy_step(next, src, j))) is Some,
            forall|i: nat, j: nat| i < j < k ==> #[trigger] copy_step(next, src, i) != #[trigger] copy_step(next, src, j),
            visited@.len() <= copies.entries@.len(),
        decreases copies.entries@.len() - visited@.len(),
    {
        match copies.get(&current) {
            None => {
                assert(chase_stops_at(next, src, k));
                return current;
            },
            Some(n) => {
                if contains_local(&visited, current) {
                    let ghost j = choose|j: int| 0 <= j < visited@.len() && visited@[j] == current;
                    assert(copy_step(next, src, j as nat) == copy_step(next, src, k));
                    assert(chase_stops_at(next, src, k));
                    return current;
                }
                let nx = *n;
                proof {
                    assert forall|i: nat| i < k implies #[trigger] copy_step(next, src, i) != copy_step(next, src, k) by {
                        assert(visited@[i as int] == copy_step(next, src, i));
                    }
                }
                visited.push(current);
                proof {
                    assert(copy_step(next, src, k + 1) == nx);
                    assert forall|i: int, j: int| 0 <= i < j < visited@.len() implies visited@[i] != visited@[j] by {
                        if j < k {
                            assert(copy_step(next, src, i as nat) != copy_step(next, src, j as nat));
                        } else {
                            assert(visited@[i] == copy_step(next, src, i as nat));
                        }
                    }
                    assert forall|i: int| 0 <= i < visited@.len() implies copies.has(#[trigger] visited@[i]) by {
                        if i < k {
                            assert(next(copy_step(next, src, i as nat)) is Some);
                        }
                    }
                    lemma_distinct_keys_bound(visited@, *copies);
                    k = k + 1;
                }
                current = nx;
            },
        }
    }
}

/// Each copied local paired with the end of its chain of copies.
pub fn resolve_copies(copies: &AssocMap<Local, Local>) -> (resolved: AssocMap<Local, Local>)
    requires
        copies.wf(),
    ensures
        resolved.wf(),
        forall|d: Local| #[trigger] resolved.get_spec(d) == (match copies.get_spec(d) {
            Some(s) => Some(chase_end(lookup_fn(*copies), s)),
            None => None,
        }),
{
    let ghost next = lookup_fn(*copies);
    let mut resolved: AssocMap<Local, Local> = AssocMap::new();
    let mut i: usize = 0;
    while i < copies.entries.len()
        invariant
            copies.wf(),
            next == lookup_fn(*copies),
            0 <= i <= copies.entries@.len(),
            resolved.wf(),
            forall|d: Local| #[trigger] resolved.get_spec(d) == (if exists|j: int| 0 <= j < i && copies.entries@[j].0 == d {
                Some(chase_end(next, copies.get_spec(d).unwrap()))
            } else {
                None
            }),
        decreases copies.entries@.len() - i,
    {
        let d = copies.entries[i].0;
        let s = copies.entries[i].1;
        proof {
            crate::assoc::lemma_get_at(copies, i as int);
        }
        let r = chase(copies, s);
        proof {
            let k = choose|k: nat| chase_stops_at(next, s, k) && r == copy_step(next, s, k);
            let k2 = choose|k2: nat| chase_stops_at(next, s, k2);
            lemma_chase_stop_unique(next, s, k, k2);
        }
        let _ = resolved.insert(d, r);
        i = i + 1;
        assert forall|x: Local| #[trigger] resolved.get_spec(x) == (if exists|j: int| 0 <= j < i && copies.entries@[j].0 == x {
            Some(chase_end(next, copies.get_spec(x).unwrap()))
        } else {
            None
        }) by {
            if x != d {
                if exists|j: int| 0 <= j < i && copies.entries@[j].0 == x {
                    let j = choose|j: int| 0 <= j < i && copies.entries@[j].0 == x;
                    assert(j < i - 1);
                }
            } else {
                assert(copies.entries@[i - 1].0 == x);
            }
        }
    }
    assert forall|d: Local| #[trigger] resolved.get_spec(d) == (match copies.get_spec(d) {
        Some(s) => Some(chase_end(lookup_fn(*copies), s)),
        None => None,
    }) by {
        if exists|j: int| 0 <= j < i && copies.entries@[j].0 == d {
            assert(copies.has(d));
        }
        if copies.has(d) {
            let j = choose|j: int| 0 <= j < copies.entries@.len() && #[trigger] copies.entries@[j].0 == d;
            assert(0 <= j < i && copies.entries@[j].0 == d);
        }
    }
    resolved
}


/// The copies made by the statements: each copied local paired with the
/// source of its last copy.
fn collect_copies(blocks: &Vec<BasicBlock>) -> (copies: AssocMap<Local, Local>)
    ensures
        copies.wf(),
        forall|d: Local| #[trigger] copies.get_spec(d) == last_copy(blocks@, d),
{
    let mut copies: AssocMap<Local, Local> = AssocMap::new();
    let mut b: usize = 0;
    while b < blocks.len()
        invariant
            0 <= b <= blocks@.len(),
            copies.wf(),
            forall|d: Local| #[trigger] copies.get_spec(d) == last_copy(blocks@.take(b as int), d),
        decreases blocks@.len() - b,
    {
        let block = &blocks[b];
        let mut i: usize = 0;
        while i < block.statements.len()
            invariant
                0 <= b < blocks@.len(),
                *block == blocks@[b as int],
                0 <= i <= block.statements@.len(),
                copies.wf(),
                forall|d: Local| #[trigger] copies.get_spec(d) == (match last_copy_in(block.statements@.take(i as int), d) {
                    Some(y) => Some(y),
                    None => last_copy(blocks@.take(b as int), d),
                }),
            decreases block.statements@.len() - i,
        {
            let ghost st = block.statements@[i as int];
            assert(block.statements@.take(i + 1).drop_last() =~= block.statements@.take(i as int));
            assert(block.statements@.take(i + 1).last() == st);
            match &block.statements[i].kind {
                StatementKind::Assign(place, Rvalue::Use(Operand::Copy(src))) => {
                    if place.projection.len() == 0 && src.projection.len() == 0 {
                        let _ = copies.insert(place.local, src.local);
                    }
                },
                _ => {},
            }
            i = i + 1;
        }
        assert(block.statements@.take(i as int) =~= block.statements@);
        b = b + 1;
        assert(blocks@.take(b as int).drop_last() =~= blocks@.take(b - 1));
        assert(blocks@.take(b as int).last() == blocks@[b - 1]);
    }
    assert(blocks@.take(blocks@.len() as int) =~= blocks@);
    copies
}

/// `b` is `a` with each read local `l` replaced by `ren(l)`.
pub open spec fn subst_place_rel(ren: spec_fn(Local) -> Local, a: Place, b: Place) -> bool {
    b.local == ren(a.local) && b.projection == a.projection
}

/// `b` is operand `a` with its local replaced by `ren`.
pub open spec fn subst_operand_rel(ren: spec_fn(Local) -> Local, a: Operand, b: Operand) -> bool {
    match (a, b) {
        (Operand::Copy(p), Operand::Copy(q)) => subst_place_rel(ren, p, q),
        (Operand::Move(p), Operand::Move(q)) => subst_place_rel(ren, p, q),
        (Operand::Constant(c), Operand::Constant(d)) => c == d,
        _ => false,
    }
}

/// The operands are rewritten one for one.
pub open spec fn subst_operands_rel(ren: spec_fn(Local) -> Local, a: Seq<Operand>, b: Seq<Operand>) -> bool {
    a.len() == b.len() && forall|i: int| 0 <= i < a.len() ==> #[trigger] subst_operand_rel(ren, a[i], b[i])
}

/// `b` is rvalue `a` with its read locals replaced by `ren`.
pub open spec fn subst_rvalue_rel(ren: spec_fn(Local) -> Local, a: Rvalue, b: Rvalue) -> bool {
    match (a, b) {
        (Rvalue::Use(x), Rvalue::Use(y)) => subst_operand_rel(ren, x, y),
        (Rvalue::UnaryOp(o1, x), Rvalue::UnaryOp(o2, y)) => o1 == o2 && subst_operand_rel(ren, x, y),
        (Rvalue::Cast(k1, x, t1), Rvalue::Cast(k2, y, t2)) => k1 == k2 && t1 == t2 && subst_operand_rel(ren, x, y),
        (Rvalue::BinaryOp(o1, x1, y1), Rvalue::BinaryOp(o2, x2, y2)) =>
            o1 == o2 && subst_operand_rel(ren, x1, x2) && subst_operand_rel(ren, y1, y2),
        (Rvalue::Ref(p), Rvalue::Ref(q)) => subst_place_rel(ren, p, q),
        (Rvalue::RefMut(p), Rvalue::RefMut(q)) => subst_place_rel(ren, p, q),
        (Rvalue::Discriminant(p), Rvalue::Discriminant(q)) => subst_place_rel(ren, p, q),
        (Rvalue::Len(p), Rvalue::Len(q)) => subst_place_rel(ren, p, q),
        (Rvalue::Aggregate(k1, xs), Rvalue::Aggregate(k2, ys)) => k1 == k2 && subst_operands_rel(ren, xs@, ys@),
        (Rvalue::Closure(f1, xs), Rvalue::Closure(f2, ys)) => f1 == f2 && subst_operands_rel(ren, xs@, ys@),
        _ => false,
    }
}

/// `b` is statement `a` with the locals its rvalue reads replaced by `ren`.
pub open spec fn subst_statement_rel(ren: spec_fn(Local) -> Local, a: Statement, b: Statement) -> bool {
    &&& b.span == a.span
    &&& match (a.kind, b.kind) {
        (StatementKind::Assign(p, r1), StatementKind::Assign(q, r2)) => p == q && subst_rvalue_rel(ren, r1, r2),
        _ => b.kind == a.kind,
    }
}

/// `b` is terminator `a` with the locals it reads replaced by `ren`.
pub open spec fn subst_terminator_rel(ren: spec_fn(Local) -> Local, a: Terminator, b: Terminator) -> bool {
    &&& b.span == a.span
    &&& match (a.kind, b.kind) {
        (TerminatorKind::SwitchInt { discr: d1, targets: t1 }, TerminatorKind::SwitchInt { discr: d2, targets: t2 }) =>
            subst_operand_rel(ren, d1, d2) && t1 == t2,
        (TerminatorKind::Call { func: f1, args: a1, dest: x1, target: g1 }, TerminatorKind::Call { func: f2, args: a2, dest: x2, target: g2 }) =>
            subst_operand_rel(ren, f1, f2) && subst_operands_rel(ren, a1@, a2@) && x1 == x2 && g1 == g2,
        (TerminatorKind::Assert { cond: c1, expected: e1, msg: m1, target: t1 }, TerminatorKind::Assert { cond: c2, expected: e2, msg: m2, target: t2 }) =>
            subst_operand_rel(ren, c1, c2) && e1 == e2 && m1 == m2 && t1 == t2,
        (TerminatorKind::Drop { place: p1, target: t1 }, TerminatorKind::Drop { place: p2, target: t2 }) =>
            subst_place_rel(ren, p1, p2) && t1 == t2,
        _ => b.kind == a.kind,
    }
}

/// The replacement a map gives a local: its value, or the local itself.
pub open spec fn subst_local(m: AssocMap<Local, Local>, l: Local) -> Local {
    match m.get_spec(l) {
        Some(x) => x,
        None => l,
    }
}

/// The replacement function of a map.
pub open spec fn subst_fn(m: AssocMap<Local, Local>) -> spec_fn(Local) -> Local {
    |l: Local| subst_local(m, l)
}

fn subst_place(p: Place, subs: &AssocMap<Local, Local>) -> (q: Place)
    requires
        subs.wf(),
    ensures
        subst_place_rel(subst_fn(*subs), p, q),
{
    let Place { local, projection } = p;
    let local = match subs.get(&local) {
        Some(n) => *n,
        None => local,
    };
    Place { local, projection }
}

fn subst_operand(o: Operand, subs: &AssocMap<Local, Local>) -> (r: Operand)
    requires
        subs.wf(),
    ensures
        subst_operand_rel(subst_fn(*subs), o, r),
{
    match o {
        Operand::Copy(p) => Operand::Copy(subst_place(p, subs)),
        Operand::Move(p) => Operand::Move(subst_place(p, subs)),
        Operand::Constant(c) => Operand::Constant(c),
    }
}

fn subst_operands(ops: Vec<Operand>, subs: &AssocMap<Local, Local>) -> (r: Vec<Operand>)
    requires
        subs.wf(),
    ensures
        subst_operands_rel(subst_fn(*subs), ops@, r@),
{
    let ghost orig = ops@;
    let mut rest = ops;
    let mut out: Vec<Operand> = Vec::new();
    while rest.len() > 0
        invariant
            subs.wf(),
            out@.len() + rest@.len() == orig.len(),
            rest@ == orig.skip(out@.len() as int),
            forall|i: int| 0 <= i < out@.len() ==> #[trigger] subst_operand_rel(subst_fn(*subs), orig[i], out@[i]),
        decreases rest@.len(),
    {
        let ghost k = out@.len() as int;
        let o = rest.remove(0);
        assert(o == orig[k]);
        out.push(subst_operand(o, subs));
        assert(rest@ =~= orig.skip(out@.len() as int));
    }
    out
}

fn subst_rvalue(rv: Rvalue, subs: &AssocMap<Local, Local>) -> (r: Rvalue)
    requires
        subs.wf(),
    ensures
        subst_rvalue_rel(subst_fn(*subs), rv, r),
{
    match rv {
        Rvalue::Use(o) => Rvalue::Use(subst_operand(o, subs)),
        Rvalue::UnaryOp(op, o) => Rvalue::UnaryOp(op, subst_operand(o, subs)),
        Rvalue::Cast(k, o, t) => Rvalue::Cast(k, subst_operand(o, subs), t),
        Rvalue::BinaryOp(op, a, b) => Rvalue::BinaryOp(op, subst_operand(a, subs), subst_operand(b, subs)),
        Rvalue::Ref(p) => Rvalue::Ref(subst_place(p, subs)),
        Rvalue::RefMut(p) => Rvalue::RefMut(subst_place(p, subs)),
        Rvalue::Discriminant(p) => Rvalue::Discriminant(subst_place(p, subs)),
        Rvalue::Len(p) => Rvalue::Len(subst_place(p, subs)),
        Rvalue::Aggregate(k, ops) => Rvalue::Aggregate(k, subst_operands(ops, subs)),
        Rvalue::Closure(f, ops) => Rvalue::Closure(f, subst_operands(ops, subs)),
    }
}

fn subst_statement(s: Statement, subs: &AssocMap<Local, Local>) -> (r: Statement)
    requires
        subs.wf(),
    ensures
        subst_statement_rel(subst_fn(*subs), s, r),
{
    let Statement { kind, span } = s;
    match kind {
        StatementKind::Assign(p, rv) => Statement { kind: StatementKind::Assign(p, subst_rvalue(rv, subs)), span },
        other => Statement { kind: other, span },
    }
}

fn subst_terminator(t: Terminator, subs: &AssocMap<Local, Local>) -> (r: Terminator)
    requires
        subs.wf(),
    ensures
        subst_terminator_rel(subst_fn(*subs), t, r),
{
    let Terminator { kind, span } = t;
    let kind = match kind {
        TerminatorKind::SwitchInt { discr, targets } => TerminatorKind::SwitchInt { discr: subst_operand(discr, subs), targets },
        TerminatorKind::Call { func, args, dest, target } => TerminatorKind::Call {
            func: subst_operand(func, subs),
            args: subst_operands(args, subs),
            dest,
            target,
        },
        TerminatorKind::Assert { cond, expected, msg, target } => TerminatorKind::Assert {
            cond: subst_operand(cond, subs),
            expected,
            msg,
            target,
        },
        TerminatorKind::Drop { place, target } => TerminatorKind::Drop { place: subst_place(place, subs), target },
        other => other,
    };
    Terminator { kind, span }
}

/// The statements and terminators of the blocks are rewritten by `ren`.
pub open spec fn blocks_subst(ren: spec_fn(Local) -> Local, before: Seq<BasicBlock>, after: Seq<BasicBlock>) -> bool {
    &&& after.len() == before.len()
    &&& forall|b: int| 0 <= b < before.len() ==> {
        &&& (#[trigger] after[b]).id == before[b].id
        &&& after[b].statements@.len() == before[b].statements@.len()
        &&& (forall|i: int| 0 <= i < before[b].statements@.len()
            ==> #[trigger] subst_statement_rel(ren, before[b].statements@[i], after[b].statements@[i]))
        &&& match (before[b].terminator, after[b].terminator) {
            (Some(t1), Some(t2)) => subst_terminator_rel(ren, t1, t2),
            (None, None) => true,
            _ => false,
        }
    }
}

fn subst_block(block: BasicBlock, subs: &AssocMap<Local, Local>) -> (r: BasicBlock)
    requires
        subs.wf(),
    ensures
        r.id == block.id,
        r.statements@.len() == block.statements@.len(),
        forall|i: int| 0 <= i < block.statements@.len()
            ==> #[trigger] subst_statement_rel(subst_fn(*subs), block.statements@[i], r.statements@[i]),
        match (block.terminator, r.terminator) {
            (Some(t1), Some(t2)) => subst_terminator_rel(subst_fn(*subs), t1, t2),
            (None, None) => true,
            _ => false,
        },
{
    let BasicBlock { id, statements, terminator } = block;
    let ghost orig = statements@;
    let mut rest = statements;
    let mut out: Vec<Statement> = Vec::new();
    while rest.len() > 0
        invariant
            subs.wf(),
            out@.len() + rest@.len() == orig.len(),
            rest@ == orig.skip(out@.len() as int),
            forall|i: int| 0 <= i < out@.len() ==> #[trigger] subst_statement_rel(subst_fn(*subs), orig[i], out@[i]),
        decreases rest@.len(),
    {
        let ghost k = out@.len() as int;
        let st = rest.remove(0);
        assert(st == orig[k]);
        out.push(subst_statement(st, subs));
        assert(rest@ =~= orig.skip(out@.len() as int));
    }
    let terminator = match terminator {
        Some(t) => Some(subst_terminator(t, subs)),
        None => None,
    };
    BasicBlock { id, statements: out, terminator }
}

/// Replaces each read of a copied local by the end of its chain of copies:
/// after `_2 = copy _1` and `_3 = copy _2`, reads of `_3` read `_1`.
pub fn copy_propagation(func: &mut MirFunction)
    ensures
        propagated(*old(func), *final(func)),
{
    let copies = collect_copies(&func.blocks);
    let resolved = resolve_copies(&copies);
    let ghost orig = func.blocks@;
    proof {
        let lookup = lookup_fn(copies);
        let next = |x: Local| last_copy(orig, x);
        assert(lookup =~= next);
        assert(subst_fn(resolved) =~= (|l: Local| resolved_local(orig, l)));
    }
    let mut blocks: Vec<BasicBlock> = Vec::new();
    std::mem::swap(&mut blocks, &mut func.blocks);
    let mut rest = blocks;
    let mut out: Vec<BasicBlock> = Vec::new();
    while rest.len() > 0
        invariant
            resolved.wf(),
            out@.len() + rest@.len() == orig.len(),
            rest@ == orig.skip(out@.len() as int),
            forall|q: int| 0 <= q < out@.len() ==> {
                &&& (#[trigger] out@[q]).id == orig[q].id
                &&& out@[q].statements@.len() == orig[q].statements@.len()
                &&& (forall|i: int| 0 <= i < orig[q].statements@.len()
                    ==> #[trigger] subst_statement_rel(subst_fn(resolved), orig[q].statements@[i], out@[q].statements@[i]))
                &&& match (orig[q].terminator, out@[q].terminator) {
                    (Some(t1), Some(t2)) => subst_terminator_rel(subst_fn(resolved), t1, t2),
                    (None, None) => true,
                    _ => false,
                }
            },
        decreases rest@.len(),
    {
        let ghost q = out@.len() as int;
        let block = rest.remove(0);
        assert(block == orig[q]);
        out.push(subst_block(block, &resolved));
        assert(rest@ =~= orig.skip(out@.len() as int));
    }
    func.blocks = out;
}


// ============================================================================
// CFG simplification
// ============================================================================

/// The target a switch takes for `v`: the first pair with value `v`, or
/// the default.
pub open spec fn switch_pick(targets: Seq<(i128, BlockId)>, v: i128, otherwise: BlockId) -> BlockId
    decreases targets.len(),
{
    if targets.len() == 0 {
        otherwise
    } else if targets[0].0 == v {
        targets[0].1
    } else {
        switch_pick(targets.drop_first(), v, otherwise)
    }
}

/// A terminator after CFG simplification: a switch on an integer or
/// boolean constant (`true` as 1, `false` as 0) becomes a jump to the
/// target it takes.
pub open spec fn simplify_terminator_spec(t: Terminator) -> Terminator {
    match t.kind {
        TerminatorKind::SwitchInt { discr, targets } => match discr {
            Operand::Constant(Constant::Int(v)) => Terminator {
                kind: TerminatorKind::Goto { target: switch_pick(targets.targets@, v as i128, targets.otherwise) },
                span: t.span,
            },
            Operand::Constant(Constant::Bool(b)) => Terminator {
                kind: TerminatorKind::Goto {
                    target: switch_pick(targets.targets@, if b { 1i128 } else { 0i128 }, targets.otherwise),
                },
                span: t.span,
            },
            _ => t,
        },
        _ => t,
    }
}

fn pick_target(targets: &Vec<(i128, BlockId)>, v: i128, otherwise: BlockId) -> (b: BlockId)
    ensures
        b == switch_pick(targets@, v, otherwise),
{
    let mut i: usize = 0;
    assert(targets@.skip(0) =~= targets@);
    while i < targets.len()
        invariant
            0 <= i <= targets@.len(),
            switch_pick(targets@, v, otherwise) == switch_pick(targets@.skip(i as int), v, otherwise),
        decreases targets@.len() - i,
    {
        assert(targets@.skip(i as int).drop_first() =~= targets@.skip(i + 1));
        assert(targets@.skip(i as int)[0] == targets@[i as int]);
        if targets[i].0 == v {
            return targets[i].1;
        }
        i = i + 1;
    }
    assert(targets@.skip(i as int).len() == 0);
    otherwise
}

fn simplify_terminator(t: Terminator) -> (r: Terminator)
    ensures
        r == simplify_terminator_spec(t),
{
    let pick: Option<BlockId> = match &t.kind {
        TerminatorKind::SwitchInt { discr, targets } => match discr {
            Operand::Constant(Constant::Int(v)) => Some(pick_target(&targets.targets, *v as i128, targets.otherwise)),
            Operand::Constant(Constant::Bool(b)) => {
                let v: i128 = if *b { 1 } else { 0 };
                Some(pick_target(&targets.targets, v, targets.otherwise))
            },
            _ => None,
        },
        _ => None,
    };
    match pick {
        Some(target) => Terminator { kind: TerminatorKind::Goto { target }, span: t.span },
        None => t,
    }
}

fn simplify_block_terminator(b: BasicBlock) -> (r: BasicBlock)
    ensures
        r.id == b.id,
        r.statements == b.statements,
        r.terminator == (match b.terminator {
            Some(t) => Some(simplify_terminator_spec(t)),
            None => None,
        }),
{
    let BasicBlock { id, statements, terminator } = b;
    let terminator = match terminator {
        Some(t) => Some(simplify_terminator(t)),
        None => None,
    };
    BasicBlock { id, statements, terminator }
}

/// The blocks keep their statements, and switches on constants become
/// jumps.
pub open spec fn blocks_cfg_simplified(before: Seq<BasicBlock>, after: Seq<BasicBlock>) -> bool {
    &&& after.len() == before.len()
    &&& forall|b: int| 0 <= b < before.len() ==> {
        &&& (#[trigger] after[b]).id == before[b].id
        &&& after[b].statements == before[b].statements
        &&& after[b].terminator == (match before[b].terminator {
            Some(t) => Some(simplify_terminator_spec(t)),
            None => None,
        })
    }
}

/// Turns each switch on a constant into a jump to the target it takes.
pub fn simplify_cfg(func: &mut MirFunction)
    ensures
        cfg_simplified(*old(func), *final(func)),
{
    let mut blocks: Vec<BasicBlock> = Vec::new();
    std::mem::swap(&mut blocks, &mut func.blocks);
    let blocks = map_vec(
        blocks,
        &simplify_block_terminator,
        Ghost(|a: BasicBlock, b: BasicBlock| {
            &&& b.id == a.id
            &&& b.statements == a.statements
            &&& b.terminator == (match a.terminator {
                Some(t) => Some(simplify_terminator_spec(t)),
                None => None,
            })
        }),
    );
    func.blocks = blocks;
}


// ============================================================================
// Pipelines
// ============================================================================

/// `g` is `f` after constant folding.
pub open spec fn folded(f: MirFunction, g: MirFunction) -> bool {
    same_but_blocks(f, g) && blocks_map_statements(f.blocks@, g.blocks@, |s: Statement| fold_statement(s))
}

/// `g` is `f` after algebraic simplification.
pub open spec fn simplified(f: MirFunction, g: MirFunction) -> bool {
    same_but_blocks(f, g) && blocks_map_statements(f.blocks@, g.blocks@, |s: Statement| simplify_statement(s))
}

/// `g` is `f` after copy propagation.
pub open spec fn propagated(f: MirFunction, g: MirFunction) -> bool {
    same_but_blocks(f, g) && blocks_subst(|l: Local| resolved_local(f.blocks@, l), f.blocks@, g.blocks@)
}

/// `g` is `f` after dead code elimination.
pub open spec fn dead_code_removed(f: MirFunction, g: MirFunction) -> bool {
    same_but_blocks(f, g) && blocks_dce(f.blocks@, g.blocks@)
}

/// `g` is `f` after CFG simplification.
pub open spec fn cfg_simplified(f: MirFunction, g: MirFunction) -> bool {
    same_but_blocks(f, g) && blocks_cfg_simplified(f.blocks@, g.blocks@)
}

/// One basic round: folding, simplification, dead code elimination and
/// CFG simplification.
pub open spec fn basic_round(f: MirFunction, g: MirFunction) -> bool {
    exists|f1: MirFunction, f2: MirFunction, f3: MirFunction|
        #![trigger folded(f, f1), simplified(f1, f2), dead_code_removed(f2, f3)]
        folded(f, f1) && simplified(f1, f2) && dead_code_removed(f2, f3) && cfg_simplified(f3, g)
}

/// One aggressive round: folding, simplification, copy propagation, dead
/// code elimination and CFG simplification.
pub open spec fn aggressive_round(f: MirFunction, g: MirFunction) -> bool {
    exists|f1: MirFunction, f2: MirFunction, f3: MirFunction, f4: MirFunction|
        #![trigger folded(f, f1), simplified(f1, f2), propagated(f2, f3), dead_code_removed(f3, f4)]
        folded(f, f1) && simplified(f1, f2) && propagated(f2, f3) && dead_code_removed(f3, f4) && cfg_simplified(f4, g)
}

/// How much to optimize.
#[derive(Debug, Clone, Copy, PartialEq, Eq, Structural)]
pub enum OptLevel {
    /// No passes.
    Off,
    /// One round of the basic passes.
    Basic,
    /// Three rounds of all passes.
    Aggressive,
}

impl Default for OptLevel {
    fn default() -> (l: Self)
        ensures
            l == OptLevel::Off,
    {
        OptLevel::Off
    }
}

/// `g` is `f` optimized at `level`.
pub open spec fn optimized(level: OptLevel, f: MirFunction, g: MirFunction) -> bool {
    match level {
        OptLevel::Off => g == f,
        OptLevel::Basic => basic_round(f, g),
        OptLevel::Aggressive => exists|r1: MirFunction, r2: MirFunction|
            #![trigger aggressive_round(f, r1), aggressive_round(r1, r2)]
            aggressive_round(f, r1) && aggressive_round(r1, r2) && aggressive_round(r2, g),
    }
}

/// Folding leaves no statement whose fold would overflow.
proof fn lemma_safe_after_fold(f: MirFunction, g: MirFunction)
    requires
        folded(f, g),
    ensures
        blocks_fold_safely(g.blocks@),
{
    assert forall|b: int, i: int| 0 <= b < g.blocks@.len() && 0 <= i < g.blocks@[b].statements@.len()
        implies !stmt_fold_overflows(#[trigger] g.blocks@[b].statements@[i]) by {
        assert(g.blocks@[b].statements@[i] == fold_statement(f.blocks@[b].statements@[i]));
    }
}

/// Simplification keeps every statement free of overflowing folds.
proof fn lemma_safe_after_simplify(f: MirFunction, g: MirFunction)
    requires
        simplified(f, g),
        blocks_fold_safely(f.blocks@),
    ensures
        blocks_fold_safely(g.blocks@),
{
    assert forall|b: int, i: int| 0 <= b < g.blocks@.len() && 0 <= i < g.blocks@[b].statements@.len()
        implies !stmt_fold_overflows(#[trigger] g.blocks@[b].statements@[i]) by {
        assert(g.blocks@[b].statements@[i] == simplify_statement(f.blocks@[b].statements@[i]));
        assert(!stmt_fold_overflows(f.blocks@[b].statements@[i]));
    }
}

/// Copy propagation keeps every statement free of overflowing folds: it
/// leaves constants alone.
proof fn lemma_safe_after_propagate(f: MirFunction, g: MirFunction)
    requires
        propagated(f, g),
        blocks_fold_safely(f.blocks@),
    ensures
        blocks_fold_safely(g.blocks@),
{
    let ren = |l: Local| resolved_local(f.blocks@, l);
    assert forall|b: int, i: int| 0 <= b < g.blocks@.len() && 0 <= i < g.blocks@[b].statements@.len()
        implies !stmt_fold_overflows(#[trigger] g.blocks@[b].statements@[i]) by {
        let s0 = f.blocks@[b].statements@[i];
        let s1 = g.blocks@[b].statements@[i];
        assert(subst_statement_rel(ren, s0, s1));
        assert(!stmt_fold_overflows(s0));
    }
}

/// Dead code elimination keeps every statement free of overflowing folds:
/// it only removes statements.
proof fn lemma_safe_after_dce(f: MirFunction, g: MirFunction)
    requires
        dead_code_removed(f, g),
        blocks_fold_safely(f.blocks@),
    ensures
        blocks_fold_safely(g.blocks@),
{
    assert forall|b: int, i: int| 0 <= b < g.blocks@.len() && 0 <= i < g.blocks@[b].statements@.len()
        implies !stmt_fold_overflows(#[trigger] g.blocks@[b].statements@[i]) by {
        let pred = keep_pred(f.blocks@);
        if reachable(f.blocks@, BlockId(b as u32)) {
            let t = g.blocks@[b].statements@[i];
            assert(f.blocks@[b].statements@.filter(pred)[i] == t);
            assert(f.blocks@[b].statements@.filter(pred).contains(t));
            f.blocks@[b].statements@.lemma_filter_contains_rev(pred, t);
            let j = choose|j: int| 0 <= j < f.blocks@[b].statements@.len() && f.blocks@[b].statements@[j] == t;
            assert(!stmt_fold_overflows(f.blocks@[b].statements@[j]));
        }
    }
}

/// CFG simplification keeps the statements.
proof fn lemma_safe_after_cfg(f: MirFunction, g: MirFunction)
    requires
        cfg_simplified(f, g),
        blocks_fold_safely(f.blocks@),
    ensures
        blocks_fold_safely(g.blocks@),
{
    assert forall|b: int, i: int| 0 <= b < g.blocks@.len() && 0 <= i < g.blocks@[b].statements@.len()
        implies !stmt_fold_overflows(#[trigger] g.blocks@[b].statements@[i]) by {
        assert(g.blocks@[b].statements == f.blocks@[b].statements);
    }
}

/// Optimizes a function at `level`: nothing at `Off`; one round of
/// folding, simplification, dead code elimination and CFG simplification
/// at `Basic`; three rounds that add copy propagation at `Aggressive`.
pub fn optimize_function(func: &mut MirFunction, level: OptLevel)
    requires
        level != OptLevel::Off ==> blocks_fold_safely(old(func).blocks@) && old(func).blocks@.len() <= u32::MAX,
    ensures
        optimized(level, *old(func), *final(func)),
        same_but_blocks(*old(func), *final(func)),
        blocks_fold_safely(old(func).blocks@) ==> blocks_fold_safely(final(func).blocks@),
        final(func).blocks@.len() == old(func).blocks@.len(),
{
    let ghost f0 = *func;
    match level {
        OptLevel::Off => {},
        OptLevel::Basic => {
            constant_fold(func);
            let ghost f1 = *func;
            proof { lemma_safe_after_fold(f0, f1); }
            algebraic_simplify(func);
            let ghost f2 = *func;
            proof { lemma_safe_after_simplify(f1, f2); }
            dead_code_elimination(func);
            let ghost f3 = *func;
            proof { lemma_safe_after_dce(f2, f3); }
            simplify_cfg(func);
            proof {
                lemma_safe_after_cfg(f3, *func);
                assert(folded(f0, f1) && simplified(f1, f2) && dead_code_removed(f2, f3) && cfg_simplified(f3, *func));
            }
        },
        OptLevel::Aggressive => {
            let ghost mut rounds: Seq<MirFunction> = seq![*func];
            let mut k: u32 = 0;
            while k < 3
                invariant
                    k <= 3,
                    rounds.len() == k + 1,
                    rounds[0] == f0,
                    rounds[k as int] == *func,
                    forall|j: int| #![trigger rounds[j]] 0 <= j < k ==> aggressive_round(rounds[j], rounds[j + 1]),
                    blocks_fold_safely(func.blocks@),
                    same_but_blocks(f0, *func),
                    func.blocks@.len() == f0.blocks@.len(),
                    f0.blocks@.len() <= u32::MAX,
                decreases 3 - k,
            {
                let ghost g0 = *func;
                constant_fold(func);
                let ghost g1 = *func;
                proof { lemma_safe_after_fold(g0, g1); }
                algebraic_simplify(func);
                let ghost g2 = *func;
                proof { lemma_safe_after_simplify(g1, g2); }
                copy_propagation(func);
                let ghost g3 = *func;
                proof { lemma_safe_after_propagate(g2, g3); }
                dead_code_elimination(func);
                let ghost g4 = *func;
                proof { lemma_safe_after_dce(g3, g4); }
                simplify_cfg(func);
                proof {
                    lemma_safe_after_cfg(g4, *func);
                    assert(folded(g0, g1) && simplified(g1, g2) && propagated(g2, g3) && dead_code_removed(g3, g4) && cfg_simplified(g4, *func));
                    assert(aggressive_round(g0, *func));
                    let ghost old_rounds = rounds;
                    rounds = rounds.push(*func);
                    assert forall|j: int| #![trigger rounds[j]] 0 <= j < k + 1 implies aggressive_round(rounds[j], rounds[j + 1]) by {
                        if j < k {
                            assert(rounds[j] == old_rounds[j] && rounds[j + 1] == old_rounds[j + 1]);
                        }
                    }
                }
                k = k + 1;
            }
            proof {
                assert(aggressive_round(rounds[0], rounds[1]));
                assert(aggressive_round(rounds[1], rounds[2]));
                assert(aggressive_round(rounds[2], rounds[3]));
            }
        },
    }
}


/// Optimizes every function of the program at `level`.
pub fn optimize_program(program: &mut MirProgram, level: OptLevel)
    requires
        old(program).wf(),
        level != OptLevel::Off ==> forall|i: int| 0 <= i < old(program).functions.entries@.len() ==> {
            let f = (#[trigger] old(program).functions.entries@[i]).1;
            blocks_fold_safely(f.blocks@) && f.blocks@.len() <= u32::MAX
        },
    ensures
        final(program).wf(),
        final(program).functions.entries@.len() == old(program).functions.entries@.len(),
        forall|i: int| 0 <= i < old(program).functions.entries@.len() ==> {
            &&& (#[trigger] final(program).functions.entries@[i]).0 == old(program).functions.entries@[i].0
            &&& optimized(level, old(program).functions.entries@[i].1, final(program).functions.entries@[i].1)
        },
        final(program).structs == old(program).structs,
        final(program).enums == old(program).enums,
        final(program).effects == old(program).effects,
        final(program).handlers == old(program).handlers,
        final(program).entry == old(program).entry,
        final(program).strings == old(program).strings,
        final(program).fn_name_to_id == old(program).fn_name_to_id,
{
    let ghost orig = program.functions.entries@;
    let mut i: usize = 0;
    while i < program.functions.entries.len()
        invariant
            0 <= i <= orig.len(),
            program.functions.entries@.len() == orig.len(),
            program.structs == old(program).structs,
            program.enums == old(program).enums,
            program.effects == old(program).effects,
            program.handlers == old(program).handlers,
            program.entry == old(program).entry,
            program.strings == old(program).strings,
            program.fn_name_to_id == old(program).fn_name_to_id,
            orig == old(program).functions.entries@,
            old(program).wf(),
            level != OptLevel::Off ==> forall|j: int| 0 <= j < orig.len() ==> {
                let f = (#[trigger] orig[j]).1;
                blocks_fold_safely(f.blocks@) && f.blocks@.len() <= u32::MAX
            },
            forall|j: int| i <= j < orig.len() ==> #[trigger] program.functions.entries@[j] == orig[j],
            forall|j: int| 0 <= j < i ==> {
                &&& (#[trigger] program.functions.entries@[j]).0 == orig[j].0
                &&& optimized(level, orig[j].1, program.functions.entries@[j].1)
                &&& same_but_blocks(orig[j].1, program.functions.entries@[j].1)
            },
        decreases orig.len() - i,
    {
        let ghost before = program.functions.entries@;
        optimize_function(&mut program.functions.entries[i].1, level);
        assert forall|j: int| 0 <= j < orig.len() && j != i implies #[trigger] program.functions.entries@[j] == before[j] by {}
        i = i + 1;
    }
    assert forall|a: int, b: int| 0 <= a < b < program.functions.entries@.len() implies
        #[trigger] program.functions.entries@[a].0 != #[trigger] program.functions.entries@[b].0 by {
        assert(orig[a].0 != orig[b].0);
    }
    assert forall|j: int| 0 <= j < program.functions.entries@.len() implies (#[trigger] program.functions.entries@[j]).1.wf() by {
        assert(orig[j].1.wf());
    }
}


// ============================================================================
// Loop, bounds-check and string passes
// ============================================================================

/// A natural loop found from a back edge.
struct LoopInfo {
    header: BlockId,
    back_edges: Vec<BlockId>,
    body: Vec<BlockId>,
}

/// The back edges among the first `m` successors of block `idx`: each
/// successor numbered at most `idx`, paired with `idx`.
spec fn back_edges_among(succs: Seq<BlockId>, idx: u32, m: int) -> Seq<(BlockId, BlockId)>
    decreases m,
{
    if m <= 0 {
        Seq::empty()
    } else {
        back_edges_among(succs, idx, m - 1) + if succs[m - 1].0 <= idx {
            seq![(succs[m - 1], BlockId(idx))]
        } else {
            Seq::empty()
        }
    }
}

/// The back edges leaving the first `n` blocks, block by block and, within
/// a block, in the order of its successors.
spec fn back_edges_upto(blocks: Seq<BasicBlock>, n: int) -> Seq<(BlockId, BlockId)>
    decreases n,
{
    if n <= 0 {
        Seq::empty()
    } else {
        back_edges_upto(blocks, n - 1) + match blocks[n - 1].terminator {
            Some(t) => back_edges_among(successors_spec(t), (n - 1) as u32, successors_spec(t).len() as int),
            None => Seq::empty(),
        }
    }
}

/// A loop as header, back edges and body.
spec fn loop_view(l: LoopInfo) -> (BlockId, Seq<BlockId>, Seq<BlockId>) {
    (l.header, l.back_edges@, l.body@)
}

/// The loop of a back edge: the edge's target is the header, its source
/// the only back edge, and the body holds the two.
spec fn edge_loop(e: (BlockId, BlockId)) -> (BlockId, Seq<BlockId>, Seq<BlockId>) {
    (e.0, seq![e.1], seq![e.0, e.1])
}

/// The loops of the function: one per back edge, with the edge's target as
/// header and its source as the only back edge; the body holds both.
fn find_loops(blocks: &Vec<BasicBlock>) -> (loops: Vec<LoopInfo>)
    requires
        blocks@.len() <= u32::MAX,
    ensures
        loops@.map_values(|l: LoopInfo| loop_view(l))
            == back_edges_upto(blocks@, blocks@.len() as int).map_values(|e: (BlockId, BlockId)| edge_loop(e)),
{
    let mut loops: Vec<LoopInfo> = Vec::new();
    let mut idx: usize = 0;
    while idx < blocks.len()
        invariant
            0 <= idx <= blocks@.len(),
            blocks@.len() <= u32::MAX,
            loops@.map_values(|l: LoopInfo| loop_view(l))
                == back_edges_upto(blocks@, idx as int).map_values(|e: (BlockId, BlockId)| edge_loop(e)),
        decreases blocks@.len() - idx,
    {
        let block_id = BlockId(idx as u32);
        let ghost before = back_edges_upto(blocks@, idx as int);
        match &blocks[idx].terminator {
            Some(term) => {
                let succs = successors(term);
                let mut j: usize = 0;
                while j < succs.len()
                    invariant
                        0 <= j <= succs@.len(),
                        block_id.0 == idx,
                        loops@.map_values(|l: LoopInfo| loop_view(l))
                            == (before + back_edges_among(succs@, idx as u32, j as int)).map_values(|e: (BlockId, BlockId)| edge_loop(e)),
                    decreases succs@.len() - j,
                {
                    let succ = succs[j];
                    let ghost prev = loops@;
                    if succ.0 <= block_id.0 {
                        let mut back_edges: Vec<BlockId> = Vec::new();
                        back_edges.push(block_id);
                        let mut body: Vec<BlockId> = Vec::new();
                        body.push(succ);
                        body.push(block_id);
                        let l = LoopInfo { header: succ, back_edges, body };
                        assert(loop_view(l) == edge_loop((succ, block_id))) by {
                            assert(l.back_edges@ =~= seq![block_id]);
                            assert(l.body@ =~= seq![succ, block_id]);
                        }
                        loops.push(l);
                        assert(loops@.map_values(|l: LoopInfo| loop_view(l))
                            =~= prev.map_values(|l: LoopInfo| loop_view(l)).push(loop_view(l)));
                    }
                    assert((before + back_edges_among(succs@, idx as u32, j + 1)).map_values(|e: (BlockId, BlockId)| edge_loop(e))
                        =~= loops@.map_values(|l: LoopInfo| loop_view(l)));
                    j = j + 1;
                }
                assert(back_edges_upto(blocks@, idx + 1) == before + back_edges_among(succs@, idx as u32, succs@.len() as int));
            },
            None => {
                assert(back_edges_upto(blocks@, idx + 1) =~= before);
            },
        }
        idx = idx + 1;
    }
    loops
}

/// Whether a statement can move out of a loop; no statement is moved yet.
fn is_loop_invariant(_stmt: &Statement, _loop_info: &LoopInfo) -> (b: bool)
    ensures
        !b,
{
    false
}

/// The statements of the loop body that could move to a preheader, by
/// block and position; they are found but not moved.
fn loop_invariant_statements(blocks: &Vec<BasicBlock>, loop_info: &LoopInfo) -> (found: Vec<(BlockId, usize)>)
    ensures
        found@.len() == 0,
{
    let mut found: Vec<(BlockId, usize)> = Vec::new();
    let mut k: usize = 0;
    while k < loop_info.body.len()
        invariant
            0 <= k <= loop_info.body@.len(),
            found@.len() == 0,
        decreases loop_info.body@.len() - k,
    {
        let block_id = loop_info.body[k];
        let i = block_id.0 as usize;
        if i < blocks.len() {
            let mut s: usize = 0;
            while s < blocks[i].statements.len()
                invariant
                    i < blocks@.len(),
                    0 <= s <= blocks@[i as int].statements@.len(),
                    found@.len() == 0,
                decreases blocks@[i as int].statements@.len() - s,
            {
                if is_loop_invariant(&blocks[i].statements[s], loop_info) {
                    found.push((block_id, s));
                }
                s = s + 1;
            }
        }
        k = k + 1;
    }
    found
}

/// Finds the loops of the function and the statements in them that could
/// be hoisted; no statement qualifies yet, so the function is unchanged.
pub fn optimize_loops(func: &mut MirFunction)
    requires
        old(func).blocks@.len() <= u32::MAX,
    ensures
        *final(func) == *old(func),
{
    let loops = find_loops(&func.blocks);
    let mut k: usize = 0;
    while k < loops.len()
        invariant
            0 <= k <= loops@.len(),
            *func == *old(func),
        decreases loops@.len() - k,
    {
        let _hoistable = loop_invariant_statements(&func.blocks, &loops[k]);
        k = k + 1;
    }
}

/// Whether a statement is a bounds check that the known array lengths
/// prove safe; none is recognised yet.
fn is_bounds_check_stmt(_stmt: &Statement, _array_lengths: &AssocMap<Local, i64>) -> (b: bool)
    ensures
        !b,
{
    false
}

/// The local and length of an array that a statement builds by aggregate,
/// where the length fits in an `i64`.
pub open spec fn array_built(st: Statement) -> Option<(Local, i64)> {
    match st.kind {
        StatementKind::Assign(place, Rvalue::Aggregate(crate::mir::AggregateKind::Array(_), operands)) =>
            if operands@.len() <= i64::MAX { Some((place.local, operands@.len() as i64)) } else { None },
        _ => None,
    }
}

/// The array lengths known after the statements `stmts`, starting from
/// `known`: each array-building statement records its length for its
/// local, a later one replacing an earlier.
pub open spec fn lengths_after(known: Map<Local, i64>, stmts: Seq<Statement>) -> Map<Local, i64>
    decreases stmts.len(),
{
    if stmts.len() == 0 {
        known
    } else {
        let before = lengths_after(known, stmts.drop_last());
        match array_built(stmts.last()) {
            Some((l, n)) => before.insert(l, n),
            None => before,
        }
    }
}

/// The array lengths known after the first `n` blocks.
pub open spec fn lengths_upto(blocks: Seq<BasicBlock>, n: int) -> Map<Local, i64>
    decreases n,
{
    if n <= 0 {
        Map::empty()
    } else {
        lengths_after(lengths_upto(blocks, n - 1), blocks[n - 1].statements@)
    }
}

/// Whether an association map holds exactly the pairs of a map.
pub open spec fn holds_map(am: AssocMap<Local, i64>, m: Map<Local, i64>) -> bool {
    forall|k: Local| #[trigger] am.get_spec(k) == if m.dom().contains(k) { Some(m[k]) } else { None }
}

/// The lengths of the arrays built by aggregate statements, by local.
fn track_array_lengths(blocks: &Vec<BasicBlock>) -> (lengths: AssocMap<Local, i64>)
    ensures
        lengths.wf(),
        holds_map(lengths, lengths_upto(blocks@, blocks@.len() as int)),
{
    let mut lengths: AssocMap<Local, i64> = AssocMap::new();
    let mut b: usize = 0;
    while b < blocks.len()
        invariant
            0 <= b <= blocks@.len(),
            lengths.wf(),
            holds_map(lengths, lengths_upto(blocks@, b as int)),
        decreases blocks@.len() - b,
    {
        let ghost start = lengths_upto(blocks@, b as int);
        let mut i: usize = 0;
        while i < blocks[b].statements.len()
            invariant
                b < blocks@.len(),
                0 <= i <= blocks@[b as int].statements@.len(),
                lengths.wf(),
                holds_map(lengths, lengths_after(start, blocks@[b as int].statements@.take(i as int))),
            decreases blocks@[b as int].statements@.len() - i,
        {
            let ghost stmts = blocks@[b as int].statements@;
            let ghost prev = lengths_after(start, stmts.take(i as int));
            assert(stmts.take(i + 1).drop_last() =~= stmts.take(i as int));
            assert(stmts.take(i + 1).last() == stmts[i as int]);
            match &blocks[b].statements[i].kind {
                StatementKind::Assign(place, Rvalue::Aggregate(crate::mir::AggregateKind::Array(_), operands)) => {
                    let n = operands.len();
                    if (n as u64) <= 9223372036854775807u64 {
                        let _ = lengths.insert(place.local, n as i64);
                        assert(holds_map(lengths, prev.insert(place.local, n as i64)));
                    }
                },
                _ => {},
            }
            i = i + 1;
        }
        assert(blocks@[b as int].statements@.take(blocks@[b as int].statements@.len() as int)
            =~= blocks@[b as int].statements@);
        b = b + 1;
    }
    lengths
}

/// Finds the bounds checks that the known array lengths prove safe and
/// turns them into `Nop`; none is recognised yet, so the function is
/// unchanged.
pub fn eliminate_bounds_checks(func: &mut MirFunction)
    ensures
        *final(func) == *old(func),
{
    let lengths = track_array_lengths(&func.blocks);
    let mut b: usize = 0;
    while b < func.blocks.len()
        invariant
            0 <= b <= func.blocks@.len(),
            *func == *old(func),
        decreases func.blocks@.len() - b,
    {
        let mut i: usize = 0;
        while i < func.blocks[b].statements.len()
            invariant
                b < func.blocks@.len(),
                0 <= i <= func.blocks@[b as int].statements@.len(),
                *func == *old(func),
            decreases func.blocks@[b as int].statements@.len() - i,
        {
            if is_bounds_check_stmt(&func.blocks[b].statements[i], &lengths) {
                func.blocks[b].statements[i].kind = StatementKind::Nop;
            }
            i = i + 1;
        }
        b = b + 1;
    }
}

/// Looks for chains of string concatenations to build in one allocation;
/// none is recognised yet, so the function is unchanged.
pub fn optimize_strings(func: &mut MirFunction)
    ensures
        *final(func) == *old(func),
{
}

/// Optimizes every function of the program at `level` (see
/// `optimize_program`).
pub fn optimize(mir: &mut MirProgram, level: OptLevel)
    requires
        old(mir).wf(),
        level != OptLevel::Off ==> forall|i: int| 0 <= i < old(mir).functions.entries@.len() ==> {
            let f = (#[trigger] old(mir).functions.entries@[i]).1;
            blocks_fold_safely(f.blocks@) && f.blocks@.len() <= u32::MAX
        },
    ensures
        final(mir).wf(),
        final(mir).functions.entries@.len() == old(mir).functions.entries@.len(),
        forall|i: int| 0 <= i < old(mir).functions.entries@.len() ==> {
            &&& (#[trigger] final(mir).functions.entries@[i]).0 == old(mir).functions.entries@[i].0
            &&& optimized(level, old(mir).functions.entries@[i].1, final(mir).functions.entries@[i].1)
        },
        final(mir).structs == old(mir).structs,
        final(mir).enums == old(mir).enums,
        final(mir).effects == old(mir).effects,
        final(mir).handlers == old(mir).handlers,
        final(mir).entry == old(mir).entry,
        final(mir).strings == old(mir).strings,
        final(mir).fn_name_to_id == old(mir).fn_name_to_id,
{
    optimize_program(mir, level);
}


// ============================================================================
// Laws of folding
// ============================================================================

/// A binary operation on two integer constants.
pub open spec fn int_op(op: BinOp, a: i64, b: i64) -> Rvalue {
    Rvalue::BinaryOp(op, Operand::Constant(Constant::Int(a)), Operand::Constant(Constant::Int(b)))
}

/// A binary operation on two boolean constants.
pub open spec fn bool_op(op: BinOp, a: bool, b: bool) -> Rvalue {
    Rvalue::BinaryOp(op, Operand::Constant(Constant::Bool(a)), Operand::Constant(Constant::Bool(b)))
}

/// Folding compares integers by their order: each comparison of two
/// integer constants folds to the truth of that comparison.
pub proof fn law_fold_compares_by_integer_order(a: i64, b: i64)
    ensures
        fold_rvalue_spec(int_op(BinOp::Lt, a, b)) == Some(Constant::Bool(a < b)),
        fold_rvalue_spec(int_op(BinOp::Le, a, b)) == Some(Constant::Bool(a <= b)),
        fold_rvalue_spec(int_op(BinOp::Gt, a, b)) == Some(Constant::Bool(a > b)),
        fold_rvalue_spec(int_op(BinOp::Ge, a, b)) == Some(Constant::Bool(a >= b)),
        fold_rvalue_spec(int_op(BinOp::Eq, a, b)) == Some(Constant::Bool(a == b)),
        fold_rvalue_spec(int_op(BinOp::Ne, a, b)) == Some(Constant::Bool(a != b)),
{
}

/// The comparisons relate as orders do: greater is less with the operands
/// swapped, at-most is not-greater, and of less, equal and greater exactly
/// one folds to `true`.
pub proof fn law_fold_order_relations(a: i64, b: i64)
    ensures
        fold_rvalue_spec(int_op(BinOp::Gt, a, b)) == fold_rvalue_spec(int_op(BinOp::Lt, b, a)),
        fold_rvalue_spec(int_op(BinOp::Ge, a, b)) == fold_rvalue_spec(int_op(BinOp::Le, b, a)),
        (fold_rvalue_spec(int_op(BinOp::Le, a, b)) == Some(Constant::Bool(true)))
            <==> (fold_rvalue_spec(int_op(BinOp::Gt, a, b)) == Some(Constant::Bool(false))),
        (fold_rvalue_spec(int_op(BinOp::Ne, a, b)) == Some(Constant::Bool(true)))
            <==> (fold_rvalue_spec(int_op(BinOp::Eq, a, b)) == Some(Constant::Bool(false))),
        ({
            let lt = fold_rvalue_spec(int_op(BinOp::Lt, a, b)) == Some(Constant::Bool(true));
            let eq = fold_rvalue_spec(int_op(BinOp::Eq, a, b)) == Some(Constant::Bool(true));
            let gt = fold_rvalue_spec(int_op(BinOp::Gt, a, b)) == Some(Constant::Bool(true));
            (lt || eq || gt) && !(lt && eq) && !(lt && gt) && !(eq && gt)
        }),
{
}

/// Where the exact result fits in 64 bits, `+`, `-` and `*` fold to the
/// sum, the difference and the product; and subtracting what was added
/// gives back the first operand, wrapping or not.
pub proof fn law_fold_arithmetic(a: i64, b: i64)
    ensures
        i64::MIN <= a + b <= i64::MAX ==> fold_rvalue_spec(int_op(BinOp::Add, a, b)) == Some(Constant::Int((a + b) as i64)),
        i64::MIN <= a - b <= i64::MAX ==> fold_rvalue_spec(int_op(BinOp::Sub, a, b)) == Some(Constant::Int((a - b) as i64)),
        i64::MIN <= a * b <= i64::MAX ==> fold_rvalue_spec(int_op(BinOp::Mul, a, b)) == Some(Constant::Int((a * b) as i64)),
        fold_rvalue_spec(int_op(BinOp::Add, a, b)) matches Some(Constant::Int(s))
            && fold_rvalue_spec(int_op(BinOp::Sub, s, b)) == Some(Constant::Int(a)),
{
    if i64::MIN <= a * b <= i64::MAX {
        let p: int = a * b;
        if p >= 0 {
            vstd::arithmetic::div_mod::lemma_small_mod(p as nat, 0x1_0000_0000_0000_0000nat);
        } else {
            assert(0 <= p + 0x1_0000_0000_0000_0000int < 0x1_0000_0000_0000_0000int);
            vstd::arithmetic::div_mod::lemma_small_mod((p + 0x1_0000_0000_0000_0000int) as nat, 0x1_0000_0000_0000_0000nat);
            vstd::arithmetic::div_mod::lemma_mod_add_multiples_vanish(p, 0x1_0000_0000_0000_0000int);
        }
    }
}

/// The bitwise operations: `x & x` and `x | 0` are `x`, `x & 0` and
/// `x ^ x` are zero, and `x | -1` is all ones.
pub proof fn law_fold_bitwise(a: i64)
    ensures
        fold_rvalue_spec(int_op(BinOp::BitAnd, a, a)) == Some(Constant::Int(a)),
        fold_rvalue_spec(int_op(BinOp::BitAnd, a, 0)) == Some(Constant::Int(0)),
        fold_rvalue_spec(int_op(BinOp::BitOr, a, 0)) == Some(Constant::Int(a)),
        fold_rvalue_spec(int_op(BinOp::BitOr, a, -1i64)) == Some(Constant::Int(-1i64)),
        fold_rvalue_spec(int_op(BinOp::BitXor, a, a)) == Some(Constant::Int(0)),
        fold_rvalue_spec(int_op(BinOp::BitXor, a, 0)) == Some(Constant::Int(a)),
{
    assert(a & a == a) by (bit_vector);
    assert(a & 0 == 0) by (bit_vector);
    assert(a | 0 == a) by (bit_vector);
    assert(a | -1i64 == -1i64) by (bit_vector);
    assert(a ^ a == 0) by (bit_vector);
    assert(a ^ 0 == a) by (bit_vector);
}

/// Division and remainder round toward zero: dividing by one gives the
/// number and remainder zero, and a number below a positive divisor has
/// quotient zero and is its own remainder.
pub proof fn law_fold_division(a: i64, b: i64)
    ensures
        fold_rvalue_spec(int_op(BinOp::Div, a, 1)) == Some(Constant::Int(a)),
        fold_rvalue_spec(int_op(BinOp::Rem, a, 1)) == Some(Constant::Int(0)),
        0 <= a < b ==> fold_rvalue_spec(int_op(BinOp::Div, a, b)) == Some(Constant::Int(0))
            && fold_rvalue_spec(int_op(BinOp::Rem, a, b)) == Some(Constant::Int(a)),
        b != 0 ==> fold_rvalue_spec(int_op(BinOp::Div, 0, b)) == Some(Constant::Int(0)),
{
    if 0 <= a < b {
        vstd::arithmetic::div_mod::lemma_small_mod(a as nat, b as nat);
        vstd::arithmetic::div_mod::lemma_basic_div(a as int, b as int);
    }
    vstd::arithmetic::div_mod::lemma_small_mod(0nat, 1nat);
    let m: int = if a < 0 { -a } else { a as int };
    vstd::arithmetic::div_mod::lemma_div_basics(m);
    assert(m % 1 == 0) by (nonlinear_arith);
    if b != 0 {
        let d: int = if b < 0 { -b } else { b as int };
        vstd::arithmetic::div_mod::lemma_basic_div(0, d);
    }
}

/// Shifting by one doubles or halves a small non-negative number, and
/// raising to the power zero gives one, to the power one the number.
pub proof fn law_fold_shifts_and_powers(a: i64)
    ensures
        0 <= a < 0x4000_0000_0000_0000 ==> fold_rvalue_spec(int_op(BinOp::Shl, a, 1)) == Some(Constant::Int((2 * a) as i64)),
        0 <= a ==> fold_rvalue_spec(int_op(BinOp::Shr, a, 1)) == Some(Constant::Int((a / 2) as i64)),
        fold_rvalue_spec(int_op(BinOp::Pow, a, 0)) == Some(Constant::Int(1)),
        fold_rvalue_spec(int_op(BinOp::Pow, a, 1)) == Some(Constant::Int(a)),
{
    if 0 <= a < 0x4000_0000_0000_0000 {
        assert(a << 1u32 == 2 * a) by (bit_vector)
            requires 0 <= a < 0x4000_0000_0000_0000;
    }
    if 0 <= a {
        assert(a >> 1u32 == a / 2) by (bit_vector)
            requires 0 <= a;
    }
    assert(pow_wrap(a, 1) == i64_specs::wrapping_mul(1, a));
    assert(1 * a == a);
    vstd::arithmetic::div_mod::lemma_small_mod(0nat, 1nat);
    if a >= 0 {
        vstd::arithmetic::div_mod::lemma_small_mod(a as nat, 0x1_0000_0000_0000_0000nat);
    } else {
        vstd::arithmetic::div_mod::lemma_small_mod((a + 0x1_0000_0000_0000_0000int) as nat, 0x1_0000_0000_0000_0000nat);
        vstd::arithmetic::div_mod::lemma_mod_add_multiples_vanish(a as int, 0x1_0000_0000_0000_0000int);
    }
}

/// The boolean operations: `false` absorbs `&&`, `true` absorbs `||`, and
/// `true &&`, `false ||` leave the other operand.
pub proof fn law_fold_booleans(x: bool)
    ensures
        fold_rvalue_spec(bool_op(BinOp::And, x, false)) == Some(Constant::Bool(false)),
        fold_rvalue_spec(bool_op(BinOp::And, true, x)) == Some(Constant::Bool(x)),
        fold_rvalue_spec(bool_op(BinOp::Or, x, true)) == Some(Constant::Bool(true)),
        fold_rvalue_spec(bool_op(BinOp::Or, false, x)) == Some(Constant::Bool(x)),
        fold_rvalue_spec(bool_op(BinOp::Eq, x, x)) == Some(Constant::Bool(true)),
        fold_rvalue_spec(bool_op(BinOp::Ne, x, x)) == Some(Constant::Bool(false)),
{
}


// ============================================================================
// Laws of CFG simplification
// ============================================================================

/// The target a switch on `v` takes is that of the first case with value
/// `v`, or the default where no case has it.
proof fn lemma_switch_pick_first_case(cases: Seq<(i128, BlockId)>, v: i128, otherwise: BlockId)
    ensures
        (exists|i: int| 0 <= i < cases.len() && cases[i].0 == v && switch_pick(cases, v, otherwise) == cases[i].1
            && forall|j: int| 0 <= j < i ==> #[trigger] cases[j].0 != v)
        || ((forall|i: int| 0 <= i < cases.len() ==> #[trigger] cases[i].0 != v) && switch_pick(cases, v, otherwise) == otherwise),
    decreases cases.len(),
{
    if cases.len() == 0 {
    } else if cases[0].0 == v {
        assert(forall|j: int| 0 <= j < 0 ==> #[trigger] cases[j].0 != v);
    } else {
        let rest = cases.drop_first();
        lemma_switch_pick_first_case(rest, v, otherwise);
        if exists|i: int| 0 <= i < rest.len() && rest[i].0 == v && switch_pick(rest, v, otherwise) == rest[i].1
            && forall|j: int| 0 <= j < i ==> #[trigger] rest[j].0 != v {
            let i = choose|i: int| 0 <= i < rest.len() && rest[i].0 == v && switch_pick(rest, v, otherwise) == rest[i].1
                && forall|j: int| 0 <= j < i ==> #[trigger] rest[j].0 != v;
            assert(cases[i + 1] == rest[i]);
            assert forall|j: int| 0 <= j < i + 1 implies #[trigger] cases[j].0 != v by {
                if j > 0 {
                    assert(cases[j] == rest[j - 1]);
                }
            }
        } else {
            assert forall|i: int| 0 <= i < cases.len() implies #[trigger] cases[i].0 != v by {
                if i > 0 {
                    assert(cases[i] == rest[i - 1]);
                }
            }
        }
    }
}

/// A switch on an integer constant becomes a jump to the target of the
/// first case with that value, or to the default where no case has it.
pub proof fn law_switch_on_integer_constant(v: i64, targets: crate::mir::SwitchTargets, span: Span)
    ensures
        ({
            let r = simplify_terminator_spec(Terminator {
                kind: TerminatorKind::SwitchInt { discr: Operand::Constant(Constant::Int(v)), targets },
                span,
            });
            let cases = targets.targets@;
            &&& r.span == span
            &&& r.kind matches TerminatorKind::Goto { target }
                && ((exists|i: int| 0 <= i < cases.len() && cases[i].0 == v as i128 && target == cases[i].1
                        && forall|j: int| 0 <= j < i ==> #[trigger] cases[j].0 != v as i128)
                    || ((forall|i: int| 0 <= i < cases.len() ==> #[trigger] cases[i].0 != v as i128)
                        && target == targets.otherwise))
        }),
{
    lemma_switch_pick_first_case(targets.targets@, v as i128, targets.otherwise);
}

/// A two-way branch on a boolean constant (cases as `SwitchTargets::if_else`
/// builds them: value 0 to the else-block, anything else to the
/// then-block) becomes a jump to the then-block when the constant is `true`
/// and to the else-block when it is `false`.
pub proof fn law_switch_on_boolean_constant(b: bool, then_block: BlockId, else_block: BlockId, targets: crate::mir::SwitchTargets, span: Span)
    requires
        targets.targets@ == seq![(0i128, else_block)],
        targets.otherwise == then_block,
    ensures
        simplify_terminator_spec(Terminator {
            kind: TerminatorKind::SwitchInt { discr: Operand::Constant(Constant::Bool(b)), targets },
            span,
        }) == (Terminator { kind: TerminatorKind::Goto { target: if b { then_block } else { else_block } }, span }),
{
    let cases = targets.targets@;
    assert(cases.drop_first().len() == 0);
    reveal_with_fuel(switch_pick, 2);
}


/// Negation and logical not: negating an integer (other than the least)
/// gives its opposite, and `!` turns a boolean over; both undo themselves.
pub proof fn law_fold_unary(a: i64, x: bool)
    ensures
        a != i64::MIN ==> fold_rvalue_spec(Rvalue::UnaryOp(UnOp::Neg, Operand::Constant(Constant::Int(a))))
            == Some(Constant::Int((-a) as i64)),
        a != i64::MIN ==> (fold_unary_spec(UnOp::Neg, Constant::Int(a)) matches Some(c)
            && fold_unary_spec(UnOp::Neg, c) == Some(Constant::Int(a))),
        fold_rvalue_spec(Rvalue::UnaryOp(UnOp::Not, Operand::Constant(Constant::Bool(x)))) == Some(Constant::Bool(!x)),
        fold_unary_spec(UnOp::Not, Constant::Bool(x)) matches Some(c) && fold_unary_spec(UnOp::Not, c) == Some(Constant::Bool(x)),
{
}

} // verus!
