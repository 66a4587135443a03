//! Contract checks in MIR.
//!
//! Each checked `requires` clause becomes an assertion at the entry block
//! and each checked `ensures` clause an assertion before every return: the
//! block's terminator is replaced by an `Assert` that continues in a new
//! block holding the old terminator.

use vstd::prelude::*;
use crate::mir::{
    BasicBlock, BlockId, Constant, ContractClause, Expr, Local, LocalDecl, MirFunction, MirProgram,
    MirType, Operand, Place, PlaceElem, Span, Terminator, TerminatorKind, TypeV,
};
use crate::text::{concat2, owned_string};
use crate::mir::FunctionContract;

verus! {

/// How contracts are checked.
#[derive(Debug, Clone, Copy, PartialEq, Eq, Structural)]
pub enum VerificationMode {
    /// Insert every runtime check.
    Debug,
    /// Drop the checks proved statically, keep the others.
    Release,
    /// Insert every check, even in release builds.
    ForceAll,
    /// No contract checking.
    Disabled,
}

impl VerificationMode {
    /// Whether contracts are checked at all: every mode but `Disabled`.
    pub fn is_enabled(&self) -> (b: bool)
        ensures
            b == (*self != VerificationMode::Disabled),
    {
        match self {
            VerificationMode::Disabled => false,
            _ => true,
        }
    }

    /// Whether runtime checks are inserted: `Debug`, `Release` and
    /// `ForceAll`.
    pub fn should_insert_checks(&self) -> (b: bool)
        ensures
            b == (*self == VerificationMode::Debug || *self == VerificationMode::Release || *self == VerificationMode::ForceAll),
    {
        match self {
            VerificationMode::Debug | VerificationMode::Release | VerificationMode::ForceAll => true,
            VerificationMode::Disabled => false,
        }
    }

    /// Whether clauses are first tried statically: `Release` only.
    pub fn should_prove_static(&self) -> (b: bool)
        ensures
            b == (*self == VerificationMode::Release),
    {
        match self {
            VerificationMode::Release => true,
            _ => false,
        }
    }
}

/// Whether a clause is proved without running it: the constant `true`.
pub open spec fn provably_true(clause: ContractClause) -> bool {
    clause.condition matches Expr::Bool(true)
}

/// Whether a clause gets a runtime check in `mode`: the mode inserts
/// checks, and in `Release` the clause is not provably true.
pub open spec fn clause_checked(mode: VerificationMode, clause: ContractClause) -> bool {
    (mode == VerificationMode::Debug || mode == VerificationMode::Release || mode == VerificationMode::ForceAll)
        && !(mode == VerificationMode::Release && provably_true(clause))
}

/// What a contract expression is lowered to: a constant, or a place given
/// by its local and projection.
pub enum LoweredV {
    Const(Constant),
    At(Local, Seq<PlaceElem>),
}

/// Whether an expression is lowered to a constant.
pub open spec fn lowers_to_const(e: Expr) -> bool {
    e is Bool || e is Int || e is Float
}

/// The names of the locals that lowering `e` declares, in order.
pub open spec fn lower_locals(e: Expr) -> Seq<Option<Seq<char>>>
    decreases e,
{
    match e {
        Expr::Binary { op, left, right } => lower_locals(*left) + lower_locals(*right) + seq![Some("_contract_temp"@)],
        Expr::Unary { op, operand } => lower_locals(*operand) + seq![Some("_contract_temp"@)],
        Expr::Field { object, field } => lower_locals(*object) + if lowers_to_const(*object) {
            seq![None]
        } else {
            Seq::empty()
        },
        Expr::MethodCall { .. } => seq![Some("_method_result"@)],
        Expr::Old(_) => seq![Some("_old_value"@)],
        _ => Seq::empty(),
    }
}

/// What lowering `e` gives when the function has `n` locals.
pub open spec fn lower_value(e: Expr, n: nat) -> LoweredV
    decreases e,
{
    match e {
        Expr::Bool(b) => LoweredV::Const(Constant::Bool(b)),
        Expr::Int(i) => LoweredV::Const(Constant::Int(i)),
        Expr::Float(f) => LoweredV::Const(Constant::Float(f)),
        Expr::Local(l) => LoweredV::At(l, Seq::empty()),
        Expr::Result => LoweredV::At(Local(0), Seq::empty()),
        Expr::Binary { op, left, right } => LoweredV::At(
            Local((n + lower_locals(*left).len() + lower_locals(*right).len()) as u32),
            Seq::empty(),
        ),
        Expr::Unary { op, operand } => LoweredV::At(Local((n + lower_locals(*operand).len()) as u32), Seq::empty()),
        Expr::Field { object, field } => match lower_value(*object, n) {
            LoweredV::At(l, proj) => LoweredV::At(l, proj.push(PlaceElem::Field(field))),
            LoweredV::Const(_) => LoweredV::At(Local((n + lower_locals(*object).len()) as u32), Seq::empty()),
        },
        Expr::MethodCall { .. } => LoweredV::At(Local(n as u32), Seq::empty()),
        Expr::Old(_) => LoweredV::At(Local(n as u32), Seq::empty()),
    }
}

/// Whether an operand is what a lowering gives: the constant, or a copy
/// of the place.
pub open spec fn operand_is(o: Operand, v: LoweredV) -> bool {
    match v {
        LoweredV::Const(c) => o == Operand::Constant(c),
        LoweredV::At(l, proj) => o matches Operand::Copy(p) && p.local == l && p.projection@ == proj,
    }
}

/// Whether a declaration is one that lowering adds: a mutable `Bool`
/// local with the given name and no source location.
pub open spec fn temp_decl(d: LocalDecl, name: Option<Seq<char>>) -> bool {
    &&& d.ty@ == TypeV::Bool
    &&& d.mutable
    &&& d.span == Span::dummy_spec()
    &&& match name {
        Some(s) => d.name matches Some(t) && t@ == s,
        None => d.name is None,
    }
}

/// `after` is `before` followed by the declarations lowering adds.
pub open spec fn locals_added(before: Seq<LocalDecl>, after: Seq<LocalDecl>, names: Seq<Option<Seq<char>>>) -> bool {
    &&& after.len() == before.len() + names.len()
    &&& after.take(before.len() as int) == before
    &&& forall|k: int| 0 <= k < names.len() ==> #[trigger] temp_decl(after[before.len() + k], names[k])
}

/// Everything but the locals, the blocks and the contract is unchanged.
pub open spec fn same_shell(f: MirFunction, g: MirFunction) -> bool {
    &&& g.name == f.name
    &&& g.span == f.span
    &&& g.params == f.params
    &&& g.return_ty == f.return_ty
    &&& g.is_public == f.is_public
    &&& g.linkage == f.linkage
    &&& g.effect_row == f.effect_row
    &&& g.evidence_params == f.evidence_params
    &&& g.evidence_layout == f.evidence_layout
    &&& g.handler_blocks == f.handler_blocks
    &&& g.effect_statements == f.effect_statements
    &&& g.effect_terminators == f.effect_terminators
    &&& g.type_params == f.type_params
    &&& g.generic_origin == f.generic_origin
    &&& g.type_args == f.type_args
    &&& g.attributes == f.attributes
}

/// The message of a failed check: the kind, ` violated`, and the clause's
/// own message after a colon.
pub open spec fn violation_message(kind: Seq<char>, message: Option<String>) -> Seq<char> {
    match message {
        Some(m) => kind + " violated: "@ + m@,
        None => kind + " violated"@,
    }
}

/// Whether a terminator asserts that `cond` holds, failing with `message`
/// and continuing at `target`.
pub open spec fn is_check(t: Option<Terminator>, cond: LoweredV, message: Seq<char>, target: BlockId, span: Span) -> bool {
    match t {
        Some(t) => match t.kind {
            TerminatorKind::Assert { cond: c, expected, msg, target: tg } =>
                t.span == span && operand_is(c, cond) && expected && msg@ == message && tg == target,
            _ => false,
        },
        None => false,
    }
}

/// `g` is `f` with an assertion of `clause` put at the end of block `b`:
/// the block ends in an `Assert` of the lowered condition that continues in
/// a new last block, which holds the old terminator.
pub open spec fn assertion_inserted(f: MirFunction, g: MirFunction, b: BlockId, clause: ContractClause, kind: Seq<char>) -> bool {
    let m = f.blocks@.len();
    &&& same_shell(f, g)
    &&& locals_added(f.locals@, g.locals@, lower_locals(clause.condition))
    &&& g.blocks@.len() == m + 1
    &&& forall|i: int| 0 <= i < m && i != b.0 ==> #[trigger] g.blocks@[i] == f.blocks@[i]
    &&& g.blocks@[b.0 as int].id == f.blocks@[b.0 as int].id
    &&& g.blocks@[b.0 as int].statements == f.blocks@[b.0 as int].statements
    &&& is_check(g.blocks@[b.0 as int].terminator, lower_value(clause.condition, f.locals@.len()),
        violation_message(kind, clause.message), BlockId(m as u32), clause.span)
    &&& g.blocks@[m as int].id == BlockId(m as u32)
    &&& g.blocks@[m as int].statements@.len() == 0
    &&& g.blocks@[m as int].terminator == f.blocks@[b.0 as int].terminator
}

/// The checks made for a contract, in order: each `requires` clause at the
/// entry block, then each `ensures` clause at each block of `rets`.
pub open spec fn check_steps(
    pre: Seq<ContractClause>,
    post: Seq<ContractClause>,
    rets: Seq<BlockId>,
) -> Seq<(BlockId, ContractClause, bool)>
    decreases rets.len(),
{
    if rets.len() == 0 {
        pre.map_values(|c: ContractClause| (BlockId(0), c, true))
    } else {
        check_steps(pre, post, rets.drop_last()) + post.map_values(|c: ContractClause| (rets.last(), c, false))
    }
}

/// `g` is `f` after one check: an assertion when the clause is checked,
/// else nothing.
pub open spec fn check_step(mode: VerificationMode, f: MirFunction, g: MirFunction, step: (BlockId, ContractClause, bool)) -> bool {
    if clause_checked(mode, step.1) {
        assertion_inserted(f, g, step.0, step.1, if step.2 {
            "Precondition"@
        } else {
            "Postcondition"@
        })
    } else {
        same_but_contract(f, g)
    }
}

/// `g` equals `f` in everything but the contract.
pub open spec fn same_but_contract(f: MirFunction, g: MirFunction) -> bool {
    same_shell(f, g) && g.locals == f.locals && g.blocks == f.blocks
}

/// Whether a block ends in `Return`.
pub open spec fn ends_in_return(b: BasicBlock) -> bool {
    match b.terminator {
        Some(t) => t.kind is Return,
        None => false,
    }
}

/// The identifiers of the blocks that end in `Return`, in block order.
pub open spec fn return_blocks(blocks: Seq<BasicBlock>) -> Seq<BlockId>
    decreases blocks.len(),
{
    if blocks.len() == 0 {
        Seq::empty()
    } else {
        return_blocks(blocks.drop_last()) + if ends_in_return(blocks.last()) {
            seq![blocks.last().id]
        } else {
            Seq::empty()
        }
    }
}

/// A contract verifier for one mode.
pub struct MirContractVerifier {
    mode: VerificationMode,
    /// Contracts already proved, by name.
    proven_cache: Vec<(String, bool)>,
}

/// Ranges of values that locals are known to lie in.
#[derive(Debug, Clone)]
pub struct RangeAnalysis {
    ranges: Vec<(Local, ValueRange)>,
}

/// A range of integer values; a missing bound is unbounded.
#[derive(Debug, Clone)]
pub struct ValueRange {
    pub min: Option<i64>,
    pub max: Option<i64>,
}

impl RangeAnalysis {
    /// An analysis that knows no range.
    pub fn new() -> (r: Self)
        ensures
            r.known()@.len() == 0,
    {
        RangeAnalysis { ranges: Vec::new() }
    }

    /// The ranges known, by local.
    pub closed spec fn known(&self) -> Vec<(Local, ValueRange)> {
        self.ranges
    }

    /// Computes the ranges of the function's locals; no range is derived
    /// yet, so nothing changes.
    pub fn analyze(&mut self, _function: &MirFunction)
        ensures
            final(self).known() == old(self).known(),
    {
    }

    /// Whether the expression is always true given the known ranges; no
    /// expression is proved yet.
    pub fn prove_condition(&self, _expr: &Expr) -> (b: bool)
        ensures
            !b,
    {
        false
    }
}

impl Default for RangeAnalysis {
    fn default() -> (r: Self)
        ensures
            r.known()@.len() == 0,
    {
        RangeAnalysis::new()
    }
}

impl MirContractVerifier {
    /// The verification mode.
    pub closed spec fn mode_spec(&self) -> VerificationMode {
        self.mode
    }

    /// A verifier for `mode`.
    pub fn new(mode: VerificationMode) -> (v: Self)
        ensures
            v.mode_spec() == mode,
    {
        MirContractVerifier { mode, proven_cache: Vec::new() }
    }

    /// Whether a clause is true without running it: only the constant
    /// `true` is.
    pub fn is_provably_true(&self, clause: &ContractClause) -> (b: bool)
        ensures
            b == provably_true(*clause),
    {
        match clause.condition {
            Expr::Bool(b) => b,
            _ => false,
        }
    }

    fn should_check_clause(&self, clause: &ContractClause) -> (b: bool)
        ensures
            b == clause_checked(self.mode, *clause),
    {
        if !self.mode.should_insert_checks() {
            return false;
        }
        if self.mode.should_prove_static() {
            if self.is_provably_true(clause) {
                return false;
            }
        }
        true
    }
}


proof fn lemma_locals_added_trans(
    a: Seq<LocalDecl>,
    b: Seq<LocalDecl>,
    c: Seq<LocalDecl>,
    n1: Seq<Option<Seq<char>>>,
    n2: Seq<Option<Seq<char>>>,
)
    requires
        locals_added(a, b, n1),
        locals_added(b, c, n2),
    ensures
        locals_added(a, c, n1 + n2),
{
    assert(c.take(a.len() as int) =~= a) by {
        assert forall|i: int| 0 <= i < a.len() implies c[i] == a[i] by {
            assert(c.take(b.len() as int)[i] == b[i]);
            assert(b.take(a.len() as int)[i] == a[i]);
        }
    }
    assert forall|k: int| 0 <= k < (n1 + n2).len() implies #[trigger] temp_decl(c[a.len() + k], (n1 + n2)[k]) by {
        if k < n1.len() {
            assert(temp_decl(b[a.len() + k], n1[k]));
            assert(c.take(b.len() as int)[a.len() + k] == b[a.len() + k]);
        } else {
            assert(temp_decl(c[b.len() + (k - n1.len())], n2[k - n1.len()]));
        }
    }
}

proof fn lemma_locals_added_none(a: Seq<LocalDecl>)
    ensures
        locals_added(a, a, Seq::empty()),
{
    assert(a.take(a.len() as int) =~= a);
}

/// Whether one of the clauses gets a runtime check.
pub open spec fn some_checked(mode: VerificationMode, clauses: Seq<ContractClause>) -> bool {
    exists|i: int| 0 <= i < clauses.len() && clause_checked(mode, #[trigger] clauses[i])
}

/// Whether a function's contract can get its checks: when a `requires`
/// clause is checked, the entry block exists, and each block that returns
/// has an identifier within the blocks.
pub open spec fn checks_fit(mode: VerificationMode, f: MirFunction) -> bool {
    &&& match f.contract {
        Some(c) => some_checked(mode, c.requires@) ==> f.blocks@.len() > 0,
        None => true,
    }
    &&& forall|i: int| 0 <= i < f.blocks@.len() && ends_in_return(#[trigger] f.blocks@[i])
        ==> f.blocks@[i].id.0 < f.blocks@.len()
}

/// `g` is `f` with the checks of its contract inserted: nothing for a
/// function without clauses; else the chain of checks of `check_steps`,
/// where the return blocks are those after the `requires` checks.
pub open spec fn contract_checked(mode: VerificationMode, f: MirFunction, g: MirFunction) -> bool {
    &&& g.contract == f.contract
    &&& match f.contract {
        Some(c) => if c.requires@.len() == 0 && c.ensures@.len() == 0 {
            g == f
        } else {
            exists|states: Seq<MirFunction>| {
                &&& states.len() > c.requires@.len()
                &&& #[trigger] check_steps(c.requires@, c.ensures@, return_blocks(states[c.requires@.len() as int].blocks@)).len() + 1 == states.len()
                &&& same_but_contract(f, states[0])
                &&& same_but_contract(states.last(), g)
                &&& forall|j: int| 0 <= j < states.len() - 1 ==> check_step(
                    mode,
                    #[trigger] states[j],
                    states[j + 1],
                    check_steps(c.requires@, c.ensures@, return_blocks(states[c.requires@.len() as int].blocks@))[j],
                )
            }
        },
        None => g == f,
    }
}

impl MirContractVerifier {
    /// Lowers a contract expression to an operand: constants to constants,
    /// locals and the result to copies of their places, field accesses to
    /// projected places, and everything else to a fresh `Bool` temporary.
    fn lower_contract_expr(&mut self, function: &mut MirFunction, expr: &Expr) -> (o: Operand)
        ensures
            operand_is(o, lower_value(*expr, old(function).locals@.len())),
            locals_added(old(function).locals@, final(function).locals@, lower_locals(*expr)),
            same_shell(*old(function), *final(function)),
            final(function).blocks == old(function).blocks,
            final(function).contract == old(function).contract,
            final(self).mode == old(self).mode,
        decreases expr,
    {
        let ghost start = *function;
        match expr {
            Expr::Bool(b) => {
                proof { lemma_locals_added_none(function.locals@); }
                Operand::Constant(Constant::Bool(*b))
            },
            Expr::Int(i) => {
                proof { lemma_locals_added_none(function.locals@); }
                Operand::Constant(Constant::Int(*i))
            },
            Expr::Float(f) => {
                proof { lemma_locals_added_none(function.locals@); }
                Operand::Constant(Constant::Float(*f))
            },
            Expr::Local(local) => {
                proof { lemma_locals_added_none(function.locals@); }
                Operand::Copy(Place::from_local(*local))
            },
            Expr::Result => {
                proof { lemma_locals_added_none(function.locals@); }
                Operand::Copy(Place::return_place())
            },
            Expr::Binary { op, left, right } => {
                let _left_op = self.lower_contract_expr(function, left);
                let ghost mid = *function;
                let _right_op = self.lower_contract_expr(function, right);
                let ghost mid2 = *function;
                let temp = function.new_local(MirType::Bool, Some(owned_string("_contract_temp")));
                proof {
                    lemma_locals_added_trans(start.locals@, mid.locals@, mid2.locals@, lower_locals(**left), lower_locals(**right));
                    assert(function.locals@.take(mid2.locals@.len() as int) == mid2.locals@);
                    assert(temp_decl(function.locals@[mid2.locals@.len() as int], Some("_contract_temp"@)));
                    assert(locals_added(mid2.locals@, function.locals@, seq![Some("_contract_temp"@)]));
                    lemma_locals_added_trans(start.locals@, mid2.locals@, function.locals@,
                        lower_locals(**left) + lower_locals(**right), seq![Some("_contract_temp"@)]);
                }
                let r = Operand::Copy(Place::from_local(temp));
                proof {
                    let n = start.locals@.len();
                    assert(lower_value(*expr, n) == LoweredV::At(Local((n + lower_locals(**left).len() + lower_locals(**right).len()) as u32), Seq::empty()));
                    assert(mid2.locals@.len() == n + lower_locals(**left).len() + lower_locals(**right).len());
                    assert(temp.0 == mid2.locals@.len() as u32);
                }
                assert(operand_is(r, lower_value(*expr, start.locals@.len())));
                r
            },
            Expr::Unary { op, operand } => {
                let _operand_val = self.lower_contract_expr(function, operand);
                let ghost mid = *function;
                let temp = function.new_local(MirType::Bool, Some(owned_string("_contract_temp")));
                proof {
                    assert(temp_decl(function.locals@[mid.locals@.len() as int], Some("_contract_temp"@)));
                    assert(locals_added(mid.locals@, function.locals@, seq![Some("_contract_temp"@)]));
                    lemma_locals_added_trans(start.locals@, mid.locals@, function.locals@,
                        lower_locals(**operand), seq![Some("_contract_temp"@)]);
                }
                let r = Operand::Copy(Place::from_local(temp));
                assert(operand_is(r, lower_value(*expr, start.locals@.len())));
                r
            },
            Expr::Field { object, field } => {
                let base_op = self.lower_contract_expr(function, object);
                let ghost mid = *function;
                match base_op {
                    Operand::Copy(place) | Operand::Move(place) => {
                        proof {
                            assert(lower_locals(**object) + Seq::<Option<Seq<char>>>::empty() =~= lower_locals(**object));
                        }
                        let r = Operand::Copy(place.field(*field));
                        assert(operand_is(r, lower_value(*expr, start.locals@.len())));
                        r
                    },
                    _ => {
                        let temp = function.new_local(MirType::Bool, None);
                        proof {
                            assert(temp_decl(function.locals@[mid.locals@.len() as int], None));
                            assert(locals_added(mid.locals@, function.locals@, seq![None]));
                            lemma_locals_added_trans(start.locals@, mid.locals@, function.locals@,
                                lower_locals(**object), seq![None]);
                        }
                        Operand::Copy(Place::from_local(temp))
                    },
                }
            },
            Expr::MethodCall { object, method, args } => {
                let temp = function.new_local(MirType::Bool, Some(owned_string("_method_result")));
                proof {
                    assert(temp_decl(function.locals@[start.locals@.len() as int], Some("_method_result"@)));
                }
                Operand::Copy(Place::from_local(temp))
            },
            Expr::Old(_inner) => {
                let temp = function.new_local(MirType::Bool, Some(owned_string("_old_value")));
                proof {
                    assert(temp_decl(function.locals@[start.locals@.len() as int], Some("_old_value"@)));
                }
                Operand::Copy(Place::from_local(temp))
            },
        }
    }

    /// Puts an assertion of `clause` at the end of block `block_id`; the
    /// block's old terminator moves to a new last block.
    fn insert_assertion(&mut self, function: &mut MirFunction, block_id: BlockId, clause: &ContractClause, kind: &str)
        requires
            block_id.0 < old(function).blocks@.len(),
        ensures
            assertion_inserted(*old(function), *final(function), block_id, *clause, kind@),
            final(function).contract == old(function).contract,
            final(self).mode == old(self).mode,
    {
        let condition = self.lower_contract_expr(function, &clause.condition);
        let message = match &clause.message {
            Some(msg) => concat2(concat2(kind, " violated: ").as_str(), msg.as_str()),
            None => concat2(kind, " violated"),
        };
        let continue_block = BlockId(function.blocks.len() as u32);
        let i = block_id.0 as usize;
        let old_terminator = function.blocks[i].terminator.take();
        let assert_terminator = Terminator {
            kind: TerminatorKind::Assert { cond: condition, expected: true, msg: message, target: continue_block },
            span: clause.span,
        };
        function.blocks[i].terminator = Some(assert_terminator);
        let new_block = BasicBlock { id: continue_block, statements: Vec::new(), terminator: old_terminator };
        function.blocks.push(new_block);
    }
}


fn collect_return_blocks(blocks: &Vec<BasicBlock>) -> (r: Vec<BlockId>)
    ensures
        r@ == return_blocks(blocks@),
{
    let mut r: Vec<BlockId> = Vec::new();
    let mut i: usize = 0;
    while i < blocks.len()
        invariant
            0 <= i <= blocks@.len(),
            r@ == return_blocks(blocks@.take(i as int)),
        decreases blocks@.len() - i,
    {
        assert(blocks@.take(i + 1).drop_last() =~= blocks@.take(i as int));
        assert(blocks@.take(i + 1).last() == blocks@[i as int]);
        let is_return = match &blocks[i].terminator {
            Some(t) => match t.kind {
                TerminatorKind::Return => true,
                _ => false,
            },
            None => false,
        };
        if is_return {
            r.push(blocks[i].id);
        }
        i = i + 1;
        assert(r@ =~= return_blocks(blocks@.take(i as int)));
    }
    assert(blocks@.take(blocks@.len() as int) =~= blocks@);
    r
}

proof fn lemma_return_blocks_in_range(blocks: Seq<BasicBlock>, k: int)
    requires
        forall|i: int| 0 <= i < blocks.len() && ends_in_return(#[trigger] blocks[i]) ==> blocks[i].id.0 < blocks.len(),
        0 <= k < return_blocks(blocks).len(),
    ensures
        return_blocks(blocks)[k].0 < blocks.len(),
    decreases blocks.len(),
{
    let prev = return_blocks(blocks.drop_last());
    if k < prev.len() {
        assert forall|i: int| 0 <= i < blocks.drop_last().len() && ends_in_return(#[trigger] blocks.drop_last()[i])
            implies blocks.drop_last()[i].id.0 < blocks.len() by {
            assert(blocks.drop_last()[i] == blocks[i]);
        }
        lemma_return_blocks_in_range_weak(blocks.drop_last(), k, blocks.len() as int);
    } else {
        assert(ends_in_return(blocks[blocks.len() - 1]));
    }
}

proof fn lemma_return_blocks_in_range_weak(blocks: Seq<BasicBlock>, k: int, bound: int)
    requires
        forall|i: int| 0 <= i < blocks.len() && ends_in_return(#[trigger] blocks[i]) ==> blocks[i].id.0 < bound,
        0 <= k < return_blocks(blocks).len(),
    ensures
        return_blocks(blocks)[k].0 < bound,
    decreases blocks.len(),
{
    let prev = return_blocks(blocks.drop_last());
    if k < prev.len() {
        assert forall|i: int| 0 <= i < blocks.drop_last().len() && ends_in_return(#[trigger] blocks.drop_last()[i])
            implies blocks.drop_last()[i].id.0 < bound by {
            assert(blocks.drop_last()[i] == blocks[i]);
        }
        lemma_return_blocks_in_range_weak(blocks.drop_last(), k, bound);
    } else {
        assert(ends_in_return(blocks[blocks.len() - 1]));
    }
}

/// The blocks that end in `Return` have identifiers within the blocks.
pub open spec fn return_ids_fit(blocks: Seq<BasicBlock>) -> bool {
    forall|i: int| 0 <= i < blocks.len() && ends_in_return(#[trigger] blocks[i]) ==> blocks[i].id.0 < blocks.len()
}

proof fn lemma_insert_keeps_fit(f: MirFunction, g: MirFunction, b: BlockId, clause: ContractClause, kind: Seq<char>)
    requires
        assertion_inserted(f, g, b, clause, kind),
        b.0 < f.blocks@.len(),
        return_ids_fit(f.blocks@),
    ensures
        return_ids_fit(g.blocks@),
        g.blocks@.len() == f.blocks@.len() + 1,
{
    let m = f.blocks@.len();
    assert forall|i: int| 0 <= i < g.blocks@.len() && ends_in_return(#[trigger] g.blocks@[i]) implies g.blocks@[i].id.0 < g.blocks@.len() by {
        if i == m {
            assert((m as u32) as int <= m);
        } else if i != b.0 {
            assert(g.blocks@[i] == f.blocks@[i]);
        }
    }
}

/// Each state is the one before after the check of the same position.
pub open spec fn chain(mode: VerificationMode, states: Seq<MirFunction>, steps: Seq<(BlockId, ContractClause, bool)>) -> bool {
    &&& states.len() == steps.len() + 1
    &&& forall|j: int| 0 <= j < steps.len() ==> check_step(mode, #[trigger] states[j], states[j + 1], steps[j])
}

proof fn lemma_splice(
    mode: VerificationMode,
    states: Seq<MirFunction>,
    done: Seq<(BlockId, ContractClause, bool)>,
    more: Seq<MirFunction>,
    block_id: BlockId,
    post: Seq<ContractClause>,
)
    requires
        chain(mode, states, done),
        more.len() == post.len() + 1,
        more[0] == states.last(),
        forall|j: int| 0 <= j < post.len() ==> check_step(mode, #[trigger] more[j], more[j + 1], (block_id, post[j], false)),
    ensures
        chain(mode, states + more.drop_first(), done + post.map_values(|cl: ContractClause| (block_id, cl, false))),
        (states + more.drop_first()).last() == more.last(),
{
    let s2 = states + more.drop_first();
    let d2 = done + post.map_values(|cl: ContractClause| (block_id, cl, false));
    assert forall|j: int| 0 <= j < d2.len() implies check_step(mode, #[trigger] s2[j], s2[j + 1], d2[j]) by {
        if j < done.len() {
            assert(s2[j] == states[j] && s2[j + 1] == states[j + 1]);
        } else {
            let q = j - done.len();
            assert(check_step(mode, more[q], more[q + 1], (block_id, post[q], false)));
            if q == 0 {
                assert(s2[j] == states.last());
            } else {
                assert(s2[j] == more[q]);
            }
            assert(s2[j + 1] == more[q + 1]);
        }
    }
}

impl MirContractVerifier {
    /// Inserts the checks of `clauses` at block `block_id`, in order, and
    /// gives the states of the function after each.
    fn insert_checks_at(
        &mut self,
        function: &mut MirFunction,
        block_id: BlockId,
        clauses: &Vec<ContractClause>,
        is_pre: bool,
    ) -> (states: Ghost<Seq<MirFunction>>)
        requires
            some_checked(old(self).mode, clauses@) ==> block_id.0 < old(function).blocks@.len(),
        ensures
            final(self).mode == old(self).mode,
            states@.len() == clauses@.len() + 1,
            states@[0] == *old(function),
            states@.last() == *final(function),
            forall|j: int| 0 <= j < clauses@.len() ==> check_step(
                old(self).mode,
                #[trigger] states@[j],
                states@[j + 1],
                (block_id, clauses@[j], is_pre),
            ),
            final(function).blocks@.len() >= old(function).blocks@.len(),
            return_ids_fit(old(function).blocks@) ==> return_ids_fit(final(function).blocks@),
            same_shell(*old(function), *final(function)),
            final(function).contract == old(function).contract,
    {
        let ghost mode = self.mode;
        let ghost f0 = *function;
        let ghost mut states: Seq<MirFunction> = seq![*function];
        let mut i: usize = 0;
        while i < clauses.len()
            invariant
                self.mode == mode,
                0 <= i <= clauses@.len(),
                some_checked(mode, clauses@) ==> block_id.0 < f0.blocks@.len(),
                states.len() == i + 1,
                states[0] == f0,
                states.last() == *function,
                forall|j: int| 0 <= j < i ==> check_step(mode, #[trigger] states[j], states[j + 1], (block_id, clauses@[j], is_pre)),
                function.blocks@.len() >= f0.blocks@.len(),
                return_ids_fit(f0.blocks@) ==> return_ids_fit(function.blocks@),
                same_shell(f0, *function),
                function.contract == f0.contract,
            decreases clauses@.len() - i,
        {
            let ghost before = *function;
            let clause = &clauses[i];
            if self.should_check_clause(clause) {
                assert(some_checked(mode, clauses@)) by {
                    assert(clause_checked(mode, clauses@[i as int]));
                }
                if is_pre {
                    self.insert_assertion(function, block_id, clause, "Precondition");
                } else {
                    self.insert_assertion(function, block_id, clause, "Postcondition");
                }
                proof {
                    if return_ids_fit(before.blocks@) {
                        lemma_insert_keeps_fit(before, *function, block_id, *clause, if is_pre {
                            "Precondition"@
                        } else {
                            "Postcondition"@
                        });
                    }
                }
            }
            proof {
                let old_states = states;
                states = states.push(*function);
                assert(check_step(mode, before, *function, (block_id, *clause, is_pre)));
                assert forall|j: int| 0 <= j < i + 1 implies check_step(mode, #[trigger] states[j], states[j + 1], (block_id, clauses@[j], is_pre)) by {
                    if j < i {
                        assert(states[j] == old_states[j] && states[j + 1] == old_states[j + 1]);
                    }
                }
            }
            i = i + 1;
        }
        Ghost(states)
    }

    /// Inserts the checks of the function's contract: one assertion at the
    /// entry block for each checked `requires` clause, then one before each
    /// return for each checked `ensures` clause.
    #[verifier::rlimit(60)]
    fn verify_function(&mut self, function: &mut MirFunction)
        requires
            checks_fit(old(self).mode, *old(function)),
        ensures
            contract_checked(old(self).mode, *old(function), *final(function)),
            same_shell(*old(function), *final(function)),
            final(self).mode == old(self).mode,
    {
        let ghost f0 = *function;
        let ghost mode = self.mode;
        let mut contract: Option<FunctionContract> = None;
        std::mem::swap(&mut contract, &mut function.contract);
        match &contract {
            Some(c) => {
                if !c.is_empty() {
                    let ghost pre = c.requires@;
                    let ghost post = c.ensures@;
                    let ghost start = *function;
                    let pre_states = self.insert_checks_at(function, BlockId(0), &c.requires, true);
                    let ghost mut states: Seq<MirFunction> = pre_states@;
                    let ghost mut done: Seq<(BlockId, ContractClause, bool)> = pre.map_values(|cl: ContractClause| (BlockId(0), cl, true));
                    let ghost after_pre = *function;
                    proof {
                        assert(done == check_steps(pre, post, Seq::<BlockId>::empty()));
                        assert forall|j: int| 0 <= j < done.len() implies check_step(mode, #[trigger] states[j], states[j + 1], done[j]) by {
                            assert(check_step(mode, pre_states@[j], pre_states@[j + 1], (BlockId(0), pre[j], true)));
                        }
                        assert(chain(mode, states, done));
                    }
                    let rets = collect_return_blocks(&function.blocks);
                    proof {
                        assert(rets@.take(0) =~= Seq::<BlockId>::empty());
                    }
                    let mut r: usize = 0;
                    while r < rets.len()
                        invariant
                            self.mode == mode,
                            pre == c.requires@,
                            post == c.ensures@,
                            chain(mode, states, done),
                            states.len() > pre.len(),
                            states[pre.len() as int] == after_pre,
                            states[0] == start,
                            rets@ == return_blocks(after_pre.blocks@),
                            return_ids_fit(after_pre.blocks@),
                            0 <= r <= rets@.len(),
                            states.last() == *function,
                            same_shell(start, *function),
                            function.contract == start.contract,
                            done == check_steps(pre, post, rets@.take(r as int)),
                            function.blocks@.len() >= after_pre.blocks@.len(),
                        decreases rets@.len() - r,
                    {
                        let block_id = rets[r];
                        proof {
                            lemma_return_blocks_in_range(after_pre.blocks@, r as int);
                        }
                        let more = self.insert_checks_at(function, block_id, &c.ensures, false);
                        proof {
                            let old_states = states;
                            lemma_splice(mode, states, done, more@, block_id, post);
                            states = states + more@.drop_first();
                            done = done + post.map_values(|cl: ContractClause| (block_id, cl, false));
                            assert(states[pre.len() as int] == old_states[pre.len() as int]);
                            assert(states[0] == old_states[0]);
                            assert(rets@.take(r + 1).drop_last() =~= rets@.take(r as int));
                            assert(rets@.take(r + 1).last() == block_id);
                            assert(done =~= check_steps(pre, post, rets@.take(r + 1)));
                        }
                        r = r + 1;
                    }
                    proof {
                        assert(rets@.take(rets@.len() as int) =~= rets@);
                        assert(done == check_steps(pre, post, return_blocks(states[pre.len() as int].blocks@)));
                    }
                }
            },
            None => {},
        }
        std::mem::swap(&mut contract, &mut function.contract);
    }
}


impl MirContractVerifier {
    /// Inserts the checks of every function's contract, unless the mode is
    /// `Disabled`.
    pub fn verify_program(&mut self, program: &mut MirProgram)
        requires
            old(program).wf(),
            forall|i: int| 0 <= i < old(program).functions.entries@.len()
                ==> checks_fit(old(self).mode_spec(), (#[trigger] old(program).functions.entries@[i]).1),
        ensures
            final(program).wf(),
            final(self).mode_spec() == old(self).mode_spec(),
            old(self).mode_spec() == VerificationMode::Disabled ==> *final(program) == *old(program),
            old(self).mode_spec() != VerificationMode::Disabled ==> {
                &&& final(program).functions.entries@.len() == old(program).functions.entries@.len()
                &&& forall|i: int| 0 <= i < old(program).functions.entries@.len() ==> {
                    &&& (#[trigger] final(program).functions.entries@[i]).0 == old(program).functions.entries@[i].0
                    &&& contract_checked(old(self).mode_spec(), old(program).functions.entries@[i].1, final(program).functions.entries@[i].1)
                }
                &&& final(program).structs == old(program).structs
                &&& final(program).enums == old(program).enums
                &&& final(program).effects == old(program).effects
                &&& final(program).handlers == old(program).handlers
                &&& final(program).entry == old(program).entry
                &&& final(program).strings == old(program).strings
                &&& final(program).fn_name_to_id == old(program).fn_name_to_id
            },
    {
        if !self.mode.is_enabled() {
            return;
        }
        let ghost mode = self.mode;
        let ghost orig = program.functions.entries@;
        let mut i: usize = 0;
        while i < program.functions.entries.len()
            invariant
                self.mode == mode,
                0 <= i <= orig.len(),
                orig == old(program).functions.entries@,
                old(program).wf(),
                program.functions.entries@.len() == orig.len(),
                program.structs == old(program).structs,
                program.enums == old(program).enums,
                program.effects == old(program).effects,
                program.handlers == old(program).handlers,
                program.entry == old(program).entry,
                program.strings == old(program).strings,
                program.fn_name_to_id == old(program).fn_name_to_id,
                program.next_fn_id == old(program).next_fn_id,
                program.next_effect_id == old(program).next_effect_id,
                program.next_handler_id == old(program).next_handler_id,
                program.mono_cache == old(program).mono_cache,
                forall|j: int| 0 <= j < orig.len() ==> checks_fit(mode, (#[trigger] orig[j]).1),
                forall|j: int| i <= j < orig.len() ==> #[trigger] program.functions.entries@[j] == orig[j],
                forall|j: int| 0 <= j < i ==> {
                    &&& (#[trigger] program.functions.entries@[j]).0 == orig[j].0
                    &&& contract_checked(mode, orig[j].1, program.functions.entries@[j].1)
                    &&& same_shell(orig[j].1, program.functions.entries@[j].1)
                },
            decreases orig.len() - i,
        {
            self.verify_function(&mut program.functions.entries[i].1);
            i = i + 1;
        }
        assert forall|a: int, b: int| 0 <= a < b < program.functions.entries@.len() implies
            #[trigger] program.functions.entries@[a].0 != #[trigger] program.functions.entries@[b].0 by {
            assert(orig[a].0 != orig[b].0);
        }
        assert forall|j: int| 0 <= j < program.functions.entries@.len() implies (#[trigger] program.functions.entries@[j]).1.wf() by {
            assert(orig[j].1.wf());
        }
    }
}

} // verus!
