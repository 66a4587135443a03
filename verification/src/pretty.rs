//! Human-readable listings of MIR programs.
//!
//! A listing is a sequence of pieces: characters, and floating-point
//! constants kept as their IEEE-754 bits, which the caller renders in
//! Rust's shortest round-trip decimal form (`1.5`, `2`, `1e-7`).

use vstd::prelude::*;
use crate::display::{
    binop_text, block_text, classification_str, classification_text, effect_text, effects_text, local_text,
    place_text, put, put_block, row_text, put_effect, put_effects, put_local, put_num, put_place, put_slot, put_ty,
    slot_text, strategy_str, strategy_text, ty_text, tys_text, unop_text, binop_str, unop_str,
};
use crate::mir::{
    AggregateKind, BasicBlock, BlockId, CastKind, Constant, EffectId, EffectRow, EffectStatementKind,
    EffectTerminatorKind, EffectOperation, EnumId, EvidenceParam, FunctionId, HandlerBlock, HandlerId, Local,
    LocalDecl, MirEffect, MirEnum, MirField, MirFunction, MirHandler, MirProgram, MirStruct, MirType, MirVariant,
    Operand, Rvalue, StatementKind, StructId, TerminatorKind, tys_view,
};
use crate::text::{decimal, push_decimal_wide};
use crate::piece::{Piece, lit, put_chars, put_text};

verus! {

// ============================================================================
// Numbers and constants
// ============================================================================

/// The decimal text of an integer, with a leading `-` when negative.
pub open spec fn signed_text(i: int) -> Seq<char> {
    if i < 0 {
        "-"@ + decimal((-i) as nat)
    } else {
        decimal(i as nat)
    }
}

/// The text of a boolean.
pub open spec fn bool_text(b: bool) -> Seq<char> {
    if b {
        "true"@
    } else {
        "false"@
    }
}

/// Appends the decimal text of a 64-bit integer.
pub fn put_signed(out: &mut Vec<char>, v: i64)
    ensures
        final(out)@ == old(out)@ + signed_text(v as int),
{
    let ghost start = out@;
    if v < 0 {
        put(out, "-");
        let m: i128 = -(v as i128);
        put_num(out, m as u64);
    } else {
        put_num(out, v as u64);
    }
    assert(out@ =~= start + signed_text(v as int));
}

/// Appends the decimal text of a 128-bit integer.
pub fn put_signed_wide(out: &mut Vec<char>, v: i128)
    ensures
        final(out)@ == old(out)@ + signed_text(v as int),
{
    let ghost start = out@;
    if v < 0 {
        put(out, "-");
        let m: i128 = -(v + 1);
        let n: u128 = (m as u128) + 1;
        push_decimal_wide(out, n);
    } else {
        push_decimal_wide(out, v as u128);
    }
    assert(out@ =~= start + signed_text(v as int));
}

/// Appends the text of a boolean.
pub fn put_bool(out: &mut Vec<char>, b: bool)
    ensures
        final(out)@ == old(out)@ + bool_text(b),
{
    if b {
        put(out, "true");
    } else {
        put(out, "false");
    }
}

/// The listing of a constant.
pub open spec fn constant_pieces(c: Constant) -> Seq<Piece> {
    match c {
        Constant::Unit => lit("()"@),
        Constant::Bool(b) => lit(bool_text(b)),
        Constant::Int(i) => lit(signed_text(i as int)),
        Constant::Float(bits) => seq![Piece::Float64(bits)],
        Constant::Float32(bits) => seq![Piece::Float32(bits)] + lit("f32"@),
        Constant::Float64(bits) => seq![Piece::Float64(bits)] + lit("f64"@),
        Constant::Char(ch) => lit(seq!['\'', ch, '\'']),
        Constant::String(i) => lit("str#"@ + decimal(i as nat)),
        Constant::Function(id) => lit("fn#"@ + decimal(id.0 as nat)),
    }
}

/// Appends the listing of a constant.
pub fn put_constant(out: &mut Vec<Piece>, c: &Constant)
    ensures
        final(out)@ == old(out)@ + constant_pieces(*c),
{
    let ghost start = out@;
    let mut t: Vec<char> = Vec::new();
    match c {
        Constant::Unit => {
            put(&mut t, "()");
            put_chars(out, t.as_slice());
        },
        Constant::Bool(b) => {
            put_bool(&mut t, *b);
            put_chars(out, t.as_slice());
        },
        Constant::Int(i) => {
            put_signed(&mut t, *i);
            put_chars(out, t.as_slice());
        },
        Constant::Float(bits) => {
            out.push(Piece::Float64(*bits));
        },
        Constant::Float32(bits) => {
            out.push(Piece::Float32(*bits));
            put_text(out, "f32");
        },
        Constant::Float64(bits) => {
            out.push(Piece::Float64(*bits));
            put_text(out, "f64");
        },
        Constant::Char(ch) => {
            t.push('\'');
            t.push(*ch);
            t.push('\'');
            assert(t@ =~= seq!['\'', *ch, '\'']);
            put_chars(out, t.as_slice());
        },
        Constant::String(i) => {
            put(&mut t, "str#");
            put_num(&mut t, *i as u64);
            put_chars(out, t.as_slice());
        },
        Constant::Function(id) => {
            put(&mut t, "fn#");
            put_num(&mut t, id.0 as u64);
            put_chars(out, t.as_slice());
        },
    }
    assert(out@ =~= start + constant_pieces(*c));
}

// ============================================================================
// Operands and rvalues
// ============================================================================

/// The listing of an operand.
pub open spec fn operand_pieces(o: Operand) -> Seq<Piece> {
    match o {
        Operand::Copy(p) => lit("copy "@ + place_text(p)),
        Operand::Move(p) => lit("move "@ + place_text(p)),
        Operand::Constant(c) => constant_pieces(c),
    }
}

/// The listings of the first `n` operands, separated by `, `.
pub open spec fn operands_pieces(s: Seq<Operand>, n: int) -> Seq<Piece>
    decreases n,
{
    if n <= 0 || n > s.len() {
        Seq::empty()
    } else if n == 1 {
        operand_pieces(s[0])
    } else {
        operands_pieces(s, n - 1) + lit(", "@) + operand_pieces(s[n - 1])
    }
}

/// The listings of all the operands, separated by `, `.
pub open spec fn operand_list(s: Seq<Operand>) -> Seq<Piece> {
    operands_pieces(s, s.len() as int)
}

/// Appends the listing of an operand.
pub fn put_operand(out: &mut Vec<Piece>, o: &Operand)
    ensures
        final(out)@ == old(out)@ + operand_pieces(*o),
{
    let mut t: Vec<char> = Vec::new();
    match o {
        Operand::Copy(p) => {
            put(&mut t, "copy ");
            put_place(&mut t, p);
            put_chars(out, t.as_slice());
        },
        Operand::Move(p) => {
            put(&mut t, "move ");
            put_place(&mut t, p);
            put_chars(out, t.as_slice());
        },
        Operand::Constant(c) => put_constant(out, c),
    }
}

/// Appends the listings of operands separated by `, `.
pub fn put_operands(out: &mut Vec<Piece>, v: &Vec<Operand>)
    ensures
        final(out)@ == old(out)@ + operand_list(v@),
{
    let ghost start = out@;
    let mut i: usize = 0;
    assert(out@ =~= start + operands_pieces(v@, 0));
    while i < v.len()
        invariant
            0 <= i <= v@.len(),
            out@ == start + operands_pieces(v@, i as int),
        decreases v@.len() - i,
    {
        if i > 0 {
            put_text(out, ", ");
        }
        put_operand(out, &v[i]);
        assert(out@ =~= start + operands_pieces(v@, i + 1));
        i = i + 1;
    }
}

/// The name of a cast kind.
pub open spec fn cast_kind_text(k: CastKind) -> Seq<char> {
    match k {
        CastKind::IntToInt => "IntToInt"@,
        CastKind::FloatToFloat => "FloatToFloat"@,
        CastKind::IntToFloat => "IntToFloat"@,
        CastKind::FloatToInt => "FloatToInt"@,
        CastKind::PtrToPtr => "PtrToPtr"@,
    }
}

fn cast_kind_str(k: CastKind) -> (s: &'static str)
    ensures
        s@ == cast_kind_text(k),
{
    match k {
        CastKind::IntToInt => "IntToInt",
        CastKind::FloatToFloat => "FloatToFloat",
        CastKind::IntToFloat => "IntToFloat",
        CastKind::FloatToInt => "FloatToInt",
        CastKind::PtrToPtr => "PtrToPtr",
    }
}

/// The listing of an aggregate of the given kind with the given operands.
pub open spec fn aggregate_pieces(k: AggregateKind, ops: Seq<Operand>) -> Seq<Piece> {
    match k {
        AggregateKind::Tuple => lit("("@) + operand_list(ops) + lit(")"@),
        AggregateKind::Array(t) => lit("["@) + operand_list(ops) + lit("; "@ + ty_text(t@) + "]"@),
        AggregateKind::Struct(id) => lit("struct#"@ + decimal(id.0 as nat) + " { "@) + operand_list(ops) + lit(" }"@),
        AggregateKind::Enum(id, v) => lit("enum#"@ + decimal(id.0 as nat) + "::variant#"@ + decimal(v as nat) + " { "@)
            + operand_list(ops) + lit(" }"@),
    }
}

/// The listing of an rvalue.
pub open spec fn rvalue_pieces(r: Rvalue) -> Seq<Piece> {
    match r {
        Rvalue::Use(o) => operand_pieces(o),
        Rvalue::BinaryOp(op, a, b) => operand_pieces(a) + lit(" "@ + binop_text(op) + " "@) + operand_pieces(b),
        Rvalue::UnaryOp(op, o) => lit(unop_text(op)) + operand_pieces(o),
        Rvalue::Ref(p) => lit("&"@ + place_text(p)),
        Rvalue::RefMut(p) => lit("&mut "@ + place_text(p)),
        Rvalue::Aggregate(k, ops) => aggregate_pieces(k, ops@),
        Rvalue::Discriminant(p) => lit("discriminant("@ + place_text(p) + ")"@),
        Rvalue::Len(p) => lit("len("@ + place_text(p) + ")"@),
        Rvalue::Cast(k, o, t) => operand_pieces(o) + lit(" as "@ + ty_text(t@) + " ("@ + cast_kind_text(k) + ")"@),
        Rvalue::Closure(f, caps) => lit("closure(fn#"@ + decimal(f.0 as nat) + ", ["@) + operand_list(caps@) + lit("])"@),
    }
}

/// Appends the listing of an aggregate.
fn put_aggregate(out: &mut Vec<Piece>, k: &AggregateKind, ops: &Vec<Operand>)
    ensures
        final(out)@ == old(out)@ + aggregate_pieces(*k, ops@),
{
    let ghost start = out@;
    let mut t: Vec<char> = Vec::new();
    let mut u: Vec<char> = Vec::new();
    match k {
        AggregateKind::Tuple => {
            put_text(out, "(");
            put_operands(out, ops);
            put_text(out, ")");
        },
        AggregateKind::Array(ty) => {
            put_text(out, "[");
            put_operands(out, ops);
            put(&mut u, "; ");
            put_ty(&mut u, ty);
            put(&mut u, "]");
            put_chars(out, u.as_slice());
        },
        AggregateKind::Struct(id) => {
            put(&mut t, "struct#");
            put_num(&mut t, id.0 as u64);
            put(&mut t, " { ");
            put_chars(out, t.as_slice());
            put_operands(out, ops);
            put_text(out, " }");
        },
        AggregateKind::Enum(id, v) => {
            put(&mut t, "enum#");
            put_num(&mut t, id.0 as u64);
            put(&mut t, "::variant#");
            put_num(&mut t, *v as u64);
            put(&mut t, " { ");
            put_chars(out, t.as_slice());
            put_operands(out, ops);
            put_text(out, " }");
        },
    }
    assert(out@ =~= start + aggregate_pieces(*k, ops@));
}

/// Appends the listing of an rvalue.
pub fn put_rvalue(out: &mut Vec<Piece>, r: &Rvalue)
    ensures
        final(out)@ == old(out)@ + rvalue_pieces(*r),
{
    let ghost start = out@;
    let mut t: Vec<char> = Vec::new();
    match r {
        Rvalue::Use(o) => put_operand(out, o),
        Rvalue::BinaryOp(op, a, b) => {
            put_operand(out, a);
            put(&mut t, " ");
            put(&mut t, binop_str(*op));
            put(&mut t, " ");
            put_chars(out, t.as_slice());
            put_operand(out, b);
        },
        Rvalue::UnaryOp(op, o) => {
            put(&mut t, unop_str(*op));
            put_chars(out, t.as_slice());
            put_operand(out, o);
        },
        Rvalue::Ref(p) => {
            put(&mut t, "&");
            put_place(&mut t, p);
            put_chars(out, t.as_slice());
        },
        Rvalue::RefMut(p) => {
            put(&mut t, "&mut ");
            put_place(&mut t, p);
            put_chars(out, t.as_slice());
        },
        Rvalue::Aggregate(k, ops) => put_aggregate(out, k, ops),
        Rvalue::Discriminant(p) => {
            put(&mut t, "discriminant(");
            put_place(&mut t, p);
            put(&mut t, ")");
            put_chars(out, t.as_slice());
        },
        Rvalue::Len(p) => {
            put(&mut t, "len(");
            put_place(&mut t, p);
            put(&mut t, ")");
            put_chars(out, t.as_slice());
        },
        Rvalue::Cast(k, o, ty) => {
            put_operand(out, o);
            put(&mut t, " as ");
            put_ty(&mut t, ty);
            put(&mut t, " (");
            put(&mut t, cast_kind_str(*k));
            put(&mut t, ")");
            put_chars(out, t.as_slice());
        },
        Rvalue::Closure(f, caps) => {
            put(&mut t, "closure(fn#");
            put_num(&mut t, f.0 as u64);
            put(&mut t, ", [");
            put_chars(out, t.as_slice());
            put_operands(out, caps);
            put_text(out, "])");
        },
    }
    assert(out@ =~= start + rvalue_pieces(*r));
}

// ============================================================================
// Statements and terminators
// ============================================================================

/// The listing of a statement, with its closing `;`.
pub open spec fn statement_pieces(k: StatementKind) -> Seq<Piece> {
    match k {
        StatementKind::Assign(p, r) => lit(place_text(p) + " = "@) + rvalue_pieces(r) + lit(";"@),
        StatementKind::StorageLive(l) => lit("StorageLive("@ + local_text(l) + ");"@),
        StatementKind::StorageDead(l) => lit("StorageDead("@ + local_text(l) + ");"@),
        StatementKind::Nop => lit("nop;"@),
    }
}

/// Appends the listing of a statement.
pub fn put_statement(out: &mut Vec<Piece>, k: &StatementKind)
    ensures
        final(out)@ == old(out)@ + statement_pieces(*k),
{
    let ghost start = out@;
    let mut t: Vec<char> = Vec::new();
    match k {
        StatementKind::Assign(p, r) => {
            put_place(&mut t, p);
            put(&mut t, " = ");
            put_chars(out, t.as_slice());
            put_rvalue(out, r);
            put_text(out, ";");
        },
        StatementKind::StorageLive(l) => {
            put(&mut t, "StorageLive(");
            put_local(&mut t, *l);
            put(&mut t, ");");
            put_chars(out, t.as_slice());
        },
        StatementKind::StorageDead(l) => {
            put(&mut t, "StorageDead(");
            put_local(&mut t, *l);
            put(&mut t, ");");
            put_chars(out, t.as_slice());
        },
        StatementKind::Nop => put_text(out, "nop;"),
    }
    assert(out@ =~= start + statement_pieces(*k));
}

/// The `value: target, ` entries of the first `n` switch targets.
pub open spec fn targets_text(t: Seq<(i128, BlockId)>, n: int) -> Seq<char>
    decreases n,
{
    if n <= 0 || n > t.len() {
        Seq::empty()
    } else {
        targets_text(t, n - 1) + signed_text(t[n - 1].0 as int) + ": "@ + block_text(t[n - 1].1) + ", "@
    }
}

/// Where a call continues: ` -> ` and its block, or ` -> diverge`.
pub open spec fn call_target_text(t: Option<BlockId>) -> Seq<char> {
    match t {
        Some(b) => " -> "@ + block_text(b),
        None => " -> diverge"@,
    }
}

/// The listing of a terminator, with its closing `;`.
pub open spec fn terminator_pieces(k: TerminatorKind) -> Seq<Piece> {
    match k {
        TerminatorKind::Goto { target } => lit("goto -> "@ + block_text(target) + ";"@),
        TerminatorKind::SwitchInt { discr, targets } => lit("switchInt("@) + operand_pieces(discr)
            + lit(") -> ["@ + targets_text(targets.targets@, targets.targets@.len() as int) + "otherwise: "@
            + block_text(targets.otherwise) + "];"@),
        TerminatorKind::Call { func, args, dest, target } => lit(place_text(dest) + " = "@) + operand_pieces(func)
            + lit("("@) + operand_list(args@) + lit(")"@ + call_target_text(target) + ";"@),
        TerminatorKind::Return => lit("return;"@),
        TerminatorKind::Unreachable => lit("unreachable;"@),
        TerminatorKind::Drop { place, target } => lit("drop("@ + place_text(place) + ") -> "@ + block_text(target) + ";"@),
        TerminatorKind::Assert { cond, expected, msg, target } => lit("assert("@) + operand_pieces(cond)
            + lit(", "@ + bool_text(expected) + ", \""@ + msg@ + "\") -> "@ + block_text(target) + ";"@),
    }
}

/// Appends the `value: target, ` entries of switch targets.
fn put_targets(out: &mut Vec<char>, t: &Vec<(i128, BlockId)>)
    ensures
        final(out)@ == old(out)@ + targets_text(t@, t@.len() as int),
{
    let ghost start = out@;
    let mut i: usize = 0;
    assert(out@ =~= start + targets_text(t@, 0));
    while i < t.len()
        invariant
            0 <= i <= t@.len(),
            out@ == start + targets_text(t@, i as int),
        decreases t@.len() - i,
    {
        let (v, b) = t[i];
        put_signed_wide(out, v);
        put(out, ": ");
        put_block(out, b);
        put(out, ", ");
        assert(out@ =~= start + targets_text(t@, i + 1));
        i = i + 1;
    }
}

/// Appends the listing of a terminator.
pub fn put_terminator(out: &mut Vec<Piece>, k: &TerminatorKind)
    ensures
        final(out)@ == old(out)@ + terminator_pieces(*k),
{
    let ghost start = out@;
    let mut t: Vec<char> = Vec::new();
    match k {
        TerminatorKind::Goto { target } => {
            put(&mut t, "goto -> ");
            put_block(&mut t, *target);
            put(&mut t, ";");
            put_chars(out, t.as_slice());
        },
        TerminatorKind::SwitchInt { discr, targets } => {
            put_text(out, "switchInt(");
            put_operand(out, discr);
            put(&mut t, ") -> [");
            put_targets(&mut t, &targets.targets);
            put(&mut t, "otherwise: ");
            put_block(&mut t, targets.otherwise);
            put(&mut t, "];");
            put_chars(out, t.as_slice());
        },
        TerminatorKind::Call { func, args, dest, target } => {
            put_place(&mut t, dest);
            put(&mut t, " = ");
            put_chars(out, t.as_slice());
            put_operand(out, func);
            put_text(out, "(");
            put_operands(out, args);
            let mut u: Vec<char> = Vec::new();
            put(&mut u, ")");
            match target {
                Some(b) => {
                    put(&mut u, " -> ");
                    put_block(&mut u, *b);
                },
                None => put(&mut u, " -> diverge"),
            }
            put(&mut u, ";");
            assert(u@ =~= ")"@ + call_target_text(*target) + ";"@);
            put_chars(out, u.as_slice());
            assert(out@ =~= start + terminator_pieces(*k));
        },
        TerminatorKind::Return => put_text(out, "return;"),
        TerminatorKind::Unreachable => put_text(out, "unreachable;"),
        TerminatorKind::Drop { place, target } => {
            put(&mut t, "drop(");
            put_place(&mut t, place);
            put(&mut t, ") -> ");
            put_block(&mut t, *target);
            put(&mut t, ";");
            put_chars(out, t.as_slice());
        },
        TerminatorKind::Assert { cond, expected, msg, target } => {
            put_text(out, "assert(");
            put_operand(out, cond);
            put(&mut t, ", ");
            put_bool(&mut t, *expected);
            put(&mut t, ", \"");
            put(&mut t, msg.as_str());
            put(&mut t, "\") -> ");
            put_block(&mut t, *target);
            put(&mut t, ";");
            put_chars(out, t.as_slice());
        },
    }
    assert(out@ =~= start + terminator_pieces(*k));
}

// ============================================================================
// Effect statements and terminators
// ============================================================================

/// ` (prev: ` and the local, `)`, when there is one.
pub open spec fn prev_text(p: Option<Local>) -> Seq<char> {
    match p {
        Some(l) => " (prev: "@ + local_text(l) + ")"@,
        None => Seq::empty(),
    }
}

/// The listing of an effect statement, without a closing `;`.
pub open spec fn effect_statement_pieces(k: EffectStatementKind) -> Seq<Piece> {
    match k {
        EffectStatementKind::InstallHandler { handler, evidence_slot, effect, prev_evidence } =>
            lit("effect.install handler#"@ + decimal(handler.0 as nat) + ", "@ + slot_text(evidence_slot) + ", @"@
                + effect_text(effect) + prev_text(prev_evidence)),
        EffectStatementKind::UninstallHandler { evidence_slot, prev_evidence } =>
            lit("effect.uninstall "@ + slot_text(evidence_slot) + ", prev: "@ + local_text(prev_evidence)),
        EffectStatementKind::PerformEffect { effect, operation, args, evidence_slot, dest, classification } =>
            lit(place_text(dest) + " = effect.perform."@ + classification_text(classification) + " @"@
                + effect_text(effect) + ".op#"@ + decimal(operation.0 as nat) + ", ["@) + operand_list(args@)
                + lit("], "@ + slot_text(evidence_slot)),
        EffectStatementKind::CaptureContunuation { dest } => lit(place_text(dest) + " = effect.capture"@),
        EffectStatementKind::CloneContinuation { source, dest } =>
            lit(place_text(dest) + " = continuation.clone "@) + operand_pieces(source),
        EffectStatementKind::FfiBarrier { strategy, blocked_effects } =>
            lit("effect.barrier @ffi, strategy: "@ + strategy_text(strategy) + ", blocked: ["@
                + effects_text(blocked_effects@, blocked_effects@.len() as int) + "]"@),
    }
}

/// Appends the listing of an effect statement.
pub fn put_effect_statement(out: &mut Vec<Piece>, k: &EffectStatementKind)
    ensures
        final(out)@ == old(out)@ + effect_statement_pieces(*k),
{
    let ghost start = out@;
    let mut t: Vec<char> = Vec::new();
    match k {
        EffectStatementKind::InstallHandler { handler, evidence_slot, effect, prev_evidence } => {
            put(&mut t, "effect.install handler#");
            put_num(&mut t, handler.0 as u64);
            put(&mut t, ", ");
            put_slot(&mut t, evidence_slot);
            put(&mut t, ", @");
            put_effect(&mut t, effect);
            match prev_evidence {
                Some(l) => {
                    put(&mut t, " (prev: ");
                    put_local(&mut t, *l);
                    put(&mut t, ")");
                },
                None => {},
            }
            assert(t@ =~= "effect.install handler#"@ + decimal(handler.0 as nat) + ", "@ + slot_text(*evidence_slot) + ", @"@
                + effect_text(*effect) + prev_text(*prev_evidence));
            put_chars(out, t.as_slice());
        },
        EffectStatementKind::UninstallHandler { evidence_slot, prev_evidence } => {
            put(&mut t, "effect.uninstall ");
            put_slot(&mut t, evidence_slot);
            put(&mut t, ", prev: ");
            put_local(&mut t, *prev_evidence);
            put_chars(out, t.as_slice());
        },
        EffectStatementKind::PerformEffect { effect, operation, args, evidence_slot, dest, classification } => {
            put_place(&mut t, dest);
            put(&mut t, " = effect.perform.");
            put(&mut t, classification_str(*classification));
            put(&mut t, " @");
            put_effect(&mut t, effect);
            put(&mut t, ".op#");
            put_num(&mut t, operation.0 as u64);
            put(&mut t, ", [");
            put_chars(out, t.as_slice());
            put_operands(out, args);
            let mut u: Vec<char> = Vec::new();
            put(&mut u, "], ");
            put_slot(&mut u, evidence_slot);
            put_chars(out, u.as_slice());
        },
        EffectStatementKind::CaptureContunuation { dest } => {
            put_place(&mut t, dest);
            put(&mut t, " = effect.capture");
            put_chars(out, t.as_slice());
        },
        EffectStatementKind::CloneContinuation { source, dest } => {
            put_place(&mut t, dest);
            put(&mut t, " = continuation.clone ");
            put_chars(out, t.as_slice());
            put_operand(out, source);
        },
        EffectStatementKind::FfiBarrier { strategy, blocked_effects } => {
            put(&mut t, "effect.barrier @ffi, strategy: ");
            put(&mut t, strategy_str(*strategy));
            put(&mut t, ", blocked: [");
            put_effects(&mut t, blocked_effects);
            put(&mut t, "]");
            put_chars(out, t.as_slice());
        },
    }
    assert(out@ =~= start + effect_statement_pieces(*k));
}

/// The listing of an effect terminator, without a closing `;`.
pub open spec fn effect_terminator_pieces(k: EffectTerminatorKind) -> Seq<Piece> {
    match k {
        EffectTerminatorKind::Yield { effect, operation, args, continuation, handler_block } =>
            lit("effect.yield @"@ + effect_text(effect) + ".op#"@ + decimal(operation.0 as nat) + ", ["@)
                + operand_list(args@) + lit("], "@) + operand_pieces(continuation) + lit(", -> "@ + block_text(handler_block)),
        EffectTerminatorKind::Resume { continuation, value, target } =>
            lit("effect.resume "@) + operand_pieces(continuation) + lit(", "@) + operand_pieces(value)
                + lit(" -> "@ + block_text(target)),
        EffectTerminatorKind::Handle { body, handler, normal_return, effect_return } =>
            lit("handle "@ + block_text(body) + " with handler#"@ + decimal(handler.0 as nat) + " -> normal: "@
                + block_text(normal_return) + ", effect: "@ + block_text(effect_return)),
    }
}

/// Appends the listing of an effect terminator.
pub fn put_effect_terminator(out: &mut Vec<Piece>, k: &EffectTerminatorKind)
    ensures
        final(out)@ == old(out)@ + effect_terminator_pieces(*k),
{
    let ghost start = out@;
    let mut t: Vec<char> = Vec::new();
    match k {
        EffectTerminatorKind::Yield { effect, operation, args, continuation, handler_block } => {
            put(&mut t, "effect.yield @");
            put_effect(&mut t, effect);
            put(&mut t, ".op#");
            put_num(&mut t, operation.0 as u64);
            put(&mut t, ", [");
            put_chars(out, t.as_slice());
            put_operands(out, args);
            put_text(out, "], ");
            put_operand(out, continuation);
            let mut u: Vec<char> = Vec::new();
            put(&mut u, ", -> ");
            put_block(&mut u, *handler_block);
            put_chars(out, u.as_slice());
        },
        EffectTerminatorKind::Resume { continuation, value, target } => {
            put_text(out, "effect.resume ");
            put_operand(out, continuation);
            put_text(out, ", ");
            put_operand(out, value);
            put(&mut t, " -> ");
            put_block(&mut t, *target);
            put_chars(out, t.as_slice());
        },
        EffectTerminatorKind::Handle { body, handler, normal_return, effect_return } => {
            put(&mut t, "handle ");
            put_block(&mut t, *body);
            put(&mut t, " with handler#");
            put_num(&mut t, handler.0 as u64);
            put(&mut t, " -> normal: ");
            put_block(&mut t, *normal_return);
            put(&mut t, ", effect: ");
            put_block(&mut t, *effect_return);
            put_chars(out, t.as_slice());
        },
    }
    assert(out@ =~= start + effect_terminator_pieces(*k));
}

// ============================================================================
// Functions
// ============================================================================

/// A function can be listed: its parameters are among its locals.
pub open spec fn listable(f: MirFunction) -> bool {
    &&& f.wf()
    &&& forall|j: int| 0 <= j < f.params@.len() ==> (#[trigger] f.params@[j]).0 < f.locals@.len()
}

/// `_n: type` for a parameter.
pub open spec fn param_text(f: MirFunction, p: Local) -> Seq<char> {
    local_text(p) + ": "@ + ty_text(f.locals@[p.0 as int].ty@)
}

/// The first `n` parameters, separated by `, `.
pub open spec fn params_text(f: MirFunction, n: int) -> Seq<char>
    decreases n,
{
    if n <= 0 || n > f.params@.len() {
        Seq::empty()
    } else if n == 1 {
        param_text(f, f.params@[0])
    } else {
        params_text(f, n - 1) + ", "@ + param_text(f, f.params@[n - 1])
    }
}

/// `: ` and the effect row, unless the row is pure.
pub open spec fn row_part(r: EffectRow) -> Seq<char> {
    if r.effects@.len() == 0 && !r.is_open {
        Seq::empty()
    } else {
        ": "@ + row_text(r)
    }
}

/// The visibility, name and parameters of a function.
pub open spec fn signature_text(f: MirFunction) -> Seq<char> {
    (if f.is_public { "pub "@ } else { Seq::empty() }) + "fn "@ + f.name@ + "("@
        + params_text(f, f.params@.len() as int) + ")"@
}

/// The first line of a function.
pub open spec fn header_text(id: u32, f: MirFunction) -> Seq<char> {
    signature_text(f) + row_part(f.effect_row) + " -> "@ + ty_text(f.return_ty@) + " { // fn#"@ + decimal(id as nat)
        + "\n"@
}

/// The line of an evidence parameter.
pub open spec fn evidence_line(e: EvidenceParam) -> Seq<char> {
    "  // "@ + local_text(e.local) + ": "@ + effect_text(e.effect) + " ("@
        + (if e.is_static { "static"@ } else { "dynamic"@ }) + ")\n"@
}

/// The lines of the first `n` evidence parameters.
pub open spec fn evidence_lines(s: Seq<EvidenceParam>, n: int) -> Seq<char>
    decreases n,
{
    if n <= 0 || n > s.len() {
        Seq::empty()
    } else {
        evidence_lines(s, n - 1) + evidence_line(s[n - 1])
    }
}

/// The evidence section: empty without evidence parameters.
pub open spec fn evidence_text(f: MirFunction) -> Seq<char> {
    if f.evidence_params@.len() == 0 {
        Seq::empty()
    } else {
        "  // evidence:\n"@ + evidence_lines(f.evidence_params@, f.evidence_params@.len() as int) + "\n"@
    }
}

/// The lines of the first `n` evidence slots.
pub open spec fn slot_lines(s: Seq<(EffectId, u32)>, n: int) -> Seq<char>
    decreases n,
{
    if n <= 0 || n > s.len() {
        Seq::empty()
    } else {
        slot_lines(s, n - 1) + "  // effect#"@ + decimal(s[n - 1].0.0 as nat) + " -> slot "@ + decimal(s[n - 1].1 as nat) + "\n"@
    }
}

/// The evidence layout section: empty for an empty layout.
pub open spec fn layout_text(f: MirFunction) -> Seq<char> {
    if f.evidence_layout.size == 0 {
        Seq::empty()
    } else {
        "  // evidence layout:\n"@ + slot_lines(f.evidence_layout.slots.entries@, f.evidence_layout.slots.entries@.len() as int)
            + "\n"@
    }
}

/// The line of local `i`.
pub open spec fn local_line(i: int, d: LocalDecl) -> Seq<char> {
    "  // _"@ + decimal(i as nat) + ": "@ + (if d.mutable { "mut "@ } else { Seq::empty() }) + ty_text(d.ty@) + " ("@
        + (match d.name { Some(n) => n@, None => "_tmp"@ }) + ")\n"@
}

/// The lines of the first `n` locals.
pub open spec fn local_lines(s: Seq<LocalDecl>, n: int) -> Seq<char>
    decreases n,
{
    if n <= 0 || n > s.len() {
        Seq::empty()
    } else {
        local_lines(s, n - 1) + local_line(n - 1, s[n - 1])
    }
}

/// The locals section.
pub open spec fn locals_text(f: MirFunction) -> Seq<char> {
    "  // locals:\n"@ + local_lines(f.locals@, f.locals@.len() as int) + "\n"@
}

/// The first `n` locals, separated by `, `.
pub open spec fn local_list(s: Seq<Local>, n: int) -> Seq<char>
    decreases n,
{
    if n <= 0 || n > s.len() {
        Seq::empty()
    } else if n == 1 {
        local_text(s[0])
    } else {
        local_list(s, n - 1) + ", "@ + local_text(s[n - 1])
    }
}

/// The line of a handler block.
pub open spec fn handler_block_line(h: HandlerBlock) -> Seq<char> {
    "  // "@ + block_text(h.block_id) + ": @"@ + effect_text(h.effect) + ".op#"@ + decimal(h.operation.0 as nat) + " ["@
        + local_list(h.params@, h.params@.len() as int) + "]"@
        + (match h.continuation { Some(c) => ", cont: "@ + local_text(c), None => Seq::empty() })
        + (match h.resume_block { Some(b) => " -> resume "@ + block_text(b), None => Seq::empty() }) + ",\n"@
}

/// The lines of the first `n` handler blocks.
pub open spec fn handler_block_lines(s: Seq<HandlerBlock>, n: int) -> Seq<char>
    decreases n,
{
    if n <= 0 || n > s.len() {
        Seq::empty()
    } else {
        handler_block_lines(s, n - 1) + handler_block_line(s[n - 1])
    }
}

/// The handler blocks section: empty without handler blocks.
pub open spec fn handler_blocks_text(f: MirFunction) -> Seq<char> {
    if f.handler_blocks@.len() == 0 {
        Seq::empty()
    } else {
        "  // handler blocks:\n"@ + handler_block_lines(f.handler_blocks@, f.handler_blocks@.len() as int) + "\n"@
    }
}

/// The line of statement `i` of block `b`: the effect statement recorded
/// there when there is one, else the statement itself.
pub open spec fn statement_line(f: MirFunction, b: BasicBlock, i: int) -> Seq<Piece> {
    match f.effect_statements.get_spec((b.id, i as usize)) {
        Some(k) => lit("    "@) + effect_statement_pieces(k) + lit(";\n"@),
        None => lit("    "@) + statement_pieces(b.statements@[i].kind) + lit("\n"@),
    }
}

/// The lines of the first `n` statements of block `b`.
pub open spec fn statement_lines(f: MirFunction, b: BasicBlock, n: int) -> Seq<Piece>
    decreases n,
{
    if n <= 0 || n > b.statements@.len() {
        Seq::empty()
    } else {
        statement_lines(f, b, n - 1) + statement_line(f, b, n - 1)
    }
}

/// The terminator line of block `b`: the effect terminator recorded for
/// it when there is one, else its terminator, else a note that it has none.
pub open spec fn terminator_line(f: MirFunction, b: BasicBlock) -> Seq<Piece> {
    match f.effect_terminators.get_spec(b.id) {
        Some(k) => lit("    "@) + effect_terminator_pieces(k) + lit(";\n"@),
        None => match b.terminator {
            Some(t) => lit("    "@) + terminator_pieces(t.kind) + lit("\n"@),
            None => lit("    // <no terminator>\n"@),
        },
    }
}

/// The listing of a block.
pub open spec fn block_pieces(f: MirFunction, b: BasicBlock) -> Seq<Piece> {
    lit(block_text(b.id) + ":\n"@) + statement_lines(f, b, b.statements@.len() as int) + terminator_line(f, b) + lit("\n"@)
}

/// The listings of the first `n` blocks.
pub open spec fn blocks_pieces(f: MirFunction, n: int) -> Seq<Piece>
    decreases n,
{
    if n <= 0 || n > f.blocks@.len() {
        Seq::empty()
    } else {
        blocks_pieces(f, n - 1) + block_pieces(f, f.blocks@[n - 1])
    }
}

/// The listing of a function under identifier `id`.
pub open spec fn function_pieces(id: u32, f: MirFunction) -> Seq<Piece> {
    lit(header_text(id, f) + evidence_text(f) + layout_text(f) + locals_text(f) + handler_blocks_text(f))
        + blocks_pieces(f, f.blocks@.len() as int) + lit("}\n"@)
}

fn put_params(out: &mut Vec<char>, f: &MirFunction)
    requires
        listable(*f),
    ensures
        final(out)@ == old(out)@ + params_text(*f, f.params@.len() as int),
{
    let ghost start = out@;
    let mut i: usize = 0;
    assert(out@ =~= start + params_text(*f, 0));
    while i < f.params.len()
        invariant
            listable(*f),
            0 <= i <= f.params@.len(),
            out@ == start + params_text(*f, i as int),
        decreases f.params@.len() - i,
    {
        if i > 0 {
            put(out, ", ");
        }
        let p = f.params[i];
        assert(p.0 < f.locals@.len());
        put_local(out, p);
        put(out, ": ");
        put_ty(out, &f.local_decl(p).ty);
        assert(out@ =~= start + params_text(*f, i + 1));
        i = i + 1;
    }
}

fn put_signature(out: &mut Vec<char>, f: &MirFunction)
    requires
        listable(*f),
    ensures
        final(out)@ == old(out)@ + signature_text(*f),
{
    let ghost start = out@;
    if f.is_public {
        put(out, "pub ");
    }
    let ghost vis: Seq<char> = if f.is_public { "pub "@ } else { Seq::empty() };
    assert(out@ =~= start + vis);
    put(out, "fn ");
    put(out, f.name.as_str());
    put(out, "(");
    put_params(out, f);
    put(out, ")");
    assert(out@ =~= start + signature_text(*f));
}

fn put_row_part(out: &mut Vec<char>, r: &EffectRow)
    ensures
        final(out)@ == old(out)@ + row_part(*r),
{
    let ghost start = out@;
    if !r.is_pure() {
        put(out, ": ");
        let row = r.display();
        put(out, row.as_str());
    }
    assert(out@ =~= start + row_part(*r));
}

fn put_header(out: &mut Vec<char>, id: u32, f: &MirFunction)
    requires
        listable(*f),
    ensures
        final(out)@ == old(out)@ + header_text(id, *f),
{
    let ghost start = out@;
    put_signature(out, f);
    put_row_part(out, &f.effect_row);
    put(out, " -> ");
    put_ty(out, &f.return_ty);
    put(out, " { // fn#");
    put_num(out, id as u64);
    put(out, "\n");
    assert(out@ =~= start + header_text(id, *f));
}

fn put_evidence_line(out: &mut Vec<char>, e: &EvidenceParam)
    ensures
        final(out)@ == old(out)@ + evidence_line(*e),
{
    let ghost start = out@;
    put(out, "  // ");
    put_local(out, e.local);
    put(out, ": ");
    put_effect(out, &e.effect);
    put(out, " (");
    if e.is_static {
        put(out, "static");
    } else {
        put(out, "dynamic");
    }
    put(out, ")\n");
    assert(out@ =~= start + evidence_line(*e));
}

fn put_evidence(out: &mut Vec<char>, f: &MirFunction)
    ensures
        final(out)@ == old(out)@ + evidence_text(*f),
{
    let ghost start = out@;
    if f.evidence_params.len() > 0 {
        put(out, "  // evidence:\n");
        let ghost mid = out@;
        let mut i: usize = 0;
        assert(out@ =~= mid + evidence_lines(f.evidence_params@, 0));
        while i < f.evidence_params.len()
            invariant
                0 <= i <= f.evidence_params@.len(),
                out@ == mid + evidence_lines(f.evidence_params@, i as int),
            decreases f.evidence_params@.len() - i,
        {
            put_evidence_line(out, &f.evidence_params[i]);
            assert(out@ =~= mid + evidence_lines(f.evidence_params@, i + 1));
            i = i + 1;
        }
        put(out, "\n");
        assert(out@ =~= start + evidence_text(*f));
    }
}

fn put_layout(out: &mut Vec<char>, f: &MirFunction)
    ensures
        final(out)@ == old(out)@ + layout_text(*f),
{
    let ghost start = out@;
    if f.evidence_layout.size > 0 {
        put(out, "  // evidence layout:\n");
        let ghost mid = out@;
        let ghost s = f.evidence_layout.slots.entries@;
        let mut i: usize = 0;
        assert(out@ =~= mid + slot_lines(s, 0));
        while i < f.evidence_layout.slots.entries.len()
            invariant
                s == f.evidence_layout.slots.entries@,
                0 <= i <= s.len(),
                out@ == mid + slot_lines(s, i as int),
            decreases s.len() - i,
        {
            let (e, slot) = f.evidence_layout.slots.entries[i];
            put(out, "  // effect#");
            put_num(out, e.0 as u64);
            put(out, " -> slot ");
            put_num(out, slot as u64);
            put(out, "\n");
            assert(out@ =~= mid + slot_lines(s, i + 1));
            i = i + 1;
        }
        put(out, "\n");
        assert(out@ =~= start + layout_text(*f));
    }
}

fn put_local_line(out: &mut Vec<char>, i: usize, d: &LocalDecl)
    ensures
        final(out)@ == old(out)@ + local_line(i as int, *d),
{
    let ghost start = out@;
    put(out, "  // _");
    put_num(out, i as u64);
    put(out, ": ");
    if d.mutable {
        put(out, "mut ");
    }
    put_ty(out, &d.ty);
    put(out, " (");
    match &d.name {
        Some(n) => put(out, n.as_str()),
        None => put(out, "_tmp"),
    }
    put(out, ")\n");
    assert(out@ =~= start + local_line(i as int, *d));
}

fn put_locals(out: &mut Vec<char>, f: &MirFunction)
    ensures
        final(out)@ == old(out)@ + locals_text(*f),
{
    let ghost start = out@;
    put(out, "  // locals:\n");
    let ghost mid = out@;
    let mut i: usize = 0;
    assert(out@ =~= mid + local_lines(f.locals@, 0));
    while i < f.locals.len()
        invariant
            0 <= i <= f.locals@.len(),
            out@ == mid + local_lines(f.locals@, i as int),
        decreases f.locals@.len() - i,
    {
        put_local_line(out, i, &f.locals[i]);
        assert(out@ =~= mid + local_lines(f.locals@, i + 1));
        i = i + 1;
    }
    put(out, "\n");
    assert(out@ =~= start + locals_text(*f));
}

fn put_handler_block_line(out: &mut Vec<char>, h: &HandlerBlock)
    ensures
        final(out)@ == old(out)@ + handler_block_line(*h),
{
    let ghost start = out@;
    put(out, "  // ");
    put_block(out, h.block_id);
    put(out, ": @");
    put_effect(out, &h.effect);
    put(out, ".op#");
    put_num(out, h.operation.0 as u64);
    put(out, " [");
    let ghost mid = out@;
    let mut i: usize = 0;
    assert(out@ =~= mid + local_list(h.params@, 0));
    while i < h.params.len()
        invariant
            0 <= i <= h.params@.len(),
            out@ == mid + local_list(h.params@, i as int),
        decreases h.params@.len() - i,
    {
        if i > 0 {
            put(out, ", ");
        }
        put_local(out, h.params[i]);
        assert(out@ =~= mid + local_list(h.params@, i + 1));
        i = i + 1;
    }
    put(out, "]");
    match h.continuation {
        Some(c) => {
            put(out, ", cont: ");
            put_local(out, c);
        },
        None => {},
    }
    match h.resume_block {
        Some(b) => {
            put(out, " -> resume ");
            put_block(out, b);
        },
        None => {},
    }
    put(out, ",\n");
    assert(out@ =~= start + handler_block_line(*h));
}

fn put_handler_blocks(out: &mut Vec<char>, f: &MirFunction)
    ensures
        final(out)@ == old(out)@ + handler_blocks_text(*f),
{
    let ghost start = out@;
    if f.handler_blocks.len() > 0 {
        put(out, "  // handler blocks:\n");
        let ghost mid = out@;
        let mut i: usize = 0;
        assert(out@ =~= mid + handler_block_lines(f.handler_blocks@, 0));
        while i < f.handler_blocks.len()
            invariant
                0 <= i <= f.handler_blocks@.len(),
                out@ == mid + handler_block_lines(f.handler_blocks@, i as int),
            decreases f.handler_blocks@.len() - i,
        {
            put_handler_block_line(out, &f.handler_blocks[i]);
            assert(out@ =~= mid + handler_block_lines(f.handler_blocks@, i + 1));
            i = i + 1;
        }
        put(out, "\n");
        assert(out@ =~= start + handler_blocks_text(*f));
    }
}

fn put_block_listing(out: &mut Vec<Piece>, f: &MirFunction, b: &BasicBlock)
    requires
        f.wf(),
    ensures
        final(out)@ == old(out)@ + block_pieces(*f, *b),
{
    let ghost start = out@;
    let mut t: Vec<char> = Vec::new();
    put_block(&mut t, b.id);
    put(&mut t, ":\n");
    put_chars(out, t.as_slice());
    let ghost mid = out@;
    let mut i: usize = 0;
    assert(out@ =~= mid + statement_lines(*f, *b, 0));
    while i < b.statements.len()
        invariant
            f.wf(),
            0 <= i <= b.statements@.len(),
            out@ == mid + statement_lines(*f, *b, i as int),
        decreases b.statements@.len() - i,
    {
        let ghost before = out@;
        put_text(out, "    ");
        match f.effect_statement(b.id, i) {
            Some(k) => {
                put_effect_statement(out, k);
                put_text(out, ";\n");
            },
            None => {
                put_statement(out, &b.statements[i].kind);
                put_text(out, "\n");
            },
        }
        assert(out@ =~= before + statement_line(*f, *b, i as int));
        assert(out@ =~= mid + statement_lines(*f, *b, i + 1));
        i = i + 1;
    }
    let ghost before = out@;
    match f.effect_terminator(b.id) {
        Some(k) => {
            put_text(out, "    ");
            put_effect_terminator(out, k);
            put_text(out, ";\n");
        },
        None => match &b.terminator {
            Some(term) => {
                put_text(out, "    ");
                put_terminator(out, &term.kind);
                put_text(out, "\n");
            },
            None => put_text(out, "    // <no terminator>\n"),
        },
    }
    assert(out@ =~= before + terminator_line(*f, *b));
    put_text(out, "\n");
    assert(out@ =~= start + block_pieces(*f, *b));
}

/// Appends the listing of a function under identifier `id`.
pub fn put_function(out: &mut Vec<Piece>, id: u32, f: &MirFunction)
    requires
        listable(*f),
    ensures
        final(out)@ == old(out)@ + function_pieces(id, *f),
{
    let ghost start = out@;
    let mut t: Vec<char> = Vec::new();
    put_header(&mut t, id, f);
    put_evidence(&mut t, f);
    put_layout(&mut t, f);
    put_locals(&mut t, f);
    put_handler_blocks(&mut t, f);
    put_chars(out, t.as_slice());
    let ghost mid = out@;
    let mut i: usize = 0;
    assert(out@ =~= mid + blocks_pieces(*f, 0));
    while i < f.blocks.len()
        invariant
            listable(*f),
            0 <= i <= f.blocks@.len(),
            out@ == mid + blocks_pieces(*f, i as int),
        decreases f.blocks@.len() - i,
    {
        put_block_listing(out, f, &f.blocks[i]);
        assert(out@ =~= mid + blocks_pieces(*f, i + 1));
        i = i + 1;
    }
    put_text(out, "}\n");
    assert(out@ =~= start + function_pieces(id, *f));
}

/// The listing of a single function, under identifier 0.
pub fn pretty_function_pieces(func: &MirFunction) -> (out: Vec<Piece>)
    requires
        listable(*func),
    ensures
        out@ == function_pieces(0, *func),
{
    let mut out: Vec<Piece> = Vec::new();
    put_function(&mut out, 0, func);
    assert(out@ =~= function_pieces(0, *func));
    out
}

// ============================================================================
// Programs
// ============================================================================

/// The first `n` strings, separated by `, `.
pub open spec fn names_text(s: Seq<String>, n: int) -> Seq<char>
    decreases n,
{
    if n <= 0 || n > s.len() {
        Seq::empty()
    } else if n == 1 {
        s[0]@
    } else {
        names_text(s, n - 1) + ", "@ + s[n - 1]@
    }
}

/// The line of an effect operation.
pub open spec fn operation_line(op: EffectOperation) -> Seq<char> {
    "  "@ + op.name@ + ": ("@ + tys_text(tys_view(op.params), op.params@.len() as int) + ") -> "@
        + ty_text(op.return_ty@) + ", // op#"@ + decimal(op.id.0 as nat) + "\n"@
}

/// The lines of the first `n` operations.
pub open spec fn operation_lines(s: Seq<EffectOperation>, n: int) -> Seq<char>
    decreases n,
{
    if n <= 0 || n > s.len() {
        Seq::empty()
    } else {
        operation_lines(s, n - 1) + operation_line(s[n - 1])
    }
}

/// The listing of an effect definition, with the blank line after it.
pub open spec fn effect_def_text(id: EffectId, e: MirEffect) -> Seq<char> {
    "effect "@ + e.name@
        + (if e.type_params@.len() == 0 { Seq::empty() } else { "["@ + names_text(e.type_params@, e.type_params@.len() as int) + "]"@ })
        + " { // effect#"@ + decimal(id.0 as nat) + "\n"@ + operation_lines(e.operations@, e.operations@.len() as int)
        + "}\n\n"@
}

/// The lines of the first `n` operation blocks of a handler.
pub open spec fn operation_block_lines(s: Seq<BlockId>, n: int) -> Seq<char>
    decreases n,
{
    if n <= 0 || n > s.len() {
        Seq::empty()
    } else {
        operation_block_lines(s, n - 1) + "  op#"@ + decimal((n - 1) as nat) + " -> "@ + block_text(s[n - 1]) + ",\n"@
    }
}

/// The listing of a handler definition, with the blank line after it.
pub open spec fn handler_def_text(id: HandlerId, h: MirHandler) -> Seq<char> {
    "handler for "@ + effect_text(h.effect) + (if h.is_tail_resumptive { " [tail-resumptive]"@ } else { Seq::empty() })
        + " { // handler#"@ + decimal(id.0 as nat) + "\n"@
        + operation_block_lines(h.operation_blocks@, h.operation_blocks@.len() as int)
        + (match h.return_block { Some(b) => "  return -> "@ + block_text(b) + ",\n"@, None => Seq::empty() })
        + "}\n\n"@
}

/// The lines of the first `n` fields of a struct.
pub open spec fn field_lines(s: Seq<MirField>, n: int) -> Seq<char>
    decreases n,
{
    if n <= 0 || n > s.len() {
        Seq::empty()
    } else {
        field_lines(s, n - 1) + "  "@ + s[n - 1].name@ + ": "@ + ty_text(s[n - 1].ty@) + ",\n"@
    }
}

/// The listing of a struct definition, with the blank line after it.
pub open spec fn struct_def_text(id: StructId, st: MirStruct) -> Seq<char> {
    "struct "@ + st.name@ + " { // struct#"@ + decimal(id.0 as nat) + "\n"@ + field_lines(st.fields@, st.fields@.len() as int)
        + "}\n\n"@
}

/// The line of variant `i`.
pub open spec fn variant_line(i: int, v: MirVariant) -> Seq<char> {
    if v.fields@.len() == 0 {
        "  "@ + v.name@ + ", // variant "@ + decimal(i as nat) + "\n"@
    } else {
        "  "@ + v.name@ + "("@ + tys_text(tys_view(v.fields), v.fields@.len() as int) + "), // variant "@
            + decimal(i as nat) + "\n"@
    }
}

/// The lines of the first `n` variants.
pub open spec fn variant_lines(s: Seq<MirVariant>, n: int) -> Seq<char>
    decreases n,
{
    if n <= 0 || n > s.len() {
        Seq::empty()
    } else {
        variant_lines(s, n - 1) + variant_line(n - 1, s[n - 1])
    }
}

/// The listing of an enum definition, with the blank line after it.
pub open spec fn enum_def_text(id: EnumId, e: MirEnum) -> Seq<char> {
    "enum "@ + e.name@ + " { // enum#"@ + decimal(id.0 as nat) + "\n"@ + variant_lines(e.variants@, e.variants@.len() as int)
        + "}\n\n"@
}

/// The first `n` effect definitions.
pub open spec fn effect_defs(s: Seq<(EffectId, MirEffect)>, n: int) -> Seq<char>
    decreases n,
{
    if n <= 0 || n > s.len() {
        Seq::empty()
    } else {
        effect_defs(s, n - 1) + effect_def_text(s[n - 1].0, s[n - 1].1)
    }
}

/// The first `n` handler definitions.
pub open spec fn handler_defs(s: Seq<(HandlerId, MirHandler)>, n: int) -> Seq<char>
    decreases n,
{
    if n <= 0 || n > s.len() {
        Seq::empty()
    } else {
        handler_defs(s, n - 1) + handler_def_text(s[n - 1].0, s[n - 1].1)
    }
}

/// The first `n` struct definitions.
pub open spec fn struct_defs(s: Seq<(StructId, MirStruct)>, n: int) -> Seq<char>
    decreases n,
{
    if n <= 0 || n > s.len() {
        Seq::empty()
    } else {
        struct_defs(s, n - 1) + struct_def_text(s[n - 1].0, s[n - 1].1)
    }
}

/// The first `n` enum definitions.
pub open spec fn enum_defs(s: Seq<(EnumId, MirEnum)>, n: int) -> Seq<char>
    decreases n,
{
    if n <= 0 || n > s.len() {
        Seq::empty()
    } else {
        enum_defs(s, n - 1) + enum_def_text(s[n - 1].0, s[n - 1].1)
    }
}

/// The listings of the first `n` functions, each followed by a blank line.
pub open spec fn function_defs(s: Seq<(FunctionId, MirFunction)>, n: int) -> Seq<Piece>
    decreases n,
{
    if n <= 0 || n > s.len() {
        Seq::empty()
    } else {
        function_defs(s, n - 1) + function_pieces(s[n - 1].0.0, s[n - 1].1) + lit("\n"@)
    }
}

/// Every function of the program can be listed.
pub open spec fn program_listable(p: MirProgram) -> bool {
    &&& p.wf()
    &&& forall|i: int| 0 <= i < p.functions.entries@.len() ==> listable(#[trigger] p.functions.entries@[i].1)
}

/// The listing of a program: its effects, handlers, structs, enums and
/// functions, each in the order in which it was added, then its entry point.
pub open spec fn program_pieces(p: MirProgram) -> Seq<Piece> {
    lit(effect_defs(p.effects.entries@, p.effects.entries@.len() as int)
        + handler_defs(p.handlers.entries@, p.handlers.entries@.len() as int)
        + struct_defs(p.structs.entries@, p.structs.entries@.len() as int)
        + enum_defs(p.enums.entries@, p.enums.entries@.len() as int))
        + function_defs(p.functions.entries@, p.functions.entries@.len() as int)
        + lit(match p.entry { Some(id) => "// entry: fn#"@ + decimal(id.0 as nat) + "\n"@, None => Seq::empty() })
}

fn put_names(out: &mut Vec<char>, s: &Vec<String>)
    ensures
        final(out)@ == old(out)@ + names_text(s@, s@.len() as int),
{
    let ghost start = out@;
    let mut i: usize = 0;
    assert(out@ =~= start + names_text(s@, 0));
    while i < s.len()
        invariant
            0 <= i <= s@.len(),
            out@ == start + names_text(s@, i as int),
        decreases s@.len() - i,
    {
        if i > 0 {
            put(out, ", ");
        }
        put(out, s[i].as_str());
        assert(out@ =~= start + names_text(s@, i + 1));
        i = i + 1;
    }
}

fn put_type_list(out: &mut Vec<char>, v: &Vec<MirType>)
    ensures
        final(out)@ == old(out)@ + tys_text(tys_view(*v), v@.len() as int),
{
    let ghost start = out@;
    let ghost tv = tys_view(*v);
    assert(tv.len() == v@.len());
    let mut i: usize = 0;
    assert(out@ =~= start + tys_text(tv, 0));
    while i < v.len()
        invariant
            tv == tys_view(*v),
            tv.len() == v@.len(),
            0 <= i <= v@.len(),
            out@ == start + tys_text(tv, i as int),
        decreases v@.len() - i,
    {
        assert(tv[i as int] == v@[i as int]@);
        if i > 0 {
            put(out, ", ");
        }
        put_ty(out, &v[i]);
        assert(out@ =~= start + tys_text(tv, i + 1));
        i = i + 1;
    }
}

fn put_effect_def(out: &mut Vec<char>, id: EffectId, e: &MirEffect)
    ensures
        final(out)@ == old(out)@ + effect_def_text(id, *e),
{
    let ghost start = out@;
    put(out, "effect ");
    put(out, e.name.as_str());
    if e.type_params.len() > 0 {
        put(out, "[");
        put_names(out, &e.type_params);
        put(out, "]");
    }
    put(out, " { // effect#");
    put_num(out, id.0 as u64);
    put(out, "\n");
    let ghost mid = out@;
    let mut i: usize = 0;
    assert(out@ =~= mid + operation_lines(e.operations@, 0));
    while i < e.operations.len()
        invariant
            0 <= i <= e.operations@.len(),
            out@ == mid + operation_lines(e.operations@, i as int),
        decreases e.operations@.len() - i,
    {
        let op = &e.operations[i];
        put(out, "  ");
        put(out, op.name.as_str());
        put(out, ": (");
        put_type_list(out, &op.params);
        put(out, ") -> ");
        put_ty(out, &op.return_ty);
        put(out, ", // op#");
        put_num(out, op.id.0 as u64);
        put(out, "\n");
        assert(out@ =~= mid + operation_lines(e.operations@, i + 1));
        i = i + 1;
    }
    put(out, "}\n\n");
    assert(out@ =~= start + effect_def_text(id, *e));
}

fn put_handler_def(out: &mut Vec<char>, id: HandlerId, h: &MirHandler)
    ensures
        final(out)@ == old(out)@ + handler_def_text(id, *h),
{
    let ghost start = out@;
    put(out, "handler for ");
    put_effect(out, &h.effect);
    if h.is_tail_resumptive {
        put(out, " [tail-resumptive]");
    }
    put(out, " { // handler#");
    put_num(out, id.0 as u64);
    put(out, "\n");
    let ghost mid = out@;
    let mut i: usize = 0;
    assert(out@ =~= mid + operation_block_lines(h.operation_blocks@, 0));
    while i < h.operation_blocks.len()
        invariant
            0 <= i <= h.operation_blocks@.len(),
            out@ == mid + operation_block_lines(h.operation_blocks@, i as int),
        decreases h.operation_blocks@.len() - i,
    {
        put(out, "  op#");
        put_num(out, i as u64);
        put(out, " -> ");
        put_block(out, h.operation_blocks[i]);
        put(out, ",\n");
        assert(out@ =~= mid + operation_block_lines(h.operation_blocks@, i + 1));
        i = i + 1;
    }
    match h.return_block {
        Some(b) => {
            put(out, "  return -> ");
            put_block(out, b);
            put(out, ",\n");
        },
        None => {},
    }
    put(out, "}\n\n");
    assert(out@ =~= start + handler_def_text(id, *h));
}

fn put_struct_def(out: &mut Vec<char>, id: StructId, st: &MirStruct)
    ensures
        final(out)@ == old(out)@ + struct_def_text(id, *st),
{
    let ghost start = out@;
    put(out, "struct ");
    put(out, st.name.as_str());
    put(out, " { // struct#");
    put_num(out, id.0 as u64);
    put(out, "\n");
    let ghost mid = out@;
    let mut i: usize = 0;
    assert(out@ =~= mid + field_lines(st.fields@, 0));
    while i < st.fields.len()
        invariant
            0 <= i <= st.fields@.len(),
            out@ == mid + field_lines(st.fields@, i as int),
        decreases st.fields@.len() - i,
    {
        put(out, "  ");
        put(out, st.fields[i].name.as_str());
        put(out, ": ");
        put_ty(out, &st.fields[i].ty);
        put(out, ",\n");
        assert(out@ =~= mid + field_lines(st.fields@, i + 1));
        i = i + 1;
    }
    put(out, "}\n\n");
    assert(out@ =~= start + struct_def_text(id, *st));
}

fn put_enum_def(out: &mut Vec<char>, id: EnumId, e: &MirEnum)
    ensures
        final(out)@ == old(out)@ + enum_def_text(id, *e),
{
    let ghost start = out@;
    put(out, "enum ");
    put(out, e.name.as_str());
    put(out, " { // enum#");
    put_num(out, id.0 as u64);
    put(out, "\n");
    let ghost mid = out@;
    let mut i: usize = 0;
    assert(out@ =~= mid + variant_lines(e.variants@, 0));
    while i < e.variants.len()
        invariant
            0 <= i <= e.variants@.len(),
            out@ == mid + variant_lines(e.variants@, i as int),
        decreases e.variants@.len() - i,
    {
        let v = &e.variants[i];
        let ghost before = out@;
        put(out, "  ");
        put(out, v.name.as_str());
        if v.fields.len() > 0 {
            put(out, "(");
            put_type_list(out, &v.fields);
            put(out, "), // variant ");
            put_num(out, i as u64);
            put(out, "\n");
            assert(out@ =~= before + variant_line(i as int, *v));
        } else {
            put(out, ", // variant ");
            put_num(out, i as u64);
            put(out, "\n");
            assert(out@ =~= before + variant_line(i as int, *v));
        }
        assert(out@ =~= mid + variant_lines(e.variants@, i + 1));
        i = i + 1;
    }
    put(out, "}\n\n");
    assert(out@ =~= start + enum_def_text(id, *e));
}

fn put_effect_defs(t: &mut Vec<char>, program: &MirProgram)
    ensures
        final(t)@ == old(t)@ + effect_defs(program.effects.entries@, program.effects.entries@.len() as int),
{
    let ghost a = t@;
    let ghost e = program.effects.entries@;
    let mut i: usize = 0;
    assert(t@ =~= a + effect_defs(e, 0));
    while i < program.effects.entries.len()
        invariant
            e == program.effects.entries@,
            0 <= i <= e.len(),
            t@ == a + effect_defs(e, i as int),
        decreases e.len() - i,
    {
        put_effect_def(t, program.effects.entries[i].0, &program.effects.entries[i].1);
        assert(t@ =~= a + effect_defs(e, i + 1));
        i = i + 1;
    }
}

fn put_handler_defs(t: &mut Vec<char>, program: &MirProgram)
    ensures
        final(t)@ == old(t)@ + handler_defs(program.handlers.entries@, program.handlers.entries@.len() as int),
{
    let ghost a = t@;
    let ghost h = program.handlers.entries@;
    let mut i: usize = 0;
    assert(t@ =~= a + handler_defs(h, 0));
    while i < program.handlers.entries.len()
        invariant
            h == program.handlers.entries@,
            0 <= i <= h.len(),
            t@ == a + handler_defs(h, i as int),
        decreases h.len() - i,
    {
        put_handler_def(t, program.handlers.entries[i].0, &program.handlers.entries[i].1);
        assert(t@ =~= a + handler_defs(h, i + 1));
        i = i + 1;
    }
}

fn put_struct_defs(t: &mut Vec<char>, program: &MirProgram)
    ensures
        final(t)@ == old(t)@ + struct_defs(program.structs.entries@, program.structs.entries@.len() as int),
{
    let ghost b = t@;
    let ghost st = program.structs.entries@;
    let mut i: usize = 0;
    assert(t@ =~= b + struct_defs(st, 0));
    while i < program.structs.entries.len()
        invariant
            st == program.structs.entries@,
            0 <= i <= st.len(),
            t@ == b + struct_defs(st, i as int),
        decreases st.len() - i,
    {
        put_struct_def(t, program.structs.entries[i].0, &program.structs.entries[i].1);
        assert(t@ =~= b + struct_defs(st, i + 1));
        i = i + 1;
    }
}

fn put_enum_defs(t: &mut Vec<char>, program: &MirProgram)
    ensures
        final(t)@ == old(t)@ + enum_defs(program.enums.entries@, program.enums.entries@.len() as int),
{
    let ghost c = t@;
    let ghost en = program.enums.entries@;
    let mut i: usize = 0;
    assert(t@ =~= c + enum_defs(en, 0));
    while i < program.enums.entries.len()
        invariant
            en == program.enums.entries@,
            0 <= i <= en.len(),
            t@ == c + enum_defs(en, i as int),
        decreases en.len() - i,
    {
        put_enum_def(t, program.enums.entries[i].0, &program.enums.entries[i].1);
        assert(t@ =~= c + enum_defs(en, i + 1));
        i = i + 1;
    }
}

fn put_function_defs(out: &mut Vec<Piece>, program: &MirProgram)
    requires
        program_listable(*program),
    ensures
        final(out)@ == old(out)@ + function_defs(program.functions.entries@, program.functions.entries@.len() as int),
{
    let ghost d = out@;
    let ghost fs = program.functions.entries@;
    let mut i: usize = 0;
    assert(out@ =~= d + function_defs(fs, 0));
    while i < program.functions.entries.len()
        invariant
            program_listable(*program),
            fs == program.functions.entries@,
            0 <= i <= fs.len(),
            out@ == d + function_defs(fs, i as int),
        decreases fs.len() - i,
    {
        let ghost before = out@;
        assert(listable(fs[i as int].1));
        put_function(out, program.functions.entries[i].0.0, &program.functions.entries[i].1);
        put_text(out, "\n");
        assert(out@ == before + function_pieces(fs[i as int].0.0, fs[i as int].1) + lit("\n"@));
        assert(out@ =~= d + function_defs(fs, i + 1));
        i = i + 1;
    }
}

/// The listing of a whole program.
pub fn pretty_pieces(program: &MirProgram) -> (out: Vec<Piece>)
    requires
        program_listable(*program),
    ensures
        out@ == program_pieces(*program),
{
    let mut t: Vec<char> = Vec::new();
    put_effect_defs(&mut t, program);
    put_handler_defs(&mut t, program);
    put_struct_defs(&mut t, program);
    put_enum_defs(&mut t, program);
    let mut out: Vec<Piece> = Vec::new();
    put_chars(&mut out, t.as_slice());
    put_function_defs(&mut out, program);
    let mut u: Vec<char> = Vec::new();
    match program.entry {
        Some(id) => {
            put(&mut u, "// entry: fn#");
            put_num(&mut u, id.0 as u64);
            put(&mut u, "\n");
        },
        None => {},
    }
    put_chars(&mut out, u.as_slice());
    assert(out@ =~= program_pieces(*program));
    out
}

impl EffectStatementKind {
    /// The listing of the statement (`_2 = effect.perform.general @State.op#0, [], ev[0]`).
    pub fn pieces(&self) -> (out: Vec<Piece>)
        ensures
            out@ == effect_statement_pieces(*self),
    {
        let mut out: Vec<Piece> = Vec::new();
        put_effect_statement(&mut out, self);
        assert(out@ =~= effect_statement_pieces(*self));
        out
    }
}

impl EffectTerminatorKind {
    /// The listing of the terminator (`effect.resume copy _1, 42 -> bb2`).
    pub fn pieces(&self) -> (out: Vec<Piece>)
        ensures
            out@ == effect_terminator_pieces(*self),
    {
        let mut out: Vec<Piece> = Vec::new();
        put_effect_terminator(&mut out, self);
        assert(out@ =~= effect_terminator_pieces(*self));
        out
    }
}

impl Operand {
    /// The listing of the operand (`copy _1`, `move _2.0`, `42`, `1.5f32`).
    pub fn pieces(&self) -> (out: Vec<Piece>)
        ensures
            out@ == operand_pieces(*self),
    {
        let mut out: Vec<Piece> = Vec::new();
        put_operand(&mut out, self);
        assert(out@ =~= operand_pieces(*self));
        out
    }
}

fn layout_is_wf(l: &crate::mir::EvidenceLayout) -> (b: bool)
    ensures
        b == l.wf(),
{
    if !l.slots.keys_distinct() {
        return false;
    }
    if l.size as usize != l.slots.entries.len() {
        return false;
    }
    let mut i: usize = 0;
    while i < l.slots.entries.len()
        invariant
            0 <= i <= l.slots.entries@.len(),
            forall|j: int| 0 <= j < i ==> #[trigger] l.slots.entries@[j].1 == j,
        decreases l.slots.entries@.len() - i,
    {
        if l.slots.entries[i].1 as usize != i {
            return false;
        }
        i = i + 1;
    }
    true
}

/// Whether a function can be listed (see `listable`).
pub fn function_is_listable(f: &MirFunction) -> (b: bool)
    ensures
        b == listable(*f),
{
    if !layout_is_wf(&f.evidence_layout) || !f.effect_statements.keys_distinct() || !f.effect_terminators.keys_distinct() {
        return false;
    }
    let mut i: usize = 0;
    while i < f.params.len()
        invariant
            0 <= i <= f.params@.len(),
            forall|j: int| 0 <= j < i ==> (#[trigger] f.params@[j]).0 < f.locals@.len(),
        decreases f.params@.len() - i,
    {
        if f.params[i].0 as usize >= f.locals.len() {
            return false;
        }
        i = i + 1;
    }
    true
}

/// Whether a program can be listed (see `program_listable`).
pub fn program_is_listable(p: &MirProgram) -> (b: bool)
    ensures
        b == program_listable(*p),
{
    if !p.functions.keys_distinct() || !p.structs.keys_distinct() || !p.enums.keys_distinct()
        || !p.effects.keys_distinct() || !p.handlers.keys_distinct() {
        return false;
    }
    let mut i: usize = 0;
    while i < p.functions.entries.len()
        invariant
            0 <= i <= p.functions.entries@.len(),
            forall|j: int| 0 <= j < i ==> listable(#[trigger] p.functions.entries@[j].1),
        decreases p.functions.entries@.len() - i,
    {
        if !function_is_listable(&p.functions.entries[i].1) {
            return false;
        }
        i = i + 1;
    }
    true
}

} // verus!
