//! The textual forms of MIR values that involve no floating-point constant:
//! types, effect types and rows, places, identifiers and operators.

use vstd::prelude::*;
use crate::mir::{
    BinOp, BlockId, EffectClassification, EffectId, EffectRow, EffectType, EvidenceSlot, FfiBarrierStrategy,
    HandlerId, Local, MirType, OperationId, Place, PlaceElem, TypeV, TypeVarId, UnOp, tys_view,
};
use crate::text::{decimal, push_all, push_decimal, str_chars, string_from_chars};

verus! {

/// Appends the characters of `s`.
pub fn put(out: &mut Vec<char>, s: &str)
    ensures
        final(out)@ == old(out)@ + s@,
{
    let chars = str_chars(s);
    push_all(out, chars.as_slice());
}

/// Appends the decimal digits of `n`.
pub fn put_num(out: &mut Vec<char>, n: u64)
    ensures
        final(out)@ == old(out)@ + decimal(n as nat),
{
    push_decimal(out, n);
}

// ============================================================================
// Types
// ============================================================================

/// The text of a type.
pub open spec fn ty_text(t: TypeV) -> Seq<char>
    decreases t, 0int,
{
    match t {
        TypeV::Unit => "()"@,
        TypeV::Bool => "Bool"@,
        TypeV::Int => "Int"@,
        TypeV::Int8 => "Int8"@,
        TypeV::Int16 => "Int16"@,
        TypeV::Int32 => "Int32"@,
        TypeV::Int64 => "Int64"@,
        TypeV::UInt => "UInt"@,
        TypeV::UInt8 => "UInt8"@,
        TypeV::UInt16 => "UInt16"@,
        TypeV::UInt32 => "UInt32"@,
        TypeV::UInt64 => "UInt64"@,
        TypeV::Float => "Float"@,
        TypeV::Float32 => "Float32"@,
        TypeV::Float64 => "Float64"@,
        TypeV::Char => "Char"@,
        TypeV::String => "String"@,
        TypeV::Array(b) => "["@ + ty_text(*b) + "]"@,
        TypeV::Tuple(l) => "("@ + tys_text(l, l.len() as int) + ")"@,
        TypeV::MapOf(k, v) => "{"@ + ty_text(*k) + ":"@ + ty_text(*v) + "}"@,
        TypeV::Optional(b) => ty_text(*b) + "?"@,
        TypeV::Result(a, b) => "Result<"@ + ty_text(*a) + ", "@ + ty_text(*b) + ">"@,
        TypeV::Ref(b) => "&"@ + ty_text(*b),
        TypeV::RefMut(b) => "&mut "@ + ty_text(*b),
        TypeV::Struct(id) => "struct#"@ + decimal(id.0 as nat),
        TypeV::Enum(id) => "enum#"@ + decimal(id.0 as nat),
        TypeV::FnPtr { params, ret } => "fn("@ + tys_text(params, params.len() as int) + ") -> "@ + ty_text(*ret),
        TypeV::Closure { params, ret } => "closure("@ + tys_text(params, params.len() as int) + ") -> "@ + ty_text(*ret),
        TypeV::Never => "!"@,
        TypeV::TypeVar(id) => "?T"@ + decimal(id.0 as nat),
        TypeV::TypeParam(n) => n,
        TypeV::Generic { name, args } => name + "<"@ + tys_text(args, args.len() as int) + ">"@,
    }
}

/// The texts of `l[..n]`, separated by `, `.
pub open spec fn tys_text(l: Seq<TypeV>, n: int) -> Seq<char>
    decreases l, n,
{
    if n <= 0 || n > l.len() {
        Seq::empty()
    } else if n == 1 {
        ty_text(l[0])
    } else {
        tys_text(l, n - 1) + ", "@ + ty_text(l[n - 1])
    }
}

proof fn lemma_elem_decreases(outer: MirType, v: Vec<MirType>, i: int)
    requires
        0 <= i < v@.len(),
        decreases_to!(outer => v),
    ensures
        decreases_to!(outer => v@[i]),
{
    assert(decreases_to!(v => v@));
    assert(decreases_to!(v@ => v@[i]));
}

/// Appends the text of a type.
pub fn put_ty(out: &mut Vec<char>, t: &MirType)
    ensures
        final(out)@ == old(out)@ + ty_text(t@),
    decreases t,
{
    let ghost start = out@;
    match t {
        MirType::Unit => put(out, "()"),
        MirType::Bool => put(out, "Bool"),
        MirType::Int => put(out, "Int"),
        MirType::Int8 => put(out, "Int8"),
        MirType::Int16 => put(out, "Int16"),
        MirType::Int32 => put(out, "Int32"),
        MirType::Int64 => put(out, "Int64"),
        MirType::UInt => put(out, "UInt"),
        MirType::UInt8 => put(out, "UInt8"),
        MirType::UInt16 => put(out, "UInt16"),
        MirType::UInt32 => put(out, "UInt32"),
        MirType::UInt64 => put(out, "UInt64"),
        MirType::Float => put(out, "Float"),
        MirType::Float32 => put(out, "Float32"),
        MirType::Float64 => put(out, "Float64"),
        MirType::Char => put(out, "Char"),
        MirType::String => put(out, "String"),
        MirType::Array(b) => {
            put(out, "[");
            put_ty(out, b);
            put(out, "]");
            assert(out@ =~= start + ty_text(t@));
        },
        MirType::Tuple(l) => {
            put(out, "(");
            put_tys(out, t, l);
            put(out, ")");
            assert(out@ =~= start + ty_text(t@));
        },
        MirType::MapOf(k, v) => {
            put(out, "{");
            put_ty(out, k);
            put(out, ":");
            put_ty(out, v);
            put(out, "}");
            assert(out@ =~= start + ty_text(t@));
        },
        MirType::Optional(b) => {
            put_ty(out, b);
            put(out, "?");
            assert(out@ =~= start + ty_text(t@));
        },
        MirType::Result(a, b) => {
            put(out, "Result<");
            put_ty(out, a);
            put(out, ", ");
            put_ty(out, b);
            put(out, ">");
            assert(out@ =~= start + ty_text(t@));
        },
        MirType::Ref(b) => {
            put(out, "&");
            put_ty(out, b);
            assert(out@ =~= start + ty_text(t@));
        },
        MirType::RefMut(b) => {
            put(out, "&mut ");
            put_ty(out, b);
            assert(out@ =~= start + ty_text(t@));
        },
        MirType::Struct(id) => {
            put(out, "struct#");
            put_num(out, id.0 as u64);
            assert(out@ =~= start + ty_text(t@));
        },
        MirType::Enum(id) => {
            put(out, "enum#");
            put_num(out, id.0 as u64);
            assert(out@ =~= start + ty_text(t@));
        },
        MirType::FnPtr { params, ret } => {
            put(out, "fn(");
            put_tys(out, t, params);
            put(out, ") -> ");
            put_ty(out, ret);
            assert(out@ =~= start + ty_text(t@));
        },
        MirType::Closure { params, ret } => {
            put(out, "closure(");
            put_tys(out, t, params);
            put(out, ") -> ");
            put_ty(out, ret);
            assert(out@ =~= start + ty_text(t@));
        },
        MirType::Never => put(out, "!"),
        MirType::TypeVar(id) => {
            put(out, "?T");
            put_num(out, id.0 as u64);
            assert(out@ =~= start + ty_text(t@));
        },
        MirType::TypeParam(n) => put(out, n.as_str()),
        MirType::Generic { name, args } => {
            put(out, name.as_str());
            put(out, "<");
            put_tys(out, t, args);
            put(out, ">");
            assert(out@ =~= start + ty_text(t@));
        },
    }
}

fn put_tys(out: &mut Vec<char>, outer: &MirType, v: &Vec<MirType>)
    requires
        decreases_to!(*outer => *v),
    ensures
        final(out)@ == old(out)@ + tys_text(tys_view(*v), v@.len() as int),
    decreases outer, 0nat,
{
    let ghost start = out@;
    let ghost tv = tys_view(*v);
    assert(tv.len() == v@.len());
    let mut i: usize = 0;
    assert(tys_text(tv, 0) =~= Seq::<char>::empty());
    assert(out@ =~= start + tys_text(tv, 0));
    while i < v.len()
        invariant
            decreases_to!(*outer => *v),
            tv == tys_view(*v),
            tv.len() == v@.len(),
            0 <= i <= v@.len(),
            out@ == start + tys_text(tv, i as int),
        decreases v@.len() - i,
    {
        proof {
            lemma_elem_decreases(*outer, *v, i as int);
        }
        assert(tv[i as int] == v@[i as int]@);
        if i > 0 {
            put(out, ", ");
        }
        put_ty(out, &v[i]);
        assert(out@ =~= start + tys_text(tv, i + 1));
        i = i + 1;
    }
}

impl MirType {
    /// The text of the type (`Int`, `[Int]`, `(Int, Bool)`, `{K:V}`, `T?`,
    /// `Result<T, E>`, `&T`, `fn(A) -> R`, `?T0`, `List<Int>`, ...).
    pub fn display(&self) -> (s: String)
        ensures
            s@ == ty_text(self@),
    {
        let mut out: Vec<char> = Vec::new();
        put_ty(&mut out, self);
        string_from_chars(out.as_slice())
    }
}

// ============================================================================
// Effects
// ============================================================================

/// The text of an effect type: its name, with its type parameters in
/// brackets when it has any.
pub open spec fn effect_text(e: EffectType) -> Seq<char> {
    if e.type_params@.len() == 0 {
        e.name@
    } else {
        e.name@ + "["@ + tys_text(tys_view(e.type_params), e.type_params@.len() as int) + "]"@
    }
}

/// Appends the text of an effect type.
pub fn put_effect(out: &mut Vec<char>, e: &EffectType)
    ensures
        final(out)@ == old(out)@ + effect_text(*e),
{
    let ghost start = out@;
    put(out, e.name.as_str());
    if e.type_params.len() > 0 {
        put(out, "[");
        let ghost tv = tys_view(e.type_params);
        let mut i: usize = 0;
        let ghost mid = out@;
        assert(tys_text(tv, 0) =~= Seq::<char>::empty());
        assert(out@ =~= mid + tys_text(tv, 0));
        while i < e.type_params.len()
            invariant
                tv == tys_view(e.type_params),
                tv.len() == e.type_params@.len(),
                0 <= i <= e.type_params@.len(),
                out@ == mid + tys_text(tv, i as int),
            decreases e.type_params@.len() - i,
        {
            assert(tv[i as int] == e.type_params@[i as int]@);
            if i > 0 {
                put(out, ", ");
            }
            put_ty(out, &e.type_params[i]);
            assert(out@ =~= mid + tys_text(tv, i + 1));
            i = i + 1;
        }
        put(out, "]");
        assert(out@ =~= start + effect_text(*e));
    }
}

impl EffectType {
    /// The text of the effect type (`State`, `State[Int, String]`).
    pub fn display(&self) -> (s: String)
        ensures
            s@ == effect_text(*self),
    {
        let mut out: Vec<char> = Vec::new();
        put_effect(&mut out, self);
        string_from_chars(out.as_slice())
    }
}

/// The texts of the first `n` effects, separated by `, `.
pub open spec fn effects_text(l: Seq<EffectType>, n: int) -> Seq<char>
    decreases n,
{
    if n <= 0 || n > l.len() {
        Seq::empty()
    } else if n == 1 {
        effect_text(l[0])
    } else {
        effects_text(l, n - 1) + ", "@ + effect_text(l[n - 1])
    }
}

/// Appends the texts of effects separated by `, `.
pub fn put_effects(out: &mut Vec<char>, l: &Vec<EffectType>)
    ensures
        final(out)@ == old(out)@ + effects_text(l@, l@.len() as int),
{
    let ghost start = out@;
    let mut i: usize = 0;
    assert(out@ =~= start + effects_text(l@, 0));
    while i < l.len()
        invariant
            0 <= i <= l@.len(),
            out@ == start + effects_text(l@, i as int),
        decreases l@.len() - i,
    {
        if i > 0 {
            put(out, ", ");
        }
        put_effect(out, &l[i]);
        assert(out@ =~= start + effects_text(l@, i + 1));
        i = i + 1;
    }
}

/// The text of an effect row: its effects in braces, with `..` at the end
/// of an open row.
pub open spec fn row_text(r: EffectRow) -> Seq<char> {
    "{"@ + effects_text(r.effects@, r.effects@.len() as int)
        + (if r.is_open { if r.effects@.len() > 0 { ", "@ + ".."@ } else { ".."@ } } else { Seq::empty() })
        + "}"@
}

impl EffectRow {
    /// The text of the row (`{}`, `{IO, State}`, `{IO, ..}`).
    pub fn display(&self) -> (s: String)
        ensures
            s@ == row_text(*self),
    {
        let mut out: Vec<char> = Vec::new();
        put(&mut out, "{");
        put_effects(&mut out, &self.effects);
        if self.is_open {
            if self.effects.len() > 0 {
                put(&mut out, ", ");
            }
            put(&mut out, "..");
        }
        put(&mut out, "}");
        assert(out@ =~= row_text(*self));
        string_from_chars(out.as_slice())
    }
}

/// The text of an evidence slot: `ev[` and the offset or local, `]`.
pub open spec fn slot_text(s: EvidenceSlot) -> Seq<char> {
    match s {
        EvidenceSlot::Static(o) => "ev["@ + decimal(o as nat) + "]"@,
        EvidenceSlot::Dynamic(l) => "ev[_"@ + decimal(l.0 as nat) + "]"@,
    }
}

/// Appends the text of an evidence slot.
pub fn put_slot(out: &mut Vec<char>, s: &EvidenceSlot)
    ensures
        final(out)@ == old(out)@ + slot_text(*s),
{
    let ghost start = out@;
    match s {
        EvidenceSlot::Static(o) => {
            put(out, "ev[");
            put_num(out, *o as u64);
            put(out, "]");
        },
        EvidenceSlot::Dynamic(l) => {
            put(out, "ev[_");
            put_num(out, l.0 as u64);
            put(out, "]");
        },
    }
    assert(out@ =~= start + slot_text(*s));
}

/// The text of an effect classification.
pub open spec fn classification_text(c: EffectClassification) -> Seq<char> {
    match c {
        EffectClassification::TailResumptive => "tail-resumptive"@,
        EffectClassification::General => "general"@,
        EffectClassification::FfiBoundary => "ffi-boundary"@,
    }
}

/// The text of an effect classification.
pub fn classification_str(c: EffectClassification) -> (s: &'static str)
    ensures
        s@ == classification_text(c),
{
    match c {
        EffectClassification::TailResumptive => "tail-resumptive",
        EffectClassification::General => "general",
        EffectClassification::FfiBoundary => "ffi-boundary",
    }
}

/// The text of an FFI barrier strategy.
pub open spec fn strategy_text(s: FfiBarrierStrategy) -> Seq<char> {
    match s {
        FfiBarrierStrategy::Prohibit => "prohibit"@,
        FfiBarrierStrategy::CallbackConvert => "callback-convert"@,
        FfiBarrierStrategy::HandlerSaveRestore => "save-restore"@,
    }
}

/// The text of an FFI barrier strategy.
pub fn strategy_str(s: FfiBarrierStrategy) -> (r: &'static str)
    ensures
        r@ == strategy_text(s),
{
    match s {
        FfiBarrierStrategy::Prohibit => "prohibit",
        FfiBarrierStrategy::CallbackConvert => "callback-convert",
        FfiBarrierStrategy::HandlerSaveRestore => "save-restore",
    }
}

// ============================================================================
// Identifiers, places and operators
// ============================================================================

/// The text of a local: `_` and its number.
pub open spec fn local_text(l: Local) -> Seq<char> {
    "_"@ + decimal(l.0 as nat)
}

/// The text of a block: `bb` and its number.
pub open spec fn block_text(b: BlockId) -> Seq<char> {
    "bb"@ + decimal(b.0 as nat)
}

/// Appends the text of a local.
pub fn put_local(out: &mut Vec<char>, l: Local)
    ensures
        final(out)@ == old(out)@ + local_text(l),
{
    let ghost start = out@;
    put(out, "_");
    put_num(out, l.0 as u64);
    assert(out@ =~= start + local_text(l));
}

/// Appends the text of a block.
pub fn put_block(out: &mut Vec<char>, b: BlockId)
    ensures
        final(out)@ == old(out)@ + block_text(b),
{
    let ghost start = out@;
    put(out, "bb");
    put_num(out, b.0 as u64);
    assert(out@ =~= start + block_text(b));
}

/// The text of a projection.
pub open spec fn elem_text(e: PlaceElem) -> Seq<char> {
    match e {
        PlaceElem::Field(i) => "."@ + decimal(i as nat),
        PlaceElem::Index(l) => "["@ + local_text(l) + "]"@,
        PlaceElem::ConstantIndex(i) => "["@ + decimal(i as nat) + "]"@,
        PlaceElem::Deref => ".*"@,
        PlaceElem::Downcast(v) => " as variant#"@ + decimal(v as nat),
    }
}

/// The texts of the first `n` projections.
pub open spec fn elems_text(p: Seq<PlaceElem>, n: int) -> Seq<char>
    decreases n,
{
    if n <= 0 || n > p.len() {
        Seq::empty()
    } else {
        elems_text(p, n - 1) + elem_text(p[n - 1])
    }
}

/// The text of a place: its local, then its projections.
pub open spec fn place_text(p: Place) -> Seq<char> {
    local_text(p.local) + elems_text(p.projection@, p.projection@.len() as int)
}

/// Appends the text of a place.
pub fn put_place(out: &mut Vec<char>, p: &Place)
    ensures
        final(out)@ == old(out)@ + place_text(*p),
{
    let ghost start = out@;
    put_local(out, p.local);
    let mut i: usize = 0;
    assert(out@ =~= start + local_text(p.local) + elems_text(p.projection@, 0));
    while i < p.projection.len()
        invariant
            0 <= i <= p.projection@.len(),
            out@ == start + local_text(p.local) + elems_text(p.projection@, i as int),
        decreases p.projection@.len() - i,
    {
        let ghost before = out@;
        match &p.projection[i] {
            PlaceElem::Field(f) => {
                put(out, ".");
                put_num(out, *f as u64);
            },
            PlaceElem::Index(l) => {
                put(out, "[");
                put_local(out, *l);
                put(out, "]");
            },
            PlaceElem::ConstantIndex(c) => {
                put(out, "[");
                put_num(out, *c);
                put(out, "]");
            },
            PlaceElem::Deref => put(out, ".*"),
            PlaceElem::Downcast(v) => {
                put(out, " as variant#");
                put_num(out, *v as u64);
            },
        }
        assert(out@ =~= before + elem_text(p.projection@[i as int]));
        assert(out@ =~= start + local_text(p.local) + elems_text(p.projection@, i + 1));
        i = i + 1;
    }
    assert(out@ =~= start + place_text(*p));
}

impl Place {
    /// The text of the place (`_1.0[_2].*`).
    pub fn display(&self) -> (s: String)
        ensures
            s@ == place_text(*self),
    {
        let mut out: Vec<char> = Vec::new();
        put_place(&mut out, self);
        string_from_chars(out.as_slice())
    }
}

/// The symbol of a binary operator.
pub open spec fn binop_text(op: BinOp) -> Seq<char> {
    match op {
        BinOp::Add => "+"@,
        BinOp::Sub => "-"@,
        BinOp::Mul => "*"@,
        BinOp::Div => "/"@,
        BinOp::IntDiv => "//"@,
        BinOp::Rem => "%"@,
        BinOp::Pow => "**"@,
        BinOp::BitAnd => "&"@,
        BinOp::BitOr => "|"@,
        BinOp::BitXor => "^"@,
        BinOp::Shl => "<<"@,
        BinOp::Shr => ">>"@,
        BinOp::Eq => "=="@,
        BinOp::Ne => "!="@,
        BinOp::Lt => "<"@,
        BinOp::Le => "<="@,
        BinOp::Gt => ">"@,
        BinOp::Ge => ">="@,
        BinOp::And => "&&"@,
        BinOp::Or => "||"@,
    }
}

/// The symbol of a binary operator.
pub fn binop_str(op: BinOp) -> (s: &'static str)
    ensures
        s@ == binop_text(op),
{
    match op {
        BinOp::Add => "+",
        BinOp::Sub => "-",
        BinOp::Mul => "*",
        BinOp::Div => "/",
        BinOp::IntDiv => "//",
        BinOp::Rem => "%",
        BinOp::Pow => "**",
        BinOp::BitAnd => "&",
        BinOp::BitOr => "|",
        BinOp::BitXor => "^",
        BinOp::Shl => "<<",
        BinOp::Shr => ">>",
        BinOp::Eq => "==",
        BinOp::Ne => "!=",
        BinOp::Lt => "<",
        BinOp::Le => "<=",
        BinOp::Gt => ">",
        BinOp::Ge => ">=",
        BinOp::And => "&&",
        BinOp::Or => "||",
    }
}

/// The symbol of a unary operator.
pub open spec fn unop_text(op: UnOp) -> Seq<char> {
    match op {
        UnOp::Neg => "-"@,
        UnOp::Not => "!"@,
        UnOp::BitNot => "~"@,
    }
}

/// The symbol of a unary operator.
pub fn unop_str(op: UnOp) -> (s: &'static str)
    ensures
        s@ == unop_text(op),
{
    match op {
        UnOp::Neg => "-",
        UnOp::Not => "!",
        UnOp::BitNot => "~",
    }
}

/// The text of a type variable: `?T` and its number.
pub fn type_var_display(id: TypeVarId) -> (s: String)
    ensures
        s@ == "?T"@ + decimal(id.0 as nat),
{
    let mut out: Vec<char> = Vec::new();
    put(&mut out, "?T");
    put_num(&mut out, id.0 as u64);
    string_from_chars(out.as_slice())
}

/// The text of an effect: `effect#` and its number.
pub fn effect_id_display(id: EffectId) -> (s: String)
    ensures
        s@ == "effect#"@ + decimal(id.0 as nat),
{
    let mut out: Vec<char> = Vec::new();
    put(&mut out, "effect#");
    put_num(&mut out, id.0 as u64);
    string_from_chars(out.as_slice())
}

/// The text of an operation: `op#` and its number.
pub fn operation_id_display(id: OperationId) -> (s: String)
    ensures
        s@ == "op#"@ + decimal(id.0 as nat),
{
    let mut out: Vec<char> = Vec::new();
    put(&mut out, "op#");
    put_num(&mut out, id.0 as u64);
    string_from_chars(out.as_slice())
}

/// The text of a handler: `handler#` and its number.
pub fn handler_id_display(id: HandlerId) -> (s: String)
    ensures
        s@ == "handler#"@ + decimal(id.0 as nat),
{
    let mut out: Vec<char> = Vec::new();
    put(&mut out, "handler#");
    put_num(&mut out, id.0 as u64);
    string_from_chars(out.as_slice())
}


/// The symbol printed for an operator says what the operator computes, as
/// constant folding evaluates it: an operator printed `<` tells whether one
/// integer is less than another, `>` whether it is greater, and likewise
/// `<=`, `>=`, `==` and `!=`; `+`, `-` and `*` give the sum, difference
/// and product where they fit; `&`, `|` and `^` are the bitwise operations;
/// `/` and `%` divide (by one: the number, remainder zero); `<<` and `>>`
/// shift (by one: double, half); `**` raises to a power; `&&` and `||`
/// are the boolean connectives.
pub proof fn law_printed_symbol_is_the_operation(op: BinOp, a: i64, b: i64, x: bool)
    ensures
        binop_text(op) == "<"@ ==> crate::optimize::fold_rvalue_spec(crate::optimize::int_op(op, a, b)) == Some(crate::mir::Constant::Bool(a < b)),
        binop_text(op) == ">"@ ==> crate::optimize::fold_rvalue_spec(crate::optimize::int_op(op, a, b)) == Some(crate::mir::Constant::Bool(a > b)),
        binop_text(op) == "<="@ ==> crate::optimize::fold_rvalue_spec(crate::optimize::int_op(op, a, b)) == Some(crate::mir::Constant::Bool(a <= b)),
        binop_text(op) == ">="@ ==> crate::optimize::fold_rvalue_spec(crate::optimize::int_op(op, a, b)) == Some(crate::mir::Constant::Bool(a >= b)),
        binop_text(op) == "=="@ ==> crate::optimize::fold_rvalue_spec(crate::optimize::int_op(op, a, b)) == Some(crate::mir::Constant::Bool(a == b)),
        binop_text(op) == "!="@ ==> crate::optimize::fold_rvalue_spec(crate::optimize::int_op(op, a, b)) == Some(crate::mir::Constant::Bool(a != b)),
        binop_text(op) == "+"@ && i64::MIN <= a + b <= i64::MAX
            ==> crate::optimize::fold_rvalue_spec(crate::optimize::int_op(op, a, b)) == Some(crate::mir::Constant::Int((a + b) as i64)),
        binop_text(op) == "-"@ && i64::MIN <= a - b <= i64::MAX
            ==> crate::optimize::fold_rvalue_spec(crate::optimize::int_op(op, a, b)) == Some(crate::mir::Constant::Int((a - b) as i64)),
        binop_text(op) == "*"@ && i64::MIN <= a * b <= i64::MAX
            ==> crate::optimize::fold_rvalue_spec(crate::optimize::int_op(op, a, b)) == Some(crate::mir::Constant::Int((a * b) as i64)),
        binop_text(op) == "&"@ ==> crate::optimize::fold_rvalue_spec(crate::optimize::int_op(op, a, a)) == Some(crate::mir::Constant::Int(a))
            && crate::optimize::fold_rvalue_spec(crate::optimize::int_op(op, a, 0)) == Some(crate::mir::Constant::Int(0)),
        binop_text(op) == "|"@ ==> crate::optimize::fold_rvalue_spec(crate::optimize::int_op(op, a, 0)) == Some(crate::mir::Constant::Int(a))
            && crate::optimize::fold_rvalue_spec(crate::optimize::int_op(op, a, -1i64)) == Some(crate::mir::Constant::Int(-1i64)),
        binop_text(op) == "^"@ ==> crate::optimize::fold_rvalue_spec(crate::optimize::int_op(op, a, a)) == Some(crate::mir::Constant::Int(0))
            && crate::optimize::fold_rvalue_spec(crate::optimize::int_op(op, a, 0)) == Some(crate::mir::Constant::Int(a)),
        binop_text(op) == "/"@ ==> crate::optimize::fold_rvalue_spec(crate::optimize::int_op(op, a, 1)) == Some(crate::mir::Constant::Int(a)),
        binop_text(op) == "%"@ ==> crate::optimize::fold_rvalue_spec(crate::optimize::int_op(op, a, 1)) == Some(crate::mir::Constant::Int(0)),
        binop_text(op) == "<<"@ && 0 <= a < 0x4000_0000_0000_0000
            ==> crate::optimize::fold_rvalue_spec(crate::optimize::int_op(op, a, 1)) == Some(crate::mir::Constant::Int((2 * a) as i64)),
        binop_text(op) == ">>"@ && 0 <= a
            ==> crate::optimize::fold_rvalue_spec(crate::optimize::int_op(op, a, 1)) == Some(crate::mir::Constant::Int((a / 2) as i64)),
        binop_text(op) == "**"@ ==> crate::optimize::fold_rvalue_spec(crate::optimize::int_op(op, a, 0)) == Some(crate::mir::Constant::Int(1))
            && crate::optimize::fold_rvalue_spec(crate::optimize::int_op(op, a, 1)) == Some(crate::mir::Constant::Int(a)),
        binop_text(op) == "&&"@ ==> crate::optimize::fold_rvalue_spec(crate::optimize::bool_op(op, x, false)) == Some(crate::mir::Constant::Bool(false))
            && crate::optimize::fold_rvalue_spec(crate::optimize::bool_op(op, true, x)) == Some(crate::mir::Constant::Bool(x)),
        binop_text(op) == "||"@ ==> crate::optimize::fold_rvalue_spec(crate::optimize::bool_op(op, x, true)) == Some(crate::mir::Constant::Bool(true))
            && crate::optimize::fold_rvalue_spec(crate::optimize::bool_op(op, false, x)) == Some(crate::mir::Constant::Bool(x)),
{
    reveal_strlit("+");
    reveal_strlit("-");
    reveal_strlit("*");
    reveal_strlit("/");
    reveal_strlit("//");
    reveal_strlit("%");
    reveal_strlit("**");
    reveal_strlit("&");
    reveal_strlit("|");
    reveal_strlit("^");
    reveal_strlit("<<");
    reveal_strlit(">>");
    reveal_strlit("==");
    reveal_strlit("!=");
    reveal_strlit("<");
    reveal_strlit("<=");
    reveal_strlit(">");
    reveal_strlit(">=");
    reveal_strlit("&&");
    reveal_strlit("||");
    match op {
        BinOp::Add => {
            assert(binop_text(op).len() == 1);
            assert(binop_text(op)[0] == '+');
        },
        BinOp::Sub => {
            assert(binop_text(op).len() == 1);
            assert(binop_text(op)[0] == '-');
        },
        BinOp::Mul => {
            assert(binop_text(op).len() == 1);
            assert(binop_text(op)[0] == '*');
        },
        BinOp::Div => {
            assert(binop_text(op).len() == 1);
            assert(binop_text(op)[0] == '/');
        },
        BinOp::IntDiv => {
            assert(binop_text(op).len() == 2);
            assert(binop_text(op)[0] == '/');
            assert(binop_text(op)[1] == '/');
        },
        BinOp::Rem => {
            assert(binop_text(op).len() == 1);
            assert(binop_text(op)[0] == '%');
        },
        BinOp::Pow => {
            assert(binop_text(op).len() == 2);
            assert(binop_text(op)[0] == '*');
            assert(binop_text(op)[1] == '*');
        },
        BinOp::BitAnd => {
            assert(binop_text(op).len() == 1);
            assert(binop_text(op)[0] == '&');
        },
        BinOp::BitOr => {
            assert(binop_text(op).len() == 1);
            assert(binop_text(op)[0] == '|');
        },
        BinOp::BitXor => {
            assert(binop_text(op).len() == 1);
            assert(binop_text(op)[0] == '^');
        },
        BinOp::Shl => {
            assert(binop_text(op).len() == 2);
            assert(binop_text(op)[0] == '<');
            assert(binop_text(op)[1] == '<');
        },
        BinOp::Shr => {
            assert(binop_text(op).len() == 2);
            assert(binop_text(op)[0] == '>');
            assert(binop_text(op)[1] == '>');
        },
        BinOp::Eq => {
            assert(binop_text(op).len() == 2);
            assert(binop_text(op)[0] == '=');
            assert(binop_text(op)[1] == '=');
        },
        BinOp::Ne => {
            assert(binop_text(op).len() == 2);
            assert(binop_text(op)[0] == '!');
            assert(binop_text(op)[1] == '=');
        },
        BinOp::Lt => {
            assert(binop_text(op).len() == 1);
            assert(binop_text(op)[0] == '<');
        },
        BinOp::Le => {
            assert(binop_text(op).len() == 2);
            assert(binop_text(op)[0] == '<');
            assert(binop_text(op)[1] == '=');
        },
        BinOp::Gt => {
            assert(binop_text(op).len() == 1);
            assert(binop_text(op)[0] == '>');
        },
        BinOp::Ge => {
            assert(binop_text(op).len() == 2);
            assert(binop_text(op)[0] == '>');
            assert(binop_text(op)[1] == '=');
        },
        BinOp::And => {
            assert(binop_text(op).len() == 2);
            assert(binop_text(op)[0] == '&');
            assert(binop_text(op)[1] == '&');
        },
        BinOp::Or => {
            assert(binop_text(op).len() == 2);
            assert(binop_text(op)[0] == '|');
            assert(binop_text(op)[1] == '|');
        },
    }
    crate::optimize::law_fold_compares_by_integer_order(a, b);
    crate::optimize::law_fold_arithmetic(a, b);
    crate::optimize::law_fold_bitwise(a);
    crate::optimize::law_fold_division(a, b);
    crate::optimize::law_fold_shifts_and_powers(a);
    crate::optimize::law_fold_booleans(x);
}


/// The symbol printed for a unary operator says what it computes, as
/// constant folding evaluates it: `-` negates an integer and `!` turns a
/// boolean over.
pub proof fn law_printed_unary_symbol_is_the_operation(op: UnOp, a: i64, x: bool)
    ensures
        unop_text(op) == "-"@ && a != i64::MIN
            ==> crate::optimize::fold_unary_spec(op, crate::mir::Constant::Int(a)) == Some(crate::mir::Constant::Int((-a) as i64)),
        unop_text(op) == "!"@
            ==> crate::optimize::fold_unary_spec(op, crate::mir::Constant::Bool(x)) == Some(crate::mir::Constant::Bool(!x)),
{
    reveal_strlit("-");
    reveal_strlit("!");
    reveal_strlit("~");
    match op {
        UnOp::Neg => {
            assert(unop_text(op).len() == 1);
            assert(unop_text(op)[0] == '-');
        },
        UnOp::Not => {
            assert(unop_text(op).len() == 1);
            assert(unop_text(op)[0] == '!');
        },
        UnOp::BitNot => {
            assert(unop_text(op).len() == 1);
            assert(unop_text(op)[0] == '~');
        },
    }
}

} // verus!
