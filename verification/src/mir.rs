//! MIR data structures: a control-flow graph of basic blocks per function,
//! with explicit places, operands, types and effect annotations.
//!
//! Floating-point constants are held as their IEEE-754 bit patterns.

use vstd::prelude::*;
use crate::assoc::{AssocMap, KeyEq};
use crate::text::concat2;

verus! {

// ============================================================================
// Identifiers
// ============================================================================

/// A function.
#[derive(Debug, Clone, Copy, PartialEq, Eq, Structural, Hash)]
pub struct FunctionId(pub u32);

/// A struct type.
#[derive(Debug, Clone, Copy, PartialEq, Eq, Structural, Hash)]
pub struct StructId(pub u32);

/// An enum type.
#[derive(Debug, Clone, Copy, PartialEq, Eq, Structural, Hash)]
pub struct EnumId(pub u32);

/// A local variable; local 0 is the return place.
#[derive(Debug, Clone, Copy, PartialEq, Eq, Structural, Hash)]
pub struct Local(pub u32);

impl Local {
    /// The return place, local 0.
    pub fn return_local() -> (l: Local)
        ensures
            l.0 == 0,
    {
        Local(0)
    }
}

/// A basic block; block 0 is the entry.
#[derive(Debug, Clone, Copy, PartialEq, Eq, Structural, Hash)]
pub struct BlockId(pub u32);

impl BlockId {
    /// The entry block, block 0.
    pub fn entry() -> (b: BlockId)
        ensures
            b.0 == 0,
    {
        BlockId(0)
    }
}

/// A type variable of inference.
#[derive(Debug, Clone, Copy, PartialEq, Eq, Structural, Hash)]
pub struct TypeVarId(pub u32);

impl TypeVarId {
    /// The type variable with the given number.
    pub fn new(id: u32) -> (t: Self)
        ensures
            t.0 == id,
    {
        Self(id)
    }
}

/// A source span of byte offsets.
#[derive(Debug, Clone, Copy, PartialEq, Eq, Structural, Hash)]
pub struct Span {
    /// Start offset.
    pub start: usize,
    /// End offset.
    pub end: usize,
}

impl Span {
    /// The span at offset 0, used where no source location applies.
    pub open spec fn dummy_spec() -> Span {
        Span { start: 0, end: 0 }
    }

    /// The span used where no source location applies.
    pub fn dummy() -> (s: Self)
        ensures
            s == Span::dummy_spec(),
    {
        Span { start: 0, end: 0 }
    }
}

// ============================================================================
// Types
// ============================================================================

/// A MIR type.
#[derive(Debug, PartialEq, Eq, Hash)]
pub enum MirType {
    Unit,
    Bool,
    Int,
    Int8,
    Int16,
    Int32,
    Int64,
    UInt,
    UInt8,
    UInt16,
    UInt32,
    UInt64,
    Float,
    Float32,
    Float64,
    Char,
    String,
    Array(Box<MirType>),
    Tuple(Vec<MirType>),
    MapOf(Box<MirType>, Box<MirType>),
    Optional(Box<MirType>),
    Result(Box<MirType>, Box<MirType>),
    Ref(Box<MirType>),
    RefMut(Box<MirType>),
    Struct(StructId),
    Enum(EnumId),
    FnPtr { params: Vec<MirType>, ret: Box<MirType> },
    Closure { params: Vec<MirType>, ret: Box<MirType> },
    Never,
    TypeVar(TypeVarId),
    TypeParam(String),
    Generic { name: String, args: Vec<MirType> },
}

/// The mathematical value of a MIR type: names as character sequences and
/// element lists as sequences.
pub enum TypeV {
    Unit,
    Bool,
    Int,
    Int8,
    Int16,
    Int32,
    Int64,
    UInt,
    UInt8,
    UInt16,
    UInt32,
    UInt64,
    Float,
    Float32,
    Float64,
    Char,
    String,
    Array(Box<TypeV>),
    Tuple(Seq<TypeV>),
    MapOf(Box<TypeV>, Box<TypeV>),
    Optional(Box<TypeV>),
    Result(Box<TypeV>, Box<TypeV>),
    Ref(Box<TypeV>),
    RefMut(Box<TypeV>),
    Struct(StructId),
    Enum(EnumId),
    FnPtr { params: Seq<TypeV>, ret: Box<TypeV> },
    Closure { params: Seq<TypeV>, ret: Box<TypeV> },
    Never,
    TypeVar(TypeVarId),
    TypeParam(Seq<char>),
    Generic { name: Seq<char>, args: Seq<TypeV> },
}

/// The values of a list of types.
pub open spec fn tys_view(v: Vec<MirType>) -> Seq<TypeV>
    decreases v,
{
    Seq::new(
        v@.len(),
        |i: int|
            if 0 <= i < v@.len() {
                proof {
                    assert(decreases_to!(v => v@));
                    assert(decreases_to!(v@ => v@[i]));
                }
                ty_view(v@[i])
            } else {
                TypeV::Unit
            },
    )
}

/// The value of a type.
pub open spec fn ty_view(t: MirType) -> TypeV
    decreases t,
{
    match t {
        MirType::Unit => TypeV::Unit,
        MirType::Bool => TypeV::Bool,
        MirType::Int => TypeV::Int,
        MirType::Int8 => TypeV::Int8,
        MirType::Int16 => TypeV::Int16,
        MirType::Int32 => TypeV::Int32,
        MirType::Int64 => TypeV::Int64,
        MirType::UInt => TypeV::UInt,
        MirType::UInt8 => TypeV::UInt8,
        MirType::UInt16 => TypeV::UInt16,
        MirType::UInt32 => TypeV::UInt32,
        MirType::UInt64 => TypeV::UInt64,
        MirType::Float => TypeV::Float,
        MirType::Float32 => TypeV::Float32,
        MirType::Float64 => TypeV::Float64,
        MirType::Char => TypeV::Char,
        MirType::String => TypeV::String,
        MirType::Array(b) => TypeV::Array(Box::new(ty_view(*b))),
        MirType::Tuple(v) => TypeV::Tuple(tys_view(v)),
        MirType::MapOf(k, v) => TypeV::MapOf(Box::new(ty_view(*k)), Box::new(ty_view(*v))),
        MirType::Optional(b) => TypeV::Optional(Box::new(ty_view(*b))),
        MirType::Result(a, b) => TypeV::Result(Box::new(ty_view(*a)), Box::new(ty_view(*b))),
        MirType::Ref(b) => TypeV::Ref(Box::new(ty_view(*b))),
        MirType::RefMut(b) => TypeV::RefMut(Box::new(ty_view(*b))),
        MirType::Struct(id) => TypeV::Struct(id),
        MirType::Enum(id) => TypeV::Enum(id),
        MirType::FnPtr { params, ret } => TypeV::FnPtr { params: tys_view(params), ret: Box::new(ty_view(*ret)) },
        MirType::Closure { params, ret } => TypeV::Closure { params: tys_view(params), ret: Box::new(ty_view(*ret)) },
        MirType::Never => TypeV::Never,
        MirType::TypeVar(id) => TypeV::TypeVar(id),
        MirType::TypeParam(n) => TypeV::TypeParam(n@),
        MirType::Generic { name, args } => TypeV::Generic { name: name@, args: tys_view(args) },
    }
}

impl View for MirType {
    type V = TypeV;

    open spec fn view(&self) -> TypeV {
        ty_view(*self)
    }
}

impl Clone for MirType {
    fn clone(&self) -> (r: Self)
        ensures
            r@ == self@,
    {
        self.clone_ty()
    }
}

/// A primitive type.
pub open spec fn is_primitive_v(t: TypeV) -> bool {
    t is Unit || t is Bool || is_integer_v(t) || is_float_v(t) || t is Char
}

/// An integer type.
pub open spec fn is_integer_v(t: TypeV) -> bool {
    t is Int || t is Int8 || t is Int16 || t is Int32 || t is Int64 || t is UInt || t is UInt8
        || t is UInt16 || t is UInt32 || t is UInt64
}

/// A floating-point type.
pub open spec fn is_float_v(t: TypeV) -> bool {
    t is Float || t is Float32 || t is Float64
}

/// Whether a type mentions a type variable or a type parameter.
pub open spec fn has_type_vars_v(t: TypeV) -> bool
    decreases t, 0int,
{
    match t {
        TypeV::TypeVar(_) => true,
        TypeV::TypeParam(_) => true,
        TypeV::Array(b) => has_type_vars_v(*b),
        TypeV::Tuple(s) => any_has_vars(s, s.len() as int),
        TypeV::MapOf(k, v) => has_type_vars_v(*k) || has_type_vars_v(*v),
        TypeV::Optional(b) => has_type_vars_v(*b),
        TypeV::Result(a, b) => has_type_vars_v(*a) || has_type_vars_v(*b),
        TypeV::Ref(b) => has_type_vars_v(*b),
        TypeV::RefMut(b) => has_type_vars_v(*b),
        TypeV::FnPtr { params, ret } => any_has_vars(params, params.len() as int) || has_type_vars_v(*ret),
        TypeV::Closure { params, ret } => any_has_vars(params, params.len() as int) || has_type_vars_v(*ret),
        TypeV::Generic { name, args } => any_has_vars(args, args.len() as int),
        _ => false,
    }
}

/// Whether one of `s[..n]` mentions a type variable or a type parameter.
pub open spec fn any_has_vars(s: Seq<TypeV>, n: int) -> bool
    decreases s, n,
{
    if n <= 0 || n > s.len() {
        false
    } else {
        any_has_vars(s, n - 1) || has_type_vars_v(s[n - 1])
    }
}

/// Whether values of a type are copied rather than moved.
pub open spec fn is_copy_v(t: TypeV) -> bool
    decreases t, 0int,
{
    match t {
        TypeV::Int | TypeV::Int8 | TypeV::Int16 | TypeV::Int32 | TypeV::Int64 | TypeV::UInt
        | TypeV::UInt8 | TypeV::UInt16 | TypeV::UInt32 | TypeV::UInt64 | TypeV::Float
        | TypeV::Float32 | TypeV::Float64 | TypeV::Bool | TypeV::Char | TypeV::Unit
        | TypeV::Never => true,
        TypeV::Tuple(s) => all_copy_v(s, s.len() as int),
        TypeV::Optional(b) => is_copy_v(*b),
        TypeV::Result(a, b) => is_copy_v(*a) && is_copy_v(*b),
        TypeV::Ref(_) | TypeV::RefMut(_) => true,
        _ => false,
    }
}

/// Whether all of `s[..n]` are copied rather than moved.
pub open spec fn all_copy_v(s: Seq<TypeV>, n: int) -> bool
    decreases s, n,
{
    if n <= 0 || n > s.len() {
        true
    } else {
        all_copy_v(s, n - 1) && is_copy_v(s[n - 1])
    }
}

/// The first replacement listed for a type parameter name.
pub open spec fn lookup_subst(subs: Seq<(Seq<char>, TypeV)>, name: Seq<char>) -> Option<TypeV>
    decreases subs.len(),
{
    if subs.len() == 0 {
        None
    } else if subs[0].0 == name {
        Some(subs[0].1)
    } else {
        lookup_subst(subs.drop_first(), name)
    }
}

/// A type with its type parameters replaced by the first matching
/// substitution.
pub open spec fn subst_v(t: TypeV, subs: Seq<(Seq<char>, TypeV)>) -> TypeV
    decreases t, 0int,
{
    match t {
        TypeV::TypeParam(n) => match lookup_subst(subs, n) {
            Some(r) => r,
            None => t,
        },
        TypeV::Array(b) => TypeV::Array(Box::new(subst_v(*b, subs))),
        TypeV::Tuple(s) => TypeV::Tuple(subst_list(s, subs, s.len() as int)),
        TypeV::MapOf(k, v) => TypeV::MapOf(Box::new(subst_v(*k, subs)), Box::new(subst_v(*v, subs))),
        TypeV::Optional(b) => TypeV::Optional(Box::new(subst_v(*b, subs))),
        TypeV::Result(a, b) => TypeV::Result(Box::new(subst_v(*a, subs)), Box::new(subst_v(*b, subs))),
        TypeV::Ref(b) => TypeV::Ref(Box::new(subst_v(*b, subs))),
        TypeV::RefMut(b) => TypeV::RefMut(Box::new(subst_v(*b, subs))),
        TypeV::FnPtr { params, ret } => TypeV::FnPtr {
            params: subst_list(params, subs, params.len() as int),
            ret: Box::new(subst_v(*ret, subs)),
        },
        TypeV::Closure { params, ret } => TypeV::Closure {
            params: subst_list(params, subs, params.len() as int),
            ret: Box::new(subst_v(*ret, subs)),
        },
        TypeV::Generic { name, args } => TypeV::Generic {
            name,
            args: subst_list(args, subs, args.len() as int),
        },
        _ => t,
    }
}

/// `s[..n]` with the substitutions applied to each element.
pub open spec fn subst_list(s: Seq<TypeV>, subs: Seq<(Seq<char>, TypeV)>, n: int) -> Seq<TypeV>
    decreases s, n,
{
    if n <= 0 || n > s.len() {
        Seq::empty()
    } else {
        subst_list(s, subs, n - 1).push(subst_v(s[n - 1], subs))
    }
}

/// The type variables of `t`, appended in order of first occurrence to `acc`
/// (each once).
pub open spec fn collect_v(t: TypeV, acc: Seq<TypeVarId>) -> Seq<TypeVarId>
    decreases t, 0int,
{
    match t {
        TypeV::TypeVar(id) => if acc.contains(id) { acc } else { acc.push(id) },
        TypeV::Array(b) => collect_v(*b, acc),
        TypeV::Tuple(s) => collect_list(s, s.len() as int, acc),
        TypeV::MapOf(k, v) => collect_v(*v, collect_v(*k, acc)),
        TypeV::Optional(b) => collect_v(*b, acc),
        TypeV::Result(a, b) => collect_v(*b, collect_v(*a, acc)),
        TypeV::Ref(b) => collect_v(*b, acc),
        TypeV::RefMut(b) => collect_v(*b, acc),
        TypeV::FnPtr { params, ret } => collect_v(*ret, collect_list(params, params.len() as int, acc)),
        TypeV::Closure { params, ret } => collect_v(*ret, collect_list(params, params.len() as int, acc)),
        TypeV::Generic { name, args } => collect_list(args, args.len() as int, acc),
        _ => acc,
    }
}

/// The type variables of `s[..n]`, in order, appended to `acc`.
pub open spec fn collect_list(s: Seq<TypeV>, n: int, acc: Seq<TypeVarId>) -> Seq<TypeVarId>
    decreases s, n,
{
    if n <= 0 || n > s.len() {
        acc
    } else {
        collect_v(s[n - 1], collect_list(s, n - 1, acc))
    }
}

/// The values of a list of substitutions.
pub open spec fn subs_view(subs: Seq<(String, MirType)>) -> Seq<(Seq<char>, TypeV)> {
    subs.map_values(|p: (String, MirType)| (p.0@, p.1@))
}

impl MirType {
    /// A copy of this type.
    pub fn clone_ty(&self) -> (r: MirType)
        ensures
            r@ == self@,
        decreases self,
    {
        match self {
            MirType::Unit => MirType::Unit,
            MirType::Bool => MirType::Bool,
            MirType::Int => MirType::Int,
            MirType::Int8 => MirType::Int8,
            MirType::Int16 => MirType::Int16,
            MirType::Int32 => MirType::Int32,
            MirType::Int64 => MirType::Int64,
            MirType::UInt => MirType::UInt,
            MirType::UInt8 => MirType::UInt8,
            MirType::UInt16 => MirType::UInt16,
            MirType::UInt32 => MirType::UInt32,
            MirType::UInt64 => MirType::UInt64,
            MirType::Float => MirType::Float,
            MirType::Float32 => MirType::Float32,
            MirType::Float64 => MirType::Float64,
            MirType::Char => MirType::Char,
            MirType::String => MirType::String,
            MirType::Array(b) => MirType::Array(Box::new(b.clone_ty())),
            MirType::Tuple(v) => MirType::Tuple(clone_tys(self, v)),
            MirType::MapOf(k, v) => MirType::MapOf(Box::new(k.clone_ty()), Box::new(v.clone_ty())),
            MirType::Optional(b) => MirType::Optional(Box::new(b.clone_ty())),
            MirType::Result(a, b) => MirType::Result(Box::new(a.clone_ty()), Box::new(b.clone_ty())),
            MirType::Ref(b) => MirType::Ref(Box::new(b.clone_ty())),
            MirType::RefMut(b) => MirType::RefMut(Box::new(b.clone_ty())),
            MirType::Struct(id) => MirType::Struct(*id),
            MirType::Enum(id) => MirType::Enum(*id),
            MirType::FnPtr { params, ret } => MirType::FnPtr { params: clone_tys(self, params), ret: Box::new(ret.clone_ty()) },
            MirType::Closure { params, ret } => MirType::Closure { params: clone_tys(self, params), ret: Box::new(ret.clone_ty()) },
            MirType::Never => MirType::Never,
            MirType::TypeVar(id) => MirType::TypeVar(*id),
            MirType::TypeParam(n) => MirType::TypeParam(n.clone()),
            MirType::Generic { name, args } => MirType::Generic { name: name.clone(), args: clone_tys(self, args) },
        }
    }

    /// A primitive type: unit, bool, the numbers and char.
    pub fn is_primitive(&self) -> (b: bool)
        ensures
            b == is_primitive_v(self@),
    {
        match self {
            MirType::Unit | MirType::Bool | MirType::Int | MirType::Int8 | MirType::Int16
            | MirType::Int32 | MirType::Int64 | MirType::UInt | MirType::UInt8 | MirType::UInt16
            | MirType::UInt32 | MirType::UInt64 | MirType::Float | MirType::Float32
            | MirType::Float64 | MirType::Char => true,
            _ => false,
        }
    }

    /// An integer type.
    pub fn is_integer(&self) -> (b: bool)
        ensures
            b == is_integer_v(self@),
    {
        match self {
            MirType::Int | MirType::Int8 | MirType::Int16 | MirType::Int32 | MirType::Int64
            | MirType::UInt | MirType::UInt8 | MirType::UInt16 | MirType::UInt32
            | MirType::UInt64 => true,
            _ => false,
        }
    }

    /// A floating-point type.
    pub fn is_float(&self) -> (b: bool)
        ensures
            b == is_float_v(self@),
    {
        match self {
            MirType::Float | MirType::Float32 | MirType::Float64 => true,
            _ => false,
        }
    }

    /// Whether the type mentions a type variable or type parameter.
    pub fn has_type_vars(&self) -> (b: bool)
        ensures
            b == has_type_vars_v(self@),
        decreases self,
    {
        match self {
            MirType::TypeVar(_) => true,
            MirType::TypeParam(_) => true,
            MirType::Array(b) => b.has_type_vars(),
            MirType::Tuple(v) => any_has_type_vars(self, v),
            MirType::MapOf(k, v) => k.has_type_vars() || v.has_type_vars(),
            MirType::Optional(b) => b.has_type_vars(),
            MirType::Result(a, b) => a.has_type_vars() || b.has_type_vars(),
            MirType::Ref(b) => b.has_type_vars(),
            MirType::RefMut(b) => b.has_type_vars(),
            MirType::FnPtr { params, ret } => any_has_type_vars(self, params) || ret.has_type_vars(),
            MirType::Closure { params, ret } => any_has_type_vars(self, params) || ret.has_type_vars(),
            MirType::Generic { name, args } => any_has_type_vars(self, args),
            _ => false,
        }
    }

    /// Whether values of the type are copied rather than moved: numbers,
    /// bool, char, unit, never, references, and tuples, optionals and
    /// results of such types.
    pub fn is_copy(&self) -> (b: bool)
        ensures
            b == is_copy_v(self@),
        decreases self,
    {
        match self {
            MirType::Int | MirType::Int8 | MirType::Int16 | MirType::Int32 | MirType::Int64
            | MirType::UInt | MirType::UInt8 | MirType::UInt16 | MirType::UInt32
            | MirType::UInt64 | MirType::Float | MirType::Float32 | MirType::Float64
            | MirType::Bool | MirType::Char | MirType::Unit | MirType::Never => true,
            MirType::String => false,
            MirType::Array(_) => false,
            MirType::MapOf(_, _) => false,
            MirType::Tuple(v) => all_copy(self, v),
            MirType::Optional(b) => b.is_copy(),
            MirType::Result(a, b) => a.is_copy() && b.is_copy(),
            MirType::Ref(_) | MirType::RefMut(_) => true,
            MirType::FnPtr { .. } | MirType::Closure { .. } => false,
            MirType::Struct(_) | MirType::Enum(_) => false,
            MirType::Generic { .. } => false,
            MirType::TypeVar(_) | MirType::TypeParam(_) => false,
        }
    }

    /// Replaces each type parameter by the first substitution for its name.
    pub fn substitute(&self, substitutions: &[(String, MirType)]) -> (r: MirType)
        ensures
            r@ == subst_v(self@, subs_view(substitutions@)),
        decreases self,
    {
        match self {
            MirType::TypeParam(name) => {
                let mut i: usize = 0;
                assert(subs_view(substitutions@).skip(0) =~= subs_view(substitutions@));
                while i < substitutions.len()
                    invariant
                        0 <= i <= substitutions@.len(),
                        lookup_subst(subs_view(substitutions@), name@) == lookup_subst(subs_view(substitutions@).skip(i as int), name@),
                        self@ == TypeV::TypeParam(name@),
                    decreases substitutions@.len() - i,
                {
                    assert(subs_view(substitutions@).skip(i as int).drop_first() =~= subs_view(substitutions@).skip(i + 1));
                    assert(subs_view(substitutions@).skip(i as int)[0] == (substitutions@[i as int].0@, substitutions@[i as int].1@));
                    if crate::text::str_equal(substitutions[i].0.as_str(), name.as_str()) {
                        return substitutions[i].1.clone_ty();
                    }
                    i = i + 1;
                }
                assert(subs_view(substitutions@).skip(i as int).len() == 0);
                assert(lookup_subst(subs_view(substitutions@), name@) is None);
                let r = self.clone_ty();
                assert(subst_v(self@, subs_view(substitutions@)) == self@);
                r
            },
            MirType::Array(b) => MirType::Array(Box::new(b.substitute(substitutions))),
            MirType::Tuple(v) => MirType::Tuple(subst_tys(self, v, substitutions)),
            MirType::MapOf(k, v) => MirType::MapOf(Box::new(k.substitute(substitutions)), Box::new(v.substitute(substitutions))),
            MirType::Optional(b) => MirType::Optional(Box::new(b.substitute(substitutions))),
            MirType::Result(a, b) => MirType::Result(Box::new(a.substitute(substitutions)), Box::new(b.substitute(substitutions))),
            MirType::Ref(b) => MirType::Ref(Box::new(b.substitute(substitutions))),
            MirType::RefMut(b) => MirType::RefMut(Box::new(b.substitute(substitutions))),
            MirType::FnPtr { params, ret } => MirType::FnPtr {
                params: subst_tys(self, params, substitutions),
                ret: Box::new(ret.substitute(substitutions)),
            },
            MirType::Closure { params, ret } => MirType::Closure {
                params: subst_tys(self, params, substitutions),
                ret: Box::new(ret.substitute(substitutions)),
            },
            MirType::Generic { name, args } => MirType::Generic {
                name: name.clone(),
                args: subst_tys(self, args, substitutions),
            },
            _ => self.clone_ty(),
        }
    }

    /// The type variables of the type, each once, in order of first
    /// occurrence.
    pub fn collect_type_vars(&self) -> (r: Vec<TypeVarId>)
        ensures
            r@ == collect_v(self@, Seq::empty()),
    {
        let mut vars: Vec<TypeVarId> = Vec::new();
        self.collect_type_vars_into(&mut vars);
        vars
    }

    fn collect_type_vars_into(&self, vars: &mut Vec<TypeVarId>)
        ensures
            final(vars)@ == collect_v(self@, old(vars)@),
        decreases self,
    {
        match self {
            MirType::TypeVar(id) => {
                if !contains_var(vars, *id) {
                    vars.push(*id);
                }
            },
            MirType::Array(b) => b.collect_type_vars_into(vars),
            MirType::Tuple(v) => collect_tys(self, v, vars),
            MirType::MapOf(k, v) => {
                k.collect_type_vars_into(vars);
                v.collect_type_vars_into(vars);
            },
            MirType::Optional(b) => b.collect_type_vars_into(vars),
            MirType::Result(a, b) => {
                a.collect_type_vars_into(vars);
                b.collect_type_vars_into(vars);
            },
            MirType::Ref(b) => b.collect_type_vars_into(vars),
            MirType::RefMut(b) => b.collect_type_vars_into(vars),
            MirType::FnPtr { params, ret } => {
                collect_tys(self, params, vars);
                ret.collect_type_vars_into(vars);
            },
            MirType::Closure { params, ret } => {
                collect_tys(self, params, vars);
                ret.collect_type_vars_into(vars);
            },
            MirType::Generic { name, args } => collect_tys(self, args, vars),
            _ => {},
        }
    }
}

fn contains_var(vars: &Vec<TypeVarId>, id: TypeVarId) -> (b: bool)
    ensures
        b == vars@.contains(id),
{
    let mut i: usize = 0;
    while i < vars.len()
        invariant
            0 <= i <= vars@.len(),
            forall|j: int| 0 <= j < i ==> vars@[j] != id,
        decreases vars@.len() - i,
    {
        if vars[i] == id {
            assert(vars@[i as int] == id);
            return true;
        }
        i = i + 1;
    }
    false
}

proof fn lemma_elem_decreases(outer: MirType, v: Vec<MirType>, i: int)
    requires
        0 <= i < v@.len(),
        decreases_to!(outer => v),
    ensures
        decreases_to!(outer => v@[i]),
{
    assert(decreases_to!(v => v@));
    assert(decreases_to!(v@ => v@[i]));
}

fn clone_tys(outer: &MirType, v: &Vec<MirType>) -> (r: Vec<MirType>)
    requires
        decreases_to!(*outer => *v),
    ensures
        tys_view(r) == tys_view(*v),
    decreases outer, 0nat,
{
    let mut r: Vec<MirType> = Vec::new();
    let mut i: usize = 0;
    while i < v.len()
        invariant
            decreases_to!(*outer => *v),
            0 <= i <= v@.len(),
            r@.len() == i,
            forall|j: int| 0 <= j < i ==> (#[trigger] r@[j])@ == v@[j]@,
        decreases v@.len() - i,
    {
        proof {
            lemma_elem_decreases(*outer, *v, i as int);
        }
        let t = v[i].clone_ty();
        r.push(t);
        i = i + 1;
    }
    assert(tys_view(r) =~= tys_view(*v));
    r
}

fn any_has_type_vars(outer: &MirType, v: &Vec<MirType>) -> (b: bool)
    requires
        decreases_to!(*outer => *v),
    ensures
        b == any_has_vars(tys_view(*v), v@.len() as int),
    decreases outer, 0nat,
{
    let mut found = false;
    let mut i: usize = 0;
    while i < v.len()
        invariant
            decreases_to!(*outer => *v),
            0 <= i <= v@.len(),
            found == any_has_vars(tys_view(*v), i as int),
        decreases v@.len() - i,
    {
        proof {
            lemma_elem_decreases(*outer, *v, i as int);
        }
        let here = v[i].has_type_vars();
        found = found || here;
        i = i + 1;
    }
    found
}

fn all_copy(outer: &MirType, v: &Vec<MirType>) -> (b: bool)
    requires
        decreases_to!(*outer => *v),
    ensures
        b == all_copy_v(tys_view(*v), v@.len() as int),
    decreases outer, 0nat,
{
    let mut all = true;
    let mut i: usize = 0;
    while i < v.len()
        invariant
            decreases_to!(*outer => *v),
            0 <= i <= v@.len(),
            all == all_copy_v(tys_view(*v), i as int),
        decreases v@.len() - i,
    {
        proof {
            lemma_elem_decreases(*outer, *v, i as int);
        }
        let here = v[i].is_copy();
        all = all && here;
        i = i + 1;
    }
    all
}

fn subst_tys(outer: &MirType, v: &Vec<MirType>, substitutions: &[(String, MirType)]) -> (r: Vec<MirType>)
    requires
        decreases_to!(*outer => *v),
    ensures
        tys_view(r) == subst_list(tys_view(*v), subs_view(substitutions@), v@.len() as int),
    decreases outer, 0nat,
{
    let mut r: Vec<MirType> = Vec::new();
    let mut i: usize = 0;
    assert(tys_view(r) =~= Seq::empty());
    while i < v.len()
        invariant
            decreases_to!(*outer => *v),
            0 <= i <= v@.len(),
            tys_view(r) == subst_list(tys_view(*v), subs_view(substitutions@), i as int),
        decreases v@.len() - i,
    {
        proof {
            lemma_elem_decreases(*outer, *v, i as int);
        }
        let t = v[i].substitute(substitutions);
        let ghost before = r;
        r.push(t);
        assert(tys_view(r) =~= tys_view(before).push(t@));
        i = i + 1;
    }
    r
}

fn collect_tys(outer: &MirType, v: &Vec<MirType>, vars: &mut Vec<TypeVarId>)
    requires
        decreases_to!(*outer => *v),
    ensures
        final(vars)@ == collect_list(tys_view(*v), v@.len() as int, old(vars)@),
    decreases outer, 0nat,
{
    let ghost start = vars@;
    let mut i: usize = 0;
    while i < v.len()
        invariant
            decreases_to!(*outer => *v),
            0 <= i <= v@.len(),
            vars@ == collect_list(tys_view(*v), i as int, start),
        decreases v@.len() - i,
    {
        proof {
            lemma_elem_decreases(*outer, *v, i as int);
        }
        v[i].collect_type_vars_into(vars);
        i = i + 1;
    }
}


// ============================================================================
// Functions, locals and linkage
// ============================================================================

/// How a function is linked.
#[derive(Debug, Clone, Copy, PartialEq, Eq, Structural)]
pub enum Linkage {
    /// Defined in this module.
    Local,
    /// Imported from the runtime.
    External,
    /// A builtin with special handling.
    Builtin(BuiltinKind),
}

impl Default for Linkage {
    fn default() -> (l: Self)
        ensures
            l == Linkage::Local,
    {
        Linkage::Local
    }
}

/// The builtin functions.
#[derive(Debug, Clone, Copy, PartialEq, Eq, Structural)]
pub enum BuiltinKind {
    Print,
    Println,
    Len,
    TypeOf,
    ToString,
    ToInt,
    ToFloat,
    StringContains,
    StringStartsWith,
    StringEndsWith,
    StringTrim,
    StringSplit,
    StringReplace,
    Substring,
    CharAt,
    ToUpper,
    ToLower,
    Abs,
    Min,
    Max,
    Sqrt,
    Pow,
    Sin,
    Cos,
    Tan,
    Floor,
    Ceil,
    Round,
    Push,
    Pop,
    First,
    Last,
    Reverse,
    MapEach,
    Filter,
    Reduce,
    Find,
    Any,
    All,
    Slice,
    Concat,
    Assert,
    Panic,
}

/// A local variable declaration.
#[derive(Debug, Clone)]
pub struct LocalDecl {
    /// Debug name.
    pub name: Option<String>,
    /// Type of the local.
    pub ty: MirType,
    /// Whether the local is mutable.
    pub mutable: bool,
    /// Source span.
    pub span: Span,
}

// ============================================================================
// Basic blocks, statements and terminators
// ============================================================================

/// A basic block: straight-line statements and one terminator.
#[derive(Debug, Clone)]
pub struct BasicBlock {
    /// Block identifier.
    pub id: BlockId,
    /// Statements, without control flow.
    pub statements: Vec<Statement>,
    /// Control flow out of the block.
    pub terminator: Option<Terminator>,
}

impl BasicBlock {
    /// An empty block with no terminator.
    pub fn new(id: BlockId) -> (b: Self)
        ensures
            b.id == id,
            b.statements@.len() == 0,
            b.terminator is None,
    {
        BasicBlock { id, statements: Vec::new(), terminator: None }
    }

    /// Appends a statement.
    pub fn push_stmt(&mut self, stmt: Statement)
        ensures
            final(self).id == old(self).id,
            final(self).statements@ == old(self).statements@.push(stmt),
            final(self).terminator == old(self).terminator,
    {
        self.statements.push(stmt);
    }

    /// Sets the terminator.
    pub fn set_terminator(&mut self, term: Terminator)
        ensures
            final(self).id == old(self).id,
            final(self).statements == old(self).statements,
            final(self).terminator == Some(term),
    {
        self.terminator = Some(term);
    }
}

/// A statement.
#[derive(Debug, Clone)]
pub struct Statement {
    pub kind: StatementKind,
    pub span: Span,
}

/// The kinds of statement.
#[derive(Debug, Clone)]
pub enum StatementKind {
    /// `place = rvalue`.
    Assign(Place, Rvalue),
    /// The local enters scope.
    StorageLive(Local),
    /// The local leaves scope.
    StorageDead(Local),
    /// No operation.
    Nop,
}

/// A terminator.
#[derive(Debug, Clone)]
pub struct Terminator {
    pub kind: TerminatorKind,
    pub span: Span,
}

/// The kinds of terminator.
#[derive(Debug, Clone)]
pub enum TerminatorKind {
    /// Unconditional jump.
    Goto { target: BlockId },
    /// Branch on an integer value.
    SwitchInt { discr: Operand, targets: SwitchTargets },
    /// Function call; `target` is `None` for a call that does not return.
    Call { func: Operand, args: Vec<Operand>, dest: Place, target: Option<BlockId> },
    /// Return from the function.
    Return,
    /// Unreachable code.
    Unreachable,
    /// Drop a value.
    Drop { place: Place, target: BlockId },
    /// Check a condition.
    Assert { cond: Operand, expected: bool, msg: String, target: BlockId },
}

/// The targets of a `SwitchInt`.
#[derive(Debug, Clone)]
pub struct SwitchTargets {
    /// Value and target pairs.
    pub targets: Vec<(i128, BlockId)>,
    /// Target when no value matches.
    pub otherwise: BlockId,
}

impl SwitchTargets {
    /// Targets from value pairs and a default.
    pub fn new(targets: Vec<(i128, BlockId)>, otherwise: BlockId) -> (s: Self)
        ensures
            s.targets@ == targets@,
            s.otherwise == otherwise,
    {
        SwitchTargets { targets, otherwise }
    }

    /// A two-way branch: value 0 goes to `false_block`, anything else to
    /// `true_block`.
    pub fn if_else(true_block: BlockId, false_block: BlockId) -> (s: Self)
        ensures
            s.targets@ == seq![(0i128, false_block)],
            s.otherwise == true_block,
    {
        let mut targets: Vec<(i128, BlockId)> = Vec::new();
        targets.push((0i128, false_block));
        SwitchTargets { targets, otherwise: true_block }
    }
}

// ============================================================================
// Places, rvalues and operands
// ============================================================================

/// A memory location: a local and a path of projections.
#[derive(Debug, Clone, PartialEq, Eq, Hash)]
pub struct Place {
    pub local: Local,
    pub projection: Vec<PlaceElem>,
}

impl Place {
    /// The local itself.
    pub fn from_local(local: Local) -> (p: Self)
        ensures
            p.local == local,
            p.projection@ == Seq::<PlaceElem>::empty(),
    {
        Place { local, projection: Vec::new() }
    }

    /// The return place.
    pub fn return_place() -> (p: Self)
        ensures
            p.local == Local(0),
            p.projection@ == Seq::<PlaceElem>::empty(),
    {
        Self::from_local(Local::return_local())
    }

    /// Projects a field.
    pub fn field(self, field: u32) -> (p: Self)
        ensures
            p.local == self.local,
            p.projection@ == self.projection@.push(PlaceElem::Field(field)),
    {
        let mut p = self;
        p.projection.push(PlaceElem::Field(field));
        p
    }

    /// Projects an index held in a local.
    pub fn index(self, index: Local) -> (p: Self)
        ensures
            p.local == self.local,
            p.projection@ == self.projection@.push(PlaceElem::Index(index)),
    {
        let mut p = self;
        p.projection.push(PlaceElem::Index(index));
        p
    }

    /// Dereferences.
    pub fn deref(self) -> (p: Self)
        ensures
            p.local == self.local,
            p.projection@ == self.projection@.push(PlaceElem::Deref),
    {
        let mut p = self;
        p.projection.push(PlaceElem::Deref);
        p
    }

    /// Views the place as an enum variant.
    pub fn downcast(self, variant: u32) -> (p: Self)
        ensures
            p.local == self.local,
            p.projection@ == self.projection@.push(PlaceElem::Downcast(variant)),
    {
        let mut p = self;
        p.projection.push(PlaceElem::Downcast(variant));
        p
    }
}

/// A projection step.
#[derive(Debug, Clone, Copy, PartialEq, Eq, Structural, Hash)]
pub enum PlaceElem {
    /// Field by index.
    Field(u32),
    /// Index held in a local.
    Index(Local),
    /// Constant index.
    ConstantIndex(u64),
    /// Dereference.
    Deref,
    /// Enum variant.
    Downcast(u32),
}

/// A computed value.
#[derive(Debug, Clone)]
pub enum Rvalue {
    Use(Operand),
    BinaryOp(BinOp, Operand, Operand),
    UnaryOp(UnOp, Operand),
    Ref(Place),
    RefMut(Place),
    Aggregate(AggregateKind, Vec<Operand>),
    Discriminant(Place),
    Len(Place),
    Cast(CastKind, Operand, MirType),
    Closure(FunctionId, Vec<Operand>),
}

/// Binary operators.
#[derive(Debug, Clone, Copy, PartialEq, Eq, Structural)]
pub enum BinOp {
    Add,
    Sub,
    Mul,
    Div,
    IntDiv,
    Rem,
    Pow,
    BitAnd,
    BitOr,
    BitXor,
    Shl,
    Shr,
    Eq,
    Ne,
    Lt,
    Le,
    Gt,
    Ge,
    And,
    Or,
}

/// Unary operators.
#[derive(Debug, Clone, Copy, PartialEq, Eq, Structural)]
pub enum UnOp {
    /// Arithmetic negation.
    Neg,
    /// Logical not.
    Not,
    /// Bitwise not.
    BitNot,
}

/// Aggregate kinds.
#[derive(Debug, Clone)]
pub enum AggregateKind {
    Tuple,
    Array(MirType),
    Struct(StructId),
    /// Enum and variant index.
    Enum(EnumId, u32),
}

/// Cast kinds.
#[derive(Debug, Clone, Copy, PartialEq, Eq, Structural)]
pub enum CastKind {
    IntToInt,
    FloatToFloat,
    IntToFloat,
    FloatToInt,
    PtrToPtr,
}

/// A value used by an rvalue or terminator.
#[derive(Debug, Clone)]
pub enum Operand {
    /// Copy from a place.
    Copy(Place),
    /// Move from a place.
    Move(Place),
    /// A constant.
    Constant(Constant),
}

impl Operand {
    /// An integer constant.
    pub fn const_int(value: i64) -> (o: Self)
        ensures
            o == Operand::Constant(Constant::Int(value)),
    {
        Operand::Constant(Constant::Int(value))
    }

    /// A boolean constant.
    pub fn const_bool(value: bool) -> (o: Self)
        ensures
            o == Operand::Constant(Constant::Bool(value)),
    {
        Operand::Constant(Constant::Bool(value))
    }

    /// A default-width float constant, given by its IEEE-754 bits.
    pub fn const_float(bits: u64) -> (o: Self)
        ensures
            o == Operand::Constant(Constant::Float(bits)),
    {
        Operand::Constant(Constant::Float(bits))
    }

    /// A 32-bit float constant, given by its IEEE-754 bits.
    pub fn const_float32(bits: u32) -> (o: Self)
        ensures
            o == Operand::Constant(Constant::Float32(bits)),
    {
        Operand::Constant(Constant::Float32(bits))
    }

    /// A 64-bit float constant, given by its IEEE-754 bits.
    pub fn const_float64(bits: u64) -> (o: Self)
        ensures
            o == Operand::Constant(Constant::Float64(bits)),
    {
        Operand::Constant(Constant::Float64(bits))
    }

    /// The unit constant.
    pub fn const_unit() -> (o: Self)
        ensures
            o == Operand::Constant(Constant::Unit),
    {
        Operand::Constant(Constant::Unit)
    }
}

/// Constant values; floats are held as their IEEE-754 bits.
#[derive(Debug, Clone, Copy, PartialEq, Eq, Structural)]
pub enum Constant {
    Unit,
    Bool(bool),
    Int(i64),
    /// Default float (64-bit).
    Float(u64),
    Float32(u32),
    Float64(u64),
    Char(char),
    /// Index into the string table.
    String(u32),
    Function(FunctionId),
}

// ============================================================================
// Contracts
// ============================================================================

/// Preconditions and postconditions of a function.
#[derive(Debug, Clone)]
pub struct FunctionContract {
    pub requires: Vec<ContractClause>,
    pub ensures: Vec<ContractClause>,
}

impl FunctionContract {
    /// A contract with no clauses.
    pub fn new() -> (c: Self)
        ensures
            c.requires@.len() == 0,
            c.ensures@.len() == 0,
    {
        FunctionContract { requires: Vec::new(), ensures: Vec::new() }
    }

    /// Whether the contract has no clauses.
    pub fn is_empty(&self) -> (b: bool)
        ensures
            b == (self.requires@.len() == 0 && self.ensures@.len() == 0),
    {
        self.requires.len() == 0 && self.ensures.len() == 0
    }
}

impl Default for FunctionContract {
    fn default() -> (c: Self)
        ensures
            c.requires@.len() == 0,
            c.ensures@.len() == 0,
    {
        Self::new()
    }
}

/// One contract clause.
#[derive(Debug, Clone)]
pub struct ContractClause {
    /// The condition.
    pub condition: Expr,
    /// Message shown when the clause is violated.
    pub message: Option<String>,
    /// Source span.
    pub span: Span,
}

/// Conditions that hold of a struct after construction and mutation.
#[derive(Debug, Clone)]
pub struct StructInvariant {
    pub conditions: Vec<ContractClause>,
}

impl StructInvariant {
    /// An invariant with no conditions.
    pub fn new() -> (i: Self)
        ensures
            i.conditions@.len() == 0,
    {
        StructInvariant { conditions: Vec::new() }
    }

    /// Whether there are no conditions.
    pub fn is_empty(&self) -> (b: bool)
        ensures
            b == (self.conditions@.len() == 0),
    {
        self.conditions.len() == 0
    }
}

impl Default for StructInvariant {
    fn default() -> (i: Self)
        ensures
            i.conditions@.len() == 0,
    {
        Self::new()
    }
}

/// Expressions of contract conditions; float literals are held as their
/// IEEE-754 bits.
#[derive(Debug)]
pub enum Expr {
    Bool(bool),
    Int(i64),
    Float(u64),
    Local(Local),
    Binary { op: BinOp, left: Box<Expr>, right: Box<Expr> },
    Unary { op: UnOp, operand: Box<Expr> },
    Field { object: Box<Expr>, field: u32 },
    MethodCall { object: Box<Expr>, method: String, args: Vec<Expr> },
    /// The value on entry, in a postcondition.
    Old(Box<Expr>),
    /// The returned value, in a postcondition.
    Result,
}

impl Clone for Expr {
    fn clone(&self) -> (r: Self) {
        clone_expr(self)
    }
}

/// Whether two contract expressions are the same tree: the same variant,
/// the same values at the leaves and, for a method call, the same number
/// of arguments, each the same tree.
pub open spec fn same_expr(a: Expr, b: Expr) -> bool
    decreases a,
{
    match a {
        Expr::Binary { op, left, right } => match b {
            Expr::Binary { op: op2, left: left2, right: right2 } =>
                op == op2 && same_expr(*left, *left2) && same_expr(*right, *right2),
            _ => false,
        },
        Expr::Unary { op, operand } => match b {
            Expr::Unary { op: op2, operand: operand2 } => op == op2 && same_expr(*operand, *operand2),
            _ => false,
        },
        Expr::Field { object, field } => match b {
            Expr::Field { object: object2, field: field2 } => field == field2 && same_expr(*object, *object2),
            _ => false,
        },
        Expr::MethodCall { object, method, args } => match b {
            Expr::MethodCall { object: object2, method: method2, args: args2 } =>
                method == method2 && same_expr(*object, *object2) && args@.len() == args2@.len()
                && forall|i: int| 0 <= i < args@.len() ==> same_expr(#[trigger] args@[i], args2@[i]),
            _ => false,
        },
        Expr::Old(inner) => match b {
            Expr::Old(inner2) => same_expr(*inner, *inner2),
            _ => false,
        },
        _ => a == b,
    }
}

fn clone_expr(e: &Expr) -> (r: Expr)
    ensures
        same_expr(*e, r),
    decreases e, 1nat,
{
    match e {
        Expr::Bool(b) => Expr::Bool(*b),
        Expr::Int(i) => Expr::Int(*i),
        Expr::Float(f) => Expr::Float(*f),
        Expr::Local(l) => Expr::Local(*l),
        Expr::Binary { op, left, right } => Expr::Binary {
            op: *op,
            left: Box::new(clone_expr(left)),
            right: Box::new(clone_expr(right)),
        },
        Expr::Unary { op, operand } => Expr::Unary { op: *op, operand: Box::new(clone_expr(operand)) },
        Expr::Field { object, field } => Expr::Field { object: Box::new(clone_expr(object)), field: *field },
        Expr::MethodCall { object, method, args } => Expr::MethodCall {
            object: Box::new(clone_expr(object)),
            method: method.clone(),
            args: clone_exprs(e, args),
        },
        Expr::Old(inner) => Expr::Old(Box::new(clone_expr(inner))),
        Expr::Result => Expr::Result,
    }
}

fn clone_exprs(outer: &Expr, v: &Vec<Expr>) -> (r: Vec<Expr>)
    requires
        decreases_to!(*outer => *v),
    ensures
        r@.len() == v@.len(),
        forall|i: int| 0 <= i < v@.len() ==> same_expr(#[trigger] v@[i], r@[i]),
    decreases outer, 0nat,
{
    let mut r: Vec<Expr> = Vec::new();
    let mut i: usize = 0;
    while i < v.len()
        invariant
            decreases_to!(*outer => *v),
            0 <= i <= v@.len(),
            r@.len() == i,
            forall|j: int| 0 <= j < i ==> same_expr(#[trigger] v@[j], r@[j]),
        decreases v@.len() - i,
    {
        proof {
            assert(decreases_to!(*v => v@));
            assert(decreases_to!(v@ => v@[i as int]));
        }
        r.push(clone_expr(&v[i]));
        i = i + 1;
    }
    r
}

// ============================================================================
// Struct and enum definitions
// ============================================================================

/// A struct definition.
#[derive(Debug, Clone)]
pub struct MirStruct {
    pub name: String,
    pub fields: Vec<MirField>,
    pub span: Span,
    pub invariants: Option<StructInvariant>,
}

/// A struct field.
#[derive(Debug, Clone)]
pub struct MirField {
    pub name: String,
    pub ty: MirType,
}

/// An enum definition.
#[derive(Debug, Clone)]
pub struct MirEnum {
    pub name: String,
    pub variants: Vec<MirVariant>,
    pub span: Span,
}

/// An enum variant.
#[derive(Debug, Clone)]
pub struct MirVariant {
    pub name: String,
    pub fields: Vec<MirType>,
}


// ============================================================================
// Effects
// ============================================================================

/// An effect type.
#[derive(Debug, Clone, Copy, PartialEq, Eq, Structural, Hash)]
pub struct EffectId(pub u32);

/// An operation of an effect.
#[derive(Debug, Clone, Copy, PartialEq, Eq, Structural, Hash)]
pub struct OperationId(pub u32);

/// An effect handler.
#[derive(Debug, Clone, Copy, PartialEq, Eq, Structural, Hash)]
pub struct HandlerId(pub u32);

/// A continuation.
#[derive(Debug, Clone, Copy, PartialEq, Eq, Structural, Hash)]
pub struct ContinuationId(pub u32);

impl KeyEq for FunctionId {
    fn key_eq(&self, other: &Self) -> (b: bool) {
        self.0 == other.0
    }
}

impl KeyEq for StructId {
    fn key_eq(&self, other: &Self) -> (b: bool) {
        self.0 == other.0
    }
}

impl KeyEq for EnumId {
    fn key_eq(&self, other: &Self) -> (b: bool) {
        self.0 == other.0
    }
}

impl KeyEq for EffectId {
    fn key_eq(&self, other: &Self) -> (b: bool) {
        self.0 == other.0
    }
}

impl KeyEq for HandlerId {
    fn key_eq(&self, other: &Self) -> (b: bool) {
        self.0 == other.0
    }
}

impl KeyEq for BlockId {
    fn key_eq(&self, other: &Self) -> (b: bool) {
        self.0 == other.0
    }
}

impl KeyEq for Local {
    fn key_eq(&self, other: &Self) -> (b: bool) {
        self.0 == other.0
    }
}

impl KeyEq for (BlockId, usize) {
    fn key_eq(&self, other: &Self) -> (b: bool) {
        self.0.0 == other.0.0 && self.1 == other.1
    }
}

/// An effect used by a function, with its type arguments.
#[derive(Debug, Clone, PartialEq, Eq, Hash)]
pub struct EffectType {
    pub id: EffectId,
    pub name: String,
    pub type_params: Vec<MirType>,
}

impl EffectType {
    /// An effect without type arguments.
    pub fn new(id: EffectId, name: String) -> (e: Self)
        ensures
            e.id == id,
            e.name == name,
            e.type_params@.len() == 0,
    {
        EffectType { id, name, type_params: Vec::new() }
    }

    /// Replaces the type arguments.
    pub fn with_type_params(self, params: Vec<MirType>) -> (e: Self)
        ensures
            e.id == self.id,
            e.name == self.name,
            e.type_params == params,
    {
        let mut e = self;
        e.type_params = params;
        e
    }
}

/// The effects a function may perform; an open row admits more.
#[derive(Debug, Clone, PartialEq, Eq)]
pub struct EffectRow {
    pub effects: Vec<EffectType>,
    pub is_open: bool,
}

impl Default for EffectRow {
    fn default() -> (r: Self)
        ensures
            r.effects@.len() == 0,
            !r.is_open,
    {
        EffectRow { effects: Vec::new(), is_open: false }
    }
}

impl EffectRow {
    /// The empty closed row.
    pub fn new() -> (r: Self)
        ensures
            r.effects@.len() == 0,
            !r.is_open,
    {
        EffectRow { effects: Vec::new(), is_open: false }
    }

    /// The empty closed row: no effects at all.
    pub fn pure() -> (r: Self)
        ensures
            r.effects@.len() == 0,
            !r.is_open,
    {
        EffectRow { effects: Vec::new(), is_open: false }
    }

    /// Adds an effect at the end.
    pub fn with_effect(self, effect: EffectType) -> (r: Self)
        ensures
            r.effects@ == self.effects@.push(effect),
            r.is_open == self.is_open,
    {
        let mut r = self;
        r.effects.push(effect);
        r
    }

    /// Opens the row.
    pub fn open(self) -> (r: Self)
        ensures
            r.effects == self.effects,
            r.is_open,
    {
        let mut r = self;
        r.is_open = true;
        r
    }

    /// No effects and closed.
    pub fn is_pure(&self) -> (b: bool)
        ensures
            b == (self.effects@.len() == 0 && !self.is_open),
    {
        self.effects.len() == 0 && !self.is_open
    }
}

/// Where the handler of an effect is found.
#[derive(Debug, Clone, Copy, PartialEq, Eq, Structural)]
pub enum EvidenceSlot {
    /// A fixed offset in the evidence vector.
    Static(u32),
    /// Looked up at run time through a local.
    Dynamic(Local),
}

/// How an effect operation is compiled.
#[derive(Debug, Clone, Copy, PartialEq, Eq, Structural)]
pub enum EffectClassification {
    /// The handler resumes in tail position: a direct call.
    TailResumptive,
    /// The handler may capture the continuation.
    General,
    /// The effect crosses a foreign-function boundary.
    FfiBoundary,
}

impl Default for EffectClassification {
    fn default() -> (c: Self)
        ensures
            c == EffectClassification::General,
    {
        EffectClassification::General
    }
}

/// How effects are treated at a foreign-function boundary.
#[derive(Debug, Clone, Copy, PartialEq, Eq, Structural)]
pub enum FfiBarrierStrategy {
    /// Refuse effects that would cross.
    Prohibit,
    /// Turn the continuation into a callback.
    CallbackConvert,
    /// Save and restore handler state around the call.
    HandlerSaveRestore,
}

/// An operation of an effect.
#[derive(Debug, Clone)]
pub struct EffectOperation {
    pub id: OperationId,
    pub name: String,
    pub params: Vec<MirType>,
    pub return_ty: MirType,
}

/// An effect definition.
#[derive(Debug, Clone)]
pub struct MirEffect {
    pub id: EffectId,
    pub name: String,
    pub type_params: Vec<String>,
    pub operations: Vec<EffectOperation>,
    pub span: Span,
}

impl MirEffect {
    /// An effect without operations.
    pub fn new(id: EffectId, name: String, span: Span) -> (e: Self)
        ensures
            e.id == id,
            e.name == name,
            e.type_params@.len() == 0,
            e.operations@.len() == 0,
            e.span == span,
    {
        MirEffect { id, name, type_params: Vec::new(), operations: Vec::new(), span }
    }

    /// Appends an operation; its identifier is its position.
    pub fn add_operation(&mut self, op: EffectOperation) -> (id: OperationId)
        ensures
            id.0 == old(self).operations@.len() as u32,
            final(self).operations@ == old(self).operations@.push(op),
            final(self).id == old(self).id,
            final(self).name == old(self).name,
            final(self).type_params == old(self).type_params,
            final(self).span == old(self).span,
    {
        let id = OperationId(self.operations.len() as u32);
        self.operations.push(op);
        id
    }

    /// The operation at position `id`.
    pub fn operation(&self, id: OperationId) -> (r: Option<&EffectOperation>)
        ensures
            r matches Some(o) ==> id.0 < self.operations@.len() && *o == self.operations@[id.0 as int],
            r is None ==> id.0 >= self.operations@.len(),
    {
        let i = id.0 as usize;
        if i < self.operations.len() {
            Some(&self.operations[i])
        } else {
            None
        }
    }
}

/// An effect handler definition.
#[derive(Debug, Clone)]
pub struct MirHandler {
    pub id: HandlerId,
    pub effect: EffectType,
    /// One block per operation.
    pub operation_blocks: Vec<BlockId>,
    /// Block for values returned by the handled computation.
    pub return_block: Option<BlockId>,
    pub is_tail_resumptive: bool,
    pub span: Span,
}

impl MirHandler {
    /// A handler without blocks, taken to be tail-resumptive until an
    /// analysis says otherwise.
    pub fn new(id: HandlerId, effect: EffectType, span: Span) -> (h: Self)
        ensures
            h.id == id,
            h.effect == effect,
            h.operation_blocks@.len() == 0,
            h.return_block is None,
            h.is_tail_resumptive,
            h.span == span,
    {
        MirHandler { id, effect, operation_blocks: Vec::new(), return_block: None, is_tail_resumptive: true, span }
    }
}

/// A block that handles one effect operation.
#[derive(Debug, Clone)]
pub struct HandlerBlock {
    pub block_id: BlockId,
    pub effect: EffectType,
    pub operation: OperationId,
    /// Locals that receive the operation's arguments.
    pub params: Vec<Local>,
    /// The continuation, for a handler that is not tail-resumptive.
    pub continuation: Option<Local>,
    /// Where execution continues after a resume.
    pub resume_block: Option<BlockId>,
}

/// Statements about effects.
#[derive(Debug, Clone)]
pub enum EffectStatementKind {
    InstallHandler { handler: HandlerId, evidence_slot: EvidenceSlot, effect: EffectType, prev_evidence: Option<Local> },
    UninstallHandler { evidence_slot: EvidenceSlot, prev_evidence: Local },
    PerformEffect {
        effect: EffectType,
        operation: OperationId,
        args: Vec<Operand>,
        evidence_slot: EvidenceSlot,
        dest: Place,
        classification: EffectClassification,
    },
    CaptureContunuation { dest: Place },
    CloneContinuation { source: Operand, dest: Place },
    FfiBarrier { strategy: FfiBarrierStrategy, blocked_effects: Vec<EffectType> },
}

/// Terminators about effects.
#[derive(Debug, Clone)]
pub enum EffectTerminatorKind {
    Yield { effect: EffectType, operation: OperationId, args: Vec<Operand>, continuation: Operand, handler_block: BlockId },
    Resume { continuation: Operand, value: Operand, target: BlockId },
    Handle { body: BlockId, handler: HandlerId, normal_return: BlockId, effect_return: BlockId },
}

/// The evidence vector of a function: one slot per effect, numbered in
/// order of addition.
#[derive(Debug, Clone)]
pub struct EvidenceLayout {
    pub slots: AssocMap<EffectId, u32>,
    pub size: u32,
}

impl EvidenceLayout {
    /// Slots are numbered from 0 in order of addition, and `size` counts
    /// them.
    pub open spec fn wf(&self) -> bool {
        &&& self.slots.wf()
        &&& self.size == self.slots.entries@.len()
        &&& forall|i: int| 0 <= i < self.slots.entries@.len() ==> #[trigger] self.slots.entries@[i].1 == i
    }

    /// An empty layout.
    pub fn new() -> (l: Self)
        ensures
            l.wf(),
            l.size == 0,
            forall|e: EffectId| l.slots.get_spec(e) is None,
    {
        EvidenceLayout { slots: AssocMap::new(), size: 0 }
    }

    /// The slot of `effect_id`, given the next free one first if it has
    /// none.
    pub fn add_effect(&mut self, effect_id: EffectId) -> (slot: u32)
        requires
            old(self).wf(),
            !old(self).slots.has(effect_id) ==> old(self).size < u32::MAX,
        ensures
            final(self).wf(),
            old(self).slots.has(effect_id) ==> slot == old(self).slots.get_spec(effect_id).unwrap() && final(self).slots == old(self).slots && final(self).size == old(self).size,
            !old(self).slots.has(effect_id) ==> slot == old(self).size && final(self).size == old(self).size + 1,
            final(self).slots.get_spec(effect_id) == Some(slot),
            forall|e: EffectId| e != effect_id ==> final(self).slots.get_spec(e) == old(self).slots.get_spec(e),
    {
        match self.slots.get(&effect_id) {
            Some(s) => *s,
            None => {
                let slot = self.size;
                self.slots.insert(effect_id, slot);
                self.size = self.size + 1;
                slot
            },
        }
    }

    /// The slot of `effect_id`, if it has one.
    pub fn slot_for(&self, effect_id: EffectId) -> (r: Option<u32>)
        requires
            self.wf(),
        ensures
            r == self.slots.get_spec(effect_id),
    {
        match self.slots.get(&effect_id) {
            Some(s) => Some(*s),
            None => None,
        }
    }
}

impl Default for EvidenceLayout {
    fn default() -> (l: Self)
        ensures
            l.wf(),
            l.size == 0,
    {
        EvidenceLayout::new()
    }
}

/// An evidence parameter of a function.
#[derive(Debug, Clone)]
pub struct EvidenceParam {
    pub local: Local,
    pub effect: EffectType,
    /// Whether the evidence is known statically.
    pub is_static: bool,
}


// ============================================================================
// Functions
// ============================================================================

/// A MIR function: its locals and its control-flow graph.
#[derive(Debug, Clone)]
pub struct MirFunction {
    pub name: String,
    pub span: Span,
    /// Parameters, as locals.
    pub params: Vec<Local>,
    pub return_ty: MirType,
    /// Local declarations; local 0 is the return place.
    pub locals: Vec<LocalDecl>,
    /// Basic blocks, block `i` at position `i`.
    pub blocks: Vec<BasicBlock>,
    pub is_public: bool,
    pub linkage: Linkage,
    pub effect_row: EffectRow,
    pub evidence_params: Vec<EvidenceParam>,
    pub evidence_layout: EvidenceLayout,
    pub handler_blocks: Vec<HandlerBlock>,
    /// Effect statements by block and statement index.
    pub effect_statements: AssocMap<(BlockId, usize), EffectStatementKind>,
    /// Effect terminators by block.
    pub effect_terminators: AssocMap<BlockId, EffectTerminatorKind>,
    /// Type parameters; empty unless the function is generic.
    pub type_params: Vec<String>,
    /// For an instance of a generic function, that function.
    pub generic_origin: Option<FunctionId>,
    /// For an instance of a generic function, its type arguments.
    pub type_args: Vec<MirType>,
    pub contract: Option<FunctionContract>,
    pub attributes: Vec<String>,
}

/// Everything but the locals is unchanged.
pub open spec fn same_but_locals(f: MirFunction, g: MirFunction) -> bool {
    &&& g.name == f.name
    &&& g.span == f.span
    &&& g.params == f.params
    &&& g.return_ty == f.return_ty
    &&& g.blocks == f.blocks
    &&& g.is_public == f.is_public
    &&& g.linkage == f.linkage
    &&& g.effect_row == f.effect_row
    &&& g.evidence_params == f.evidence_params
    &&& g.evidence_layout == f.evidence_layout
    &&& g.handler_blocks == f.handler_blocks
    &&& g.effect_statements == f.effect_statements
    &&& g.effect_terminators == f.effect_terminators
    &&& g.type_params == f.type_params
    &&& g.generic_origin == f.generic_origin
    &&& g.type_args == f.type_args
    &&& g.contract == f.contract
    &&& g.attributes == f.attributes
}

impl MirFunction {
    /// The internal invariant: the evidence layout and the effect maps are
    /// well formed.
    pub open spec fn wf(&self) -> bool {
        &&& self.evidence_layout.wf()
        &&& self.effect_statements.wf()
        &&& self.effect_terminators.wf()
    }

    /// A function with the return place as its only local and no blocks.
    pub fn new(name: String, return_ty: MirType, span: Span) -> (f: Self)
        ensures
            f.wf(),
            f.name == name,
            f.span == span,
            f.params@.len() == 0,
            f.return_ty@ == return_ty@,
            f.locals@.len() == 1,
            f.locals@[0].name matches Some(n) && n@ == "_return"@,
            f.locals@[0].ty@ == return_ty@,
            f.locals@[0].mutable,
            f.locals@[0].span == Span::dummy_spec(),
            f.blocks@.len() == 0,
            !f.is_public,
            f.linkage == Linkage::Local,
            f.effect_row.effects@.len() == 0,
            !f.effect_row.is_open,
            f.evidence_params@.len() == 0,
            f.evidence_layout.size == 0,
            f.handler_blocks@.len() == 0,
            f.effect_statements.entries@.len() == 0,
            f.effect_terminators.entries@.len() == 0,
            f.type_params@.len() == 0,
            f.generic_origin is None,
            f.type_args@.len() == 0,
            f.contract is None,
            f.attributes@.len() == 0,
    {
        let return_local = LocalDecl {
            name: Some(crate::text::string_from_chars(crate::text::str_chars("_return").as_slice())),
            ty: return_ty.clone_ty(),
            mutable: true,
            span: Span::dummy(),
        };
        let mut locals: Vec<LocalDecl> = Vec::new();
        locals.push(return_local);
        MirFunction {
            name,
            span,
            params: Vec::new(),
            return_ty,
            locals,
            blocks: Vec::new(),
            is_public: false,
            linkage: Linkage::Local,
            effect_row: EffectRow::new(),
            evidence_params: Vec::new(),
            evidence_layout: EvidenceLayout::new(),
            handler_blocks: Vec::new(),
            effect_statements: AssocMap::new(),
            effect_terminators: AssocMap::new(),
            type_params: Vec::new(),
            generic_origin: None,
            type_args: Vec::new(),
            contract: None,
            attributes: Vec::new(),
        }
    }

    /// Whether the function has type parameters.
    pub fn is_generic(&self) -> (b: bool)
        ensures
            b == (self.type_params@.len() > 0),
    {
        self.type_params.len() > 0
    }

    /// Whether the function is an instance of a generic function.
    pub fn is_monomorphized(&self) -> (b: bool)
        ensures
            b == (self.generic_origin is Some),
    {
        self.generic_origin.is_some()
    }

    /// Declares a mutable local; its number is its position.
    pub fn new_local(&mut self, ty: MirType, name: Option<String>) -> (l: Local)
        ensures
            l.0 == old(self).locals@.len() as u32,
            final(self).locals@.len() == old(self).locals@.len() + 1,
            final(self).locals@.take(old(self).locals@.len() as int) == old(self).locals@,
            final(self).locals@.last().ty == ty,
            final(self).locals@.last().name == name,
            final(self).locals@.last().mutable,
            final(self).locals@.last().span == Span::dummy_spec(),
            same_but_locals(*old(self), *final(self)),
    {
        let local = Local(self.locals.len() as u32);
        self.locals.push(LocalDecl { name, ty, mutable: true, span: Span::dummy() });
        assert(self.locals@.take(old(self).locals@.len() as int) =~= old(self).locals@);
        local
    }

    /// Appends an empty block; its number is its position.
    pub fn new_block(&mut self) -> (b: BlockId)
        ensures
            b.0 == old(self).blocks@.len() as u32,
            final(self).blocks@.len() == old(self).blocks@.len() + 1,
            final(self).blocks@.take(old(self).blocks@.len() as int) == old(self).blocks@,
            final(self).blocks@.last().id == b,
            final(self).blocks@.last().statements@.len() == 0,
            final(self).blocks@.last().terminator is None,
            final(self).locals == old(self).locals,
            final(self).params == old(self).params,
            final(self).return_ty == old(self).return_ty,
            final(self).type_params == old(self).type_params,
            final(self).linkage == old(self).linkage,
            final(self).name == old(self).name,
            final(self).evidence_layout == old(self).evidence_layout,
            final(self).effect_statements == old(self).effect_statements,
            final(self).effect_terminators == old(self).effect_terminators,
            final(self).contract == old(self).contract,
    {
        let id = BlockId(self.blocks.len() as u32);
        self.blocks.push(BasicBlock::new(id));
        assert(self.blocks@.take(old(self).blocks@.len() as int) =~= old(self).blocks@);
        id
    }

    /// The block `id`.
    pub fn block(&self, id: BlockId) -> (b: &BasicBlock)
        requires
            id.0 < self.blocks@.len(),
        ensures
            *b == self.blocks@[id.0 as int],
    {
        &self.blocks[id.0 as usize]
    }

    /// The block `id`, for change.
    pub fn block_mut(&mut self, id: BlockId) -> (b: &mut BasicBlock)
        requires
            id.0 < old(self).blocks@.len(),
        ensures
            *b == old(self).blocks@[id.0 as int],
            final(self).blocks@ == old(self).blocks@.update(id.0 as int, *final(b)),
            final(self).locals == old(self).locals,
            final(self).params == old(self).params,
            final(self).return_ty == old(self).return_ty,
            final(self).type_params == old(self).type_params,
            final(self).linkage == old(self).linkage,
            final(self).name == old(self).name,
            final(self).evidence_layout == old(self).evidence_layout,
            final(self).effect_statements == old(self).effect_statements,
            final(self).effect_terminators == old(self).effect_terminators,
    {
        &mut self.blocks[id.0 as usize]
    }

    /// The declaration of `local`.
    pub fn local_decl(&self, local: Local) -> (d: &LocalDecl)
        requires
            local.0 < self.locals@.len(),
        ensures
            *d == self.locals@[local.0 as int],
    {
        &self.locals[local.0 as usize]
    }

    /// Replaces the effect row.
    pub fn set_effect_row(&mut self, row: EffectRow)
        ensures
            final(self).effect_row == row,
            final(self).locals == old(self).locals,
            final(self).blocks == old(self).blocks,
            final(self).evidence_layout == old(self).evidence_layout,
            final(self).effect_statements == old(self).effect_statements,
            final(self).effect_terminators == old(self).effect_terminators,
    {
        self.effect_row = row;
    }

    /// Adds an evidence parameter for `effect`: a new `UInt64` local named
    /// `_ev_` and the effect's name, recorded in the parameters and given a
    /// slot in the evidence layout.
    pub fn add_evidence_param(&mut self, effect: EffectType, is_static: bool) -> (l: Local)
        requires
            old(self).wf(),
            !old(self).evidence_layout.slots.has(effect.id) ==> old(self).evidence_layout.size < u32::MAX,
        ensures
            final(self).wf(),
            l.0 == old(self).locals@.len() as u32,
            final(self).locals@.len() == old(self).locals@.len() + 1,
            final(self).locals@.take(old(self).locals@.len() as int) == old(self).locals@,
            final(self).locals@.last().ty@ == TypeV::UInt64,
            final(self).locals@.last().name matches Some(n) && n@ == "_ev_"@ + effect.name@,
            final(self).evidence_params@ == old(self).evidence_params@.push(EvidenceParam { local: l, effect, is_static }),
            final(self).evidence_layout.slots.has(effect.id),
            forall|e: EffectId| e != effect.id ==> final(self).evidence_layout.slots.get_spec(e) == old(self).evidence_layout.slots.get_spec(e),
            old(self).evidence_layout.slots.has(effect.id) ==> final(self).evidence_layout == old(self).evidence_layout,
            final(self).blocks == old(self).blocks,
            final(self).effect_statements == old(self).effect_statements,
            final(self).effect_terminators == old(self).effect_terminators,
    {
        let name = concat2("_ev_", effect.name.as_str());
        let local = self.new_local(MirType::UInt64, Some(name));
        let id = effect.id;
        self.evidence_params.push(EvidenceParam { local, effect, is_static });
        let _slot = self.evidence_layout.add_effect(id);
        local
    }

    /// The static evidence slot of `effect_id`, if the layout gives it one.
    pub fn evidence_slot_for(&self, effect_id: EffectId) -> (r: Option<EvidenceSlot>)
        requires
            self.wf(),
        ensures
            r == (match self.evidence_layout.slots.get_spec(effect_id) {
                Some(s) => Some(EvidenceSlot::Static(s)),
                None => None,
            }),
    {
        match self.evidence_layout.slot_for(effect_id) {
            Some(s) => Some(EvidenceSlot::Static(s)),
            None => None,
        }
    }

    /// Records the effect statement at (`block`, `stmt_index`), replacing
    /// any earlier one there.
    pub fn add_effect_statement(&mut self, block: BlockId, stmt_index: usize, kind: EffectStatementKind)
        requires
            old(self).wf(),
        ensures
            final(self).wf(),
            final(self).effect_statements.get_spec((block, stmt_index)) == Some(kind),
            forall|k: (BlockId, usize)| k != (block, stmt_index) ==> final(self).effect_statements.get_spec(k) == old(self).effect_statements.get_spec(k),
            final(self).blocks == old(self).blocks,
            final(self).locals == old(self).locals,
            final(self).effect_terminators == old(self).effect_terminators,
            final(self).evidence_layout == old(self).evidence_layout,
    {
        let _ = self.effect_statements.insert((block, stmt_index), kind);
    }

    /// The effect statement at (`block`, `stmt_index`).
    pub fn effect_statement(&self, block: BlockId, stmt_index: usize) -> (r: Option<&EffectStatementKind>)
        requires
            self.wf(),
        ensures
            r matches Some(k) ==> self.effect_statements.get_spec((block, stmt_index)) == Some(*k),
            r is None ==> self.effect_statements.get_spec((block, stmt_index)) is None,
    {
        self.effect_statements.get(&(block, stmt_index))
    }

    /// Records the effect terminator of `block`, replacing any earlier one.
    pub fn set_effect_terminator(&mut self, block: BlockId, kind: EffectTerminatorKind)
        requires
            old(self).wf(),
        ensures
            final(self).wf(),
            final(self).effect_terminators.get_spec(block) == Some(kind),
            forall|b: BlockId| b != block ==> final(self).effect_terminators.get_spec(b) == old(self).effect_terminators.get_spec(b),
            final(self).blocks == old(self).blocks,
            final(self).locals == old(self).locals,
            final(self).effect_statements == old(self).effect_statements,
            final(self).evidence_layout == old(self).evidence_layout,
    {
        let _ = self.effect_terminators.insert(block, kind);
    }

    /// The effect terminator of `block`.
    pub fn effect_terminator(&self, block: BlockId) -> (r: Option<&EffectTerminatorKind>)
        requires
            self.wf(),
        ensures
            r matches Some(k) ==> self.effect_terminators.get_spec(block) == Some(*k),
            r is None ==> self.effect_terminators.get_spec(block) is None,
    {
        self.effect_terminators.get(&block)
    }

    /// Appends a handler block.
    pub fn add_handler_block(&mut self, handler_block: HandlerBlock)
        ensures
            final(self).handler_blocks@ == old(self).handler_blocks@.push(handler_block),
            final(self).blocks == old(self).blocks,
            final(self).locals == old(self).locals,
            final(self).evidence_layout == old(self).evidence_layout,
            final(self).effect_statements == old(self).effect_statements,
            final(self).effect_terminators == old(self).effect_terminators,
    {
        self.handler_blocks.push(handler_block);
    }

    /// Whether the function performs no effects.
    pub fn is_pure(&self) -> (b: bool)
        ensures
            b == (self.effect_row.effects@.len() == 0 && !self.effect_row.is_open),
    {
        self.effect_row.is_pure()
    }

    /// Whether the function has evidence parameters.
    pub fn has_evidence(&self) -> (b: bool)
        ensures
            b == (self.evidence_params@.len() > 0),
    {
        self.evidence_params.len() > 0
    }
}


// ============================================================================
// Programs
// ============================================================================

/// A whole MIR program.
#[derive(Debug, Clone)]
pub struct MirProgram {
    pub functions: AssocMap<FunctionId, MirFunction>,
    pub structs: AssocMap<StructId, MirStruct>,
    pub enums: AssocMap<EnumId, MirEnum>,
    pub effects: AssocMap<EffectId, MirEffect>,
    pub handlers: AssocMap<HandlerId, MirHandler>,
    /// The entry point.
    pub entry: Option<FunctionId>,
    /// Interned string literals.
    pub strings: Vec<String>,
    /// The next effect identifier to be allocated.
    pub next_effect_id: u32,
    /// The next handler identifier to be allocated.
    pub next_handler_id: u32,
    /// The next function identifier to be allocated.
    pub next_fn_id: u32,
    /// Instances of generic functions, by generic function and type arguments.
    pub mono_cache: Vec<((FunctionId, Vec<MirType>), FunctionId)>,
    /// Functions by name.
    pub fn_name_to_id: Vec<(String, FunctionId)>,
}

impl MirProgram {
    /// Lets `name` refer to function `id`: the first entry of that name is
    /// replaced, or a new entry added.
    pub(crate) fn register_fn_name(&mut self, name: String, id: FunctionId)
        ensures
            final(self).functions == old(self).functions,
            final(self).structs == old(self).structs,
            final(self).enums == old(self).enums,
            final(self).effects == old(self).effects,
            final(self).handlers == old(self).handlers,
            final(self).entry == old(self).entry,
            final(self).strings == old(self).strings,
            final(self).next_fn() == old(self).next_fn(),
            old(self).wf() ==> final(self).wf(),
    {
        let mut i: usize = 0;
        while i < self.fn_name_to_id.len()
            invariant
                0 <= i <= self.fn_name_to_id@.len(),
                *self == *old(self),
            decreases self.fn_name_to_id@.len() - i,
        {
            if crate::text::str_equal(self.fn_name_to_id[i].0.as_str(), name.as_str()) {
                self.fn_name_to_id.set(i, (name, id));
                return;
            }
            i = i + 1;
        }
        self.fn_name_to_id.push((name, id));
    }
}

/// The first position in `names` whose name is `name`.
pub open spec fn name_position(names: Seq<(String, FunctionId)>, name: Seq<char>) -> Option<int> {
    if exists|i: int| 0 <= i < names.len() && #[trigger] names[i].0@ == name {
        Some(choose|i: int| 0 <= i < names.len() && #[trigger] names[i].0@ == name
            && forall|j: int| 0 <= j < i ==> #[trigger] names[j].0@ != name)
    } else {
        None
    }
}

/// The first position of a string in a table.
pub open spec fn string_position(strings: Seq<String>, s: Seq<char>) -> Option<int> {
    if exists|i: int| 0 <= i < strings.len() && #[trigger] strings[i]@ == s {
        Some(choose|i: int| 0 <= i < strings.len() && #[trigger] strings[i]@ == s
            && forall|j: int| 0 <= j < i ==> #[trigger] strings[j]@ != s)
    } else {
        None
    }
}

impl MirProgram {
    /// The internal invariant: the maps have distinct keys and every
    /// function is well formed.
    pub open spec fn wf(&self) -> bool {
        &&& self.functions.wf()
        &&& self.structs.wf()
        &&& self.enums.wf()
        &&& self.effects.wf()
        &&& self.handlers.wf()
        &&& forall|i: int| 0 <= i < self.functions.entries@.len() ==> (#[trigger] self.functions.entries@[i]).1.wf()
    }

    /// The next function identifier to be allocated.
    pub open spec fn next_fn(&self) -> u32 {
        self.next_fn_id
    }

    /// The next effect identifier to be allocated.
    pub open spec fn next_effect(&self) -> u32 {
        self.next_effect_id
    }

    /// The next handler identifier to be allocated.
    pub open spec fn next_handler(&self) -> u32 {
        self.next_handler_id
    }

    /// An empty program.
    pub fn new() -> (p: Self)
        ensures
            p.wf(),
            p.functions.entries@.len() == 0,
            p.structs.entries@.len() == 0,
            p.enums.entries@.len() == 0,
            p.effects.entries@.len() == 0,
            p.handlers.entries@.len() == 0,
            p.entry is None,
            p.strings@.len() == 0,
            p.next_fn() == 0,
            p.next_effect() == 0,
            p.next_handler() == 0,
            p.mono_cache@.len() == 0,
            p.fn_name_to_id@.len() == 0,
    {
        MirProgram {
            functions: AssocMap::new(),
            structs: AssocMap::new(),
            enums: AssocMap::new(),
            effects: AssocMap::new(),
            handlers: AssocMap::new(),
            entry: None,
            strings: Vec::new(),
            next_effect_id: 0,
            next_handler_id: 0,
            next_fn_id: 0,
            mono_cache: Vec::new(),
            fn_name_to_id: Vec::new(),
        }
    }

    /// Allocates a function identifier.
    pub fn alloc_fn_id(&mut self) -> (id: FunctionId)
        requires
            old(self).next_fn() < u32::MAX,
        ensures
            id.0 == old(self).next_fn(),
            final(self).next_fn() == old(self).next_fn() + 1,
            final(self).functions == old(self).functions,
            final(self).effects == old(self).effects,
            final(self).handlers == old(self).handlers,
            final(self).structs == old(self).structs,
            final(self).enums == old(self).enums,
            final(self).strings == old(self).strings,
            final(self).fn_name_to_id == old(self).fn_name_to_id,
            final(self).next_effect() == old(self).next_effect(),
            final(self).next_handler() == old(self).next_handler(),
    {
        let id = FunctionId(self.next_fn_id);
        self.next_fn_id = self.next_fn_id + 1;
        id
    }

    /// Sets the next function identifier.
    pub fn set_next_fn_id(&mut self, id: u32)
        ensures
            final(self).next_fn() == id,
            final(self).functions == old(self).functions,
            final(self).structs == old(self).structs,
            final(self).enums == old(self).enums,
            final(self).entry == old(self).entry,
            final(self).effects == old(self).effects,
            final(self).handlers == old(self).handlers,
            final(self).strings == old(self).strings,
            final(self).fn_name_to_id == old(self).fn_name_to_id,
            final(self).next_effect() == old(self).next_effect(),
            final(self).next_handler() == old(self).next_handler(),
    {
        self.next_fn_id = id;
    }

    /// The function registered under `name`, with its identifier: the first
    /// name entry that matches, and the function of its identifier.
    pub fn function_by_name(&self, name: &str) -> (r: Option<(FunctionId, &MirFunction)>)
        requires
            self.wf(),
        ensures
            r matches Some((id, f)) ==> (name_position(self.fn_name_to_id@, name@) matches Some(i)
                && self.fn_name_to_id@[i].1 == id && self.functions.get_spec(id) == Some(*f)),
            r is None ==> (match name_position(self.fn_name_to_id@, name@) {
                Some(i) => self.functions.get_spec(self.fn_name_to_id@[i].1) is None,
                None => true,
            }),
    {
        let mut i: usize = 0;
        while i < self.fn_name_to_id.len()
            invariant
                self.wf(),
                0 <= i <= self.fn_name_to_id@.len(),
                forall|j: int| 0 <= j < i ==> #[trigger] self.fn_name_to_id@[j].0@ != name@,
            decreases self.fn_name_to_id@.len() - i,
        {
            if crate::text::str_equal(self.fn_name_to_id[i].0.as_str(), name) {
                let id = self.fn_name_to_id[i].1;
                assert(name_position(self.fn_name_to_id@, name@) == Some(i as int)) by {
                    let k = choose|k: int| 0 <= k < self.fn_name_to_id@.len() && #[trigger] self.fn_name_to_id@[k].0@ == name@
                        && forall|j: int| 0 <= j < k ==> #[trigger] self.fn_name_to_id@[j].0@ != name@;
                    assert(self.fn_name_to_id@[i as int].0@ == name@);
                    if k < i {
                    } else if k > i {
                    }
                }
                return match self.functions.get(&id) {
                    Some(f) => Some((id, f)),
                    None => None,
                };
            }
            i = i + 1;
        }
        None
    }

    /// The index of `s` in the string table, added at the end if absent.
    pub fn intern_string(&mut self, s: String) -> (idx: u32)
        ensures
            match string_position(old(self).strings@, s@) {
                Some(i) => idx == i as u32 && final(self).strings == old(self).strings,
                None => idx == old(self).strings@.len() as u32 && final(self).strings@ == old(self).strings@.push(s),
            },
            final(self).functions == old(self).functions,
            final(self).effects == old(self).effects,
            final(self).handlers == old(self).handlers,
            final(self).structs == old(self).structs,
            final(self).enums == old(self).enums,
            final(self).fn_name_to_id == old(self).fn_name_to_id,
            final(self).next_fn() == old(self).next_fn(),
            final(self).next_effect() == old(self).next_effect(),
            final(self).next_handler() == old(self).next_handler(),
    {
        let mut i: usize = 0;
        while i < self.strings.len()
            invariant
                0 <= i <= self.strings@.len(),
                forall|j: int| 0 <= j < i ==> #[trigger] self.strings@[j]@ != s@,
            decreases self.strings@.len() - i,
        {
            if crate::text::str_equal(self.strings[i].as_str(), s.as_str()) {
                assert(string_position(self.strings@, s@) == Some(i as int)) by {
                    let k = choose|k: int| 0 <= k < self.strings@.len() && #[trigger] self.strings@[k]@ == s@
                        && forall|j: int| 0 <= j < k ==> #[trigger] self.strings@[j]@ != s@;
                    assert(self.strings@[i as int]@ == s@);
                    if k < i {
                    } else if k > i {
                    }
                }
                return i as u32;
            }
            i = i + 1;
        }
        let idx = self.strings.len() as u32;
        self.strings.push(s);
        idx
    }

    /// Creates an effect without operations under the next effect
    /// identifier.
    pub fn new_effect(&mut self, name: String, span: Span) -> (id: EffectId)
        requires
            old(self).wf(),
            old(self).next_effect() < u32::MAX,
        ensures
            final(self).wf(),
            id.0 == old(self).next_effect(),
            final(self).next_effect() == old(self).next_effect() + 1,
            final(self).effects.get_spec(id) matches Some(e) && e.id == id && e.name == name
                && e.type_params@.len() == 0 && e.operations@.len() == 0 && e.span == span,
            forall|x: EffectId| x != id ==> final(self).effects.get_spec(x) == old(self).effects.get_spec(x),
            final(self).functions == old(self).functions,
            final(self).handlers == old(self).handlers,
            final(self).strings == old(self).strings,
            final(self).next_fn() == old(self).next_fn(),
            final(self).next_handler() == old(self).next_handler(),
    {
        let id = EffectId(self.next_effect_id);
        self.next_effect_id = self.next_effect_id + 1;
        let effect = MirEffect::new(id, name, span);
        let _ = self.effects.insert(id, effect);
        id
    }

    /// The effect `id`.
    pub fn effect(&self, id: EffectId) -> (r: Option<&MirEffect>)
        requires
            self.wf(),
        ensures
            r matches Some(e) ==> self.effects.get_spec(id) == Some(*e),
            r is None ==> self.effects.get_spec(id) is None,
    {
        self.effects.get(&id)
    }

    /// The effect `id`, for change in place.
    pub fn effect_mut(&mut self, id: EffectId) -> (r: Option<&mut MirEffect>)
        requires
            old(self).wf(),
        ensures
            r is None <==> old(self).effects.get_spec(id) is None,
            r is None ==> *final(self) == *old(self),
            r matches Some(e) ==> old(self).effects.get_spec(id) == Some(*e)
                && exists|i: int| 0 <= i < old(self).effects.entries@.len() && old(self).effects.entries@[i].0 == id
                    && final(self).effects.entries@ == old(self).effects.entries@.update(i, (id, *final(e))),
            final(self).wf(),
            final(self).functions == old(self).functions,
            final(self).handlers == old(self).handlers,
            final(self).structs == old(self).structs,
            final(self).enums == old(self).enums,
            final(self).entry == old(self).entry,
            final(self).strings == old(self).strings,
            final(self).next_fn() == old(self).next_fn(),
            final(self).next_effect() == old(self).next_effect(),
            final(self).next_handler() == old(self).next_handler(),
    {
        self.effects.get_mut(&id)
    }

    /// Creates a handler of `effect` without blocks under the next handler
    /// identifier.
    pub fn new_handler(&mut self, effect: EffectType, span: Span) -> (id: HandlerId)
        requires
            old(self).wf(),
            old(self).next_handler() < u32::MAX,
        ensures
            final(self).wf(),
            id.0 == old(self).next_handler(),
            final(self).next_handler() == old(self).next_handler() + 1,
            final(self).handlers.get_spec(id) matches Some(h) && h.id == id && h.effect == effect
                && h.operation_blocks@.len() == 0 && h.return_block is None && h.is_tail_resumptive && h.span == span,
            forall|x: HandlerId| x != id ==> final(self).handlers.get_spec(x) == old(self).handlers.get_spec(x),
            final(self).functions == old(self).functions,
            final(self).effects == old(self).effects,
            final(self).strings == old(self).strings,
            final(self).next_fn() == old(self).next_fn(),
            final(self).next_effect() == old(self).next_effect(),
    {
        let id = HandlerId(self.next_handler_id);
        self.next_handler_id = self.next_handler_id + 1;
        let handler = MirHandler::new(id, effect, span);
        let _ = self.handlers.insert(id, handler);
        id
    }

    /// The handler `id`, for change in place.
    pub fn handler_mut(&mut self, id: HandlerId) -> (r: Option<&mut MirHandler>)
        requires
            old(self).wf(),
        ensures
            r is None <==> old(self).handlers.get_spec(id) is None,
            r is None ==> *final(self) == *old(self),
            r matches Some(h) ==> old(self).handlers.get_spec(id) == Some(*h)
                && exists|i: int| 0 <= i < old(self).handlers.entries@.len() && old(self).handlers.entries@[i].0 == id
                    && final(self).handlers.entries@ == old(self).handlers.entries@.update(i, (id, *final(h))),
            final(self).wf(),
            final(self).functions == old(self).functions,
            final(self).effects == old(self).effects,
            final(self).structs == old(self).structs,
            final(self).enums == old(self).enums,
            final(self).entry == old(self).entry,
            final(self).strings == old(self).strings,
            final(self).next_fn() == old(self).next_fn(),
            final(self).next_effect() == old(self).next_effect(),
            final(self).next_handler() == old(self).next_handler(),
    {
        self.handlers.get_mut(&id)
    }

    /// The handler `id`.
    pub fn handler(&self, id: HandlerId) -> (r: Option<&MirHandler>)
        requires
            self.wf(),
        ensures
            r matches Some(h) ==> self.handlers.get_spec(id) == Some(*h),
            r is None ==> self.handlers.get_spec(id) is None,
    {
        self.handlers.get(&id)
    }
}

impl Default for MirProgram {
    fn default() -> (p: Self)
        ensures
            p.wf(),
            p.functions.entries@.len() == 0,
            p.next_fn() == 0,
    {
        MirProgram::new()
    }
}


// ============================================================================
// Type substitution in code
// ============================================================================

/// `after` is the statement kind `before` with its types substituted: the
/// element type of an array aggregate and the target type of a cast, by
/// `subst_v`; everything else is unchanged.
pub open spec fn stmt_kind_substituted(before: StatementKind, after: StatementKind, subs: Seq<(Seq<char>, TypeV)>) -> bool {
    match before {
        StatementKind::Assign(p, Rvalue::Aggregate(AggregateKind::Array(t), ops)) =>
            after matches StatementKind::Assign(p2, Rvalue::Aggregate(AggregateKind::Array(t2), ops2))
                && p2 == p && ops2 == ops && t2@ == subst_v(t@, subs),
        StatementKind::Assign(p, Rvalue::Cast(c, o, t)) =>
            after matches StatementKind::Assign(p2, Rvalue::Cast(c2, o2, t2))
                && p2 == p && c2 == c && o2 == o && t2@ == subst_v(t@, subs),
        _ => after == before,
    }
}

/// Substitutes type parameters, by name, in the types a statement mentions:
/// the element type of an array aggregate and the target type of a cast.
pub fn substitute_types_in_stmt(stmt: &mut Statement, substitutions: &[(String, MirType)])
    ensures
        final(stmt).span == old(stmt).span,
        stmt_kind_substituted(old(stmt).kind, final(stmt).kind, subs_view(substitutions@)),
{
    let mut kind = StatementKind::Nop;
    std::mem::swap(&mut kind, &mut stmt.kind);
    let new_kind = match kind {
        StatementKind::Assign(p, Rvalue::Aggregate(AggregateKind::Array(t), ops)) =>
            StatementKind::Assign(p, Rvalue::Aggregate(AggregateKind::Array(t.substitute(substitutions)), ops)),
        StatementKind::Assign(p, Rvalue::Cast(c, o, t)) =>
            StatementKind::Assign(p, Rvalue::Cast(c, o, t.substitute(substitutions))),
        other => other,
    };
    stmt.kind = new_kind;
}

/// Substitutes type parameters in an operand: operands carry no types (a
/// constant is a value or a function identifier), so it is unchanged.
pub fn substitute_types_in_operand(operand: &mut Operand, substitutions: &[(String, MirType)])
    ensures
        *final(operand) == *old(operand),
{
}

/// Substitutes type parameters in a terminator: the operands it reads
/// (a switch's discriminant, a call's callee and arguments, an assertion's
/// condition) carry no types, so the terminator is unchanged; a call's
/// arguments are operands like its callee.
pub fn substitute_types_in_terminator(terminator: &mut Option<Terminator>, substitutions: &[(String, MirType)])
    ensures
        *final(terminator) == *old(terminator),
{
    match terminator {
        Some(term) => match &mut term.kind {
            TerminatorKind::SwitchInt { discr, .. } => substitute_types_in_operand(discr, substitutions),
            TerminatorKind::Call { func, .. } => substitute_types_in_operand(func, substitutions),
            TerminatorKind::Assert { cond, .. } => substitute_types_in_operand(cond, substitutions),
            _ => {},
        },
        None => {},
    }
}

} // verus!
