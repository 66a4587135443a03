//! The parts of lowering that do not read the syntax tree: type inference
//! with type variables, the registry of types exported by modules, the
//! lowering context's tables, and the type of places and operands.

use vstd::prelude::*;
use crate::assoc::{NameMap, first_named};
use crate::mir::{BinOp, UnOp};
use crate::mir::{
    BasicBlock, BlockId, BuiltinKind, Constant, EnumId, FunctionId, Linkage, Local, MirEnum, MirFunction,
    MirProgram, MirStruct, MirType, Operand, Place, PlaceElem, Rvalue, Span, Statement, StatementKind,
    StructId, Terminator, TerminatorKind, TypeV, TypeVarId, collect_list, collect_v, subs_view, subst_v,
    tys_view, lookup_subst, LocalDecl, is_copy_v, MirField, MirVariant,
};
use crate::text::{decimal, push_all, push_decimal, slice_chars, str_chars, str_equal, string_from_chars};
use crate::ast::{DataDecl, EnumDecl, EnumVariant, EnumVariantData, FieldDecl, StructDecl, TypeExpr};

verus! {

// ============================================================================
// Type variables in type values
// ============================================================================

/// The number of constructors in a type.
pub open spec fn ty_size(t: TypeV) -> nat
    decreases t, 0int,
{
    match t {
        TypeV::Array(b) => 1 + ty_size(*b),
        TypeV::Tuple(s) => 1 + list_size(s, s.len() as int),
        TypeV::MapOf(k, v) => 1 + ty_size(*k) + ty_size(*v),
        TypeV::Optional(b) => 1 + ty_size(*b),
        TypeV::Result(a, b) => 1 + ty_size(*a) + ty_size(*b),
        TypeV::Ref(b) => 1 + ty_size(*b),
        TypeV::RefMut(b) => 1 + ty_size(*b),
        TypeV::FnPtr { params, ret } => 1 + list_size(params, params.len() as int) + ty_size(*ret),
        TypeV::Closure { params, ret } => 1 + list_size(params, params.len() as int) + ty_size(*ret),
        TypeV::Generic { name, args } => 1 + list_size(args, args.len() as int),
        _ => 1,
    }
}

/// The number of constructors in `s[..n]`.
pub open spec fn list_size(s: Seq<TypeV>, n: int) -> nat
    decreases s, n,
{
    if n <= 0 || n > s.len() {
        0
    } else {
        list_size(s, n - 1) + ty_size(s[n - 1])
    }
}

/// Whether the type variable `v` occurs in `t`.
pub open spec fn has_var(t: TypeV, v: TypeVarId) -> bool
    decreases t, 0int,
{
    match t {
        TypeV::TypeVar(id) => id == v,
        TypeV::Array(b) => has_var(*b, v),
        TypeV::Tuple(s) => any_var(s, s.len() as int, v),
        TypeV::MapOf(k, w) => has_var(*k, v) || has_var(*w, v),
        TypeV::Optional(b) => has_var(*b, v),
        TypeV::Result(a, b) => has_var(*a, v) || has_var(*b, v),
        TypeV::Ref(b) => has_var(*b, v),
        TypeV::RefMut(b) => has_var(*b, v),
        TypeV::FnPtr { params, ret } => any_var(params, params.len() as int, v) || has_var(*ret, v),
        TypeV::Closure { params, ret } => any_var(params, params.len() as int, v) || has_var(*ret, v),
        TypeV::Generic { name, args } => any_var(args, args.len() as int, v),
        _ => false,
    }
}

/// Whether `v` occurs in one of `s[..n]`.
pub open spec fn any_var(s: Seq<TypeV>, n: int, v: TypeVarId) -> bool
    decreases s, n,
{
    if n <= 0 || n > s.len() {
        false
    } else {
        any_var(s, n - 1, v) || has_var(s[n - 1], v)
    }
}

/// The type bound to `v`: the first binding of `v` in `s`.
pub open spec fn lookup_var(s: Seq<(TypeVarId, TypeV)>, v: TypeVarId) -> Option<TypeV>
    decreases s.len(),
{
    if s.len() == 0 {
        None
    } else if s[0].0 == v {
        Some(s[0].1)
    } else {
        lookup_var(s.drop_first(), v)
    }
}

/// Whether `v` is bound in `s`.
pub open spec fn bound(s: Seq<(TypeVarId, TypeV)>, v: TypeVarId) -> bool {
    lookup_var(s, v) is Some
}

/// `t` with every bound type variable replaced by its binding.
pub open spec fn res_v(t: TypeV, s: Seq<(TypeVarId, TypeV)>) -> TypeV
    decreases t, 0int,
{
    match t {
        TypeV::TypeVar(id) => match lookup_var(s, id) {
            Some(r) => r,
            None => t,
        },
        TypeV::Array(b) => TypeV::Array(Box::new(res_v(*b, s))),
        TypeV::Tuple(l) => TypeV::Tuple(res_list(l, s, l.len() as int)),
        TypeV::MapOf(k, v) => TypeV::MapOf(Box::new(res_v(*k, s)), Box::new(res_v(*v, s))),
        TypeV::Optional(b) => TypeV::Optional(Box::new(res_v(*b, s))),
        TypeV::Result(a, b) => TypeV::Result(Box::new(res_v(*a, s)), Box::new(res_v(*b, s))),
        TypeV::Ref(b) => TypeV::Ref(Box::new(res_v(*b, s))),
        TypeV::RefMut(b) => TypeV::RefMut(Box::new(res_v(*b, s))),
        TypeV::FnPtr { params, ret } => TypeV::FnPtr {
            params: res_list(params, s, params.len() as int),
            ret: Box::new(res_v(*ret, s)),
        },
        TypeV::Closure { params, ret } => TypeV::Closure {
            params: res_list(params, s, params.len() as int),
            ret: Box::new(res_v(*ret, s)),
        },
        TypeV::Generic { name, args } => TypeV::Generic { name, args: res_list(args, s, args.len() as int) },
        _ => t,
    }
}

/// `s[..n]` with the bindings applied to each element.
pub open spec fn res_list(l: Seq<TypeV>, s: Seq<(TypeVarId, TypeV)>, n: int) -> Seq<TypeV>
    decreases l, n,
{
    if n <= 0 || n > l.len() {
        Seq::empty()
    } else {
        res_list(l, s, n - 1).push(res_v(l[n - 1], s))
    }
}

/// The bindings are well formed: no variable is bound twice, and no bound
/// type mentions a bound variable.
pub open spec fn bindings_wf(s: Seq<(TypeVarId, TypeV)>) -> bool {
    &&& forall|i: int, j: int| 0 <= i < j < s.len() ==> #[trigger] s[i].0 != #[trigger] s[j].0
    &&& forall|i: int, v: TypeVarId| 0 <= i < s.len() && #[trigger] has_var(s[i].1, v) ==> !bound(s, v)
}

/// No variable of `t` is bound in `s`.
pub open spec fn free_of(t: TypeV, s: Seq<(TypeVarId, TypeV)>) -> bool {
    forall|v: TypeVarId| #[trigger] has_var(t, v) ==> !bound(s, v)
}

/// The bindings after binding `id` to `b`: `id` is replaced by `b` in the
/// existing bindings, and the new binding is added.
pub open spec fn bind(s: Seq<(TypeVarId, TypeV)>, id: TypeVarId, b: TypeV) -> Seq<(TypeVarId, TypeV)> {
    s.map_values(|p: (TypeVarId, TypeV)| (p.0, res_v(p.1, seq![(id, b)]))).push((id, b))
}

// ============================================================================
// Lemmas on sizes, occurrences and lookups
// ============================================================================

proof fn lemma_list_size_elem(s: Seq<TypeV>, n: int, i: int)
    requires
        0 <= i < n <= s.len(),
    ensures
        ty_size(s[i]) <= list_size(s, n),
    decreases n,
{
    if i < n - 1 {
        lemma_list_size_elem(s, n - 1, i);
    }
}

proof fn lemma_any_var_elem(s: Seq<TypeV>, n: int, v: TypeVarId)
    requires
        0 <= n <= s.len(),
    ensures
        any_var(s, n, v) <==> exists|i: int| 0 <= i < n && has_var(#[trigger] s[i], v),
    decreases n,
{
    if n > 0 {
        lemma_any_var_elem(s, n - 1, v);
        if has_var(s[n - 1], v) {
            assert(0 <= n - 1 < n && has_var(s[n - 1], v));
        }
    }
}

proof fn lemma_res_list_index(l: Seq<TypeV>, s: Seq<(TypeVarId, TypeV)>, n: int)
    requires
        0 <= n <= l.len(),
    ensures
        res_list(l, s, n).len() == n,
        forall|i: int| 0 <= i < n ==> #[trigger] res_list(l, s, n)[i] == res_v(l[i], s),
    decreases n,
{
    if n > 0 {
        lemma_res_list_index(l, s, n - 1);
    }
}

proof fn lemma_lookup_index(s: Seq<(TypeVarId, TypeV)>, v: TypeVarId)
    ensures
        lookup_var(s, v) matches Some(r) ==> exists|i: int| 0 <= i < s.len() && #[trigger] s[i] == (v, r),
        lookup_var(s, v) is None ==> forall|i: int| 0 <= i < s.len() ==> #[trigger] s[i].0 != v,
    decreases s.len(),
{
    if s.len() > 0 {
        lemma_lookup_index(s.drop_first(), v);
        if s[0].0 != v {
            if let Some(r) = lookup_var(s, v) {
                let i = choose|i: int| 0 <= i < s.drop_first().len() && #[trigger] s.drop_first()[i] == (v, r);
                assert(s[i + 1] == (v, r));
            } else {
                assert forall|i: int| 0 <= i < s.len() implies #[trigger] s[i].0 != v by {
                    if i > 0 {
                        assert(s[i] == s.drop_first()[i - 1]);
                    }
                }
            }
        } else {
            assert(s[0] == (v, s[0].1));
        }
    }
}

proof fn lemma_lookup_at(s: Seq<(TypeVarId, TypeV)>, i: int)
    requires
        0 <= i < s.len(),
        forall|a: int, b: int| 0 <= a < b < s.len() ==> #[trigger] s[a].0 != #[trigger] s[b].0,
    ensures
        lookup_var(s, s[i].0) == Some(s[i].1),
    decreases s.len(),
{
    if i > 0 {
        assert(s[0].0 != s[i].0);
        assert forall|a: int, b: int| 0 <= a < b < s.drop_first().len() implies
            #[trigger] s.drop_first()[a].0 != #[trigger] s.drop_first()[b].0 by {
            assert(s[a + 1].0 != s[b + 1].0);
        }
        lemma_lookup_at(s.drop_first(), i - 1);
    }
}

// ============================================================================
// Resolution
// ============================================================================

/// Resolving a type whose variables are all unbound leaves it unchanged.
proof fn lemma_res_free(t: TypeV, s: Seq<(TypeVarId, TypeV)>)
    requires
        free_of(t, s),
    ensures
        res_v(t, s) == t,
    decreases t, 0int,
{
    match t {
        TypeV::TypeVar(id) => {
            assert(has_var(t, id));
            assert(!bound(s, id));
            assert(lookup_var(s, id) is None);
            assert(res_v(t, s) == t);
        },
        TypeV::Array(b) => { lemma_free_sub(t, *b, s); lemma_res_free(*b, s); },
        TypeV::Tuple(l) => { lemma_free_list(t, l, s); lemma_res_free_list(l, s, l.len() as int); assert(l.take(l.len() as int) =~= l); },
        TypeV::MapOf(k, v) => { lemma_free_sub(t, *k, s); lemma_free_sub(t, *v, s); lemma_res_free(*k, s); lemma_res_free(*v, s); },
        TypeV::Optional(b) => { lemma_free_sub(t, *b, s); lemma_res_free(*b, s); },
        TypeV::Result(a, b) => { lemma_free_sub(t, *a, s); lemma_free_sub(t, *b, s); lemma_res_free(*a, s); lemma_res_free(*b, s); },
        TypeV::Ref(b) => { lemma_free_sub(t, *b, s); lemma_res_free(*b, s); },
        TypeV::RefMut(b) => { lemma_free_sub(t, *b, s); lemma_res_free(*b, s); },
        TypeV::FnPtr { params, ret } => {
            lemma_free_list(t, params, s); lemma_free_sub(t, *ret, s);
            lemma_res_free_list(params, s, params.len() as int); lemma_res_free(*ret, s);
            assert(params.take(params.len() as int) =~= params);
        },
        TypeV::Closure { params, ret } => {
            lemma_free_list(t, params, s); lemma_free_sub(t, *ret, s);
            lemma_res_free_list(params, s, params.len() as int); lemma_res_free(*ret, s);
            assert(params.take(params.len() as int) =~= params);
        },
        TypeV::Generic { name, args } => { lemma_free_list(t, args, s); lemma_res_free_list(args, s, args.len() as int); assert(args.take(args.len() as int) =~= args); },
        _ => {},
    }
}

/// A direct part of a type whose variables are all unbound has the same
/// property.
proof fn lemma_free_sub(t: TypeV, part: TypeV, s: Seq<(TypeVarId, TypeV)>)
    requires
        free_of(t, s),
        forall|v: TypeVarId| #[trigger] has_var(part, v) ==> has_var(t, v),
    ensures
        free_of(part, s),
{
}

proof fn lemma_free_list(t: TypeV, l: Seq<TypeV>, s: Seq<(TypeVarId, TypeV)>)
    requires
        free_of(t, s),
        forall|v: TypeVarId| #[trigger] any_var(l, l.len() as int, v) ==> has_var(t, v),
    ensures
        forall|v: TypeVarId| #[trigger] any_var(l, l.len() as int, v) ==> !bound(s, v),
{
}

proof fn lemma_res_free_list(l: Seq<TypeV>, s: Seq<(TypeVarId, TypeV)>, n: int)
    requires
        0 <= n <= l.len(),
        forall|v: TypeVarId| #[trigger] any_var(l, n, v) ==> !bound(s, v),
    ensures
        res_list(l, s, n) == l.take(n),
    decreases l, n,
{
    if n > 0 {
        assert forall|v: TypeVarId| #[trigger] any_var(l, n - 1, v) ==> !bound(s, v) by {
            if any_var(l, n - 1, v) {
                assert(any_var(l, n, v));
            }
        }
        lemma_res_free_list(l, s, n - 1);
        assert forall|v: TypeVarId| #[trigger] has_var(l[n - 1], v) implies !bound(s, v) by {
            assert(any_var(l, n, v));
        }
        lemma_res_free(l[n - 1], s);
        assert(l.take(n) =~= l.take(n - 1).push(l[n - 1]));
    }
}

/// Where a variable of a resolved type comes from: an unbound variable of
/// `t`, or a variable of the binding of a bound variable of `t`.
pub open spec fn var_source(t: TypeV, s: Seq<(TypeVarId, TypeV)>, v: TypeVarId) -> bool {
    (has_var(t, v) && !bound(s, v)) || exists|k: TypeVarId| #[trigger] has_var(t, k) && bound(s, k)
        && has_var(lookup_var(s, k).unwrap(), v)
}

/// The same for a list.
pub open spec fn var_source_list(l: Seq<TypeV>, s: Seq<(TypeVarId, TypeV)>, v: TypeVarId) -> bool {
    (any_var(l, l.len() as int, v) && !bound(s, v)) || exists|k: TypeVarId| #[trigger] any_var(l, l.len() as int, k)
        && bound(s, k) && has_var(lookup_var(s, k).unwrap(), v)
}

proof fn lemma_src_sub(t: TypeV, part: TypeV, s: Seq<(TypeVarId, TypeV)>, v: TypeVarId)
    requires
        var_source(part, s, v),
        forall|k: TypeVarId| #[trigger] has_var(part, k) ==> has_var(t, k),
    ensures
        var_source(t, s, v),
{
    if !(has_var(part, v) && !bound(s, v)) {
        let k = choose|k: TypeVarId| #[trigger] has_var(part, k) && bound(s, k) && has_var(lookup_var(s, k).unwrap(), v);
        assert(has_var(t, k));
    }
}

proof fn lemma_src_list(t: TypeV, l: Seq<TypeV>, s: Seq<(TypeVarId, TypeV)>, v: TypeVarId)
    requires
        var_source_list(l, s, v),
        forall|k: TypeVarId| #[trigger] any_var(l, l.len() as int, k) ==> has_var(t, k),
    ensures
        var_source(t, s, v),
{
    if !(any_var(l, l.len() as int, v) && !bound(s, v)) {
        let k = choose|k: TypeVarId| #[trigger] any_var(l, l.len() as int, k) && bound(s, k) && has_var(lookup_var(s, k).unwrap(), v);
        assert(has_var(t, k));
    }
}

/// The variables of a resolved type come from the type or from bindings.
proof fn lemma_res_vars(t: TypeV, s: Seq<(TypeVarId, TypeV)>, v: TypeVarId)
    requires
        has_var(res_v(t, s), v),
    ensures
        var_source(t, s, v),
    decreases t, 0int,
{
    match t {
        TypeV::TypeVar(id) => {
            if bound(s, id) {
                assert(has_var(t, id) && bound(s, id) && has_var(lookup_var(s, id).unwrap(), v));
            } else {
                assert(res_v(t, s) == t);
                assert(v == id);
            }
        },
        TypeV::Array(b) => { lemma_res_vars(*b, s, v); lemma_src_sub(t, *b, s, v); },
        TypeV::Tuple(l) => {
            lemma_res_list_index(l, s, l.len() as int);
            lemma_res_vars_list(l, s, l.len() as int, v);
            lemma_src_list(t, l, s, v);
        },
        TypeV::MapOf(k, w) => {
            if has_var(res_v(*k, s), v) {
                lemma_res_vars(*k, s, v); lemma_src_sub(t, *k, s, v);
            } else {
                lemma_res_vars(*w, s, v); lemma_src_sub(t, *w, s, v);
            }
        },
        TypeV::Optional(b) => { lemma_res_vars(*b, s, v); lemma_src_sub(t, *b, s, v); },
        TypeV::Result(a, b) => {
            if has_var(res_v(*a, s), v) {
                lemma_res_vars(*a, s, v); lemma_src_sub(t, *a, s, v);
            } else {
                lemma_res_vars(*b, s, v); lemma_src_sub(t, *b, s, v);
            }
        },
        TypeV::Ref(b) => { lemma_res_vars(*b, s, v); lemma_src_sub(t, *b, s, v); },
        TypeV::RefMut(b) => { lemma_res_vars(*b, s, v); lemma_src_sub(t, *b, s, v); },
        TypeV::FnPtr { params, ret } => {
            lemma_res_list_index(params, s, params.len() as int);
            if any_var(res_list(params, s, params.len() as int), params.len() as int, v) {
                lemma_res_vars_list(params, s, params.len() as int, v);
                lemma_src_list(t, params, s, v);
            } else {
                lemma_res_vars(*ret, s, v); lemma_src_sub(t, *ret, s, v);
            }
        },
        TypeV::Closure { params, ret } => {
            lemma_res_list_index(params, s, params.len() as int);
            if any_var(res_list(params, s, params.len() as int), params.len() as int, v) {
                lemma_res_vars_list(params, s, params.len() as int, v);
                lemma_src_list(t, params, s, v);
            } else {
                lemma_res_vars(*ret, s, v); lemma_src_sub(t, *ret, s, v);
            }
        },
        TypeV::Generic { name, args } => {
            lemma_res_list_index(args, s, args.len() as int);
            lemma_res_vars_list(args, s, args.len() as int, v);
            lemma_src_list(t, args, s, v);
        },
        _ => {},
    }
}

proof fn lemma_res_vars_list(l: Seq<TypeV>, s: Seq<(TypeVarId, TypeV)>, n: int, v: TypeVarId)
    requires
        n == l.len(),
        any_var(res_list(l, s, n), n, v),
    ensures
        var_source_list(l, s, v),
    decreases l, 0int,
{
    lemma_res_list_index(l, s, n);
    lemma_any_var_elem(res_list(l, s, n), n, v);
    let i = choose|i: int| 0 <= i < n && has_var(#[trigger] res_list(l, s, n)[i], v);
    lemma_res_vars(l[i], s, v);
    lemma_any_var_elem(l, n, v);
    if !(has_var(l[i], v) && !bound(s, v)) {
        let k = choose|k: TypeVarId| #[trigger] has_var(l[i], k) && bound(s, k) && has_var(lookup_var(s, k).unwrap(), v);
        lemma_any_var_elem(l, n, k);
        assert(any_var(l, n, k));
    }
}

/// A resolved type mentions no bound variable.
proof fn lemma_res_free_of(t: TypeV, s: Seq<(TypeVarId, TypeV)>)
    requires
        bindings_wf(s),
    ensures
        free_of(res_v(t, s), s),
{
    assert forall|v: TypeVarId| #[trigger] has_var(res_v(t, s), v) implies !bound(s, v) by {
        lemma_res_vars(t, s, v);
        if !(has_var(t, v) && !bound(s, v)) {
            let k = choose|k: TypeVarId| #[trigger] has_var(t, k) && bound(s, k) && has_var(lookup_var(s, k).unwrap(), v);
            lemma_lookup_index(s, k);
            let i = choose|i: int| 0 <= i < s.len() && #[trigger] s[i] == (k, lookup_var(s, k).unwrap());
            assert(has_var(s[i].1, v));
        }
    }
}

/// Resolving twice is resolving once.
proof fn lemma_res_idem(t: TypeV, s: Seq<(TypeVarId, TypeV)>)
    requires
        bindings_wf(s),
    ensures
        res_v(res_v(t, s), s) == res_v(t, s),
{
    lemma_res_free_of(t, s);
    lemma_res_free(res_v(t, s), s);
}


// ============================================================================
// Binding a variable
// ============================================================================

proof fn lemma_lookup_single(id: TypeVarId, b: TypeV, v: TypeVarId)
    ensures
        lookup_var(seq![(id, b)], v) == (if v == id { Some(b) } else { None::<TypeV> }),
{
    let s = seq![(id, b)];
    assert(s[0] == (id, b));
    if v != id {
        assert(s.drop_first().len() == 0);
        assert(lookup_var(s.drop_first(), v) is None);
    }
}

/// The variables of a type after replacing `id` by `b`.
proof fn lemma_single_vars(r: TypeV, id: TypeVarId, b: TypeV, v: TypeVarId)
    requires
        has_var(res_v(r, seq![(id, b)]), v),
    ensures
        (has_var(r, v) && v != id) || has_var(b, v),
{
    lemma_res_vars(r, seq![(id, b)], v);
    lemma_lookup_single(id, b, v);
    if !(has_var(r, v) && !bound(seq![(id, b)], v)) {
        let k = choose|k: TypeVarId| #[trigger] has_var(r, k) && bound(seq![(id, b)], k)
            && has_var(lookup_var(seq![(id, b)], k).unwrap(), v);
        lemma_lookup_single(id, b, k);
    }
}

/// What a variable is bound to after a binding.
proof fn lemma_lookup_bind(s: Seq<(TypeVarId, TypeV)>, id: TypeVarId, b: TypeV, v: TypeVarId)
    requires
        bindings_wf(s),
        !bound(s, id),
    ensures
        lookup_var(bind(s, id, b), v) == (if v == id {
            Some(b)
        } else if bound(s, v) {
            Some(res_v(lookup_var(s, v).unwrap(), seq![(id, b)]))
        } else {
            None::<TypeV>
        }),
{
    let t = bind(s, id, b);
    lemma_lookup_index(s, id);
    assert forall|a: int, c: int| 0 <= a < c < t.len() implies #[trigger] t[a].0 != #[trigger] t[c].0 by {
        if c < s.len() {
            assert(s[a].0 != s[c].0);
        } else {
            assert(s[a].0 != id);
        }
    }
    if v == id {
        lemma_lookup_at(t, s.len() as int);
    } else if bound(s, v) {
        lemma_lookup_index(s, v);
        let i = choose|i: int| 0 <= i < s.len() && #[trigger] s[i] == (v, lookup_var(s, v).unwrap());
        lemma_lookup_at(t, i);
    } else {
        lemma_lookup_index(s, v);
        lemma_lookup_index(t, v);
        if let Some(r) = lookup_var(t, v) {
            let i = choose|i: int| 0 <= i < t.len() && #[trigger] t[i] == (v, r);
            if i < s.len() {
                assert(s[i].0 == v);
            }
        }
    }
}

/// Binding an unbound variable to a type free of bound variables and of the
/// variable keeps the bindings well formed.
proof fn lemma_bind_wf(s: Seq<(TypeVarId, TypeV)>, id: TypeVarId, b: TypeV)
    requires
        bindings_wf(s),
        !bound(s, id),
        free_of(b, s),
        !has_var(b, id),
    ensures
        bindings_wf(bind(s, id, b)),
        forall|v: TypeVarId| bound(bind(s, id, b), v) <==> (bound(s, v) || v == id),
{
    let t = bind(s, id, b);
    lemma_lookup_index(s, id);
    assert forall|v: TypeVarId| bound(t, v) <==> (bound(s, v) || v == id) by {
        lemma_lookup_bind(s, id, b, v);
    }
    assert forall|a: int, c: int| 0 <= a < c < t.len() implies #[trigger] t[a].0 != #[trigger] t[c].0 by {
        if c < s.len() {
            assert(s[a].0 != s[c].0);
        } else {
            assert(s[a].0 != id);
        }
    }
    assert forall|i: int, v: TypeVarId| 0 <= i < t.len() && #[trigger] has_var(t[i].1, v) implies !bound(t, v) by {
        lemma_lookup_bind(s, id, b, v);
        if i < s.len() {
            lemma_single_vars(s[i].1, id, b, v);
        }
    }
}

/// Resolving under the extended bindings is resolving under the old ones,
/// then replacing the new variable.
proof fn lemma_res_bind(t: TypeV, s: Seq<(TypeVarId, TypeV)>, id: TypeVarId, b: TypeV)
    requires
        bindings_wf(s),
        !bound(s, id),
    ensures
        res_v(t, bind(s, id, b)) == res_v(res_v(t, s), seq![(id, b)]),
    decreases t, 0int,
{
    let sb = bind(s, id, b);
    let one = seq![(id, b)];
    match t {
        TypeV::TypeVar(v) => {
            lemma_lookup_bind(s, id, b, v);
            lemma_lookup_single(id, b, v);
        },
        TypeV::Array(x) => { lemma_res_bind(*x, s, id, b); },
        TypeV::Tuple(l) => { lemma_res_list_index(l, s, l.len() as int); lemma_res_bind_list(l, s, id, b); },
        TypeV::MapOf(k, w) => { lemma_res_bind(*k, s, id, b); lemma_res_bind(*w, s, id, b); },
        TypeV::Optional(x) => { lemma_res_bind(*x, s, id, b); },
        TypeV::Result(x, y) => { lemma_res_bind(*x, s, id, b); lemma_res_bind(*y, s, id, b); },
        TypeV::Ref(x) => { lemma_res_bind(*x, s, id, b); },
        TypeV::RefMut(x) => { lemma_res_bind(*x, s, id, b); },
        TypeV::FnPtr { params, ret } => { lemma_res_list_index(params, s, params.len() as int); lemma_res_bind_list(params, s, id, b); lemma_res_bind(*ret, s, id, b); },
        TypeV::Closure { params, ret } => { lemma_res_list_index(params, s, params.len() as int); lemma_res_bind_list(params, s, id, b); lemma_res_bind(*ret, s, id, b); },
        TypeV::Generic { name, args } => { lemma_res_list_index(args, s, args.len() as int); lemma_res_bind_list(args, s, id, b); },
        _ => {},
    }
}

proof fn lemma_res_bind_list(l: Seq<TypeV>, s: Seq<(TypeVarId, TypeV)>, id: TypeVarId, b: TypeV)
    requires
        bindings_wf(s),
        !bound(s, id),
    ensures
        res_list(l, bind(s, id, b), l.len() as int)
            == res_list(res_list(l, s, l.len() as int), seq![(id, b)], l.len() as int),
    decreases l, 0int,
{
    let n = l.len() as int;
    lemma_res_list_index(l, bind(s, id, b), n);
    lemma_res_list_index(l, s, n);
    lemma_res_list_index(res_list(l, s, n), seq![(id, b)], n);
    assert forall|i: int| 0 <= i < n implies #[trigger] res_list(l, bind(s, id, b), n)[i]
        == res_list(res_list(l, s, n), seq![(id, b)], n)[i] by {
        lemma_res_bind(l[i], s, id, b);
    }
    assert(res_list(l, bind(s, id, b), n) =~= res_list(res_list(l, s, n), seq![(id, b)], n));
}

// ============================================================================
// Extension of bindings
// ============================================================================

/// `s2` extends `s1`: every variable bound in `s1` is bound in `s2`, to a
/// type that resolves as its old binding does.
pub open spec fn extends(s1: Seq<(TypeVarId, TypeV)>, s2: Seq<(TypeVarId, TypeV)>) -> bool {
    forall|v: TypeVarId| #[trigger] bound(s1, v) ==> bound(s2, v)
        && res_v(TypeV::TypeVar(v), s2) == res_v(lookup_var(s1, v).unwrap(), s2)
}

/// Resolving under bindings and then under an extension of them is resolving
/// under the extension.
pub proof fn lemma_extends_res(t: TypeV, s1: Seq<(TypeVarId, TypeV)>, s2: Seq<(TypeVarId, TypeV)>)
    requires
        extends(s1, s2),
    ensures
        res_v(res_v(t, s1), s2) == res_v(t, s2),
    decreases t, 0int,
{
    match t {
        TypeV::TypeVar(v) => {
            if bound(s1, v) {
            }
        },
        TypeV::Array(x) => { lemma_extends_res(*x, s1, s2); },
        TypeV::Tuple(l) => { lemma_res_list_index(l, s1, l.len() as int); lemma_extends_res_list(l, s1, s2); },
        TypeV::MapOf(k, w) => { lemma_extends_res(*k, s1, s2); lemma_extends_res(*w, s1, s2); },
        TypeV::Optional(x) => { lemma_extends_res(*x, s1, s2); },
        TypeV::Result(x, y) => { lemma_extends_res(*x, s1, s2); lemma_extends_res(*y, s1, s2); },
        TypeV::Ref(x) => { lemma_extends_res(*x, s1, s2); },
        TypeV::RefMut(x) => { lemma_extends_res(*x, s1, s2); },
        TypeV::FnPtr { params, ret } => { lemma_res_list_index(params, s1, params.len() as int); lemma_extends_res_list(params, s1, s2); lemma_extends_res(*ret, s1, s2); },
        TypeV::Closure { params, ret } => { lemma_res_list_index(params, s1, params.len() as int); lemma_extends_res_list(params, s1, s2); lemma_extends_res(*ret, s1, s2); },
        TypeV::Generic { name, args } => { lemma_res_list_index(args, s1, args.len() as int); lemma_extends_res_list(args, s1, s2); },
        _ => {},
    }
}

proof fn lemma_extends_res_list(l: Seq<TypeV>, s1: Seq<(TypeVarId, TypeV)>, s2: Seq<(TypeVarId, TypeV)>)
    requires
        extends(s1, s2),
    ensures
        res_list(res_list(l, s1, l.len() as int), s2, l.len() as int) == res_list(l, s2, l.len() as int),
    decreases l, 0int,
{
    let n = l.len() as int;
    lemma_res_list_index(l, s1, n);
    lemma_res_list_index(l, s2, n);
    lemma_res_list_index(res_list(l, s1, n), s2, n);
    assert forall|i: int| 0 <= i < n implies #[trigger] res_list(res_list(l, s1, n), s2, n)[i]
        == res_list(l, s2, n)[i] by {
        lemma_extends_res(l[i], s1, s2);
    }
    assert(res_list(res_list(l, s1, n), s2, n) =~= res_list(l, s2, n));
}

proof fn lemma_extends_refl(s: Seq<(TypeVarId, TypeV)>)
    requires
        bindings_wf(s),
    ensures
        extends(s, s),
{
    assert forall|v: TypeVarId| #[trigger] bound(s, v) implies bound(s, v)
        && res_v(TypeV::TypeVar(v), s) == res_v(lookup_var(s, v).unwrap(), s) by {
        lemma_res_idem(TypeV::TypeVar(v), s);
    }
}

proof fn lemma_extends_trans(s1: Seq<(TypeVarId, TypeV)>, s2: Seq<(TypeVarId, TypeV)>, s3: Seq<(TypeVarId, TypeV)>)
    requires
        extends(s1, s2),
        extends(s2, s3),
    ensures
        extends(s1, s3),
{
    assert forall|v: TypeVarId| #[trigger] bound(s1, v) implies bound(s3, v)
        && res_v(TypeV::TypeVar(v), s3) == res_v(lookup_var(s1, v).unwrap(), s3) by {
        assert(bound(s2, v));
        lemma_extends_res(TypeV::TypeVar(v), s2, s3);
        lemma_extends_res(lookup_var(s1, v).unwrap(), s2, s3);
    }
}

proof fn lemma_extends_bind(s: Seq<(TypeVarId, TypeV)>, id: TypeVarId, b: TypeV)
    requires
        bindings_wf(s),
        !bound(s, id),
    ensures
        extends(s, bind(s, id, b)),
{
    assert forall|v: TypeVarId| #[trigger] bound(s, v) implies bound(bind(s, id, b), v)
        && res_v(TypeV::TypeVar(v), bind(s, id, b)) == res_v(lookup_var(s, v).unwrap(), bind(s, id, b)) by {
        lemma_lookup_bind(s, id, b, v);
        let r = lookup_var(s, v).unwrap();
        lemma_res_bind(r, s, id, b);
        lemma_lookup_index(s, v);
        let i = choose|i: int| 0 <= i < s.len() && #[trigger] s[i] == (v, r);
        assert forall|w: TypeVarId| #[trigger] has_var(r, w) implies !bound(s, w) by {
            assert(has_var(s[i].1, w));
        }
        lemma_res_free(r, s);
    }
}


// ============================================================================
// What unification may bind
// ============================================================================

/// The number of entries of `u[..n]` that are unbound in `s`.
pub open spec fn count_free(u: Seq<TypeVarId>, s: Seq<(TypeVarId, TypeV)>, n: int) -> nat
    decreases n,
{
    if n <= 0 || n > u.len() {
        0
    } else {
        count_free(u, s, n - 1) + if bound(s, u[n - 1]) { 0nat } else { 1nat }
    }
}

/// Every variable bound in `s1` is bound in `s2`.
pub open spec fn keeps_bound(s1: Seq<(TypeVarId, TypeV)>, s2: Seq<(TypeVarId, TypeV)>) -> bool {
    forall|v: TypeVarId| #[trigger] bound(s1, v) ==> bound(s2, v)
}

/// The variables bound in `s1` and not in `s0` are in `u`, and so are the
/// variables of their bindings.
pub open spec fn new_keys_in(u: Seq<TypeVarId>, s0: Seq<(TypeVarId, TypeV)>, s1: Seq<(TypeVarId, TypeV)>) -> bool {
    forall|k: TypeVarId| #[trigger] bound(s1, k) && !bound(s0, k) ==> u.contains(k)
        && forall|v: TypeVarId| #[trigger] has_var(lookup_var(s1, k).unwrap(), v) ==> u.contains(v)
}

/// The variables of `t` resolved under `s` are in `u`.
pub open spec fn covers(u: Seq<TypeVarId>, t: TypeV, s: Seq<(TypeVarId, TypeV)>) -> bool {
    forall|v: TypeVarId| #[trigger] has_var(res_v(t, s), v) ==> u.contains(v)
}

proof fn lemma_count_mono(u: Seq<TypeVarId>, s1: Seq<(TypeVarId, TypeV)>, s2: Seq<(TypeVarId, TypeV)>, n: int)
    requires
        0 <= n <= u.len(),
        keeps_bound(s1, s2),
    ensures
        count_free(u, s2, n) <= count_free(u, s1, n),
        (exists|j: int| 0 <= j < n && bound(s2, #[trigger] u[j]) && !bound(s1, u[j]))
            ==> count_free(u, s2, n) < count_free(u, s1, n),
    decreases n,
{
    if n > 0 {
        lemma_count_mono(u, s1, s2, n - 1);
        if exists|j: int| 0 <= j < n && bound(s2, #[trigger] u[j]) && !bound(s1, u[j]) {
            let j = choose|j: int| 0 <= j < n && bound(s2, #[trigger] u[j]) && !bound(s1, u[j]);
            if j < n - 1 {
                assert(0 <= j < n - 1 && bound(s2, u[j]) && !bound(s1, u[j]));
            }
        }
    }
}

proof fn lemma_new_keys_trans(u: Seq<TypeVarId>, s0: Seq<(TypeVarId, TypeV)>, s1: Seq<(TypeVarId, TypeV)>, s2: Seq<(TypeVarId, TypeV)>)
    requires
        bindings_wf(s1),
        new_keys_in(u, s0, s1),
        new_keys_in(u, s1, s2),
        extends(s1, s2),
        keeps_bound(s0, s1),
    ensures
        new_keys_in(u, s0, s2),
{
    assert forall|k: TypeVarId| #[trigger] bound(s2, k) && !bound(s0, k) implies u.contains(k)
        && forall|v: TypeVarId| #[trigger] has_var(lookup_var(s2, k).unwrap(), v) ==> u.contains(v) by {
        if bound(s1, k) {
            let r1 = lookup_var(s1, k).unwrap();
            assert(res_v(TypeV::TypeVar(k), s2) == lookup_var(s2, k).unwrap());
            assert forall|v: TypeVarId| #[trigger] has_var(lookup_var(s2, k).unwrap(), v) implies u.contains(v) by {
                lemma_res_vars(r1, s2, v);
                if !(has_var(r1, v) && !bound(s2, v)) {
                    let k2 = choose|k2: TypeVarId| #[trigger] has_var(r1, k2) && bound(s2, k2)
                        && has_var(lookup_var(s2, k2).unwrap(), v);
                    lemma_lookup_index(s1, k);
                    let i = choose|i: int| 0 <= i < s1.len() && #[trigger] s1[i] == (k, r1);
                    assert(has_var(s1[i].1, k2));
                    assert(!bound(s1, k2));
                }
            }
        }
    }
}

/// A part of a resolved type stays covered under extended bindings whose new
/// keys are in `u`.
proof fn lemma_covers_part(u: Seq<TypeVarId>, part: TypeV, r: TypeV, s0: Seq<(TypeVarId, TypeV)>, s1: Seq<(TypeVarId, TypeV)>)
    requires
        free_of(r, s0),
        forall|v: TypeVarId| #[trigger] has_var(r, v) ==> u.contains(v),
        forall|v: TypeVarId| #[trigger] has_var(part, v) ==> has_var(r, v),
        new_keys_in(u, s0, s1),
    ensures
        covers(u, part, s1),
{
    assert forall|v: TypeVarId| #[trigger] has_var(res_v(part, s1), v) implies u.contains(v) by {
        lemma_res_vars(part, s1, v);
        if !(has_var(part, v) && !bound(s1, v)) {
            let k = choose|k: TypeVarId| #[trigger] has_var(part, k) && bound(s1, k)
                && has_var(lookup_var(s1, k).unwrap(), v);
            assert(has_var(r, k));
        }
    }
}

proof fn lemma_collect(t: TypeV, acc: Seq<TypeVarId>, v: TypeVarId)
    ensures
        collect_v(t, acc).contains(v) <==> (acc.contains(v) || has_var(t, v)),
    decreases t, 0int,
{
    match t {
        TypeV::TypeVar(id) => {
            if !acc.contains(id) {
                assert(acc.push(id).contains(v) <==> (acc.contains(v) || v == id)) by {
                    if v == id {
                        assert(acc.push(id)[acc.len() as int] == id);
                    }
                    if acc.contains(v) {
                        let i = choose|i: int| 0 <= i < acc.len() && acc[i] == v;
                        assert(acc.push(id)[i] == v);
                    }
                    if acc.push(id).contains(v) {
                        let i = choose|i: int| 0 <= i < acc.push(id).len() && acc.push(id)[i] == v;
                        if i < acc.len() {
                            assert(acc[i] == v);
                        }
                    }
                }
            }
        },
        TypeV::Array(b) => { lemma_collect(*b, acc, v); },
        TypeV::Tuple(l) => { lemma_collect_list(l, l.len() as int, acc, v); },
        TypeV::MapOf(k, w) => { lemma_collect(*k, acc, v); lemma_collect(*w, collect_v(*k, acc), v); },
        TypeV::Optional(b) => { lemma_collect(*b, acc, v); },
        TypeV::Result(a, b) => { lemma_collect(*a, acc, v); lemma_collect(*b, collect_v(*a, acc), v); },
        TypeV::Ref(b) => { lemma_collect(*b, acc, v); },
        TypeV::RefMut(b) => { lemma_collect(*b, acc, v); },
        TypeV::FnPtr { params, ret } => {
            lemma_collect_list(params, params.len() as int, acc, v);
            lemma_collect(*ret, collect_list(params, params.len() as int, acc), v);
        },
        TypeV::Closure { params, ret } => {
            lemma_collect_list(params, params.len() as int, acc, v);
            lemma_collect(*ret, collect_list(params, params.len() as int, acc), v);
        },
        TypeV::Generic { name, args } => { lemma_collect_list(args, args.len() as int, acc, v); },
        _ => {},
    }
}

proof fn lemma_collect_list(l: Seq<TypeV>, n: int, acc: Seq<TypeVarId>, v: TypeVarId)
    requires
        0 <= n <= l.len(),
    ensures
        collect_list(l, n, acc).contains(v) <==> (acc.contains(v) || any_var(l, n, v)),
    decreases l, n,
{
    if n > 0 {
        lemma_collect_list(l, n - 1, acc, v);
        lemma_collect(l[n - 1], collect_list(l, n - 1, acc), v);
    }
}

// ============================================================================
// The parts that unification matches
// ============================================================================

/// The pairs of parts that two types of the same shape are unified by, or
/// `None` when their shapes differ.
pub open spec fn pair_parts(a: TypeV, b: TypeV) -> Option<(Seq<TypeV>, Seq<TypeV>)> {
    match a {
        TypeV::Array(x) => match b {
            TypeV::Array(y) => Some((seq![*x], seq![*y])),
            _ => None,
        },
        TypeV::Tuple(xs) => match b {
            TypeV::Tuple(ys) => if xs.len() == ys.len() { Some((xs, ys)) } else { None },
            _ => None,
        },
        TypeV::MapOf(ak, av) => match b {
            TypeV::MapOf(bk, bv) => Some((seq![*ak, *av], seq![*bk, *bv])),
            _ => None,
        },
        TypeV::Optional(x) => match b {
            TypeV::Optional(y) => Some((seq![*x], seq![*y])),
            _ => None,
        },
        TypeV::Result(ao, ae) => match b {
            TypeV::Result(bo, be) => Some((seq![*ao, *ae], seq![*bo, *be])),
            _ => None,
        },
        TypeV::Ref(x) => match b {
            TypeV::Ref(y) => Some((seq![*x], seq![*y])),
            _ => None,
        },
        TypeV::RefMut(x) => match b {
            TypeV::RefMut(y) => Some((seq![*x], seq![*y])),
            _ => None,
        },
        TypeV::FnPtr { params: ap, ret: ar } => match b {
            TypeV::FnPtr { params: bp, ret: br } => if ap.len() == bp.len() {
                Some((ap.push(*ar), bp.push(*br)))
            } else {
                None
            },
            _ => None,
        },
        TypeV::Generic { name: an, args: aa } => match b {
            TypeV::Generic { name: bn, args: ba } => if an == bn && aa.len() == ba.len() {
                Some((aa, ba))
            } else {
                None
            },
            _ => None,
        },
        _ => None,
    }
}

proof fn lemma_list_vars(l: Seq<TypeV>, i: int, v: TypeVarId)
    requires
        0 <= i < l.len(),
        has_var(l[i], v),
    ensures
        any_var(l, l.len() as int, v),
{
    lemma_any_var_elem(l, l.len() as int, v);
}

/// The parts are smaller than the types and mention only their variables.
proof fn lemma_parts(a: TypeV, b: TypeV)
    requires
        pair_parts(a, b) is Some,
    ensures
        ({
            let (xs, ys) = pair_parts(a, b).unwrap();
            &&& xs.len() == ys.len()
            &&& forall|j: int| 0 <= j < xs.len() ==> ty_size(#[trigger] xs[j]) + ty_size(ys[j]) < ty_size(a) + ty_size(b)
            &&& forall|j: int, v: TypeVarId| 0 <= j < xs.len() && #[trigger] has_var(xs[j], v) ==> has_var(a, v)
            &&& forall|j: int, v: TypeVarId| 0 <= j < ys.len() && #[trigger] has_var(ys[j], v) ==> has_var(b, v)
        }),
{
    let (xs, ys) = pair_parts(a, b).unwrap();
    match a {
        TypeV::Tuple(l) => {
            if let TypeV::Tuple(m) = b {
                assert forall|j: int| 0 <= j < xs.len() implies ty_size(#[trigger] xs[j]) + ty_size(ys[j]) < ty_size(a) + ty_size(b) by {
                    lemma_list_size_elem(l, l.len() as int, j);
                    lemma_list_size_elem(m, m.len() as int, j);
                }
                assert forall|j: int, v: TypeVarId| 0 <= j < xs.len() && #[trigger] has_var(xs[j], v) implies has_var(a, v) by {
                    lemma_list_vars(l, j, v);
                }
                assert forall|j: int, v: TypeVarId| 0 <= j < ys.len() && #[trigger] has_var(ys[j], v) implies has_var(b, v) by {
                    lemma_list_vars(m, j, v);
                }
            }
        },
        TypeV::FnPtr { params: ap, ret: ar } => {
            if let TypeV::FnPtr { params: bp, ret: br } = b {
                assert forall|j: int| 0 <= j < xs.len() implies ty_size(#[trigger] xs[j]) + ty_size(ys[j]) < ty_size(a) + ty_size(b) by {
                    if j < ap.len() {
                        lemma_list_size_elem(ap, ap.len() as int, j);
                        lemma_list_size_elem(bp, bp.len() as int, j);
                    }
                }
                assert forall|j: int, v: TypeVarId| 0 <= j < xs.len() && #[trigger] has_var(xs[j], v) implies has_var(a, v) by {
                    if j < ap.len() {
                        lemma_list_vars(ap, j, v);
                    }
                }
                assert forall|j: int, v: TypeVarId| 0 <= j < ys.len() && #[trigger] has_var(ys[j], v) implies has_var(b, v) by {
                    if j < bp.len() {
                        lemma_list_vars(bp, j, v);
                    }
                }
            }
        },
        TypeV::Generic { name: an, args: aa } => {
            if let TypeV::Generic { name: bn, args: ba } = b {
                assert forall|j: int| 0 <= j < xs.len() implies ty_size(#[trigger] xs[j]) + ty_size(ys[j]) < ty_size(a) + ty_size(b) by {
                    lemma_list_size_elem(aa, aa.len() as int, j);
                    lemma_list_size_elem(ba, ba.len() as int, j);
                }
                assert forall|j: int, v: TypeVarId| 0 <= j < xs.len() && #[trigger] has_var(xs[j], v) implies has_var(a, v) by {
                    lemma_list_vars(aa, j, v);
                }
                assert forall|j: int, v: TypeVarId| 0 <= j < ys.len() && #[trigger] has_var(ys[j], v) implies has_var(b, v) by {
                    lemma_list_vars(ba, j, v);
                }
            }
        },
        _ => {},
    }
}

/// Types whose parts resolve pairwise alike resolve alike.
proof fn lemma_parts_sound(a: TypeV, b: TypeV, s: Seq<(TypeVarId, TypeV)>)
    requires
        pair_parts(a, b) is Some,
        ({
            let (xs, ys) = pair_parts(a, b).unwrap();
            forall|j: int| 0 <= j < xs.len() ==> res_v(#[trigger] xs[j], s) == res_v(ys[j], s)
        }),
    ensures
        res_v(a, s) == res_v(b, s),
{
    let (xs, ys) = pair_parts(a, b).unwrap();
    match a {
        TypeV::Array(_) | TypeV::Optional(_) | TypeV::Ref(_) | TypeV::RefMut(_) => {
            assert(res_v(xs[0], s) == res_v(ys[0], s));
        },
        TypeV::MapOf(_, _) | TypeV::Result(_, _) => {
            assert(res_v(xs[0], s) == res_v(ys[0], s));
            assert(res_v(xs[1], s) == res_v(ys[1], s));
        },
        TypeV::Tuple(l) => {
            if let TypeV::Tuple(m) = b {
                lemma_res_list_index(l, s, l.len() as int);
                lemma_res_list_index(m, s, m.len() as int);
                assert(res_list(l, s, l.len() as int) =~= res_list(m, s, m.len() as int));
            }
        },
        TypeV::FnPtr { params: ap, ret: ar } => {
            if let TypeV::FnPtr { params: bp, ret: br } = b {
                lemma_res_list_index(ap, s, ap.len() as int);
                lemma_res_list_index(bp, s, bp.len() as int);
                assert forall|j: int| 0 <= j < ap.len() implies res_v(#[trigger] ap[j], s) == res_v(bp[j], s) by {
                    assert(xs[j] == ap[j] && ys[j] == bp[j]);
                }
                assert(res_list(ap, s, ap.len() as int) =~= res_list(bp, s, bp.len() as int));
                assert(xs[ap.len() as int] == *ar && ys[ap.len() as int] == *br);
            }
        },
        TypeV::Generic { name: an, args: aa } => {
            if let TypeV::Generic { name: bn, args: ba } = b {
                lemma_res_list_index(aa, s, aa.len() as int);
                lemma_res_list_index(ba, s, ba.len() as int);
                assert(res_list(aa, s, aa.len() as int) =~= res_list(ba, s, ba.len() as int));
            }
        },
        _ => {},
    }
}


// ============================================================================
// Executable helpers on types
// ============================================================================

proof fn lemma_elem_decreases(outer: MirType, v: Vec<MirType>, i: int)
    requires
        0 <= i < v@.len(),
        decreases_to!(outer => v),
    ensures
        decreases_to!(outer => v@[i]),
{
    assert(decreases_to!(v => v@));
    assert(decreases_to!(v@ => v@[i]));
}

proof fn lemma_tys_view_index(v: Vec<MirType>)
    ensures
        tys_view(v).len() == v@.len(),
        forall|i: int| 0 <= i < v@.len() ==> #[trigger] tys_view(v)[i] == v@[i]@,
{
}

/// A copy of a list of types.
fn copy_tys(v: &Vec<MirType>) -> (r: Vec<MirType>)
    ensures
        tys_view(r) == tys_view(*v),
{
    let mut r: Vec<MirType> = Vec::new();
    let mut i: usize = 0;
    while i < v.len()
        invariant
            0 <= i <= v@.len(),
            r@.len() == i,
            forall|j: int| 0 <= j < i ==> (#[trigger] r@[j])@ == v@[j]@,
        decreases v@.len() - i,
    {
        r.push(v[i].clone_ty());
        i = i + 1;
    }
    assert(tys_view(r) =~= tys_view(*v));
    r
}

/// Whether two types are equal.
pub fn ty_eq(a: &MirType, b: &MirType) -> (r: bool)
    ensures
        r == (a@ == b@),
    decreases a,
{
    match a {
        MirType::Unit => matches!(b, MirType::Unit),
        MirType::Bool => matches!(b, MirType::Bool),
        MirType::Int => matches!(b, MirType::Int),
        MirType::Int8 => matches!(b, MirType::Int8),
        MirType::Int16 => matches!(b, MirType::Int16),
        MirType::Int32 => matches!(b, MirType::Int32),
        MirType::Int64 => matches!(b, MirType::Int64),
        MirType::UInt => matches!(b, MirType::UInt),
        MirType::UInt8 => matches!(b, MirType::UInt8),
        MirType::UInt16 => matches!(b, MirType::UInt16),
        MirType::UInt32 => matches!(b, MirType::UInt32),
        MirType::UInt64 => matches!(b, MirType::UInt64),
        MirType::Float => matches!(b, MirType::Float),
        MirType::Float32 => matches!(b, MirType::Float32),
        MirType::Float64 => matches!(b, MirType::Float64),
        MirType::Char => matches!(b, MirType::Char),
        MirType::String => matches!(b, MirType::String),
        MirType::Never => matches!(b, MirType::Never),
        MirType::Array(x) => match b {
            MirType::Array(y) => ty_eq(x, y),
            _ => false,
        },
        MirType::Tuple(xs) => match b {
            MirType::Tuple(ys) => tys_eq(a, xs, ys),
            _ => false,
        },
        MirType::MapOf(ak, av) => match b {
            MirType::MapOf(bk, bv) => ty_eq(ak, bk) && ty_eq(av, bv),
            _ => false,
        },
        MirType::Optional(x) => match b {
            MirType::Optional(y) => ty_eq(x, y),
            _ => false,
        },
        MirType::Result(ao, ae) => match b {
            MirType::Result(bo, be) => ty_eq(ao, bo) && ty_eq(ae, be),
            _ => false,
        },
        MirType::Ref(x) => match b {
            MirType::Ref(y) => ty_eq(x, y),
            _ => false,
        },
        MirType::RefMut(x) => match b {
            MirType::RefMut(y) => ty_eq(x, y),
            _ => false,
        },
        MirType::Struct(i) => match b {
            MirType::Struct(j) => *i == *j,
            _ => false,
        },
        MirType::Enum(i) => match b {
            MirType::Enum(j) => *i == *j,
            _ => false,
        },
        MirType::FnPtr { params: ap, ret: ar } => match b {
            MirType::FnPtr { params: bp, ret: br } => tys_eq(a, ap, bp) && ty_eq(ar, br),
            _ => false,
        },
        MirType::Closure { params: ap, ret: ar } => match b {
            MirType::Closure { params: bp, ret: br } => tys_eq(a, ap, bp) && ty_eq(ar, br),
            _ => false,
        },
        MirType::TypeVar(i) => match b {
            MirType::TypeVar(j) => *i == *j,
            _ => false,
        },
        MirType::TypeParam(n) => match b {
            MirType::TypeParam(m) => str_equal(n.as_str(), m.as_str()),
            _ => false,
        },
        MirType::Generic { name: an, args: aa } => match b {
            MirType::Generic { name: bn, args: ba } => str_equal(an.as_str(), bn.as_str()) && tys_eq(a, aa, ba),
            _ => false,
        },
    }
}

fn tys_eq(outer: &MirType, xs: &Vec<MirType>, ys: &Vec<MirType>) -> (r: bool)
    requires
        decreases_to!(*outer => *xs),
    ensures
        r == (tys_view(*xs) == tys_view(*ys)),
    decreases outer, 0nat,
{
    proof {
        lemma_tys_view_index(*xs);
        lemma_tys_view_index(*ys);
    }
    if xs.len() != ys.len() {
        return false;
    }
    let mut i: usize = 0;
    while i < xs.len()
        invariant
            decreases_to!(*outer => *xs),
            0 <= i <= xs@.len(),
            xs@.len() == ys@.len(),
            tys_view(*xs).len() == xs@.len(),
            tys_view(*ys).len() == ys@.len(),
            forall|j: int| 0 <= j < xs@.len() ==> #[trigger] tys_view(*xs)[j] == xs@[j]@,
            forall|j: int| 0 <= j < ys@.len() ==> #[trigger] tys_view(*ys)[j] == ys@[j]@,
            forall|j: int| 0 <= j < i ==> xs@[j]@ == (#[trigger] ys@[j])@,
        decreases xs@.len() - i,
    {
        proof {
            lemma_elem_decreases(*outer, *xs, i as int);
        }
        if !ty_eq(&xs[i], &ys[i]) {
            assert(tys_view(*xs)[i as int] != tys_view(*ys)[i as int]);
            return false;
        }
        i = i + 1;
    }
    assert(tys_view(*xs) =~= tys_view(*ys));
    true
}

/// Whether `id` occurs in `t`.
fn mentions_var(t: &MirType, id: TypeVarId) -> (r: bool)
    ensures
        r == has_var(t@, id),
{
    let vars = t.collect_type_vars();
    proof {
        lemma_collect(t@, Seq::empty(), id);
    }
    let mut i: usize = 0;
    assert(!Seq::<TypeVarId>::empty().contains(id));
    while i < vars.len()
        invariant
            0 <= i <= vars@.len(),
            forall|j: int| 0 <= j < i ==> vars@[j] != id,
            vars@.contains(id) <==> has_var(t@, id),
        decreases vars@.len() - i,
    {
        if vars[i] == id {
            assert(vars@[i as int] == id);
            assert(vars@.contains(id));
            return true;
        }
        i = i + 1;
    }
    assert(!vars@.contains(id));
    false
}

/// The parts to unify pairwise, copied out of two types of the same shape.
fn parts_of(a: &MirType, b: &MirType) -> (r: Option<(Vec<MirType>, Vec<MirType>)>)
    ensures
        match r {
            Some((xs, ys)) => pair_parts(a@, b@) == Some((tys_view(xs), tys_view(ys))),
            None => pair_parts(a@, b@) is None,
        },
{
    match a {
        MirType::Array(x) => match b {
            MirType::Array(y) => Some(single_pair(x, y)),
            _ => None,
        },
        MirType::Tuple(xs) => match b {
            MirType::Tuple(ys) => {
                proof {
                    lemma_tys_view_index(*xs);
                    lemma_tys_view_index(*ys);
                }
                if xs.len() == ys.len() {
                    Some((copy_tys(xs), copy_tys(ys)))
                } else {
                    None
                }
            },
            _ => None,
        },
        MirType::MapOf(ak, av) => match b {
            MirType::MapOf(bk, bv) => Some(double_pair(ak, av, bk, bv)),
            _ => None,
        },
        MirType::Optional(x) => match b {
            MirType::Optional(y) => Some(single_pair(x, y)),
            _ => None,
        },
        MirType::Result(ao, ae) => match b {
            MirType::Result(bo, be) => Some(double_pair(ao, ae, bo, be)),
            _ => None,
        },
        MirType::Ref(x) => match b {
            MirType::Ref(y) => Some(single_pair(x, y)),
            _ => None,
        },
        MirType::RefMut(x) => match b {
            MirType::RefMut(y) => Some(single_pair(x, y)),
            _ => None,
        },
        MirType::FnPtr { params: ap, ret: ar } => match b {
            MirType::FnPtr { params: bp, ret: br } => {
                proof {
                    lemma_tys_view_index(*ap);
                    lemma_tys_view_index(*bp);
                }
                if ap.len() == bp.len() {
                    let mut xs = copy_tys(ap);
                    let mut ys = copy_tys(bp);
                    let ghost (xs0, ys0) = (xs, ys);
                    xs.push(ar.clone_ty());
                    ys.push(br.clone_ty());
                    assert(tys_view(xs) =~= tys_view(xs0).push(ar@));
                    assert(tys_view(ys) =~= tys_view(ys0).push(br@));
                    Some((xs, ys))
                } else {
                    None
                }
            },
            _ => None,
        },
        MirType::Generic { name: an, args: aa } => match b {
            MirType::Generic { name: bn, args: ba } => {
                proof {
                    lemma_tys_view_index(*aa);
                    lemma_tys_view_index(*ba);
                }
                if str_equal(an.as_str(), bn.as_str()) && aa.len() == ba.len() {
                    Some((copy_tys(aa), copy_tys(ba)))
                } else {
                    None
                }
            },
            _ => None,
        },
        _ => None,
    }
}

fn single_pair(x: &MirType, y: &MirType) -> (r: (Vec<MirType>, Vec<MirType>))
    ensures
        tys_view(r.0) == seq![x@],
        tys_view(r.1) == seq![y@],
{
    let xs = vec![x.clone_ty()];
    let ys = vec![y.clone_ty()];
    assert(tys_view(xs) =~= seq![x@]);
    assert(tys_view(ys) =~= seq![y@]);
    (xs, ys)
}

fn double_pair(x1: &MirType, x2: &MirType, y1: &MirType, y2: &MirType) -> (r: (Vec<MirType>, Vec<MirType>))
    ensures
        tys_view(r.0) == seq![x1@, x2@],
        tys_view(r.1) == seq![y1@, y2@],
{
    let xs = vec![x1.clone_ty(), x2.clone_ty()];
    let ys = vec![y1.clone_ty(), y2.clone_ty()];
    assert(tys_view(xs) =~= seq![x1@, x2@]);
    assert(tys_view(ys) =~= seq![y1@, y2@]);
    (xs, ys)
}


// ============================================================================
// Type inference
// ============================================================================

/// Type inference state: the counter for fresh type variables and the
/// bindings found so far. A bound variable is bound to a type that mentions
/// no bound variable, so resolving a type replaces each of its variables at
/// most once.
pub struct TypeInferenceContext {
    next_type_var: u32,
    substitutions: Vec<(TypeVarId, MirType)>,
}

impl TypeInferenceContext {
    /// The bindings, as type values.
    pub closed spec fn bindings(&self) -> Seq<(TypeVarId, TypeV)> {
        self.substitutions@.map_values(|p: (TypeVarId, MirType)| (p.0, p.1@))
    }

    /// The number of the next fresh type variable.
    pub closed spec fn next_var(&self) -> u32 {
        self.next_type_var
    }

    /// The bindings are well formed.
    pub open spec fn wf(&self) -> bool {
        bindings_wf(self.bindings())
    }

    /// A context with no type variable and no binding.
    pub fn new() -> (c: Self)
        ensures
            c.wf(),
            c.bindings() == Seq::<(TypeVarId, TypeV)>::empty(),
            c.next_var() == 0,
    {
        let c = TypeInferenceContext { next_type_var: 0, substitutions: Vec::new() };
        assert(c.bindings() =~= Seq::<(TypeVarId, TypeV)>::empty());
        c
    }

    /// A new type variable, numbered after the previous ones.
    pub fn fresh_type_var(&mut self) -> (t: MirType)
        requires
            old(self).next_var() < u32::MAX,
        ensures
            t@ == TypeV::TypeVar(TypeVarId(old(self).next_var())),
            final(self).next_var() == old(self).next_var() + 1,
            final(self).bindings() == old(self).bindings(),
    {
        let id = TypeVarId::new(self.next_type_var);
        self.next_type_var = self.next_type_var + 1;
        MirType::TypeVar(id)
    }

    /// The index of the binding of `id`.
    fn find(&self, id: TypeVarId) -> (r: Option<usize>)
        ensures
            match r {
                Some(i) => i < self.substitutions@.len() && lookup_var(self.bindings(), id) == Some(self.bindings()[i as int].1),
                None => lookup_var(self.bindings(), id) is None,
            },
    {
        let ghost s = self.bindings();
        let mut i: usize = 0;
        assert(s.skip(0) =~= s);
        while i < self.substitutions.len()
            invariant
                s == self.bindings(),
                s.len() == self.substitutions@.len(),
                0 <= i <= s.len(),
                lookup_var(s, id) == lookup_var(s.skip(i as int), id),
            decreases s.len() - i,
        {
            assert(s.skip(i as int)[0] == s[i as int]);
            assert(s[i as int].0 == self.substitutions@[i as int].0);
            if self.substitutions[i].0 == id {
                return Some(i);
            }
            assert(s.skip(i as int).drop_first() =~= s.skip(i + 1));
            i = i + 1;
        }
        assert(s.skip(i as int).len() == 0);
        None
    }

    /// `ty` with each bound type variable replaced by its binding.
    pub fn resolve(&self, ty: &MirType) -> (r: MirType)
        ensures
            r@ == res_v(ty@, self.bindings()),
        decreases ty,
    {
        match ty {
            MirType::TypeVar(id) => match self.find(*id) {
                Some(i) => self.substitutions[i].1.clone_ty(),
                None => ty.clone_ty(),
            },
            MirType::Array(x) => MirType::Array(Box::new(self.resolve(x))),
            MirType::Tuple(xs) => MirType::Tuple(self.resolve_tys(ty, xs)),
            MirType::MapOf(k, v) => MirType::MapOf(Box::new(self.resolve(k)), Box::new(self.resolve(v))),
            MirType::Optional(x) => MirType::Optional(Box::new(self.resolve(x))),
            MirType::Result(o, e) => MirType::Result(Box::new(self.resolve(o)), Box::new(self.resolve(e))),
            MirType::Ref(x) => MirType::Ref(Box::new(self.resolve(x))),
            MirType::RefMut(x) => MirType::RefMut(Box::new(self.resolve(x))),
            MirType::FnPtr { params, ret } => MirType::FnPtr {
                params: self.resolve_tys(ty, params),
                ret: Box::new(self.resolve(ret)),
            },
            MirType::Closure { params, ret } => MirType::Closure {
                params: self.resolve_tys(ty, params),
                ret: Box::new(self.resolve(ret)),
            },
            MirType::Generic { name, args } => MirType::Generic {
                name: name.clone(),
                args: self.resolve_tys(ty, args),
            },
            _ => ty.clone_ty(),
        }
    }

    fn resolve_tys(&self, outer: &MirType, v: &Vec<MirType>) -> (r: Vec<MirType>)
        requires
            decreases_to!(*outer => *v),
        ensures
            tys_view(r) == res_list(tys_view(*v), self.bindings(), v@.len() as int),
        decreases outer, 0nat,
    {
        let mut r: Vec<MirType> = Vec::new();
        let mut i: usize = 0;
        assert(tys_view(r) =~= Seq::empty());
        while i < v.len()
            invariant
                decreases_to!(*outer => *v),
                0 <= i <= v@.len(),
                tys_view(r) == res_list(tys_view(*v), self.bindings(), i as int),
            decreases v@.len() - i,
        {
            proof {
                lemma_elem_decreases(*outer, *v, i as int);
            }
            let t = self.resolve(&v[i]);
            let ghost before = r;
            r.push(t);
            assert(tys_view(r) =~= tys_view(before).push(t@));
            i = i + 1;
        }
        r
    }

    /// Binds `id` to `b`: replaces `id` by `b` in the existing bindings and
    /// adds the binding.
    fn bind_var(&mut self, id: TypeVarId, b: MirType)
        requires
            old(self).wf(),
            !bound(old(self).bindings(), id),
            free_of(b@, old(self).bindings()),
            !has_var(b@, id),
        ensures
            final(self).bindings() == bind(old(self).bindings(), id, b@),
            final(self).next_var() == old(self).next_var(),
    {
        let ghost s0 = self.bindings();
        let single = TypeInferenceContext { next_type_var: 0, substitutions: vec![(id, b.clone_ty())] };
        assert(single.bindings() =~= seq![(id, b@)]);
        let mut i: usize = 0;
        while i < self.substitutions.len()
            invariant
                single.bindings() == seq![(id, b@)],
                s0.len() == self.substitutions@.len(),
                s0 == old(self).bindings(),
                0 <= i <= s0.len(),
                self.next_type_var == old(self).next_type_var,
                forall|j: int| 0 <= j < i ==> (#[trigger] self.substitutions@[j]).0 == s0[j].0
                    && self.substitutions@[j].1@ == res_v(s0[j].1, seq![(id, b@)]),
                forall|j: int| i <= j < s0.len() ==> (#[trigger] self.substitutions@[j]).0 == s0[j].0
                    && self.substitutions@[j].1@ == s0[j].1,
            decreases s0.len() - i,
        {
            let r = single.resolve(&self.substitutions[i].1);
            let key = self.substitutions[i].0;
            self.substitutions.set(i, (key, r));
            i = i + 1;
        }
        self.substitutions.push((id, b));
        let ghost t = bind(s0, id, b@);
        assert forall|j: int| 0 <= j < t.len() implies #[trigger] self.bindings()[j] == t[j] by {
            if j < s0.len() {
                assert(self.bindings()[j] == (self.substitutions@[j].0, self.substitutions@[j].1@));
            } else {
                assert(self.bindings()[j] == (self.substitutions@[j].0, self.substitutions@[j].1@));
            }
        }
        assert(self.bindings() =~= t);
    }

    /// Unifies `a` and `b` under the bindings, binding variables where one
    /// side resolves to an unbound variable. `u` holds every variable that
    /// may get bound; it bounds the recursion.
    fn unify_in(&mut self, a: &MirType, b: &MirType, Ghost(u): Ghost<Seq<TypeVarId>>) -> (ok: bool)
        requires
            old(self).wf(),
            covers(u, a@, old(self).bindings()),
            covers(u, b@, old(self).bindings()),
        ensures
            final(self).wf(),
            final(self).next_var() == old(self).next_var(),
            extends(old(self).bindings(), final(self).bindings()),
            keeps_bound(old(self).bindings(), final(self).bindings()),
            new_keys_in(u, old(self).bindings(), final(self).bindings()),
            count_free(u, final(self).bindings(), u.len() as int) <= count_free(u, old(self).bindings(), u.len() as int),
            count_free(u, final(self).bindings(), u.len() as int) == count_free(u, old(self).bindings(), u.len() as int)
                ==> final(self).bindings() == old(self).bindings(),
            unify_outcome(a@, b@, old(self).bindings(), final(self).bindings(), ok),
            unify_settles(a@, b@, old(self).bindings(), ok, final(self).bindings()),
        decreases count_free(u, old(self).bindings(), u.len() as int),
            ty_size(res_v(a@, old(self).bindings())) + ty_size(res_v(b@, old(self).bindings())),
    {
        let ghost s0 = self.bindings();
        let ra = self.resolve(a);
        let rb = self.resolve(b);
        proof {
            lemma_res_free_of(a@, s0);
            lemma_res_free_of(b@, s0);
            lemma_extends_refl(s0);
            lemma_res_idem(a@, s0);
            lemma_res_idem(b@, s0);
        }
        if ty_eq(&ra, &rb) {
            assert(settled_from(a@, b@, s0, true, s0, 1));
            return true;
        }
        if let MirType::TypeVar(id) = &ra {
            let id = *id;
            assert(has_var(ra@, id));
            if mentions_var(&rb, id) {
                assert(settled_from(a@, b@, s0, false, s0, 1));
                return false;
            }
            proof {
                self.lemma_bind_step(a@, b@, id, rb@, u);
            }
            self.bind_var(id, rb);
            assert(settled_from(a@, b@, s0, true, self.bindings(), 1));
            return true;
        }
        if let MirType::TypeVar(id) = &rb {
            let id = *id;
            assert(has_var(rb@, id));
            if mentions_var(&ra, id) {
                assert(settled_from(a@, b@, s0, false, s0, 1));
                return false;
            }
            proof {
                self.lemma_bind_step(b@, a@, id, ra@, u);
            }
            self.bind_var(id, ra);
            assert(settled_from(a@, b@, s0, true, self.bindings(), 1));
            return true;
        }
        match parts_of(&ra, &rb) {
            None => {
                assert(settled_from(a@, b@, s0, false, s0, 1));
                false
            },
            Some((xs, ys)) => {
                proof {
                    lemma_parts(ra@, rb@);
                    lemma_tys_view_index(xs);
                    lemma_tys_view_index(ys);
                    lemma_new_keys_refl(u, s0);
                }
                let ghost (pxs, pys) = (tys_view(xs), tys_view(ys));
                assert(parts_settled_from(pxs, pys, 0, s0, s0, 0));
                let mut i: usize = 0;
                while i < xs.len()
                    invariant
                        pxs == tys_view(xs),
                        pys == tys_view(ys),
                        pair_parts(ra@, rb@) == Some((pxs, pys)),
                        pxs.len() == xs@.len(),
                        pys.len() == ys@.len(),
                        xs@.len() == ys@.len(),
                        forall|j: int| 0 <= j < xs@.len() ==> #[trigger] pxs[j] == xs@[j]@,
                        forall|j: int| 0 <= j < ys@.len() ==> #[trigger] pys[j] == ys@[j]@,
                        forall|j: int| 0 <= j < pxs.len() ==> ty_size(#[trigger] pxs[j]) + ty_size(pys[j]) < ty_size(ra@) + ty_size(rb@),
                        forall|j: int, v: TypeVarId| 0 <= j < pxs.len() && #[trigger] has_var(pxs[j], v) ==> has_var(ra@, v),
                        forall|j: int, v: TypeVarId| 0 <= j < pys.len() && #[trigger] has_var(pys[j], v) ==> has_var(rb@, v),
                        0 <= i <= xs@.len(),
                        ra@ == res_v(a@, s0),
                        rb@ == res_v(b@, s0),
                        free_of(ra@, s0),
                        free_of(rb@, s0),
                        covers(u, a@, s0),
                        covers(u, b@, s0),
                        bindings_wf(s0),
                        self.wf(),
                        self.next_var() == old(self).next_var(),
                        s0 == old(self).bindings(),
                        extends(s0, self.bindings()),
                        keeps_bound(s0, self.bindings()),
                        new_keys_in(u, s0, self.bindings()),
                        count_free(u, self.bindings(), u.len() as int) <= count_free(u, s0, u.len() as int),
                        count_free(u, self.bindings(), u.len() as int) == count_free(u, s0, u.len() as int)
                            ==> self.bindings() == s0,
                        forall|j: int| 0 <= j < i ==> res_v(#[trigger] pxs[j], self.bindings()) == res_v(pys[j], self.bindings()),
                        exists|d: nat| #[trigger] parts_settled_from(pxs, pys, i as int, s0, self.bindings(), d),
                    decreases xs@.len() - i,
                {
                    let ghost s1 = self.bindings();
                    proof {
                        lemma_covers_part(u, pxs[i as int], ra@, s0, s1);
                        lemma_covers_part(u, pys[i as int], rb@, s0, s1);
                        if count_free(u, s1, u.len() as int) == count_free(u, s0, u.len() as int) {
                            assert(free_of(pxs[i as int], s0));
                            assert(free_of(pys[i as int], s0));
                            lemma_res_free(pxs[i as int], s0);
                            lemma_res_free(pys[i as int], s0);
                        }
                    }
                    let ghost d1 = choose|d: nat| #[trigger] parts_settled_from(pxs, pys, i as int, s0, s1, d);
                    let ok = self.unify_in(&xs[i], &ys[i], Ghost(u));
                    let ghost s2 = self.bindings();
                    proof {
                        let d2 = choose|d: nat| #[trigger] settled_from(pxs[i as int], pys[i as int], s1, ok, s2, d);
                        let dm: nat = if d1 >= d2 { d1 } else { d2 };
                        assert forall|e: nat| e >= dm implies #[trigger] unify_parts_fuel(pxs, pys, i + 1, s0, e) == (ok, s2) by {
                            assert(unify_parts_fuel(pxs, pys, i as int, s0, e) == (true, s1));
                            assert(unify_fuel(pxs[i as int], pys[i as int], s1, e) == (ok, s2));
                        }
                        if ok {
                            assert(parts_settled_from(pxs, pys, i + 1, s0, s2, dm));
                        } else {
                            assert forall|e: nat| e >= dm + 1 implies #[trigger] unify_fuel(a@, b@, s0, e) == (false, s2) by {
                                assert(unify_parts_fuel(pxs, pys, i + 1, s0, (e - 1) as nat) == (false, s2));
                                lemma_parts_fail_stays(pxs, pys, i + 1, pxs.len() as int, s0, (e - 1) as nat);
                            }
                            assert(settled_from(a@, b@, s0, false, s2, dm + 1));
                        }
                    }
                    proof {
                        lemma_extends_trans(s0, s1, s2);
                        lemma_new_keys_trans(u, s0, s1, s2);
                        assert forall|j: int| 0 <= j < i implies res_v(#[trigger] pxs[j], s2) == res_v(pys[j], s2) by {
                            lemma_extends_res(pxs[j], s1, s2);
                            lemma_extends_res(pys[j], s1, s2);
                        }
                    }
                    if !ok {
                        return false;
                    }
                    i = i + 1;
                }
                proof {
                    let s1 = self.bindings();
                    lemma_parts_sound(ra@, rb@, s1);
                    lemma_extends_res(a@, s0, s1);
                    lemma_extends_res(b@, s0, s1);
                    let d = choose|d: nat| #[trigger] parts_settled_from(pxs, pys, i as int, s0, s1, d);
                    assert forall|e: nat| e >= d + 1 implies #[trigger] unify_fuel(a@, b@, s0, e) == (true, s1) by {
                        assert(unify_parts_fuel(pxs, pys, pxs.len() as int, s0, (e - 1) as nat) == (true, s1));
                    }
                    assert(settled_from(a@, b@, s0, true, s1, d + 1));
                }
                true
            },
        }
    }

    proof fn lemma_bind_step(&self, a: TypeV, b: TypeV, id: TypeVarId, rb: TypeV, u: Seq<TypeVarId>)
        requires
            self.wf(),
            res_v(a, self.bindings()) == TypeV::TypeVar(id),
            rb == res_v(b, self.bindings()),
            !has_var(rb, id),
            covers(u, a, self.bindings()),
            covers(u, b, self.bindings()),
        ensures
            ({
                let s0 = self.bindings();
                let s1 = bind(s0, id, rb);
                &&& !bound(s0, id)
                &&& free_of(rb, s0)
                &&& bindings_wf(s1)
                &&& extends(s0, s1)
                &&& keeps_bound(s0, s1)
                &&& new_keys_in(u, s0, s1)
                &&& count_free(u, s1, u.len() as int) < count_free(u, s0, u.len() as int)
                &&& res_v(a, s1) == res_v(b, s1)
                &&& res_v(a, s1) == rb
            }),
    {
        let s0 = self.bindings();
        let s1 = bind(s0, id, rb);
        lemma_res_free_of(a, s0);
        lemma_res_free_of(b, s0);
        assert(has_var(TypeV::TypeVar(id), id));
        assert(!bound(s0, id));
        lemma_bind_wf(s0, id, rb);
        lemma_extends_bind(s0, id, rb);
        assert(u.contains(id));
        let j = choose|j: int| 0 <= j < u.len() && u[j] == id;
        lemma_lookup_bind(s0, id, rb, id);
        lemma_count_mono(u, s0, s1, u.len() as int);
        assert forall|k: TypeVarId| #[trigger] bound(s1, k) && !bound(s0, k) implies u.contains(k)
            && forall|v: TypeVarId| #[trigger] has_var(lookup_var(s1, k).unwrap(), v) ==> u.contains(v) by {
            lemma_lookup_bind(s0, id, rb, k);
        }
        lemma_extends_res(a, s0, s1);
        lemma_extends_res(b, s0, s1);
        lemma_res_bind(TypeV::TypeVar(id), s0, id, rb);
        lemma_lookup_single(id, rb, id);
        lemma_res_bind(rb, s0, id, rb);
        lemma_res_free(rb, s0);
        assert forall|v: TypeVarId| #[trigger] has_var(rb, v) implies !bound(seq![(id, rb)], v) by {
            lemma_lookup_single(id, rb, v);
        }
        lemma_res_free(rb, seq![(id, rb)]);
    }

    /// A copy of the bindings.
    fn copy_substitutions(&self) -> (r: Vec<(TypeVarId, MirType)>)
        ensures
            r@.map_values(|p: (TypeVarId, MirType)| (p.0, p.1@)) == self.bindings(),
    {
        let mut r: Vec<(TypeVarId, MirType)> = Vec::new();
        let mut i: usize = 0;
        while i < self.substitutions.len()
            invariant
                0 <= i <= self.substitutions@.len(),
                r@.len() == i,
                forall|j: int| 0 <= j < i ==> (#[trigger] r@[j]).0 == self.substitutions@[j].0
                    && r@[j].1@ == self.substitutions@[j].1@,
            decreases self.substitutions@.len() - i,
        {
            let t = self.substitutions[i].1.clone_ty();
            r.push((self.substitutions[i].0, t));
            i = i + 1;
        }
        assert(r@.map_values(|p: (TypeVarId, MirType)| (p.0, p.1@)) =~= self.bindings());
        r
    }

    /// Unifies two types, keeping the bindings only when it succeeds:
    /// resolves both; equal types unify; a side that resolves to an unbound
    /// variable gets bound to the other side unless the variable occurs in
    /// it; types of the same shape unify part by part, stopping at the first
    /// failure; other types do not unify. A failed unification leaves the
    /// bindings as they were.
    pub fn unify(&mut self, a: &MirType, b: &MirType) -> (ok: bool)
        requires
            old(self).wf(),
        ensures
            final(self).wf(),
            final(self).next_var() == old(self).next_var(),
            extends(old(self).bindings(), final(self).bindings()),
            unify_outcome(a@, b@, old(self).bindings(), final(self).bindings(), ok),
            !ok ==> final(self).bindings() == old(self).bindings(),
            exists|s1: Seq<(TypeVarId, TypeV)>| #[trigger] unify_settles(a@, b@, old(self).bindings(), ok, s1)
                && (ok ==> final(self).bindings() == s1),
    {
        let saved = self.copy_substitutions();
        let ok = self.unify_parts(a, b);
        let ghost raw = self.bindings();
        assert(unify_settles(a@, b@, old(self).bindings(), ok, raw));
        if !ok {
            self.substitutions = saved;
            assert(self.bindings() == old(self).bindings());
            proof {
                lemma_extends_refl(self.bindings());
            }
        }
        ok
    }

    /// Unifies two types, keeping what was bound before a failure.
    fn unify_parts(&mut self, a: &MirType, b: &MirType) -> (ok: bool)
        requires
            old(self).wf(),
        ensures
            final(self).wf(),
            final(self).next_var() == old(self).next_var(),
            extends(old(self).bindings(), final(self).bindings()),
            unify_outcome(a@, b@, old(self).bindings(), final(self).bindings(), ok),
            unify_settles(a@, b@, old(self).bindings(), ok, final(self).bindings()),
    {
        let ghost s0 = self.bindings();
        let ghost u = collect_v(res_v(a@, s0), Seq::empty()) + collect_v(res_v(b@, s0), Seq::empty());
        proof {
            assert forall|v: TypeVarId| #[trigger] has_var(res_v(a@, s0), v) implies u.contains(v) by {
                lemma_collect(res_v(a@, s0), Seq::empty(), v);
                let i = choose|i: int| 0 <= i < collect_v(res_v(a@, s0), Seq::empty()).len()
                    && collect_v(res_v(a@, s0), Seq::empty())[i] == v;
                assert(u[i] == v);
            }
            assert forall|v: TypeVarId| #[trigger] has_var(res_v(b@, s0), v) implies u.contains(v) by {
                lemma_collect(res_v(b@, s0), Seq::empty(), v);
                let c = collect_v(res_v(a@, s0), Seq::empty());
                let i = choose|i: int| 0 <= i < collect_v(res_v(b@, s0), Seq::empty()).len()
                    && collect_v(res_v(b@, s0), Seq::empty())[i] == v;
                assert(u[c.len() + i] == v);
            }
        }
        self.unify_in(a, b, Ghost(u))
    }

    /// Forgets all type variables and bindings.
    pub fn reset(&mut self)
        ensures
            final(self).wf(),
            final(self).next_var() == 0,
            final(self).bindings() == Seq::<(TypeVarId, TypeV)>::empty(),
    {
        self.next_type_var = 0;
        self.substitutions = Vec::new();
        assert(self.bindings() =~= Seq::<(TypeVarId, TypeV)>::empty());
    }
}

impl Default for TypeInferenceContext {
    fn default() -> (c: Self)
        ensures
            c.wf(),
            c.bindings() == Seq::<(TypeVarId, TypeV)>::empty(),
            c.next_var() == 0,
    {
        Self::new()
    }
}

proof fn lemma_new_keys_refl(u: Seq<TypeVarId>, s: Seq<(TypeVarId, TypeV)>)
    ensures
        new_keys_in(u, s, s),
{
}

/// What a unification of `a` and `b` under bindings `s0`, ending with
/// bindings `s1` and answer `ok`, is known to have done:
/// - a success makes both types resolve alike;
/// - types that already resolve alike unify with no new binding;
/// - a side that resolves to an unbound variable, when the types differ,
///   is bound to the other side's resolved type unless it occurs there, and
///   the unification fails otherwise, binding nothing (the left side is
///   tried first);
/// The algorithm of unification, run with `fuel` steps of nesting: resolve
/// both sides under `s`; equal types unify; a side that resolves to a
/// variable is bound to the other side unless the variable occurs in it;
/// types of the same shape unify part by part, left to right, the bindings
/// threaded through and stopping at the first failure; other types do not
/// unify. With no fuel left the answer is a failure.
pub open spec fn unify_fuel(a: TypeV, b: TypeV, s: Seq<(TypeVarId, TypeV)>, fuel: nat) -> (bool, Seq<(TypeVarId, TypeV)>)
    decreases fuel, 0nat,
{
    if fuel == 0 {
        (false, s)
    } else {
        let ra = res_v(a, s);
        let rb = res_v(b, s);
        if ra == rb {
            (true, s)
        } else if ra is TypeVar {
            let id = ra->TypeVar_0;
            if has_var(rb, id) { (false, s) } else { (true, bind(s, id, rb)) }
        } else if rb is TypeVar {
            let id = rb->TypeVar_0;
            if has_var(ra, id) { (false, s) } else { (true, bind(s, id, ra)) }
        } else {
            match pair_parts(ra, rb) {
                None => (false, s),
                Some((xs, ys)) => unify_parts_fuel(xs, ys, xs.len() as int, s, (fuel - 1) as nat),
            }
        }
    }
}

/// The first `n` part pairs of `xs` and `ys` unified left to right from `s`,
/// stopping at the first failure.
pub open spec fn unify_parts_fuel(xs: Seq<TypeV>, ys: Seq<TypeV>, n: int, s: Seq<(TypeVarId, TypeV)>, fuel: nat)
    -> (bool, Seq<(TypeVarId, TypeV)>)
    decreases fuel, n,
{
    if n <= 0 {
        (true, s)
    } else {
        let prev = unify_parts_fuel(xs, ys, n - 1, s, fuel);
        if !prev.0 {
            prev
        } else {
            unify_fuel(xs[n - 1], ys[n - 1], prev.1, fuel)
        }
    }
}

/// Unifying `a` and `b` from `s` settles on `(ok, s1)`: with enough fuel,
/// and any more, the algorithm gives that answer.
pub open spec fn unify_settles(a: TypeV, b: TypeV, s: Seq<(TypeVarId, TypeV)>, ok: bool, s1: Seq<(TypeVarId, TypeV)>) -> bool {
    exists|d: nat| #[trigger] settled_from(a, b, s, ok, s1, d)
}

/// With fuel `d` or more, unifying `a` and `b` from `s` gives `(ok, s1)`.
pub open spec fn settled_from(a: TypeV, b: TypeV, s: Seq<(TypeVarId, TypeV)>, ok: bool, s1: Seq<(TypeVarId, TypeV)>, d: nat) -> bool {
    forall|e: nat| e >= d ==> #[trigger] unify_fuel(a, b, s, e) == (ok, s1)
}

/// With fuel `d` or more, the first `n` parts unify from `s` to `s1`.
pub open spec fn parts_settled_from(xs: Seq<TypeV>, ys: Seq<TypeV>, n: int, s: Seq<(TypeVarId, TypeV)>, s1: Seq<(TypeVarId, TypeV)>, d: nat) -> bool {
    forall|e: nat| e >= d ==> #[trigger] unify_parts_fuel(xs, ys, n, s, e) == (true, s1)
}

/// A failure among the first `k` parts is the result of every longer prefix.
proof fn lemma_parts_fail_stays(xs: Seq<TypeV>, ys: Seq<TypeV>, k: int, n: int, s: Seq<(TypeVarId, TypeV)>, fuel: nat)
    requires
        0 <= k <= n,
        !unify_parts_fuel(xs, ys, k, s, fuel).0,
    ensures
        unify_parts_fuel(xs, ys, n, s, fuel) == unify_parts_fuel(xs, ys, k, s, fuel),
    decreases n - k,
{
    if n > k {
        lemma_parts_fail_stays(xs, ys, k, n - 1, s, fuel);
    }
}


/// - types whose resolved shapes differ do not unify, and nothing is bound.
pub open spec fn unify_outcome(a: TypeV, b: TypeV, s0: Seq<(TypeVarId, TypeV)>, s1: Seq<(TypeVarId, TypeV)>, ok: bool) -> bool {
    let ra = res_v(a, s0);
    let rb = res_v(b, s0);
    &&& ok ==> res_v(a, s1) == res_v(b, s1)
    &&& ra == rb ==> ok && s1 == s0
    &&& (ra != rb && ra is TypeVar) ==> {
        let id = ra->TypeVar_0;
        &&& ok == !has_var(rb, id)
        &&& s1 == if ok { bind(s0, id, rb) } else { s0 }
    }
    &&& (ra != rb && !(ra is TypeVar) && rb is TypeVar) ==> {
        let id = rb->TypeVar_0;
        &&& ok == !has_var(ra, id)
        &&& s1 == if ok { bind(s0, id, ra) } else { s0 }
    }
    &&& (ra != rb && !(ra is TypeVar) && !(rb is TypeVar) && pair_parts(ra, rb) is None) ==> !ok && s1 == s0
}


// ============================================================================
// Types exported by other modules
// ============================================================================

/// The signature of a function of another module.
#[derive(Debug, Clone)]
pub struct FunctionSignature {
    pub params: Vec<(String, MirType)>,
    pub return_type: MirType,
    pub type_params: Vec<String>,
}

/// The types exported by other modules, by qualified name, and the module
/// aliases of imports.
pub struct ModuleTypeRegistry {
    /// Function signatures by `module::name`.
    pub function_signatures: NameMap<FunctionSignature>,
    /// Struct fields by `module::name`.
    pub struct_definitions: NameMap<Vec<(String, MirType)>>,
    /// Enum variants by `module::name`.
    pub enum_definitions: NameMap<Vec<(String, Vec<MirType>)>>,
    /// Full module paths by alias.
    pub module_aliases: NameMap<String>,
}

/// The position of the first `::` at or after `i`.
pub open spec fn first_sep(s: Seq<char>, i: int) -> Option<int>
    decreases s.len() - i,
{
    if i < 0 || i + 1 >= s.len() {
        None
    } else if s[i] == ':' && s[i + 1] == ':' {
        Some(i)
    } else {
        first_sep(s, i + 1)
    }
}

/// A definition looked up by name: the name itself, or else, when the name
/// is `alias::rest` (split at its first `::`) and the alias is known, the
/// aliased module's path followed by `::rest`.
pub open spec fn lookup_qualified<V>(defs: NameMap<V>, aliases: NameMap<String>, name: Seq<char>) -> Option<V> {
    match defs.get_spec(name) {
        Some(v) => Some(v),
        None => match first_sep(name, 0) {
            Some(i) => match aliases.get_spec(name.take(i)) {
                Some(full) => defs.get_spec(full@ + seq![':', ':'] + name.skip(i + 2)),
                None => None,
            },
            None => None,
        },
    }
}

/// The position of the first `::` in `s`.
fn find_sep(s: &Vec<char>) -> (r: Option<usize>)
    ensures
        match r {
            Some(i) => first_sep(s@, 0) == Some(i as int) && i + 1 < s@.len(),
            None => first_sep(s@, 0) is None,
        },
{
    if s.len() == 0 {
        return None;
    }
    let mut i: usize = 0;
    while i < s.len() - 1
        invariant
            s@.len() > 0,
            0 <= i <= s@.len(),
            first_sep(s@, 0) == first_sep(s@, i as int),
        decreases s@.len() - i,
    {
        if s[i] == ':' && s[i + 1] == ':' {
            return Some(i);
        }
        i = i + 1;
    }
    None
}

fn lookup_qualified_exec<'a, V>(defs: &'a NameMap<V>, aliases: &NameMap<String>, name: &str) -> (r: Option<&'a V>)
    ensures
        match r {
            Some(v) => lookup_qualified(*defs, *aliases, name@) == Some(*v),
            None => lookup_qualified(*defs, *aliases, name@) is None,
        },
{
    if let Some(v) = defs.get(name) {
        return Some(v);
    }
    let chars = str_chars(name);
    match find_sep(&chars) {
        Some(i) => {
            let alias = string_from_chars(slice_chars(chars.as_slice(), 0, i).as_slice());
            assert(alias@ =~= name@.take(i as int));
            match aliases.get(alias.as_str()) {
                Some(full) => {
                    let mut path = str_chars(full.as_str());
                    path.push(':');
                    path.push(':');
                    assert(i + 2 <= chars@.len());
                    assert(chars@.len() == chars.len());
                    let from = i + 2;
                    let rest = slice_chars(chars.as_slice(), from, chars.len());
                    push_all(&mut path, rest.as_slice());
                    let full_name = string_from_chars(path.as_slice());
                    assert(full_name@ =~= full@ + seq![':', ':'] + name@.skip(i + 2));
                    defs.get(full_name.as_str())
                },
                None => None,
            }
        },
        None => None,
    }
}

impl ModuleTypeRegistry {
    /// An empty registry.
    pub fn new() -> (r: Self)
        ensures
            forall|n: Seq<char>| #[trigger] r.function_signatures.get_spec(n) is None,
            forall|n: Seq<char>| #[trigger] r.struct_definitions.get_spec(n) is None,
            forall|n: Seq<char>| #[trigger] r.enum_definitions.get_spec(n) is None,
            forall|n: Seq<char>| #[trigger] r.module_aliases.get_spec(n) is None,
            r.function_signatures.entries@.len() == 0,
            r.struct_definitions.entries@.len() == 0,
            r.enum_definitions.entries@.len() == 0,
            r.module_aliases.entries@.len() == 0,
    {
        ModuleTypeRegistry {
            function_signatures: NameMap::new(),
            struct_definitions: NameMap::new(),
            enum_definitions: NameMap::new(),
            module_aliases: NameMap::new(),
        }
    }

    /// Registers a function of another module under its full name.
    pub fn register_function(&mut self, full_name: String, signature: FunctionSignature)
        ensures
            final(self).function_signatures.get_spec(full_name@) == Some(signature),
            forall|n: Seq<char>| n != full_name@ ==> #[trigger] final(self).function_signatures.get_spec(n)
                == old(self).function_signatures.get_spec(n),
            final(self).struct_definitions == old(self).struct_definitions,
            final(self).enum_definitions == old(self).enum_definitions,
            final(self).module_aliases == old(self).module_aliases,
    {
        self.function_signatures.insert(full_name, signature);
    }

    /// Registers a struct of another module under its full name.
    pub fn register_struct(&mut self, full_name: String, fields: Vec<(String, MirType)>)
        ensures
            final(self).struct_definitions.get_spec(full_name@) == Some(fields),
            forall|n: Seq<char>| n != full_name@ ==> #[trigger] final(self).struct_definitions.get_spec(n)
                == old(self).struct_definitions.get_spec(n),
            final(self).function_signatures == old(self).function_signatures,
            final(self).enum_definitions == old(self).enum_definitions,
            final(self).module_aliases == old(self).module_aliases,
    {
        self.struct_definitions.insert(full_name, fields);
    }

    /// Registers an enum of another module under its full name.
    pub fn register_enum(&mut self, full_name: String, variants: Vec<(String, Vec<MirType>)>)
        ensures
            final(self).enum_definitions.get_spec(full_name@) == Some(variants),
            forall|n: Seq<char>| n != full_name@ ==> #[trigger] final(self).enum_definitions.get_spec(n)
                == old(self).enum_definitions.get_spec(n),
            final(self).function_signatures == old(self).function_signatures,
            final(self).struct_definitions == old(self).struct_definitions,
            final(self).module_aliases == old(self).module_aliases,
    {
        self.enum_definitions.insert(full_name, variants);
    }

    /// Records that `alias` names the module `full_path`.
    pub fn add_alias(&mut self, alias: String, full_path: String)
        ensures
            final(self).module_aliases.get_spec(alias@) == Some(full_path),
            forall|n: Seq<char>| n != alias@ ==> #[trigger] final(self).module_aliases.get_spec(n)
                == old(self).module_aliases.get_spec(n),
            final(self).function_signatures == old(self).function_signatures,
            final(self).struct_definitions == old(self).struct_definitions,
            final(self).enum_definitions == old(self).enum_definitions,
    {
        self.module_aliases.insert(alias, full_path);
    }

    /// The signature of a function, by name or through a module alias.
    pub fn lookup_function(&self, name: &str) -> (r: Option<&FunctionSignature>)
        ensures
            match r {
                Some(v) => lookup_qualified(self.function_signatures, self.module_aliases, name@) == Some(*v),
                None => lookup_qualified(self.function_signatures, self.module_aliases, name@) is None,
            },
    {
        lookup_qualified_exec(&self.function_signatures, &self.module_aliases, name)
    }

    /// The fields of a struct, by name or through a module alias.
    pub fn lookup_struct(&self, name: &str) -> (r: Option<&Vec<(String, MirType)>>)
        ensures
            match r {
                Some(v) => lookup_qualified(self.struct_definitions, self.module_aliases, name@) == Some(*v),
                None => lookup_qualified(self.struct_definitions, self.module_aliases, name@) is None,
            },
    {
        lookup_qualified_exec(&self.struct_definitions, &self.module_aliases, name)
    }

    /// The variants of an enum, by name or through a module alias.
    pub fn lookup_enum(&self, name: &str) -> (r: Option<&Vec<(String, Vec<MirType>)>>)
        ensures
            match r {
                Some(v) => lookup_qualified(self.enum_definitions, self.module_aliases, name@) == Some(*v),
                None => lookup_qualified(self.enum_definitions, self.module_aliases, name@) is None,
            },
    {
        lookup_qualified_exec(&self.enum_definitions, &self.module_aliases, name)
    }
}

impl Default for ModuleTypeRegistry {
    fn default() -> (r: Self)
        ensures
            forall|n: Seq<char>| #[trigger] r.function_signatures.get_spec(n) is None,
            forall|n: Seq<char>| #[trigger] r.struct_definitions.get_spec(n) is None,
            forall|n: Seq<char>| #[trigger] r.enum_definitions.get_spec(n) is None,
            forall|n: Seq<char>| #[trigger] r.module_aliases.get_spec(n) is None,
            r.function_signatures.entries@.len() == 0,
            r.struct_definitions.entries@.len() == 0,
            r.enum_definitions.entries@.len() == 0,
            r.module_aliases.entries@.len() == 0,
    {
        Self::new()
    }
}

// ============================================================================
// Builtin functions
// ============================================================================

/// The builtin functions in registration order: name, kind and return
/// type.
pub open spec fn builtin_table() -> Seq<(Seq<char>, BuiltinKind, TypeV)> {
    seq![
        ("print"@, BuiltinKind::Print, TypeV::Unit),
        ("println"@, BuiltinKind::Println, TypeV::Unit),
        ("len"@, BuiltinKind::Len, TypeV::Int),
        ("type_of"@, BuiltinKind::TypeOf, TypeV::String),
        ("to_string"@, BuiltinKind::ToString, TypeV::String),
        ("to_int"@, BuiltinKind::ToInt, TypeV::Int),
        ("to_float"@, BuiltinKind::ToFloat, TypeV::Float),
        ("contains"@, BuiltinKind::StringContains, TypeV::Bool),
        ("starts_with"@, BuiltinKind::StringStartsWith, TypeV::Bool),
        ("ends_with"@, BuiltinKind::StringEndsWith, TypeV::Bool),
        ("trim"@, BuiltinKind::StringTrim, TypeV::String),
        ("split"@, BuiltinKind::StringSplit, TypeV::Array(Box::new(TypeV::String))),
        ("replace"@, BuiltinKind::StringReplace, TypeV::String),
        ("substring"@, BuiltinKind::Substring, TypeV::String),
        ("char_at"@, BuiltinKind::CharAt, TypeV::Int),
        ("to_upper"@, BuiltinKind::ToUpper, TypeV::String),
        ("to_lower"@, BuiltinKind::ToLower, TypeV::String),
        ("abs"@, BuiltinKind::Abs, TypeV::Int),
        ("min"@, BuiltinKind::Min, TypeV::Int),
        ("max"@, BuiltinKind::Max, TypeV::Int),
        ("sqrt"@, BuiltinKind::Sqrt, TypeV::Float),
        ("pow"@, BuiltinKind::Pow, TypeV::Float),
        ("sin"@, BuiltinKind::Sin, TypeV::Float),
        ("cos"@, BuiltinKind::Cos, TypeV::Float),
        ("tan"@, BuiltinKind::Tan, TypeV::Float),
        ("floor"@, BuiltinKind::Floor, TypeV::Int),
        ("ceil"@, BuiltinKind::Ceil, TypeV::Int),
        ("round"@, BuiltinKind::Round, TypeV::Int),
        ("push"@, BuiltinKind::Push, TypeV::Unit),
        ("pop"@, BuiltinKind::Pop, TypeV::Int),
        ("first"@, BuiltinKind::First, TypeV::Int),
        ("last"@, BuiltinKind::Last, TypeV::Int),
        ("reverse"@, BuiltinKind::Reverse, TypeV::Array(Box::new(TypeV::Int))),
        ("map"@, BuiltinKind::MapEach, TypeV::Array(Box::new(TypeV::Int))),
        ("filter"@, BuiltinKind::Filter, TypeV::Array(Box::new(TypeV::Int))),
        ("reduce"@, BuiltinKind::Reduce, TypeV::Int),
        ("find"@, BuiltinKind::Find, TypeV::Optional(Box::new(TypeV::Int))),
        ("any"@, BuiltinKind::Any, TypeV::Bool),
        ("all"@, BuiltinKind::All, TypeV::Bool),
        ("slice"@, BuiltinKind::Slice, TypeV::Array(Box::new(TypeV::Int))),
        ("concat"@, BuiltinKind::Concat, TypeV::Array(Box::new(TypeV::Int))),
        ("assert"@, BuiltinKind::Assert, TypeV::Unit),
        ("panic"@, BuiltinKind::Panic, TypeV::Never),
    ]
}

/// The builtin at position `i` of the table.
fn builtin_at(i: usize) -> (r: (&'static str, BuiltinKind, MirType))
    requires
        i < builtin_table().len(),
    ensures
        r.0@ == builtin_table()[i as int].0,
        r.1 == builtin_table()[i as int].1,
        r.2@ == builtin_table()[i as int].2,
{
    proof {
        reveal_with_fuel(crate::mir::ty_view, 3);
    }
    if i == 0 {
        ("print", BuiltinKind::Print, MirType::Unit)
    } else if i == 1 {
        ("println", BuiltinKind::Println, MirType::Unit)
    } else if i == 2 {
        ("len", BuiltinKind::Len, MirType::Int)
    } else if i == 3 {
        ("type_of", BuiltinKind::TypeOf, MirType::String)
    } else if i == 4 {
        ("to_string", BuiltinKind::ToString, MirType::String)
    } else if i == 5 {
        ("to_int", BuiltinKind::ToInt, MirType::Int)
    } else if i == 6 {
        ("to_float", BuiltinKind::ToFloat, MirType::Float)
    } else if i == 7 {
        ("contains", BuiltinKind::StringContains, MirType::Bool)
    } else if i == 8 {
        ("starts_with", BuiltinKind::StringStartsWith, MirType::Bool)
    } else if i == 9 {
        ("ends_with", BuiltinKind::StringEndsWith, MirType::Bool)
    } else if i == 10 {
        ("trim", BuiltinKind::StringTrim, MirType::String)
    } else if i == 11 {
        ("split", BuiltinKind::StringSplit, MirType::Array(Box::new(MirType::String)))
    } else if i == 12 {
        ("replace", BuiltinKind::StringReplace, MirType::String)
    } else if i == 13 {
        ("substring", BuiltinKind::Substring, MirType::String)
    } else if i == 14 {
        ("char_at", BuiltinKind::CharAt, MirType::Int)
    } else if i == 15 {
        ("to_upper", BuiltinKind::ToUpper, MirType::String)
    } else if i == 16 {
        ("to_lower", BuiltinKind::ToLower, MirType::String)
    } else if i == 17 {
        ("abs", BuiltinKind::Abs, MirType::Int)
    } else if i == 18 {
        ("min", BuiltinKind::Min, MirType::Int)
    } else if i == 19 {
        ("max", BuiltinKind::Max, MirType::Int)
    } else if i == 20 {
        ("sqrt", BuiltinKind::Sqrt, MirType::Float)
    } else if i == 21 {
        ("pow", BuiltinKind::Pow, MirType::Float)
    } else if i == 22 {
        ("sin", BuiltinKind::Sin, MirType::Float)
    } else if i == 23 {
        ("cos", BuiltinKind::Cos, MirType::Float)
    } else if i == 24 {
        ("tan", BuiltinKind::Tan, MirType::Float)
    } else if i == 25 {
        ("floor", BuiltinKind::Floor, MirType::Int)
    } else if i == 26 {
        ("ceil", BuiltinKind::Ceil, MirType::Int)
    } else if i == 27 {
        ("round", BuiltinKind::Round, MirType::Int)
    } else if i == 28 {
        ("push", BuiltinKind::Push, MirType::Unit)
    } else if i == 29 {
        ("pop", BuiltinKind::Pop, MirType::Int)
    } else if i == 30 {
        ("first", BuiltinKind::First, MirType::Int)
    } else if i == 31 {
        ("last", BuiltinKind::Last, MirType::Int)
    } else if i == 32 {
        ("reverse", BuiltinKind::Reverse, MirType::Array(Box::new(MirType::Int)))
    } else if i == 33 {
        ("map", BuiltinKind::MapEach, MirType::Array(Box::new(MirType::Int)))
    } else if i == 34 {
        ("filter", BuiltinKind::Filter, MirType::Array(Box::new(MirType::Int)))
    } else if i == 35 {
        ("reduce", BuiltinKind::Reduce, MirType::Int)
    } else if i == 36 {
        ("find", BuiltinKind::Find, MirType::Optional(Box::new(MirType::Int)))
    } else if i == 37 {
        ("any", BuiltinKind::Any, MirType::Bool)
    } else if i == 38 {
        ("all", BuiltinKind::All, MirType::Bool)
    } else if i == 39 {
        ("slice", BuiltinKind::Slice, MirType::Array(Box::new(MirType::Int)))
    } else if i == 40 {
        ("concat", BuiltinKind::Concat, MirType::Array(Box::new(MirType::Int)))
    } else if i == 41 {
        ("assert", BuiltinKind::Assert, MirType::Unit)
    } else {
        ("panic", BuiltinKind::Panic, MirType::Never)
    }
}


/// The position of the last builtin named `name` among the first `k`.
pub open spec fn builtin_index(name: Seq<char>, k: int) -> Option<int>
    decreases k,
{
    if k <= 0 {
        None
    } else if builtin_table()[k - 1].0 == name {
        Some(k - 1)
    } else {
        builtin_index(name, k - 1)
    }
}

// ============================================================================
// The lowering context
// ============================================================================

/// The state of lowering a program: the program built so far, the
/// identifiers and names of its functions, structs and enums, type
/// inference, the registry of other modules' types, the type parameters in
/// scope and the counter for lambda names.
pub struct LoweringContext {
    program: MirProgram,
    next_fn_id: u32,
    next_struct_id: u32,
    next_enum_id: u32,
    fn_names: NameMap<FunctionId>,
    struct_names: NameMap<StructId>,
    enum_names: NameMap<EnumId>,
    type_ctx: TypeInferenceContext,
    module_registry: ModuleTypeRegistry,
    current_type_params: Vec<String>,
    next_lambda_id: u32,
}

impl LoweringContext {
    /// The program built so far.
    pub closed spec fn program_spec(&self) -> MirProgram {
        self.program
    }

    /// The next function identifier.
    pub closed spec fn next_fn(&self) -> u32 {
        self.next_fn_id
    }

    /// Functions by name.
    pub closed spec fn fn_names_spec(&self) -> NameMap<FunctionId> {
        self.fn_names
    }

    /// Structs by name.
    pub closed spec fn struct_names_spec(&self) -> NameMap<StructId> {
        self.struct_names
    }

    /// Enums by name.
    pub closed spec fn enum_names_spec(&self) -> NameMap<EnumId> {
        self.enum_names
    }

    /// The type inference state.
    pub closed spec fn types(&self) -> TypeInferenceContext {
        self.type_ctx
    }

    /// The registry of other modules' types.
    pub closed spec fn registry(&self) -> ModuleTypeRegistry {
        self.module_registry
    }

    /// The number of the next lambda name.
    pub closed spec fn next_lambda(&self) -> u32 {
        self.next_lambda_id
    }

    /// The context is well formed.
    pub open spec fn wf(&self) -> bool {
        &&& self.program_spec().wf()
        &&& self.types().wf()
        &&& forall|i: int| 0 <= i < self.program_spec().functions.entries@.len()
            ==> (#[trigger] self.program_spec().functions.entries@[i]).0.0 < self.next_fn()
    }

    /// A context with the builtin functions registered: builtin `i` of
    /// `builtin_table` gets function identifier `i`, a public function with
    /// builtin linkage, the builtin's name and return type.
    pub fn new() -> (c: Self)
        ensures
            c.wf(),
            c.next_fn() == builtin_table().len(),
            c.program_spec().functions.entries@.len() == builtin_table().len(),
            forall|i: int| 0 <= i < builtin_table().len() ==> {
                let (id, f) = #[trigger] c.program_spec().functions.entries@[i];
                &&& id == FunctionId(i as u32)
                &&& f.name@ == builtin_table()[i].0
                &&& f.linkage == Linkage::Builtin(builtin_table()[i].1)
                &&& f.return_ty@ == builtin_table()[i].2
                &&& f.is_public
            },
            forall|n: Seq<char>| #[trigger] c.fn_names_spec().get_spec(n) == match builtin_index(n, builtin_table().len() as int) {
                Some(i) => Some(FunctionId(i as u32)),
                None => None,
            },
            forall|n: Seq<char>| #[trigger] c.struct_names_spec().get_spec(n) is None,
            forall|n: Seq<char>| #[trigger] c.enum_names_spec().get_spec(n) is None,
            c.types().bindings() == Seq::<(TypeVarId, TypeV)>::empty(),
            c.types().next_var() == 0,
            c.next_lambda() == 0,
    {
        let mut ctx = LoweringContext {
            program: MirProgram::new(),
            next_fn_id: 0,
            next_struct_id: 0,
            next_enum_id: 0,
            fn_names: NameMap::new(),
            struct_names: NameMap::new(),
            enum_names: NameMap::new(),
            type_ctx: TypeInferenceContext::new(),
            module_registry: ModuleTypeRegistry::new(),
            current_type_params: Vec::new(),
            next_lambda_id: 0,
        };
        ctx.register_builtins();
        ctx
    }

    fn register_builtins(&mut self)
        requires
            old(self).program.wf(),
            old(self).program.functions.entries@.len() == 0,
            old(self).next_fn_id == 0,
            forall|n: Seq<char>| #[trigger] old(self).fn_names.get_spec(n) is None,
        ensures
            final(self).program.wf(),
            final(self).next_fn_id == builtin_table().len(),
            final(self).program.functions.entries@.len() == builtin_table().len(),
            forall|i: int| 0 <= i < builtin_table().len() ==> {
                let (id, f) = #[trigger] final(self).program.functions.entries@[i];
                &&& id == FunctionId(i as u32)
                &&& f.name@ == builtin_table()[i].0
                &&& f.linkage == Linkage::Builtin(builtin_table()[i].1)
                &&& f.return_ty@ == builtin_table()[i].2
                &&& f.is_public
            },
            forall|n: Seq<char>| #[trigger] final(self).fn_names.get_spec(n) == match builtin_index(n, builtin_table().len() as int) {
                Some(i) => Some(FunctionId(i as u32)),
                None => None,
            },
            final(self).struct_names == old(self).struct_names,
            final(self).enum_names == old(self).enum_names,
            final(self).type_ctx == old(self).type_ctx,
            final(self).next_lambda_id == old(self).next_lambda_id,
    {
        let count: usize = 43;
        assert(builtin_table().len() == 43);
        let mut i: usize = 0;
        while i < count
            invariant
                count == builtin_table().len(),
                0 <= i <= count,
                self.program.wf(),
                self.next_fn_id == i,
                self.program.functions.entries@.len() == i,
                forall|j: int| 0 <= j < i ==> {
                    let (id, f) = #[trigger] self.program.functions.entries@[j];
                    &&& id == FunctionId(j as u32)
                    &&& f.name@ == builtin_table()[j].0
                    &&& f.linkage == Linkage::Builtin(builtin_table()[j].1)
                    &&& f.return_ty@ == builtin_table()[j].2
                    &&& f.is_public
                },
                forall|n: Seq<char>| #[trigger] self.fn_names.get_spec(n) == match builtin_index(n, i as int) {
                    Some(j) => Some(FunctionId(j as u32)),
                    None => None,
                },
                self.struct_names == old(self).struct_names,
                self.enum_names == old(self).enum_names,
                self.type_ctx == old(self).type_ctx,
                self.next_lambda_id == old(self).next_lambda_id,
            decreases count - i,
        {
            let (name, kind, ret) = builtin_at(i);
            let id = FunctionId(self.next_fn_id);
            self.next_fn_id = self.next_fn_id + 1;
            self.fn_names.insert(crate::text::owned_string(name), id);
            let mut func = MirFunction::new(crate::text::owned_string(name), ret, Span::dummy());
            func.linkage = Linkage::Builtin(kind);
            func.is_public = true;
            proof {
                assert(!self.program.functions.has(id)) by {
                    if self.program.functions.has(id) {
                        let j = choose|j: int| 0 <= j < self.program.functions.entries@.len()
                            && #[trigger] self.program.functions.entries@[j].0 == id;
                        assert(self.program.functions.entries@[j].0 == FunctionId(j as u32));
                    }
                }
            }
            let ghost before = self.program.functions.entries@;
            self.program.functions.insert(id, func);
            assert(self.program.functions.entries@ == before.push((id, func)));
            i = i + 1;
        }
    }

    /// The registry of other modules' types.
    pub fn module_registry(&self) -> (r: &ModuleTypeRegistry)
        ensures
            *r == self.registry(),
    {
        &self.module_registry
    }

    /// The registry of other modules' types, for change.
    pub fn module_registry_mut(&mut self) -> (r: &mut ModuleTypeRegistry)
        ensures
            *r == old(self).registry(),
            final(self).registry() == *final(r),
            final(self).program_spec() == old(self).program_spec(),
            final(self).types() == old(self).types(),
            final(self).fn_names_spec() == old(self).fn_names_spec(),
            final(self).struct_names_spec() == old(self).struct_names_spec(),
            final(self).enum_names_spec() == old(self).enum_names_spec(),
            final(self).next_fn() == old(self).next_fn(),
            final(self).next_lambda() == old(self).next_lambda(),
    {
        &mut self.module_registry
    }

    /// A fresh lambda name: `prefix`, an underscore and the lambda counter,
    /// which goes up by one.
    pub fn next_lambda_name(&mut self, prefix: &str) -> (r: String)
        requires
            old(self).next_lambda() < u32::MAX,
        ensures
            r@ == prefix@ + seq!['_'] + decimal(old(self).next_lambda() as nat),
            final(self).next_lambda() == old(self).next_lambda() + 1,
            final(self).program_spec() == old(self).program_spec(),
            final(self).types() == old(self).types(),
            final(self).fn_names_spec() == old(self).fn_names_spec(),
            final(self).next_fn() == old(self).next_fn(),
    {
        let id = self.next_lambda_id;
        self.next_lambda_id = self.next_lambda_id + 1;
        let mut out = str_chars(prefix);
        out.push('_');
        push_decimal(&mut out, id as u64);
        string_from_chars(out.as_slice())
    }

    /// A fresh type variable.
    pub fn fresh_type_var(&mut self) -> (t: MirType)
        requires
            old(self).types().next_var() < u32::MAX,
        ensures
            t@ == TypeV::TypeVar(TypeVarId(old(self).types().next_var())),
            final(self).types().next_var() == old(self).types().next_var() + 1,
            final(self).types().bindings() == old(self).types().bindings(),
            final(self).types().wf() == old(self).types().wf(),
            final(self).program_spec() == old(self).program_spec(),
            final(self).fn_names_spec() == old(self).fn_names_spec(),
            final(self).next_fn() == old(self).next_fn(),
    {
        self.type_ctx.fresh_type_var()
    }

    /// `ty` resolved through the type variable bindings.
    pub fn resolve_type(&self, ty: &MirType) -> (r: MirType)
        ensures
            r@ == res_v(ty@, self.types().bindings()),
    {
        self.type_ctx.resolve(ty)
    }

    /// Unifies two types (see `TypeInferenceContext::unify`).
    pub fn unify_types(&mut self, a: &MirType, b: &MirType) -> (ok: bool)
        requires
            old(self).wf(),
        ensures
            final(self).wf(),
            final(self).types().next_var() == old(self).types().next_var(),
            extends(old(self).types().bindings(), final(self).types().bindings()),
            unify_outcome(a@, b@, old(self).types().bindings(), final(self).types().bindings(), ok),
            !ok ==> final(self).types().bindings() == old(self).types().bindings(),
            exists|s1: Seq<(TypeVarId, TypeV)>| #[trigger] unify_settles(a@, b@, old(self).types().bindings(), ok, s1)
                && (ok ==> final(self).types().bindings() == s1),
            final(self).program_spec() == old(self).program_spec(),
            final(self).fn_names_spec() == old(self).fn_names_spec(),
            final(self).next_fn() == old(self).next_fn(),
    {
        self.type_ctx.unify(a, b)
    }

    /// Registers a function with the next function identifier.
    pub fn register_anonymous_function(&mut self, func: MirFunction) -> (id: FunctionId)
        requires
            old(self).wf(),
            old(self).next_fn() < u32::MAX,
            func.wf(),
        ensures
            final(self).wf(),
            id == FunctionId(old(self).next_fn()),
            final(self).next_fn() == old(self).next_fn() + 1,
            final(self).program_spec().functions.entries@ == old(self).program_spec().functions.entries@.push((id, func)),
            final(self).fn_names_spec() == old(self).fn_names_spec(),
            final(self).types() == old(self).types(),
    {
        let id = FunctionId(self.next_fn_id);
        self.next_fn_id = self.next_fn_id + 1;
        proof {
            assert(!self.program.functions.has(id)) by {
                if self.program.functions.has(id) {
                    let j = choose|j: int| 0 <= j < self.program.functions.entries@.len()
                        && #[trigger] self.program.functions.entries@[j].0 == id;
                    assert(self.program.functions.entries@[j].0.0 < old(self).next_fn_id);
                }
            }
        }
        let ghost before = self.program.functions.entries@;
        self.program.functions.insert(id, func);
        assert forall|i: int| 0 <= i < self.program.functions.entries@.len() implies
            (#[trigger] self.program.functions.entries@[i]).1.wf() by {
            if i < before.len() {
                assert(self.program.functions.entries@[i] == before[i]);
            }
        }
        id
    }

    /// The function of a name.
    pub fn lookup_function(&self, name: &str) -> (r: Option<FunctionId>)
        ensures
            r == self.fn_names_spec().get_spec(name@),
    {
        match self.fn_names.get(name) {
            Some(id) => Some(*id),
            None => None,
        }
    }

    /// The function of an identifier.
    pub fn get_function(&self, fn_id: &FunctionId) -> (r: Option<&MirFunction>)
        requires
            self.wf(),
        ensures
            match r {
                Some(f) => self.program_spec().functions.get_spec(*fn_id) == Some(*f),
                None => self.program_spec().functions.get_spec(*fn_id) is None,
            },
    {
        self.program.functions.get(fn_id)
    }

    /// The struct of a name.
    pub fn lookup_struct(&self, name: &str) -> (r: Option<StructId>)
        ensures
            r == self.struct_names_spec().get_spec(name@),
    {
        match self.struct_names.get(name) {
            Some(id) => Some(*id),
            None => None,
        }
    }

    /// The enum of a name.
    pub fn lookup_enum(&self, name: &str) -> (r: Option<EnumId>)
        ensures
            r == self.enum_names_spec().get_spec(name@),
    {
        match self.enum_names.get(name) {
            Some(id) => Some(*id),
            None => None,
        }
    }

    /// The struct of an identifier.
    pub fn get_struct(&self, id: StructId) -> (r: Option<&MirStruct>)
        requires
            self.wf(),
        ensures
            match r {
                Some(s) => self.program_spec().structs.get_spec(id) == Some(*s),
                None => self.program_spec().structs.get_spec(id) is None,
            },
    {
        self.program.structs.get(&id)
    }

    /// The enum of an identifier.
    pub fn get_enum(&self, id: EnumId) -> (r: Option<&MirEnum>)
        requires
            self.wf(),
        ensures
            match r {
                Some(e) => self.program_spec().enums.get_spec(id) == Some(*e),
                None => self.program_spec().enums.get_spec(id) is None,
            },
    {
        self.program.enums.get(&id)
    }

    /// The index and type of the first field of a struct with the given
    /// name.
    pub fn lookup_struct_field(&self, struct_id: StructId, field_name: &str) -> (r: Option<(u32, MirType)>)
        requires
            self.wf(),
        ensures
            match self.program_spec().structs.get_spec(struct_id) {
                None => r is None,
                Some(s) => match first_field(s.fields@, field_name@, 0) {
                    Some(i) => r matches Some((idx, ty)) && idx == i as u32 && ty@ == s.fields@[i].ty@,
                    None => r is None,
                },
            },
    {
        let struct_def = match self.program.structs.get(&struct_id) {
            Some(s) => s,
            None => return None,
        };
        let mut i: usize = 0;
        while i < struct_def.fields.len()
            invariant
                self.program.structs.get_spec(struct_id) == Some(*struct_def),
                0 <= i <= struct_def.fields@.len(),
                first_field(struct_def.fields@, field_name@, 0) == first_field(struct_def.fields@, field_name@, i as int),
            decreases struct_def.fields@.len() - i,
        {
            if str_equal(struct_def.fields[i].name.as_str(), field_name) {
                return Some((i as u32, struct_def.fields[i].ty.clone_ty()));
            }
            i = i + 1;
        }
        None
    }

    /// The type of field `field_idx` of a struct.
    pub fn get_struct_field_type(&self, struct_id: StructId, field_idx: u32) -> (r: Option<MirType>)
        requires
            self.wf(),
        ensures
            r matches Some(t) ==> struct_field_ty(self.program_spec(), struct_id, field_idx) == Some(t@),
            r is None ==> struct_field_ty(self.program_spec(), struct_id, field_idx) is None,
    {
        let struct_def = match self.program.structs.get(&struct_id) {
            Some(s) => s,
            None => return None,
        };
        if (field_idx as usize) < struct_def.fields.len() {
            Some(struct_def.fields[field_idx as usize].ty.clone_ty())
        } else {
            None
        }
    }

    /// The index of the first variant of an enum with the given name.
    pub fn lookup_enum_variant(&self, enum_id: EnumId, variant_name: &str) -> (r: Option<u32>)
        requires
            self.wf(),
        ensures
            match self.program_spec().enums.get_spec(enum_id) {
                None => r is None,
                Some(e) => match first_variant(e.variants@, variant_name@, 0) {
                    Some(i) => r == Some(i as u32),
                    None => r is None,
                },
            },
    {
        let enum_def = match self.program.enums.get(&enum_id) {
            Some(e) => e,
            None => return None,
        };
        let mut i: usize = 0;
        while i < enum_def.variants.len()
            invariant
                self.program.enums.get_spec(enum_id) == Some(*enum_def),
                0 <= i <= enum_def.variants@.len(),
                first_variant(enum_def.variants@, variant_name@, 0) == first_variant(enum_def.variants@, variant_name@, i as int),
            decreases enum_def.variants@.len() - i,
        {
            if str_equal(enum_def.variants[i].name.as_str(), variant_name) {
                return Some(i as u32);
            }
            i = i + 1;
        }
        None
    }

    /// The type of field `field_idx` of variant `variant_idx` of an enum.
    pub fn get_enum_variant_field_type(&self, enum_id: EnumId, variant_idx: u32, field_idx: u32) -> (r: Option<MirType>)
        requires
            self.wf(),
        ensures
            match self.program_spec().enums.get_spec(enum_id) {
                Some(e) => if variant_idx < e.variants@.len() && field_idx < e.variants@[variant_idx as int].fields@.len() {
                    r matches Some(t) && t@ == e.variants@[variant_idx as int].fields@[field_idx as int]@
                } else {
                    r is None
                },
                None => r is None,
            },
    {
        let enum_def = match self.program.enums.get(&enum_id) {
            Some(e) => e,
            None => return None,
        };
        if (variant_idx as usize) >= enum_def.variants.len() {
            return None;
        }
        let variant = &enum_def.variants[variant_idx as usize];
        if (field_idx as usize) < variant.fields.len() {
            Some(variant.fields[field_idx as usize].clone_ty())
        } else {
            None
        }
    }

    /// Interns a string in the program's string table.
    pub fn intern_string(&mut self, s: String) -> (idx: u32)
        ensures
            match crate::mir::string_position(old(self).program_spec().strings@, s@) {
                Some(i) => idx == i as u32 && final(self).program_spec().strings == old(self).program_spec().strings,
                None => idx == old(self).program_spec().strings@.len() as u32
                    && final(self).program_spec().strings@ == old(self).program_spec().strings@.push(s),
            },
            final(self).program_spec().functions == old(self).program_spec().functions,
            final(self).program_spec().structs == old(self).program_spec().structs,
            final(self).program_spec().enums == old(self).program_spec().enums,
            final(self).fn_names_spec() == old(self).fn_names_spec(),
            final(self).struct_names_spec() == old(self).struct_names_spec(),
            final(self).enum_names_spec() == old(self).enum_names_spec(),
            final(self).types() == old(self).types(),
            final(self).next_fn() == old(self).next_fn(),
            old(self).wf() ==> final(self).wf(),
    {
        self.program.intern_string(s)
    }
}

impl Default for LoweringContext {
    fn default() -> (c: Self)
        ensures
            c.wf(),
            c.next_fn() == builtin_table().len(),
    {
        Self::new()
    }
}

/// The index of the first field named `name` at or after `i`.
pub open spec fn first_field(fields: Seq<crate::mir::MirField>, name: Seq<char>, i: int) -> Option<int>
    decreases fields.len() - i,
{
    if i < 0 || i >= fields.len() {
        None
    } else if fields[i].name@ == name {
        Some(i)
    } else {
        first_field(fields, name, i + 1)
    }
}

/// The index of the first variant named `name` at or after `i`.
pub open spec fn first_variant(variants: Seq<crate::mir::MirVariant>, name: Seq<char>, i: int) -> Option<int>
    decreases variants.len() - i,
{
    if i < 0 || i >= variants.len() {
        None
    } else if variants[i].name@ == name {
        Some(i)
    } else {
        first_variant(variants, name, i + 1)
    }
}

/// The type of field `idx` of a struct of the program.
pub open spec fn struct_field_ty(p: MirProgram, id: StructId, idx: u32) -> Option<TypeV> {
    match p.structs.get_spec(id) {
        Some(s) => if idx < s.fields@.len() { Some(s.fields@[idx as int].ty@) } else { None },
        None => None,
    }
}


// ============================================================================
// Lowering one function
// ============================================================================

/// Whether every jump of a terminator goes to a block numbered below `n`.
pub open spec fn jumps_below(t: TerminatorKind, n: int) -> bool {
    match t {
        TerminatorKind::Goto { target } => target.0 < n,
        TerminatorKind::SwitchInt { targets, .. } => targets.otherwise.0 < n
            && forall|j: int| 0 <= j < targets.targets@.len() ==> (#[trigger] targets.targets@[j]).1.0 < n,
        TerminatorKind::Call { target, .. } => match target {
            Some(b) => b.0 < n,
            None => true,
        },
        TerminatorKind::Return => true,
        TerminatorKind::Unreachable => true,
        TerminatorKind::Drop { target, .. } => target.0 < n,
        TerminatorKind::Assert { target, .. } => target.0 < n,
    }
}

/// Every terminator of `blocks` jumps to one of them.
pub open spec fn jumps_within(blocks: Seq<BasicBlock>) -> bool {
    forall|i: int| 0 <= i < blocks.len() ==> match (#[trigger] blocks[i]).terminator {
        Some(t) => jumps_below(t.kind, blocks.len() as int),
        None => true,
    }
}

/// A jump below `n` is a jump below any larger bound.
pub proof fn lemma_jumps_below_mono(t: TerminatorKind, n: int, m: int)
    requires
        jumps_below(t, n),
        n <= m,
    ensures
        jumps_below(t, m),
{
}

/// Appending a block without a terminator keeps every jump within the
/// blocks.
pub proof fn lemma_jumps_within_push(blocks: Seq<BasicBlock>, b: BasicBlock)
    requires
        jumps_within(blocks),
        b.terminator is None,
    ensures
        jumps_within(blocks.push(b)),
{
    let nb = blocks.push(b);
    assert forall|i: int| 0 <= i < nb.len() implies match (#[trigger] nb[i]).terminator {
        Some(t) => jumps_below(t.kind, nb.len() as int),
        None => true,
    } by {
        if i < blocks.len() {
            assert(nb[i] == blocks[i]);
            match blocks[i].terminator {
                Some(t) => lemma_jumps_below_mono(t.kind, blocks.len() as int, nb.len() as int),
                None => {},
            }
        }
    }
}

/// Replacing a block by one with the same terminator, or with one whose
/// jumps stay within the blocks, keeps every jump within the blocks.
pub proof fn lemma_jumps_within_update(blocks: Seq<BasicBlock>, k: int, b: BasicBlock)
    requires
        jumps_within(blocks),
        0 <= k < blocks.len(),
        match b.terminator {
            Some(t) => jumps_below(t.kind, blocks.len() as int),
            None => true,
        },
    ensures
        jumps_within(blocks.update(k, b)),
{
    let nb = blocks.update(k, b);
    assert forall|i: int| 0 <= i < nb.len() implies match (#[trigger] nb[i]).terminator {
        Some(t) => jumps_below(t.kind, nb.len() as int),
        None => true,
    } by {
        if i != k {
            assert(nb[i] == blocks[i]);
        }
    }
}

/// The jumps of every enclosing loop go to blocks numbered below `n`.
pub open spec fn loops_below(stack: Seq<(BlockId, BlockId)>, n: int) -> bool {
    forall|j: int| 0 <= j < stack.len() ==> (#[trigger] stack[j]).0.0 < n && stack[j].1.0 < n
}

/// Every name is bound to a local numbered below `n`.
pub open spec fn names_below(names: NameMap<Local>, n: int) -> bool {
    forall|k: Seq<char>| match #[trigger] names.get_spec(k) {
        Some(l) => l.0 < n,
        None => true,
    }
}

/// Every statement of the blocks `before` is still in its place in `after`,
/// which has at least as many blocks: code is only ever appended.
pub closed spec fn statements_kept(before: Seq<BasicBlock>, after: Seq<BasicBlock>) -> bool {
    &&& before.len() <= after.len()
    &&& forall|j: int| 0 <= j < before.len()
        ==> before[j].statements@.len() <= (#[trigger] after[j]).statements@.len()
    &&& forall|j: int, k: int| 0 <= j < before.len() && 0 <= k < before[j].statements@.len()
        ==> #[trigger] after[j].statements@[k] == before[j].statements@[k]
}

/// Blocks keep their own statements.
pub broadcast proof fn lemma_statements_kept_refl(a: Seq<BasicBlock>)
    ensures
        #[trigger] statements_kept(a, a),
{
}

/// Keeping statements is transitive.
pub broadcast proof fn lemma_statements_kept_trans(a: Seq<BasicBlock>, b: Seq<BasicBlock>, c: Seq<BasicBlock>)
    requires
        statements_kept(a, b),
        statements_kept(b, c),
    ensures
        #![trigger statements_kept(a, b), statements_kept(b, c)]
        statements_kept(a, c),
{
    assert forall|j: int| 0 <= j < a.len() implies a[j].statements@.len() <= (#[trigger] c[j]).statements@.len() by {
        assert(a[j].statements@.len() <= b[j].statements@.len());
        assert(b[j].statements@.len() <= c[j].statements@.len());
    }
    assert forall|j: int, k: int| 0 <= j < a.len() && 0 <= k < a[j].statements@.len() implies
        #[trigger] c[j].statements@[k] == a[j].statements@[k] by {
        assert(a[j].statements@.len() <= b[j].statements@.len());
        assert(b[j].statements@[k] == a[j].statements@[k]);
        assert(c[j].statements@[k] == b[j].statements@[k]);
    }
}

/// Statements, once emitted, stay.
pub broadcast group group_statements_kept {
    lemma_statements_kept_refl,
    lemma_statements_kept_trans,
}

/// Whether an operand reads only locals numbered below `n`.
pub open spec fn operand_below(o: Operand, n: int) -> bool {
    match o {
        Operand::Copy(p) => p.local.0 < n,
        Operand::Move(p) => p.local.0 < n,
        Operand::Constant(_) => true,
    }
}

/// The state of lowering one function: the lowering context, the function
/// being built, the block being filled, the locals by name and the stack of
/// enclosing loops (break target, continue target).
pub struct FunctionLoweringContext<'a> {
    pub ctx: &'a mut LoweringContext,
    pub func: &'a mut MirFunction,
    pub current_block: BlockId,
    pub locals: NameMap<Local>,
    pub loop_stack: Vec<(BlockId, BlockId)>,
}

impl<'a> FunctionLoweringContext<'a> {
    /// Starts lowering `func` at its entry block.
    pub fn new(ctx: &'a mut LoweringContext, func: &'a mut MirFunction) -> (c: Self)
        ensures
            *c.ctx == *old(ctx),
            *c.func == *old(func),
            *final(c.ctx) == *final(ctx),
            *final(c.func) == *final(func),
            c.current_block == BlockId(0),
            forall|n: Seq<char>| #[trigger] c.locals.get_spec(n) is None,
            c.loop_stack@.len() == 0,
    {
        FunctionLoweringContext {
            ctx,
            func,
            current_block: BlockId::entry(),
            locals: NameMap::new(),
            loop_stack: Vec::new(),
        }
    }

    /// The function being built, as it is now.
    pub open spec fn func_now(&self) -> MirFunction {
        *self.func
    }

    /// The lowering context, as it is now.
    pub open spec fn ctx_now(&self) -> LoweringContext {
        *self.ctx
    }

    /// The state is consistent: the lowering context and the function are
    /// well formed, the current block exists, every jump and every
    /// enclosing loop's targets are blocks of the function, and every name
    /// is bound to one of its locals.
    pub open spec fn ok(&self) -> bool {
        &&& self.ctx_now().wf()
        &&& self.func_now().wf()
        &&& self.current_block.0 < self.func_now().blocks@.len()
        &&& jumps_within(self.func_now().blocks@)
        &&& loops_below(self.loop_stack@, self.func_now().blocks@.len() as int)
        &&& names_below(self.locals, self.func_now().locals@.len() as int)
        &&& forall|i: int| 0 <= i < self.func_now().params@.len()
            ==> (#[trigger] self.func_now().params@[i]).0 < self.func_now().locals@.len()
        &&& self.func_now().locals@.len() >= 1
    }

    /// This state follows `earlier` in the lowering of one function: blocks
    /// and locals were only added, every statement emitted before is kept
    /// in its place, the loops are the same and function identifiers were
    /// only allocated.
    pub open spec fn follows(&self, earlier: FunctionLoweringContext<'a>) -> bool {
        &&& earlier.func_now().blocks@.len() <= self.func_now().blocks@.len()
        &&& statements_kept(earlier.func_now().blocks@, self.func_now().blocks@)
        &&& self.func_now().name == earlier.func_now().name
        &&& self.func_now().params == earlier.func_now().params
        &&& earlier.func_now().locals@.len() <= self.func_now().locals@.len()
        &&& self.loop_stack@ == earlier.loop_stack@
        &&& earlier.ctx_now().next_fn() <= self.ctx_now().next_fn()
    }

    /// Whether the current block has a terminator.
    pub fn is_terminated(&self) -> (b: bool)
        requires
            self.current_block.0 < self.func_now().blocks@.len(),
        ensures
            b == self.func_now().blocks@[self.current_block.0 as int].terminator is Some,
    {
        self.func.block(self.current_block).terminator.is_some()
    }

    /// Ends the current block with a return unless it has a terminator.
    pub fn ensure_terminated(&mut self)
        requires
            old(self).current_block.0 < old(self).func.blocks@.len(),
        ensures
            ({
                let b = old(self).current_block.0 as int;
                let old_block = old(self).func.blocks@[b];
                let new_block = (*final(self).func).blocks@[b];
                &&& (*final(self).func).blocks@.len() == old(self).func.blocks@.len()
                &&& forall|j: int| 0 <= j < old(self).func.blocks@.len() && j != b
                    ==> #[trigger] (*final(self).func).blocks@[j] == old(self).func.blocks@[j]
                &&& new_block.id == old_block.id
                &&& new_block.statements == old_block.statements
                &&& new_block.terminator == if old_block.terminator is Some {
                    old_block.terminator
                } else {
                    Some(Terminator { kind: TerminatorKind::Return, span: Span::dummy_spec() })
                }
            }),
            (*final(self).func).locals == old(self).func.locals,
            final(self).current_block == old(self).current_block,
            old(self).ok() ==> final(self).ok(),
            *final(final(self).ctx) == *final(old(self).ctx),
            *final(final(self).func) == *final(old(self).func),
            *final(self).ctx == *old(self).ctx,
            final(self).locals == old(self).locals,
            final(self).loop_stack == old(self).loop_stack,
            final(self).follows(*old(self)),
    {
        if !self.is_terminated() {
            self.emit_terminator(TerminatorKind::Return, Span::dummy());
        }
    }

    /// Appends a statement to the current block.
    pub fn emit_stmt(&mut self, kind: StatementKind, span: Span)
        requires
            old(self).current_block.0 < old(self).func.blocks@.len(),
        ensures
            ({
                let b = old(self).current_block.0 as int;
                let old_block = old(self).func.blocks@[b];
                let new_block = (*final(self).func).blocks@[b];
                &&& (*final(self).func).blocks@.len() == old(self).func.blocks@.len()
                &&& forall|j: int| 0 <= j < old(self).func.blocks@.len() && j != b
                    ==> #[trigger] (*final(self).func).blocks@[j] == old(self).func.blocks@[j]
                &&& new_block.id == old_block.id
                &&& new_block.statements@ == old_block.statements@.push(Statement { kind, span })
                &&& new_block.terminator == old_block.terminator
            }),
            (*final(self).func).locals == old(self).func.locals,
            final(self).current_block == old(self).current_block,
            old(self).ok() ==> final(self).ok(),
            *final(final(self).ctx) == *final(old(self).ctx),
            *final(final(self).func) == *final(old(self).func),
            *final(self).ctx == *old(self).ctx,
            final(self).locals == old(self).locals,
            final(self).loop_stack == old(self).loop_stack,
            final(self).follows(*old(self)),
    {
        let stmt = Statement { kind, span };
        let ghost b = self.current_block.0 as int;
        self.func.block_mut(self.current_block).push_stmt(stmt);
        proof {
            if old(self).ok() {
                lemma_jumps_within_update(old(self).func.blocks@, b, (*self.func).blocks@[b]);
                assert((*self.func).blocks@ =~= old(self).func.blocks@.update(b, (*self.func).blocks@[b]));
            }
        }
    }

    /// Appends `place = rvalue` to the current block.
    pub fn emit_assign(&mut self, place: Place, rvalue: Rvalue, span: Span)
        requires
            old(self).current_block.0 < old(self).func.blocks@.len(),
        ensures
            ({
                let b = old(self).current_block.0 as int;
                let old_block = old(self).func.blocks@[b];
                let new_block = (*final(self).func).blocks@[b];
                &&& (*final(self).func).blocks@.len() == old(self).func.blocks@.len()
                &&& forall|j: int| 0 <= j < old(self).func.blocks@.len() && j != b
                    ==> #[trigger] (*final(self).func).blocks@[j] == old(self).func.blocks@[j]
                &&& new_block.id == old_block.id
                &&& new_block.statements@ == old_block.statements@.push(Statement { kind: StatementKind::Assign(place, rvalue), span })
                &&& new_block.terminator == old_block.terminator
            }),
            (*final(self).func).locals == old(self).func.locals,
            final(self).current_block == old(self).current_block,
            old(self).ok() ==> final(self).ok(),
            *final(final(self).ctx) == *final(old(self).ctx),
            *final(final(self).func) == *final(old(self).func),
            *final(self).ctx == *old(self).ctx,
            final(self).locals == old(self).locals,
            final(self).loop_stack == old(self).loop_stack,
            final(self).follows(*old(self)),
    {
        self.emit_stmt(StatementKind::Assign(place, rvalue), span);
    }

    /// Sets the terminator of the current block.
    pub fn emit_terminator(&mut self, kind: TerminatorKind, span: Span)
        requires
            old(self).current_block.0 < old(self).func.blocks@.len(),
        ensures
            ({
                let b = old(self).current_block.0 as int;
                let old_block = old(self).func.blocks@[b];
                let new_block = (*final(self).func).blocks@[b];
                &&& (*final(self).func).blocks@.len() == old(self).func.blocks@.len()
                &&& forall|j: int| 0 <= j < old(self).func.blocks@.len() && j != b
                    ==> #[trigger] (*final(self).func).blocks@[j] == old(self).func.blocks@[j]
                &&& new_block.id == old_block.id
                &&& new_block.statements == old_block.statements
                &&& new_block.terminator == Some(Terminator { kind, span })
            }),
            (*final(self).func).locals == old(self).func.locals,
            final(self).current_block == old(self).current_block,
            old(self).ok() && jumps_below(kind, old(self).func.blocks@.len() as int) ==> final(self).ok(),
            *final(final(self).ctx) == *final(old(self).ctx),
            *final(final(self).func) == *final(old(self).func),
            *final(self).ctx == *old(self).ctx,
            final(self).locals == old(self).locals,
            final(self).loop_stack == old(self).loop_stack,
            final(self).follows(*old(self)),
    {
        let term = Terminator { kind, span };
        let ghost b = self.current_block.0 as int;
        self.func.block_mut(self.current_block).set_terminator(term);
        proof {
            if old(self).ok() && jumps_below(kind, old(self).func.blocks@.len() as int) {
                lemma_jumps_within_update(old(self).func.blocks@, b, (*self.func).blocks@[b]);
                assert((*self.func).blocks@ =~= old(self).func.blocks@.update(b, (*self.func).blocks@[b]));
            }
        }
    }

    /// A new unnamed local of type `ty`.
    pub fn new_temp(&mut self, ty: MirType) -> (l: Local)
        ensures
            l.0 == old(self).func.locals@.len() as u32,
            (*final(self).func).locals@ == old(self).func.locals@.push(LocalDecl {
                name: None, ty, mutable: true, span: Span::dummy_spec(),
            }),
            (*final(self).func).blocks == old(self).func.blocks,
            final(self).current_block == old(self).current_block,
            final(self).locals == old(self).locals,
            old(self).ok() ==> final(self).ok(),
            *final(final(self).ctx) == *final(old(self).ctx),
            *final(final(self).func) == *final(old(self).func),
            *final(self).ctx == *old(self).ctx,
            final(self).loop_stack == old(self).loop_stack,
            final(self).follows(*old(self)),
    {
        let l = self.func.new_local(ty, None);
        assert((*self.func).locals@ =~= old(self).func.locals@.push(LocalDecl {
            name: None, ty, mutable: true, span: Span::dummy_spec(),
        }));
        l
    }

    /// A new local named `name`, which the name now refers to.
    pub fn new_named_local(&mut self, name: String, ty: MirType) -> (l: Local)
        ensures
            l.0 == old(self).func.locals@.len() as u32,
            (*final(self).func).locals@ == old(self).func.locals@.push(LocalDecl {
                name: Some(name), ty, mutable: true, span: Span::dummy_spec(),
            }),
            (*final(self).func).blocks == old(self).func.blocks,
            final(self).current_block == old(self).current_block,
            final(self).locals.get_spec(name@) == Some(l),
            forall|n: Seq<char>| n != name@ ==> #[trigger] final(self).locals.get_spec(n) == old(self).locals.get_spec(n),
            old(self).ok() ==> final(self).ok(),
            *final(final(self).ctx) == *final(old(self).ctx),
            *final(final(self).func) == *final(old(self).func),
            *final(self).ctx == *old(self).ctx,
            final(self).loop_stack == old(self).loop_stack,
            final(self).follows(*old(self)),
    {
        let ghost key = name@;
        let local = self.func.new_local(ty, Some(name.clone()));
        assert((*self.func).locals@ =~= old(self).func.locals@.push(LocalDecl {
            name: Some(name), ty, mutable: true, span: Span::dummy_spec(),
        }));
        self.locals.insert(name, local);
        local
    }

    /// The local a name refers to.
    pub fn lookup_local(&self, name: &str) -> (r: Option<Local>)
        ensures
            r == self.locals.get_spec(name@),
    {
        match self.locals.get(name) {
            Some(l) => Some(*l),
            None => None,
        }
    }

    /// Appends an empty block to the function.
    pub fn fresh_block(&mut self) -> (b: BlockId)
        ensures
            b.0 < (*final(self).func).blocks@.len(),
            (*final(self).func).blocks@.len() == old(self).func.blocks@.len() + 1,
            (*final(self).func).blocks@.take(old(self).func.blocks@.len() as int) == old(self).func.blocks@,
            (*final(self).func).locals == old(self).func.locals,
            final(self).current_block == old(self).current_block,
            old(self).ok() ==> final(self).ok(),
            *final(final(self).ctx) == *final(old(self).ctx),
            *final(final(self).func) == *final(old(self).func),
            *final(self).ctx == *old(self).ctx,
            final(self).locals == old(self).locals,
            final(self).loop_stack == old(self).loop_stack,
            final(self).follows(*old(self)),
    {
        let b = self.func.new_block();
        proof {
            if old(self).ok() {
                lemma_jumps_within_push(old(self).func.blocks@, (*self.func).blocks@.last());
                assert((*self.func).blocks@ =~= old(self).func.blocks@.push((*self.func).blocks@.last()));
                assert forall|j: int| 0 <= j < self.loop_stack@.len() implies
                    (#[trigger] self.loop_stack@[j]).0.0 < (*self.func).blocks@.len()
                    && self.loop_stack@[j].1.0 < (*self.func).blocks@.len() by {
                    assert(old(self).loop_stack@[j] == self.loop_stack@[j]);
                }
            }
        }
        b
    }

    /// Removes the terminator of the current block.
    pub fn clear_terminator(&mut self)
        requires
            old(self).current_block.0 < old(self).func.blocks@.len(),
        ensures
            (*final(self).func).blocks@.len() == old(self).func.blocks@.len(),
            (*final(self).func).blocks@[old(self).current_block.0 as int].terminator is None,
            (*final(self).func).locals == old(self).func.locals,
            final(self).current_block == old(self).current_block,
            old(self).ok() ==> final(self).ok(),
            *final(final(self).ctx) == *final(old(self).ctx),
            *final(final(self).func) == *final(old(self).func),
            *final(self).ctx == *old(self).ctx,
            final(self).locals == old(self).locals,
            final(self).loop_stack == old(self).loop_stack,
            final(self).follows(*old(self)),
    {
        let ghost b = self.current_block.0 as int;
        self.func.block_mut(self.current_block).terminator = None;
        proof {
            if old(self).ok() {
                lemma_jumps_within_update(old(self).func.blocks@, b, (*self.func).blocks@[b]);
                assert((*self.func).blocks@ =~= old(self).func.blocks@.update(b, (*self.func).blocks@[b]));
            }
        }
    }

    /// Lets `name` refer to an existing local.
    pub fn bind_name(&mut self, name: String, local: Local)
        requires
            local.0 < old(self).func.locals@.len(),
        ensures
            *final(self).func == *old(self).func,
            *final(self).ctx == *old(self).ctx,
            final(self).loop_stack == old(self).loop_stack,
            final(self).current_block == old(self).current_block,
            old(self).ok() ==> final(self).ok(),
            *final(final(self).ctx) == *final(old(self).ctx),
            *final(final(self).func) == *final(old(self).func),
            final(self).follows(*old(self)),
    {
        self.locals.insert(name, local);
    }

    /// Sets the type of an existing local.
    pub fn set_local_type(&mut self, local: Local, ty: MirType)
        requires
            local.0 < old(self).func.locals@.len(),
        ensures
            (*final(self).func).blocks == old(self).func.blocks,
            (*final(self).func).locals@.len() == old(self).func.locals@.len(),
            *final(self).ctx == *old(self).ctx,
            final(self).locals == old(self).locals,
            final(self).loop_stack == old(self).loop_stack,
            final(self).current_block == old(self).current_block,
            old(self).ok() ==> final(self).ok(),
            *final(final(self).ctx) == *final(old(self).ctx),
            *final(final(self).func) == *final(old(self).func),
            final(self).follows(*old(self)),
    {
        self.func.locals[local.0 as usize].ty = ty;
    }

    /// Sets the function's return type, and the type of its return place.
    pub fn set_return_type(&mut self, ty: MirType)
        ensures
            (*final(self).func).blocks == old(self).func.blocks,
            (*final(self).func).locals@.len() == old(self).func.locals@.len(),
            *final(self).ctx == *old(self).ctx,
            final(self).locals == old(self).locals,
            final(self).loop_stack == old(self).loop_stack,
            final(self).current_block == old(self).current_block,
            old(self).ok() ==> final(self).ok(),
            *final(final(self).ctx) == *final(old(self).ctx),
            *final(final(self).func) == *final(old(self).func),
            final(self).follows(*old(self)),
    {
        if self.func.locals.len() > 0 {
            self.func.locals[0].ty = ty.clone_ty();
        }
        self.func.return_ty = ty;
    }

    /// Adds a parameter: a new local named `name`, which the name now
    /// refers to.
    pub fn add_param(&mut self, name: String, ty: MirType)
        ensures
            (*final(self).func).blocks == old(self).func.blocks,
            (*final(self).func).name == old(self).func.name,
            (*final(self).func).params@.len() == old(self).func.params@.len() + 1,
            *final(self).ctx == *old(self).ctx,
            final(self).loop_stack == old(self).loop_stack,
            final(self).current_block == old(self).current_block,
            old(self).ok() ==> final(self).ok(),
            *final(final(self).ctx) == *final(old(self).ctx),
            *final(final(self).func) == *final(old(self).func),
    {
        let local = self.func.new_local(ty, Some(name.clone()));
        self.func.params.push(local);
        self.locals.insert(name, local);
    }

    /// Continues lowering in block `b`.
    pub fn enter_block(&mut self, b: BlockId)
        requires
            b.0 < old(self).func.blocks@.len(),
        ensures
            final(self).current_block == b,
            *final(self).func == *old(self).func,
            old(self).ok() ==> final(self).ok(),
            *final(final(self).ctx) == *final(old(self).ctx),
            *final(final(self).func) == *final(old(self).func),
            *final(self).ctx == *old(self).ctx,
            final(self).ctx == old(self).ctx,
            final(self).locals == old(self).locals,
            final(self).loop_stack == old(self).loop_stack,
            final(self).follows(*old(self)),
    {
        self.current_block = b;
    }

    /// Enters a loop.
    pub fn push_loop(&mut self, break_target: BlockId, continue_target: BlockId)
        ensures
            final(self).loop_stack@ == old(self).loop_stack@.push((break_target, continue_target)),
            final(self).current_block == old(self).current_block,
            old(self).ok() && break_target.0 < old(self).func.blocks@.len() && continue_target.0 < old(self).func.blocks@.len()
                ==> final(self).ok(),
            *final(final(self).ctx) == *final(old(self).ctx),
            *final(final(self).func) == *final(old(self).func),
            *final(self).ctx == *old(self).ctx,
            *final(self).func == *old(self).func,
            final(self).locals == old(self).locals,
    {
        self.loop_stack.push((break_target, continue_target));
    }

    /// Leaves the innermost loop.
    pub fn pop_loop(&mut self)
        ensures
            final(self).loop_stack@ == if old(self).loop_stack@.len() == 0 {
                old(self).loop_stack@
            } else {
                old(self).loop_stack@.drop_last()
            },
            final(self).current_block == old(self).current_block,
            old(self).ok() ==> final(self).ok(),
            *final(final(self).ctx) == *final(old(self).ctx),
            *final(final(self).func) == *final(old(self).func),
            *final(self).ctx == *old(self).ctx,
            *final(self).func == *old(self).func,
            final(self).locals == old(self).locals,
    {
        self.loop_stack.pop();
    }

    /// Where `break` goes in the innermost loop.
    pub fn break_target(&self) -> (r: Option<BlockId>)
        ensures
            r == if self.loop_stack@.len() == 0 { None } else { Some(self.loop_stack@.last().0) },
    {
        if self.loop_stack.len() == 0 {
            None
        } else {
            Some(self.loop_stack[self.loop_stack.len() - 1].0)
        }
    }

    /// Where `continue` goes in the innermost loop.
    pub fn continue_target(&self) -> (r: Option<BlockId>)
        ensures
            r == if self.loop_stack@.len() == 0 { None } else { Some(self.loop_stack@.last().1) },
    {
        if self.loop_stack.len() == 0 {
            None
        } else {
            Some(self.loop_stack[self.loop_stack.len() - 1].1)
        }
    }
}


// ============================================================================
// Types of places and operands
// ============================================================================

/// The type of a local, `Unit` for a local that is not declared.
pub open spec fn local_ty(locals: Seq<LocalDecl>, l: Local) -> TypeV {
    if l.0 < locals.len() {
        locals[l.0 as int].ty@
    } else {
        TypeV::Unit
    }
}

/// The type reached by one projection: a dereference gives the referent of
/// a shared reference; a field, the tuple element or the struct field; an
/// index, the array element or a tuple's first element; a downcast keeps the
/// type; anything else gives `Unit`.
pub open spec fn project_ty(p: MirProgram, t: TypeV, e: PlaceElem) -> TypeV {
    match e {
        PlaceElem::Deref => match t {
            TypeV::Ref(inner) => *inner,
            _ => TypeV::Unit,
        },
        PlaceElem::Field(i) => match t {
            TypeV::Tuple(ts) => if i < ts.len() { ts[i as int] } else { TypeV::Unit },
            TypeV::Struct(sid) => match struct_field_ty(p, sid, i) {
                Some(f) => f,
                None => TypeV::Unit,
            },
            _ => TypeV::Unit,
        },
        PlaceElem::Index(_) | PlaceElem::ConstantIndex(_) => match t {
            TypeV::Array(elem) => *elem,
            TypeV::Tuple(ts) => if ts.len() > 0 { ts[0] } else { TypeV::Unit },
            _ => TypeV::Unit,
        },
        PlaceElem::Downcast(_) => t,
    }
}

/// The type of a place after its first `n` projections.
pub open spec fn place_ty(p: MirProgram, locals: Seq<LocalDecl>, place: Place, n: int) -> TypeV
    decreases n,
{
    if n <= 0 {
        local_ty(locals, place.local)
    } else {
        project_ty(p, place_ty(p, locals, place, n - 1), place.projection@[n - 1])
    }
}

/// The type of a constant (a function reference counts as `Unit`).
pub open spec fn constant_ty(c: Constant) -> TypeV {
    match c {
        Constant::Unit => TypeV::Unit,
        Constant::Bool(_) => TypeV::Bool,
        Constant::Int(_) => TypeV::Int,
        Constant::Float(_) => TypeV::Float,
        Constant::Float32(_) => TypeV::Float32,
        Constant::Float64(_) => TypeV::Float64,
        Constant::Char(_) => TypeV::Char,
        Constant::String(_) => TypeV::String,
        Constant::Function(_) => TypeV::Unit,
    }
}

/// The type of an operand.
pub open spec fn operand_ty(p: MirProgram, locals: Seq<LocalDecl>, o: Operand) -> TypeV {
    match o {
        Operand::Copy(pl) => place_ty(p, locals, pl, pl.projection@.len() as int),
        Operand::Move(pl) => place_ty(p, locals, pl, pl.projection@.len() as int),
        Operand::Constant(c) => constant_ty(c),
    }
}

/// The type of a place in the function being lowered.
pub fn infer_place_type(ctx: &FunctionLoweringContext, place: &Place) -> (r: MirType)
    requires
        ctx.ctx_now().wf(),
    ensures
        r@ == place_ty(ctx.ctx_now().program_spec(), ctx.func_now().locals@, *place, place.projection@.len() as int),
{
    let mut ty = if (place.local.0 as usize) < ctx.func.locals.len() {
        ctx.func.locals[place.local.0 as usize].ty.clone_ty()
    } else {
        MirType::Unit
    };
    let mut i: usize = 0;
    while i < place.projection.len()
        invariant
            ctx.ctx_now().wf(),
            0 <= i <= place.projection@.len(),
            ty@ == place_ty(ctx.ctx_now().program_spec(), ctx.func_now().locals@, *place, i as int),
        decreases place.projection@.len() - i,
    {
        let next = match &place.projection[i] {
            PlaceElem::Deref => match &ty {
                MirType::Ref(inner) => inner.clone_ty(),
                _ => MirType::Unit,
            },
            PlaceElem::Field(field_idx) => match &ty {
                MirType::Tuple(elems) => {
                    proof {
                        lemma_tys_view_index(*elems);
                    }
                    if (*field_idx as usize) < elems.len() {
                        elems[*field_idx as usize].clone_ty()
                    } else {
                        MirType::Unit
                    }
                },
                MirType::Struct(struct_id) => match ctx.ctx.get_struct_field_type(*struct_id, *field_idx) {
                    Some(t) => t,
                    None => MirType::Unit,
                },
                _ => MirType::Unit,
            },
            PlaceElem::Index(_) | PlaceElem::ConstantIndex(_) => match &ty {
                MirType::Array(elem) => elem.clone_ty(),
                MirType::Tuple(elems) => {
                    proof {
                        lemma_tys_view_index(*elems);
                    }
                    if elems.len() > 0 {
                        elems[0].clone_ty()
                    } else {
                        MirType::Unit
                    }
                },
                _ => MirType::Unit,
            },
            PlaceElem::Downcast(_) => ty.clone_ty(),
        };
        ty = next;
        i = i + 1;
    }
    ty
}

/// The type of an operand in the function being lowered.
pub fn infer_operand_type(ctx: &FunctionLoweringContext, operand: &Operand) -> (r: MirType)
    requires
        ctx.ctx_now().wf(),
    ensures
        r@ == operand_ty(ctx.ctx_now().program_spec(), ctx.func_now().locals@, *operand),
{
    match operand {
        Operand::Copy(place) | Operand::Move(place) => infer_place_type(ctx, place),
        Operand::Constant(constant) => match constant {
            Constant::Unit => MirType::Unit,
            Constant::Bool(_) => MirType::Bool,
            Constant::Int(_) => MirType::Int,
            Constant::Float(_) => MirType::Float,
            Constant::Float32(_) => MirType::Float32,
            Constant::Float64(_) => MirType::Float64,
            Constant::Char(_) => MirType::Char,
            Constant::String(_) => MirType::String,
            Constant::Function(_) => MirType::Unit,
        },
    }
}

/// An operand reading a local: a copy for a type that is copied, a move
/// otherwise.
pub fn operand_for_local(ctx: &FunctionLoweringContext, local: Local) -> (o: Operand)
    requires
        local.0 < ctx.func_now().locals@.len(),
    ensures
        match o {
            Operand::Copy(p) => is_copy_v(ctx.func_now().locals@[local.0 as int].ty@)
                && p.local == local && p.projection@.len() == 0,
            Operand::Move(p) => !is_copy_v(ctx.func_now().locals@[local.0 as int].ty@)
                && p.local == local && p.projection@.len() == 0,
            Operand::Constant(_) => false,
        },
{
    let place = Place::from_local(local);
    if ctx.func.locals[local.0 as usize].ty.is_copy() {
        Operand::Copy(place)
    } else {
        Operand::Move(place)
    }
}

/// The return type of a builtin call: `first`, `last` and `pop` of an array
/// give its element type, `reverse` of an array gives the array's type, and
/// every other call gives the registered return type.
pub open spec fn builtin_return_ty(kind: BuiltinKind, first_arg: Option<TypeV>, default: TypeV) -> TypeV {
    match kind {
        BuiltinKind::First | BuiltinKind::Last | BuiltinKind::Pop => match first_arg {
            Some(TypeV::Array(elem)) => *elem,
            _ => default,
        },
        BuiltinKind::Reverse => match first_arg {
            Some(TypeV::Array(elem)) => TypeV::Array(elem),
            _ => default,
        },
        _ => default,
    }
}

/// The return type of a call of a builtin whose result depends on its
/// argument's type.
pub fn infer_polymorphic_builtin_return_type(
    ctx: &FunctionLoweringContext,
    builtin_kind: BuiltinKind,
    args: &[Operand],
    default_return_ty: &MirType,
) -> (r: MirType)
    requires
        ctx.ctx_now().wf(),
    ensures
        r@ == builtin_return_ty(
            builtin_kind,
            if args@.len() > 0 {
                Some(operand_ty(ctx.ctx_now().program_spec(), ctx.func_now().locals@, args@[0]))
            } else {
                None
            },
            default_return_ty@,
        ),
{
    match builtin_kind {
        BuiltinKind::First | BuiltinKind::Last | BuiltinKind::Pop => {
            if args.len() > 0 {
                let arg_type = infer_operand_type(ctx, &args[0]);
                if let MirType::Array(elem_ty) = arg_type {
                    return *elem_ty;
                }
            }
            default_return_ty.clone_ty()
        },
        BuiltinKind::Reverse => {
            if args.len() > 0 {
                let arg_type = infer_operand_type(ctx, &args[0]);
                if let MirType::Array(_) = &arg_type {
                    return arg_type;
                }
            }
            default_return_ty.clone_ty()
        },
        _ => default_return_ty.clone_ty(),
    }
}

// ============================================================================
// Type arguments of generic calls
// ============================================================================

/// The bindings of type parameters found by matching a parameter type with
/// an argument type, added to `acc`: a type parameter not yet bound is bound
/// to the argument type (the first binding wins); arrays, tuples (pairwise,
/// as far as both go), maps, options, results, references and function
/// pointers are matched part by part; anything else adds nothing.
pub open spec fn bindings_from(p: TypeV, a: TypeV, acc: Seq<(Seq<char>, TypeV)>) -> Seq<(Seq<char>, TypeV)>
    decreases p, 0int,
{
    match p {
        TypeV::TypeParam(n) => if lookup_subst(acc, n) is Some { acc } else { acc.push((n, a)) },
        TypeV::Array(x) => match a {
            TypeV::Array(y) => bindings_from(*x, *y, acc),
            _ => acc,
        },
        TypeV::Tuple(ps) => match a {
            TypeV::Tuple(args) => bindings_list(ps, args, if ps.len() <= args.len() { ps.len() as int } else { args.len() as int }, acc),
            _ => acc,
        },
        TypeV::MapOf(pk, pv) => match a {
            TypeV::MapOf(ak, av) => bindings_from(*pv, *av, bindings_from(*pk, *ak, acc)),
            _ => acc,
        },
        TypeV::Optional(x) => match a {
            TypeV::Optional(y) => bindings_from(*x, *y, acc),
            _ => acc,
        },
        TypeV::Result(po, pe) => match a {
            TypeV::Result(ao, ae) => bindings_from(*pe, *ae, bindings_from(*po, *ao, acc)),
            _ => acc,
        },
        TypeV::Ref(x) => match a {
            TypeV::Ref(y) => bindings_from(*x, *y, acc),
            _ => acc,
        },
        TypeV::RefMut(x) => match a {
            TypeV::RefMut(y) => bindings_from(*x, *y, acc),
            _ => acc,
        },
        TypeV::FnPtr { params: pp, ret: pr } => match a {
            TypeV::FnPtr { params: ap, ret: ar } => bindings_from(
                *pr,
                *ar,
                bindings_list(pp, ap, if pp.len() <= ap.len() { pp.len() as int } else { ap.len() as int }, acc),
            ),
            _ => acc,
        },
        _ => acc,
    }
}

/// The bindings from the first `n` pairs of two lists.
pub open spec fn bindings_list(ps: Seq<TypeV>, args: Seq<TypeV>, n: int, acc: Seq<(Seq<char>, TypeV)>) -> Seq<(Seq<char>, TypeV)>
    decreases ps, n,
{
    if n <= 0 || n > ps.len() || n > args.len() {
        acc
    } else {
        bindings_from(ps[n - 1], args[n - 1], bindings_list(ps, args, n - 1, acc))
    }
}

proof fn lemma_lookup_subst_first(s: Seq<(String, MirType)>, name: Seq<char>, i: int)
    requires
        0 <= i <= s.len(),
    ensures
        lookup_subst(subs_view(s).skip(i), name) == match first_named(s, name, i) {
            Some(j) => Some(s[j].1@),
            None => None,
        },
    decreases s.len() - i,
{
    if i < s.len() {
        lemma_lookup_subst_first(s, name, i + 1);
        assert(subs_view(s).skip(i).drop_first() =~= subs_view(s).skip(i + 1));
        assert(subs_view(s).skip(i)[0] == (s[i].0@, s[i].1@));
    } else {
        assert(subs_view(s).skip(i).len() == 0);
    }
}

/// Whether a type parameter is bound in a map of type arguments.
proof fn lemma_name_map_lookup(m: NameMap<MirType>, name: Seq<char>)
    ensures
        lookup_subst(subs_view(m.entries@), name) == match m.get_spec(name) {
            Some(t) => Some(t@),
            None => None,
        },
{
    lemma_lookup_subst_first(m.entries@, name, 0);
    assert(subs_view(m.entries@).skip(0) =~= subs_view(m.entries@));
}

/// Adds to `subst` the type parameter bindings found by matching a
/// parameter type with an argument type.
pub fn extract_type_bindings(param_ty: &MirType, arg_ty: &MirType, subst: &mut NameMap<MirType>)
    ensures
        subs_view(final(subst).entries@) == bindings_from(param_ty@, arg_ty@, subs_view(old(subst).entries@)),
    decreases param_ty,
{
    match param_ty {
        MirType::TypeParam(name) => {
            proof {
                lemma_name_map_lookup(*subst, name@);
            }
            if !subst.contains_key(name.as_str()) {
                let ghost before = subst.entries@;
                subst.insert(name.clone(), arg_ty.clone_ty());
                assert(subs_view(subst.entries@) =~= subs_view(before).push((name@, arg_ty@)));
            }
        },
        MirType::Array(p) => {
            if let MirType::Array(a) = arg_ty {
                extract_type_bindings(p, a, subst);
            }
        },
        MirType::Tuple(ps) => {
            if let MirType::Tuple(args) = arg_ty {
                extract_list_bindings(param_ty, ps, args, subst);
            }
        },
        MirType::MapOf(pk, pv) => {
            if let MirType::MapOf(ak, av) = arg_ty {
                extract_type_bindings(pk, ak, subst);
                extract_type_bindings(pv, av, subst);
            }
        },
        MirType::Optional(p) => {
            if let MirType::Optional(a) = arg_ty {
                extract_type_bindings(p, a, subst);
            }
        },
        MirType::Result(po, pe) => {
            if let MirType::Result(ao, ae) = arg_ty {
                extract_type_bindings(po, ao, subst);
                extract_type_bindings(pe, ae, subst);
            }
        },
        MirType::Ref(p) => {
            if let MirType::Ref(a) = arg_ty {
                extract_type_bindings(p, a, subst);
            }
        },
        MirType::RefMut(p) => {
            if let MirType::RefMut(a) = arg_ty {
                extract_type_bindings(p, a, subst);
            }
        },
        MirType::FnPtr { params: pp, ret: pr } => {
            if let MirType::FnPtr { params: ap, ret: ar } = arg_ty {
                extract_list_bindings(param_ty, pp, ap, subst);
                extract_type_bindings(pr, ar, subst);
            }
        },
        _ => {},
    }
}

fn extract_list_bindings(outer: &MirType, ps: &Vec<MirType>, args: &Vec<MirType>, subst: &mut NameMap<MirType>)
    requires
        decreases_to!(*outer => *ps),
    ensures
        subs_view(final(subst).entries@) == bindings_list(
            tys_view(*ps),
            tys_view(*args),
            if ps@.len() <= args@.len() { ps@.len() as int } else { args@.len() as int },
            subs_view(old(subst).entries@),
        ),
    decreases outer, 0nat,
{
    proof {
        lemma_tys_view_index(*ps);
        lemma_tys_view_index(*args);
    }
    let n = if ps.len() <= args.len() { ps.len() } else { args.len() };
    let mut i: usize = 0;
    while i < n
        invariant
            decreases_to!(*outer => *ps),
            n <= ps@.len(),
            n <= args@.len(),
            0 <= i <= n,
            tys_view(*ps).len() == ps@.len(),
            tys_view(*args).len() == args@.len(),
            forall|j: int| 0 <= j < ps@.len() ==> #[trigger] tys_view(*ps)[j] == ps@[j]@,
            forall|j: int| 0 <= j < args@.len() ==> #[trigger] tys_view(*args)[j] == args@[j]@,
            subs_view(subst.entries@) == bindings_list(tys_view(*ps), tys_view(*args), i as int, subs_view(old(subst).entries@)),
        decreases n - i,
    {
        proof {
            lemma_elem_decreases(*outer, *ps, i as int);
        }
        extract_type_bindings(&ps[i], &args[i], subst);
        i = i + 1;
    }
}

/// `ty` with each type parameter replaced by its binding in `subst`.
pub fn substitute_type_params(ty: &MirType, subst: &NameMap<MirType>) -> (r: MirType)
    ensures
        r@ == subst_v(ty@, subs_view(subst.entries@)),
{
    ty.substitute(subst.entries.as_slice())
}

/// The parameter types of a function, in order (`Unit` for a parameter that
/// is not a declared local).
pub open spec fn param_tys(f: MirFunction) -> Seq<TypeV> {
    f.params@.map_values(|l: Local| local_ty(f.locals@, l))
}

/// The bindings found by matching the first `n` parameters of a generic
/// function with the types of the arguments.
pub open spec fn call_bindings(p: MirProgram, locals: Seq<LocalDecl>, f: MirFunction, args: Seq<Operand>, n: int) -> Seq<(Seq<char>, TypeV)>
    decreases n,
{
    if n <= 0 {
        Seq::empty()
    } else if n - 1 < args.len() {
        bindings_from(param_tys(f)[n - 1], operand_ty(p, locals, args[n - 1]), call_bindings(p, locals, f, args, n - 1))
    } else {
        call_bindings(p, locals, f, args, n - 1)
    }
}

/// The type arguments of a call of a generic function, found by matching
/// each parameter type with the type of the argument in its position.
pub fn infer_type_args_for_generic(ctx: &FunctionLoweringContext, mir_func: &MirFunction, args: &[Operand]) -> (r: NameMap<MirType>)
    requires
        ctx.ctx_now().wf(),
        forall|i: int| 0 <= i < mir_func.params@.len() ==> (#[trigger] mir_func.params@[i]).0 < mir_func.locals@.len(),
    ensures
        subs_view(r.entries@) == call_bindings(ctx.ctx_now().program_spec(), ctx.func_now().locals@, *mir_func, args@, mir_func.params@.len() as int),
{
    let mut type_subst: NameMap<MirType> = NameMap::new();
    assert(subs_view(type_subst.entries@) =~= Seq::<(Seq<char>, TypeV)>::empty());
    let mut i: usize = 0;
    while i < mir_func.params.len()
        invariant
            ctx.ctx_now().wf(),
            forall|j: int| 0 <= j < mir_func.params@.len() ==> (#[trigger] mir_func.params@[j]).0 < mir_func.locals@.len(),
            0 <= i <= mir_func.params@.len(),
            subs_view(type_subst.entries@) == call_bindings(ctx.ctx_now().program_spec(), ctx.func_now().locals@, *mir_func, args@, i as int),
        decreases mir_func.params@.len() - i,
    {
        if i < args.len() {
            let param_local = mir_func.params[i];
            let param_ty = &mir_func.locals[param_local.0 as usize].ty;
            let arg_ty = infer_operand_type(ctx, &args[i]);
            assert(param_tys(*mir_func)[i as int] == param_ty@);
            extract_type_bindings(param_ty, &arg_ty, &mut type_subst);
        }
        i = i + 1;
    }
    type_subst
}

/// The return type of a call of a generic function, with the type
/// parameters bound by the argument types.
#[allow(dead_code)]
fn infer_generic_return_type(ctx: &FunctionLoweringContext, mir_func: &MirFunction, args: &[Operand]) -> (r: MirType)
    requires
        ctx.ctx_now().wf(),
        forall|i: int| 0 <= i < mir_func.params@.len() ==> (#[trigger] mir_func.params@[i]).0 < mir_func.locals@.len(),
    ensures
        r@ == subst_v(
            mir_func.return_ty@,
            call_bindings(ctx.ctx_now().program_spec(), ctx.func_now().locals@, *mir_func, args@, mir_func.params@.len() as int),
        ),
{
    let type_subst = infer_type_args_for_generic(ctx, mir_func, args);
    substitute_type_params(&mir_func.return_ty, &type_subst)
}


// ============================================================================
// Errors
// ============================================================================

/// An error of lowering, with the source span it concerns.
#[derive(Debug, Clone)]
pub enum MirError {
    /// A feature that lowering does not handle.
    UnsupportedFeature { feature: String, span: Span },
    /// A variable not in scope.
    UndefinedVariable { name: String, span: Span },
    /// A function not in scope.
    UndefinedFunction { name: String, span: Span },
    /// A type not in scope.
    UndefinedType { name: String, span: Span },
    /// A field that the struct does not have.
    UndefinedField { struct_name: String, field_name: String, span: Span },
    /// Types that do not match.
    TypeMismatch { expected: String, found: String, span: Span },
    /// A pattern that cannot bind.
    InvalidPattern { span: Span },
    /// An internal error.
    Internal { message: String, span: Span },
}

impl MirError {
    /// The span of the error.
    pub open spec fn span_spec(&self) -> Span {
        match self {
            MirError::UnsupportedFeature { span, .. } => *span,
            MirError::UndefinedVariable { span, .. } => *span,
            MirError::UndefinedFunction { span, .. } => *span,
            MirError::UndefinedType { span, .. } => *span,
            MirError::UndefinedField { span, .. } => *span,
            MirError::TypeMismatch { span, .. } => *span,
            MirError::InvalidPattern { span } => *span,
            MirError::Internal { span, .. } => *span,
        }
    }

    /// The source span the error concerns.
    pub fn span(&self) -> (s: Span)
        ensures
            s == self.span_spec(),
    {
        match self {
            MirError::UnsupportedFeature { span, .. } => *span,
            MirError::UndefinedVariable { span, .. } => *span,
            MirError::UndefinedFunction { span, .. } => *span,
            MirError::UndefinedType { span, .. } => *span,
            MirError::UndefinedField { span, .. } => *span,
            MirError::TypeMismatch { span, .. } => *span,
            MirError::InvalidPattern { span } => *span,
            MirError::Internal { span, .. } => *span,
        }
    }

    /// The error message.
    pub fn message(&self) -> (m: String)
        ensures
            m@ == error_message(*self),
    {
        let mut out: Vec<char> = Vec::new();
        match self {
            MirError::UnsupportedFeature { feature, .. } => {
                push_str(&mut out, "unsupported feature: ");
                push_str(&mut out, feature.as_str());
            },
            MirError::UndefinedVariable { name, .. } => {
                push_str(&mut out, "cannot find variable `");
                push_str(&mut out, name.as_str());
                push_str(&mut out, "` in this scope");
            },
            MirError::UndefinedFunction { name, .. } => {
                push_str(&mut out, "cannot find function `");
                push_str(&mut out, name.as_str());
                push_str(&mut out, "` in this scope");
            },
            MirError::UndefinedType { name, .. } => {
                push_str(&mut out, "cannot find type `");
                push_str(&mut out, name.as_str());
                push_str(&mut out, "` in this scope");
            },
            MirError::UndefinedField { struct_name, field_name, .. } => {
                push_str(&mut out, "no field `");
                push_str(&mut out, field_name.as_str());
                push_str(&mut out, "` on type `");
                push_str(&mut out, struct_name.as_str());
                push_str(&mut out, "`");
            },
            MirError::TypeMismatch { expected, found, .. } => {
                push_str(&mut out, "mismatched types: expected `");
                push_str(&mut out, expected.as_str());
                push_str(&mut out, "`, found `");
                push_str(&mut out, found.as_str());
                push_str(&mut out, "`");
            },
            MirError::InvalidPattern { .. } => {
                push_str(&mut out, "invalid pattern: cannot use this pattern in a binding context");
            },
            MirError::Internal { message, .. } => {
                push_str(&mut out, "internal compiler error: ");
                push_str(&mut out, message.as_str());
            },
        }
        string_from_chars(out.as_slice())
    }
}

/// The message of an error.
pub open spec fn error_message(e: MirError) -> Seq<char> {
    match e {
        MirError::UnsupportedFeature { feature, .. } => "unsupported feature: "@ + feature@,
        MirError::UndefinedVariable { name, .. } => "cannot find variable `"@ + name@ + "` in this scope"@,
        MirError::UndefinedFunction { name, .. } => "cannot find function `"@ + name@ + "` in this scope"@,
        MirError::UndefinedType { name, .. } => "cannot find type `"@ + name@ + "` in this scope"@,
        MirError::UndefinedField { struct_name, field_name, .. } =>
            "no field `"@ + field_name@ + "` on type `"@ + struct_name@ + "`"@,
        MirError::TypeMismatch { expected, found, .. } =>
            "mismatched types: expected `"@ + expected@ + "`, found `"@ + found@ + "`"@,
        MirError::InvalidPattern { .. } => "invalid pattern: cannot use this pattern in a binding context"@,
        MirError::Internal { message, .. } => "internal compiler error: "@ + message@,
    }
}

/// Appends the characters of `s`.
fn push_str(out: &mut Vec<char>, s: &str)
    ensures
        final(out)@ == old(out)@ + s@,
{
    let chars = str_chars(s);
    push_all(out, chars.as_slice());
}

// ============================================================================
// Lowering type expressions and declarations
// ============================================================================

/// The builtin type a name stands for, if any.
pub open spec fn builtin_type(n: Seq<char>) -> Option<TypeV> {
    if n == "Unit"@ || n == "()"@ {
        Some(TypeV::Unit)
    } else if n == "Bool"@ {
        Some(TypeV::Bool)
    } else if n == "Int"@ {
        Some(TypeV::Int)
    } else if n == "Int8"@ {
        Some(TypeV::Int8)
    } else if n == "Int16"@ {
        Some(TypeV::Int16)
    } else if n == "Int32"@ {
        Some(TypeV::Int32)
    } else if n == "Int64"@ {
        Some(TypeV::Int64)
    } else if n == "UInt"@ {
        Some(TypeV::UInt)
    } else if n == "UInt8"@ {
        Some(TypeV::UInt8)
    } else if n == "UInt16"@ {
        Some(TypeV::UInt16)
    } else if n == "UInt32"@ {
        Some(TypeV::UInt32)
    } else if n == "UInt64"@ {
        Some(TypeV::UInt64)
    } else if n == "Float"@ {
        Some(TypeV::Float)
    } else if n == "Float32"@ {
        Some(TypeV::Float32)
    } else if n == "Float64"@ {
        Some(TypeV::Float64)
    } else if n == "Char"@ {
        Some(TypeV::Char)
    } else if n == "String"@ {
        Some(TypeV::String)
    } else {
        None
    }
}

/// Whether `n` is one of the type parameters in scope.
pub open spec fn is_type_param(tp: Seq<String>, n: Seq<char>) -> bool {
    exists|i: int| 0 <= i < tp.len() && #[trigger] tp[i]@ == n
}

/// A declared struct or enum of a name; `()` for an unknown name.
pub open spec fn declared_type(sn: NameMap<StructId>, en: NameMap<EnumId>, n: Seq<char>) -> TypeV {
    match sn.get_spec(n) {
        Some(id) => TypeV::Struct(id),
        None => match en.get_spec(n) {
            Some(id) => TypeV::Enum(id),
            None => TypeV::Unit,
        },
    }
}

/// The type a plain name stands for: a builtin, a type parameter in
/// scope, a declared struct or enum, or `()` for an unknown name.
pub open spec fn named_type(tp: Seq<String>, sn: NameMap<StructId>, en: NameMap<EnumId>, n: Seq<char>) -> TypeV {
    match builtin_type(n) {
        Some(t) => t,
        None => if is_type_param(tp, n) {
            TypeV::TypeParam(n)
        } else {
            declared_type(sn, en, n)
        },
    }
}

/// The lowered types of a list of type expressions.
pub open spec fn lower_types_spec(tp: Seq<String>, sn: NameMap<StructId>, en: NameMap<EnumId>, v: Vec<TypeExpr>) -> Seq<TypeV>
    decreases v,
{
    Seq::new(
        v@.len(),
        |i: int|
            if 0 <= i < v@.len() {
                proof {
                    assert(decreases_to!(v => v@));
                    assert(decreases_to!(v@ => v@[i]));
                }
                lower_type_spec(tp, sn, en, v@[i])
            } else {
                TypeV::Unit
            },
    )
}

/// The MIR type of a type expression, given the type parameters in scope
/// and the declared structs and enums.  `Array`/`Vec` with one argument,
/// `Map`/`HashMap` with two, `Option` with one and `Result` with one or two
/// are the builtin generic types; another generic name is looked up as a
/// struct or enum; a path stands for its last segment; unknown names and
/// `_` give `()`.
pub open spec fn lower_type_spec(tp: Seq<String>, sn: NameMap<StructId>, en: NameMap<EnumId>, t: TypeExpr) -> TypeV
    decreases t,
{
    match t {
        TypeExpr::Named(id) => named_type(tp, sn, en, id.node@),
        TypeExpr::Generic { name, args, .. } => {
            let n = name.node@;
            let k = args@.len();
            let a = lower_types_spec(tp, sn, en, args);
            if (n == "Array"@ || n == "Vec"@) && k == 1 {
                TypeV::Array(Box::new(a[0]))
            } else if (n == "Map"@ || n == "HashMap"@) && k == 2 {
                TypeV::MapOf(Box::new(a[0]), Box::new(a[1]))
            } else if n == "Option"@ && k == 1 {
                TypeV::Optional(Box::new(a[0]))
            } else if n == "Result"@ && k >= 1 {
                TypeV::Result(Box::new(a[0]), Box::new(if k >= 2 { a[1] } else { TypeV::Unit }))
            } else {
                declared_type(sn, en, n)
            }
        },
        TypeExpr::Array { element, .. } => TypeV::Array(Box::new(lower_type_spec(tp, sn, en, *element))),
        TypeExpr::MapOf { key, value, .. } => TypeV::MapOf(
            Box::new(lower_type_spec(tp, sn, en, *key)),
            Box::new(lower_type_spec(tp, sn, en, *value)),
        ),
        TypeExpr::Tuple { elements, .. } => TypeV::Tuple(lower_types_spec(tp, sn, en, elements)),
        TypeExpr::Optional { inner, .. } => TypeV::Optional(Box::new(lower_type_spec(tp, sn, en, *inner))),
        TypeExpr::Result { ok, err, .. } => TypeV::Result(
            Box::new(lower_type_spec(tp, sn, en, *ok)),
            Box::new(match err {
                Some(e) => lower_type_spec(tp, sn, en, *e),
                None => TypeV::Unit,
            }),
        ),
        TypeExpr::Reference { mutable, inner, .. } => if mutable {
            TypeV::RefMut(Box::new(lower_type_spec(tp, sn, en, *inner)))
        } else {
            TypeV::Ref(Box::new(lower_type_spec(tp, sn, en, *inner)))
        },
        TypeExpr::Function { params, return_type, .. } => TypeV::FnPtr {
            params: lower_types_spec(tp, sn, en, params),
            ret: Box::new(match return_type {
                Some(r) => lower_type_spec(tp, sn, en, *r),
                None => TypeV::Unit,
            }),
        },
        TypeExpr::Path { segments, .. } => if segments@.len() > 0 {
            named_type(tp, sn, en, segments@[segments@.len() - 1].node@)
        } else {
            TypeV::Unit
        },
        TypeExpr::Inferred(_) => TypeV::Unit,
    }
}

/// The fields of a struct declaration, lowered.
pub open spec fn fields_lowered(tp: Seq<String>, sn: NameMap<StructId>, en: NameMap<EnumId>, decl: Seq<FieldDecl>, fields: Seq<MirField>) -> bool {
    &&& fields.len() == decl.len()
    &&& forall|i: int| 0 <= i < decl.len() ==> (#[trigger] fields[i]).name@ == decl[i].name.node@
        && fields[i].ty@ == lower_type_spec(tp, sn, en, decl[i].ty)
}

/// The field types of an enum variant, lowered: none for a unit variant or
/// one with a discriminant.
pub open spec fn variant_fields_lowered(tp: Seq<String>, sn: NameMap<StructId>, en: NameMap<EnumId>, data: EnumVariantData, fields: Seq<TypeV>) -> bool {
    match data {
        EnumVariantData::Unit => fields.len() == 0,
        EnumVariantData::Discriminant(_) => fields.len() == 0,
        EnumVariantData::Tuple(types) => fields == lower_types_spec(tp, sn, en, types),
        EnumVariantData::Struct(decl) => fields.len() == decl@.len()
            && forall|i: int| 0 <= i < decl@.len() ==> #[trigger] fields[i] == lower_type_spec(tp, sn, en, decl@[i].ty),
    }
}

impl LoweringContext {
    /// The type parameters in scope.
    pub closed spec fn type_params_spec(&self) -> Seq<String> {
        self.current_type_params@
    }

    /// The next struct identifier.
    pub closed spec fn next_struct(&self) -> u32 {
        self.next_struct_id
    }

    /// The next enum identifier.
    pub closed spec fn next_enum(&self) -> u32 {
        self.next_enum_id
    }

    /// Brings type parameters into scope, replacing those in scope.
    pub fn set_type_params(&mut self, params: Vec<String>)
        requires
            old(self).wf(),
        ensures
            final(self).wf(),
            final(self).type_params_spec() == params@,
            final(self).program_spec() == old(self).program_spec(),
            final(self).struct_names_spec() == old(self).struct_names_spec(),
            final(self).enum_names_spec() == old(self).enum_names_spec(),
            final(self).fn_names_spec() == old(self).fn_names_spec(),
            final(self).next_fn() == old(self).next_fn(),
            final(self).next_struct() == old(self).next_struct(),
            final(self).next_enum() == old(self).next_enum(),
            final(self).types() == old(self).types(),
    {
        self.current_type_params = params;
    }

    fn type_param_in_scope(&self, name: &str) -> (b: bool)
        ensures
            b == is_type_param(self.type_params_spec(), name@),
    {
        let mut i: usize = 0;
        while i < self.current_type_params.len()
            invariant
                0 <= i <= self.current_type_params@.len(),
                forall|j: int| 0 <= j < i ==> #[trigger] self.current_type_params@[j]@ != name@,
            decreases self.current_type_params@.len() - i,
        {
            if str_equal(self.current_type_params[i].as_str(), name) {
                return true;
            }
            i = i + 1;
        }
        false
    }

    fn declared_type_named(&self, name: &str) -> (t: MirType)
        ensures
            t@ == declared_type(self.struct_names_spec(), self.enum_names_spec(), name@),
    {
        match self.struct_names.get(name) {
            Some(id) => MirType::Struct(*id),
            None => match self.enum_names.get(name) {
                Some(id) => MirType::Enum(*id),
                None => MirType::Unit,
            },
        }
    }

    fn builtin_named(name: &str) -> (r: Option<MirType>)
        ensures
            match r {
                Some(t) => builtin_type(name@) == Some(t@),
                None => builtin_type(name@) is None,
            },
    {
        if str_equal(name, "Unit") || str_equal(name, "()") {
            Some(MirType::Unit)
        } else if str_equal(name, "Bool") {
            Some(MirType::Bool)
        } else if str_equal(name, "Int") {
            Some(MirType::Int)
        } else if str_equal(name, "Int8") {
            Some(MirType::Int8)
        } else if str_equal(name, "Int16") {
            Some(MirType::Int16)
        } else if str_equal(name, "Int32") {
            Some(MirType::Int32)
        } else if str_equal(name, "Int64") {
            Some(MirType::Int64)
        } else if str_equal(name, "UInt") {
            Some(MirType::UInt)
        } else if str_equal(name, "UInt8") {
            Some(MirType::UInt8)
        } else if str_equal(name, "UInt16") {
            Some(MirType::UInt16)
        } else if str_equal(name, "UInt32") {
            Some(MirType::UInt32)
        } else if str_equal(name, "UInt64") {
            Some(MirType::UInt64)
        } else if str_equal(name, "Float") {
            Some(MirType::Float)
        } else if str_equal(name, "Float32") {
            Some(MirType::Float32)
        } else if str_equal(name, "Float64") {
            Some(MirType::Float64)
        } else if str_equal(name, "Char") {
            Some(MirType::Char)
        } else if str_equal(name, "String") {
            Some(MirType::String)
        } else {
            None
        }
    }

    fn named_type_exec(&self, name: &str) -> (t: MirType)
        ensures
            t@ == named_type(self.type_params_spec(), self.struct_names_spec(), self.enum_names_spec(), name@),
    {
        match Self::builtin_named(name) {
            Some(t) => t,
            None => if self.type_param_in_scope(name) {
                MirType::TypeParam(crate::text::owned_string(name))
            } else {
                self.declared_type_named(name)
            },
        }
    }

    fn lower_types(&self, outer: &TypeExpr, v: &Vec<TypeExpr>) -> (r: Vec<MirType>)
        requires
            decreases_to!(*outer => *v),
        ensures
            tys_view(r) == lower_types_spec(self.type_params_spec(), self.struct_names_spec(), self.enum_names_spec(), *v),
        decreases outer, 0nat,
    {
        let ghost tp = self.type_params_spec();
        let ghost sn = self.struct_names_spec();
        let ghost en = self.enum_names_spec();
        let mut r: Vec<MirType> = Vec::new();
        let mut i: usize = 0;
        while i < v.len()
            invariant
                decreases_to!(*outer => *v),
                tp == self.type_params_spec(),
                sn == self.struct_names_spec(),
                en == self.enum_names_spec(),
                0 <= i <= v@.len(),
                r@.len() == i,
                forall|j: int| 0 <= j < i ==> #[trigger] r@[j]@ == lower_type_spec(tp, sn, en, v@[j]),
            decreases v@.len() - i,
        {
            proof {
                assert(decreases_to!(*v => v@));
                assert(decreases_to!(v@ => v@[i as int]));
            }
            let t = self.lower_type(&v[i]);
            r.push(t);
            i = i + 1;
        }
        assert forall|j: int| 0 <= j < v@.len() implies #[trigger] tys_view(r)[j] == lower_types_spec(tp, sn, en, *v)[j] by {
            assert(tys_view(r)[j] == r@[j]@);
            assert(lower_types_spec(tp, sn, en, *v)[j] == lower_type_spec(tp, sn, en, v@[j]));
        }
        assert(tys_view(r) =~= lower_types_spec(tp, sn, en, *v));
        r
    }

    /// The MIR type of a type expression (see `lower_type_spec`).
    pub fn lower_type(&self, ty: &TypeExpr) -> (r: MirType)
        ensures
            r@ == lower_type_spec(self.type_params_spec(), self.struct_names_spec(), self.enum_names_spec(), *ty),
        decreases ty, 1nat,
    {
        let ghost tp = self.type_params_spec();
        let ghost sn = self.struct_names_spec();
        let ghost en = self.enum_names_spec();
        match ty {
            TypeExpr::Named(ident) => self.named_type_exec(ident.node.as_str()),
            TypeExpr::Generic { name, args, .. } => {
                let n = name.node.as_str();
                let k = args.len();
                let a = self.lower_types(ty, args);
                assert(tys_view(a) == lower_types_spec(tp, sn, en, *args));
                if (str_equal(n, "Array") || str_equal(n, "Vec")) && k == 1 {
                    assert(tys_view(a)[0] == a@[0]@);
                    MirType::Array(Box::new(a[0].clone_ty()))
                } else if (str_equal(n, "Map") || str_equal(n, "HashMap")) && k == 2 {
                    assert(tys_view(a)[0] == a@[0]@);
                    assert(tys_view(a)[1] == a@[1]@);
                    MirType::MapOf(Box::new(a[0].clone_ty()), Box::new(a[1].clone_ty()))
                } else if str_equal(n, "Option") && k == 1 {
                    assert(tys_view(a)[0] == a@[0]@);
                    MirType::Optional(Box::new(a[0].clone_ty()))
                } else if str_equal(n, "Result") && k >= 1 {
                    assert(tys_view(a)[0] == a@[0]@);
                    let err = if k >= 2 {
                        assert(tys_view(a)[1] == a@[1]@);
                        a[1].clone_ty()
                    } else {
                        MirType::Unit
                    };
                    MirType::Result(Box::new(a[0].clone_ty()), Box::new(err))
                } else {
                    self.declared_type_named(n)
                }
            },
            TypeExpr::Array { element, .. } => MirType::Array(Box::new(self.lower_type(element))),
            TypeExpr::MapOf { key, value, .. } => MirType::MapOf(
                Box::new(self.lower_type(key)),
                Box::new(self.lower_type(value)),
            ),
            TypeExpr::Tuple { elements, .. } => MirType::Tuple(self.lower_types(ty, elements)),
            TypeExpr::Optional { inner, .. } => MirType::Optional(Box::new(self.lower_type(inner))),
            TypeExpr::Result { ok, err, .. } => {
                let ok_ty = self.lower_type(ok);
                let err_ty = match err {
                    Some(e) => self.lower_type(e),
                    None => MirType::Unit,
                };
                MirType::Result(Box::new(ok_ty), Box::new(err_ty))
            },
            TypeExpr::Reference { mutable, inner, .. } => {
                let inner_ty = Box::new(self.lower_type(inner));
                if *mutable {
                    MirType::RefMut(inner_ty)
                } else {
                    MirType::Ref(inner_ty)
                }
            },
            TypeExpr::Function { params, return_type, .. } => {
                let param_tys = self.lower_types(ty, params);
                let ret_ty = match return_type {
                    Some(r) => self.lower_type(r),
                    None => MirType::Unit,
                };
                MirType::FnPtr { params: param_tys, ret: Box::new(ret_ty) }
            },
            TypeExpr::Path { segments, .. } => {
                if segments.len() > 0 {
                    self.named_type_exec(segments[segments.len() - 1].node.as_str())
                } else {
                    MirType::Unit
                }
            },
            TypeExpr::Inferred(_) => MirType::Unit,
        }
    }
}

/// Everything but the struct and enum tables of the program is unchanged.
pub open spec fn same_but_types(a: MirProgram, b: MirProgram) -> bool {
    &&& b.functions == a.functions
    &&& b.effects == a.effects
    &&& b.handlers == a.handlers
    &&& b.entry == a.entry
    &&& b.strings == a.strings
    &&& b.next_fn() == a.next_fn()
    &&& b.next_effect() == a.next_effect()
    &&& b.next_handler() == a.next_handler()
}

impl LoweringContext {
    /// Declares a struct: the next struct identifier, under its name.
    pub fn collect_struct(&mut self, s: &StructDecl) -> (id: StructId)
        requires
            old(self).wf(),
            old(self).next_struct() < u32::MAX,
        ensures
            final(self).wf(),
            id == StructId(old(self).next_struct()),
            final(self).next_struct() == old(self).next_struct() + 1,
            final(self).struct_names_spec().get_spec(s.name.node@) == Some(id),
            forall|n: Seq<char>| n != s.name.node@ ==> #[trigger] final(self).struct_names_spec().get_spec(n)
                == old(self).struct_names_spec().get_spec(n),
            final(self).enum_names_spec() == old(self).enum_names_spec(),
            final(self).fn_names_spec() == old(self).fn_names_spec(),
            final(self).program_spec() == old(self).program_spec(),
            final(self).type_params_spec() == old(self).type_params_spec(),
            final(self).next_enum() == old(self).next_enum(),
            final(self).next_fn() == old(self).next_fn(),
    {
        let id = StructId(self.next_struct_id);
        self.next_struct_id = self.next_struct_id + 1;
        self.struct_names.insert(s.name.node.clone(), id);
        id
    }

    /// Declares a data type: like a struct, the next struct identifier.
    pub fn collect_data(&mut self, d: &DataDecl) -> (id: StructId)
        requires
            old(self).wf(),
            old(self).next_struct() < u32::MAX,
        ensures
            final(self).wf(),
            id == StructId(old(self).next_struct()),
            final(self).next_struct() == old(self).next_struct() + 1,
            final(self).struct_names_spec().get_spec(d.name.node@) == Some(id),
            forall|n: Seq<char>| n != d.name.node@ ==> #[trigger] final(self).struct_names_spec().get_spec(n)
                == old(self).struct_names_spec().get_spec(n),
            final(self).enum_names_spec() == old(self).enum_names_spec(),
            final(self).fn_names_spec() == old(self).fn_names_spec(),
            final(self).program_spec() == old(self).program_spec(),
            final(self).type_params_spec() == old(self).type_params_spec(),
            final(self).next_enum() == old(self).next_enum(),
            final(self).next_fn() == old(self).next_fn(),
    {
        let id = StructId(self.next_struct_id);
        self.next_struct_id = self.next_struct_id + 1;
        self.struct_names.insert(d.name.node.clone(), id);
        id
    }

    /// Declares an enum: the next enum identifier, under its name.
    pub fn collect_enum(&mut self, e: &EnumDecl) -> (id: EnumId)
        requires
            old(self).wf(),
            old(self).next_enum() < u32::MAX,
        ensures
            final(self).wf(),
            id == EnumId(old(self).next_enum()),
            final(self).next_enum() == old(self).next_enum() + 1,
            final(self).enum_names_spec().get_spec(e.name.node@) == Some(id),
            forall|n: Seq<char>| n != e.name.node@ ==> #[trigger] final(self).enum_names_spec().get_spec(n)
                == old(self).enum_names_spec().get_spec(n),
            final(self).struct_names_spec() == old(self).struct_names_spec(),
            final(self).fn_names_spec() == old(self).fn_names_spec(),
            final(self).program_spec() == old(self).program_spec(),
            final(self).type_params_spec() == old(self).type_params_spec(),
            final(self).next_struct() == old(self).next_struct(),
            final(self).next_fn() == old(self).next_fn(),
    {
        let id = EnumId(self.next_enum_id);
        self.next_enum_id = self.next_enum_id + 1;
        self.enum_names.insert(e.name.node.clone(), id);
        id
    }

    fn lower_fields(&self, decl: &Vec<FieldDecl>) -> (r: Vec<MirField>)
        ensures
            fields_lowered(self.type_params_spec(), self.struct_names_spec(), self.enum_names_spec(), decl@, r@),
    {
        let mut r: Vec<MirField> = Vec::new();
        let mut i: usize = 0;
        while i < decl.len()
            invariant
                0 <= i <= decl@.len(),
                r@.len() == i,
                forall|j: int| 0 <= j < i ==> (#[trigger] r@[j]).name@ == decl@[j].name.node@
                    && r@[j].ty@ == lower_type_spec(self.type_params_spec(), self.struct_names_spec(), self.enum_names_spec(), decl@[j].ty),
            decreases decl@.len() - i,
        {
            let ty = self.lower_type(&decl[i].ty);
            r.push(MirField { name: decl[i].name.node.clone(), ty });
            i = i + 1;
        }
        r
    }

    fn lower_type_list(&self, v: &Vec<TypeExpr>) -> (r: Vec<MirType>)
        ensures
            tys_view(r) == lower_types_spec(self.type_params_spec(), self.struct_names_spec(), self.enum_names_spec(), *v),
    {
        let ghost tp = self.type_params_spec();
        let ghost sn = self.struct_names_spec();
        let ghost en = self.enum_names_spec();
        let mut r: Vec<MirType> = Vec::new();
        let mut i: usize = 0;
        while i < v.len()
            invariant
                tp == self.type_params_spec(),
                sn == self.struct_names_spec(),
                en == self.enum_names_spec(),
                0 <= i <= v@.len(),
                r@.len() == i,
                forall|j: int| 0 <= j < i ==> #[trigger] r@[j]@ == lower_type_spec(tp, sn, en, v@[j]),
            decreases v@.len() - i,
        {
            let t = self.lower_type(&v[i]);
            r.push(t);
            i = i + 1;
        }
        assert forall|j: int| 0 <= j < v@.len() implies #[trigger] tys_view(r)[j] == lower_types_spec(tp, sn, en, *v)[j] by {
            assert(tys_view(r)[j] == r@[j]@);
            assert(lower_types_spec(tp, sn, en, *v)[j] == lower_type_spec(tp, sn, en, v@[j]));
        }
        assert(tys_view(r) =~= lower_types_spec(tp, sn, en, *v));
        r
    }

    fn store_struct(&mut self, id: StructId, st: MirStruct)
        requires
            old(self).wf(),
        ensures
            final(self).wf(),
            final(self).program_spec().structs.get_spec(id) == Some(st),
            forall|x: StructId| x != id ==> #[trigger] final(self).program_spec().structs.get_spec(x)
                == old(self).program_spec().structs.get_spec(x),
            final(self).program_spec().enums == old(self).program_spec().enums,
            same_but_types(old(self).program_spec(), final(self).program_spec()),
            final(self).struct_names_spec() == old(self).struct_names_spec(),
            final(self).enum_names_spec() == old(self).enum_names_spec(),
            final(self).fn_names_spec() == old(self).fn_names_spec(),
            final(self).type_params_spec() == old(self).type_params_spec(),
            final(self).next_struct() == old(self).next_struct(),
            final(self).next_enum() == old(self).next_enum(),
            final(self).next_fn() == old(self).next_fn(),
    {
        let _ = self.program.structs.insert(id, st);
    }

    /// Lowers a struct declaration into the program's struct table, under
    /// the identifier its name was declared with.
    pub fn lower_struct(&mut self, s: &StructDecl) -> (r: Result<(), MirError>)
        requires
            old(self).wf(),
            old(self).struct_names_spec().get_spec(s.name.node@) is Some,
        ensures
            r is Ok,
            final(self).wf(),
            ({
                let id = old(self).struct_names_spec().get_spec(s.name.node@).unwrap();
                &&& final(self).program_spec().structs.get_spec(id) matches Some(st)
                    && st.name@ == s.name.node@ && st.span == s.span && st.invariants is None
                    && fields_lowered(old(self).type_params_spec(), old(self).struct_names_spec(),
                        old(self).enum_names_spec(), s.fields@, st.fields@)
                &&& forall|x: StructId| x != id ==> #[trigger] final(self).program_spec().structs.get_spec(x)
                    == old(self).program_spec().structs.get_spec(x)
            }),
            final(self).program_spec().enums == old(self).program_spec().enums,
            same_but_types(old(self).program_spec(), final(self).program_spec()),
            final(self).struct_names_spec() == old(self).struct_names_spec(),
            final(self).enum_names_spec() == old(self).enum_names_spec(),
            final(self).fn_names_spec() == old(self).fn_names_spec(),
    {
        let id = match self.struct_names.get(s.name.node.as_str()) {
            Some(id) => *id,
            None => return Ok(()),
        };
        let fields = self.lower_fields(&s.fields);
        let st = MirStruct { name: s.name.node.clone(), fields, span: s.span, invariants: None };
        self.store_struct(id, st);
        Ok(())
    }

    /// Lowers a data declaration like a struct declaration.
    pub fn lower_data(&mut self, d: &DataDecl) -> (r: Result<(), MirError>)
        requires
            old(self).wf(),
            old(self).struct_names_spec().get_spec(d.name.node@) is Some,
        ensures
            r is Ok,
            final(self).wf(),
            ({
                let id = old(self).struct_names_spec().get_spec(d.name.node@).unwrap();
                &&& final(self).program_spec().structs.get_spec(id) matches Some(st)
                    && st.name@ == d.name.node@ && st.span == d.span && st.invariants is None
                    && fields_lowered(old(self).type_params_spec(), old(self).struct_names_spec(),
                        old(self).enum_names_spec(), d.fields@, st.fields@)
                &&& forall|x: StructId| x != id ==> #[trigger] final(self).program_spec().structs.get_spec(x)
                    == old(self).program_spec().structs.get_spec(x)
            }),
            final(self).program_spec().enums == old(self).program_spec().enums,
            same_but_types(old(self).program_spec(), final(self).program_spec()),
            final(self).struct_names_spec() == old(self).struct_names_spec(),
            final(self).enum_names_spec() == old(self).enum_names_spec(),
            final(self).fn_names_spec() == old(self).fn_names_spec(),
    {
        let id = match self.struct_names.get(d.name.node.as_str()) {
            Some(id) => *id,
            None => return Ok(()),
        };
        let fields = self.lower_fields(&d.fields);
        let st = MirStruct { name: d.name.node.clone(), fields, span: d.span, invariants: None };
        self.store_struct(id, st);
        Ok(())
    }

    fn lower_variant(&self, v: &EnumVariant) -> (r: MirVariant)
        ensures
            r.name@ == v.name.node@,
            variant_fields_lowered(self.type_params_spec(), self.struct_names_spec(), self.enum_names_spec(), v.data, tys_view(r.fields)),
    {
        let fields = match &v.data {
            EnumVariantData::Unit => Vec::new(),
            EnumVariantData::Tuple(types) => self.lower_type_list(types),
            EnumVariantData::Struct(decl) => {
                let fs = self.lower_fields(decl);
                let mut r: Vec<MirType> = Vec::new();
                let mut i: usize = 0;
                while i < fs.len()
                    invariant
                        fields_lowered(self.type_params_spec(), self.struct_names_spec(), self.enum_names_spec(), decl@, fs@),
                        0 <= i <= fs@.len(),
                        r@.len() == i,
                        forall|j: int| 0 <= j < i ==> #[trigger] r@[j]@ == fs@[j].ty@,
                    decreases fs@.len() - i,
                {
                    r.push(fs[i].ty.clone_ty());
                    i = i + 1;
                }
                assert forall|j: int| 0 <= j < decl@.len() implies #[trigger] tys_view(r)[j]
                    == lower_type_spec(self.type_params_spec(), self.struct_names_spec(), self.enum_names_spec(), decl@[j].ty) by {
                    assert(tys_view(r)[j] == r@[j]@);
                    assert(fs@[j].ty@ == lower_type_spec(self.type_params_spec(), self.struct_names_spec(), self.enum_names_spec(), decl@[j].ty));
                }
                r
            },
            EnumVariantData::Discriminant(_) => Vec::new(),
        };
        MirVariant { name: v.name.node.clone(), fields }
    }

    /// Lowers an enum declaration into the program's enum table, under the
    /// identifier its name was declared with.
    pub fn lower_enum(&mut self, e: &EnumDecl) -> (r: Result<(), MirError>)
        requires
            old(self).wf(),
            old(self).enum_names_spec().get_spec(e.name.node@) is Some,
        ensures
            r is Ok,
            final(self).wf(),
            ({
                let id = old(self).enum_names_spec().get_spec(e.name.node@).unwrap();
                &&& final(self).program_spec().enums.get_spec(id) matches Some(me)
                    && me.name@ == e.name.node@ && me.span == e.span && me.variants@.len() == e.variants@.len()
                    && forall|i: int| 0 <= i < e.variants@.len() ==> (#[trigger] me.variants@[i]).name@ == e.variants@[i].name.node@
                        && variant_fields_lowered(old(self).type_params_spec(), old(self).struct_names_spec(),
                            old(self).enum_names_spec(), e.variants@[i].data, tys_view(me.variants@[i].fields))
                &&& forall|x: EnumId| x != id ==> #[trigger] final(self).program_spec().enums.get_spec(x)
                    == old(self).program_spec().enums.get_spec(x)
            }),
            final(self).program_spec().structs == old(self).program_spec().structs,
            same_but_types(old(self).program_spec(), final(self).program_spec()),
            final(self).struct_names_spec() == old(self).struct_names_spec(),
            final(self).enum_names_spec() == old(self).enum_names_spec(),
            final(self).fn_names_spec() == old(self).fn_names_spec(),
    {
        let id = match self.enum_names.get(e.name.node.as_str()) {
            Some(id) => *id,
            None => return Ok(()),
        };
        let mut variants: Vec<MirVariant> = Vec::new();
        let mut i: usize = 0;
        while i < e.variants.len()
            invariant
                0 <= i <= e.variants@.len(),
                variants@.len() == i,
                forall|j: int| 0 <= j < i ==> (#[trigger] variants@[j]).name@ == e.variants@[j].name.node@
                    && variant_fields_lowered(self.type_params_spec(), self.struct_names_spec(),
                        self.enum_names_spec(), e.variants@[j].data, tys_view(variants@[j].fields)),
            decreases e.variants@.len() - i,
        {
            let v = self.lower_variant(&e.variants[i]);
            variants.push(v);
            i = i + 1;
        }
        let me = MirEnum { name: e.name.node.clone(), variants, span: e.span };
        let _ = self.program.enums.insert(id, me);
        Ok(())
    }
}

// ============================================================================
// Contracts
// ============================================================================

/// The MIR operator of a binary operator in a contract; an operator with no
/// counterpart there reads as `==`.
pub open spec fn contract_binop(op: crate::ast::BinaryOp) -> BinOp {
    match op {
        crate::ast::BinaryOp::Add => BinOp::Add,
        crate::ast::BinaryOp::Sub => BinOp::Sub,
        crate::ast::BinaryOp::Mul => BinOp::Mul,
        crate::ast::BinaryOp::Div => BinOp::Div,
        crate::ast::BinaryOp::Mod => BinOp::Rem,
        crate::ast::BinaryOp::Pow => BinOp::Pow,
        crate::ast::BinaryOp::Eq => BinOp::Eq,
        crate::ast::BinaryOp::NotEq => BinOp::Ne,
        crate::ast::BinaryOp::Lt => BinOp::Lt,
        crate::ast::BinaryOp::LtEq => BinOp::Le,
        crate::ast::BinaryOp::Gt => BinOp::Gt,
        crate::ast::BinaryOp::GtEq => BinOp::Ge,
        crate::ast::BinaryOp::And => BinOp::And,
        crate::ast::BinaryOp::Or => BinOp::Or,
        crate::ast::BinaryOp::BitAnd => BinOp::BitAnd,
        crate::ast::BinaryOp::BitOr => BinOp::BitOr,
        crate::ast::BinaryOp::BitXor => BinOp::BitXor,
        _ => BinOp::Eq,
    }
}

/// The MIR operator of a unary operator in a contract; `&` and `*` read as
/// `!`.
pub open spec fn contract_unop(op: crate::ast::UnaryOp) -> UnOp {
    match op {
        crate::ast::UnaryOp::Neg => UnOp::Neg,
        crate::ast::UnaryOp::Not => UnOp::Not,
        crate::ast::UnaryOp::BitNot => UnOp::BitNot,
        _ => UnOp::Not,
    }
}

/// The IEEE-754 bits a float literal of a contract reads as: its value when
/// written without a suffix; a suffixed literal is no plain float number
/// and reads as 0.0.
pub open spec fn contract_float_bits(f: crate::ast::FloatLit) -> u64 {
    match f {
        crate::ast::FloatLit::Plain(bits) => bits,
        _ => 0,
    }
}

/// Whether `m` is the lowering of the contract expression `e`: literals
/// keep their value (an integer that does not read as an `i64` becomes 0),
/// a name reads as local 0 and `self` as local 1, operators, field accesses
/// (field 0), method calls, `old` and `result` keep their shape, and any
/// other expression reads as `true`.
pub open spec fn contract_lowers(e: crate::ast::Expr, m: crate::mir::Expr) -> bool
    decreases e,
{
    match e.kind {
        crate::ast::ExprKind::Bool(b) => m == crate::mir::Expr::Bool(b),
        crate::ast::ExprKind::Integer(t) => m == crate::mir::Expr::Int(match crate::text::parse_i64_spec(t@) {
            Some(v) => v,
            None => 0,
        }),
        crate::ast::ExprKind::Float(f) => m == crate::mir::Expr::Float(contract_float_bits(f)),
        crate::ast::ExprKind::Ident(_) => m == crate::mir::Expr::Local(Local(0)),
        crate::ast::ExprKind::SelfLower => m == crate::mir::Expr::Local(Local(1)),
        crate::ast::ExprKind::Binary { op, left, right } => match m {
            crate::mir::Expr::Binary { op: mop, left: ml, right: mr } =>
                mop == contract_binop(op) && contract_lowers(*left, *ml) && contract_lowers(*right, *mr),
            _ => false,
        },
        crate::ast::ExprKind::Unary { op, operand } => match m {
            crate::mir::Expr::Unary { op: mop, operand: mo } => mop == contract_unop(op) && contract_lowers(*operand, *mo),
            _ => false,
        },
        crate::ast::ExprKind::Field { object, .. } => match m {
            crate::mir::Expr::Field { object: mo, field } => field == 0 && contract_lowers(*object, *mo),
            _ => false,
        },
        crate::ast::ExprKind::MethodCall { object, method, args } => match m {
            crate::mir::Expr::MethodCall { object: mo, method: mm, args: ma } =>
                mm@ == method.node@ && contract_lowers(*object, *mo) && ma@.len() == args@.len()
                && forall|i: int| 0 <= i < args@.len() ==> contract_lowers(#[trigger] args@[i], ma@[i]),
            _ => false,
        },
        crate::ast::ExprKind::Old(inner) => match m {
            crate::mir::Expr::Old(mi) => contract_lowers(*inner, *mi),
            _ => false,
        },
        crate::ast::ExprKind::Result => m == crate::mir::Expr::Result,
        _ => m == crate::mir::Expr::Bool(true),
    }
}

/// The `requires` clauses (`pre`) or the `ensures` clauses of a list of
/// contracts, in order.
pub open spec fn clauses_of(cs: Seq<crate::ast::Contract>, pre: bool) -> Seq<crate::ast::ContractClause>
    decreases cs.len(),
{
    if cs.len() == 0 {
        Seq::empty()
    } else {
        clauses_of(cs.drop_last(), pre) + match cs.last() {
            crate::ast::Contract::Requires(c) => if pre { seq![c] } else { Seq::empty() },
            crate::ast::Contract::Ensures(c) => if pre { Seq::empty() } else { seq![c] },
            crate::ast::Contract::Invariant(_) => Seq::empty(),
        }
    }
}

/// Whether `ms` are the lowerings of the clauses `cs`, one for one: the
/// condition lowered, the message and span kept.
pub open spec fn clauses_lower(cs: Seq<crate::ast::ContractClause>, ms: Seq<crate::mir::ContractClause>) -> bool {
    &&& cs.len() == ms.len()
    &&& forall|i: int| 0 <= i < cs.len() ==> {
        &&& contract_lowers(#[trigger] cs[i].condition, ms[i].condition)
        &&& ms[i].message == cs[i].message
        &&& ms[i].span == cs[i].span
    }
}

fn contract_binop_exec(op: crate::ast::BinaryOp) -> (r: BinOp)
    ensures
        r == contract_binop(op),
{
    match op {
        crate::ast::BinaryOp::Add => BinOp::Add,
        crate::ast::BinaryOp::Sub => BinOp::Sub,
        crate::ast::BinaryOp::Mul => BinOp::Mul,
        crate::ast::BinaryOp::Div => BinOp::Div,
        crate::ast::BinaryOp::Mod => BinOp::Rem,
        crate::ast::BinaryOp::Pow => BinOp::Pow,
        crate::ast::BinaryOp::Eq => BinOp::Eq,
        crate::ast::BinaryOp::NotEq => BinOp::Ne,
        crate::ast::BinaryOp::Lt => BinOp::Lt,
        crate::ast::BinaryOp::LtEq => BinOp::Le,
        crate::ast::BinaryOp::Gt => BinOp::Gt,
        crate::ast::BinaryOp::GtEq => BinOp::Ge,
        crate::ast::BinaryOp::And => BinOp::And,
        crate::ast::BinaryOp::Or => BinOp::Or,
        crate::ast::BinaryOp::BitAnd => BinOp::BitAnd,
        crate::ast::BinaryOp::BitOr => BinOp::BitOr,
        crate::ast::BinaryOp::BitXor => BinOp::BitXor,
        _ => BinOp::Eq,
    }
}

impl LoweringContext {
    /// Lowers a contract expression (see `contract_lowers`); it never fails.
    pub fn lower_contract_expr(&mut self, expr: &crate::ast::Expr) -> (r: Result<crate::mir::Expr, MirError>)
        ensures
            *final(self) == *old(self),
            r matches Ok(m) && contract_lowers(*expr, m),
        decreases expr, 1nat,
    {
        match &expr.kind {
            crate::ast::ExprKind::Bool(b) => Ok(crate::mir::Expr::Bool(*b)),
            crate::ast::ExprKind::Integer(t) => {
                let v = match crate::text::parse_i64(t.as_str()) {
                    Some(v) => v,
                    None => 0,
                };
                Ok(crate::mir::Expr::Int(v))
            },
            crate::ast::ExprKind::Float(f) => {
                let bits: u64 = match f {
                    crate::ast::FloatLit::Plain(bits) => *bits,
                    _ => 0,
                };
                Ok(crate::mir::Expr::Float(bits))
            },
            crate::ast::ExprKind::Ident(_) => Ok(crate::mir::Expr::Local(Local(0))),
            crate::ast::ExprKind::SelfLower => Ok(crate::mir::Expr::Local(Local(1))),
            crate::ast::ExprKind::Binary { op, left, right } => {
                let l = self.lower_contract_expr(left)?;
                let r = self.lower_contract_expr(right)?;
                Ok(crate::mir::Expr::Binary { op: contract_binop_exec(*op), left: Box::new(l), right: Box::new(r) })
            },
            crate::ast::ExprKind::Unary { op, operand } => {
                let o = self.lower_contract_expr(operand)?;
                let mop = match op {
                    crate::ast::UnaryOp::Neg => UnOp::Neg,
                    crate::ast::UnaryOp::Not => UnOp::Not,
                    crate::ast::UnaryOp::BitNot => UnOp::BitNot,
                    _ => UnOp::Not,
                };
                Ok(crate::mir::Expr::Unary { op: mop, operand: Box::new(o) })
            },
            crate::ast::ExprKind::Field { object, .. } => {
                let o = self.lower_contract_expr(object)?;
                Ok(crate::mir::Expr::Field { object: Box::new(o), field: 0 })
            },
            crate::ast::ExprKind::MethodCall { object, method, args } => {
                let o = self.lower_contract_expr(object)?;
                let a = self.lower_contract_args(expr, args)?;
                Ok(crate::mir::Expr::MethodCall { object: Box::new(o), method: method.node.clone(), args: a })
            },
            crate::ast::ExprKind::Old(inner) => {
                let i = self.lower_contract_expr(inner)?;
                Ok(crate::mir::Expr::Old(Box::new(i)))
            },
            crate::ast::ExprKind::Result => Ok(crate::mir::Expr::Result),
            _ => Ok(crate::mir::Expr::Bool(true)),
        }
    }

    /// Lowers the arguments of a method call in a contract.
    fn lower_contract_args(&mut self, outer: &crate::ast::Expr, args: &Vec<crate::ast::Expr>)
        -> (r: Result<Vec<crate::mir::Expr>, MirError>)
        requires
            decreases_to!(*outer => *args),
        ensures
            *final(self) == *old(self),
            r matches Ok(v) && v@.len() == args@.len()
                && forall|i: int| 0 <= i < args@.len() ==> contract_lowers(#[trigger] args@[i], v@[i]),
        decreases outer, 0nat,
    {
        let mut out: Vec<crate::mir::Expr> = Vec::new();
        let mut i: usize = 0;
        while i < args.len()
            invariant
                decreases_to!(*outer => *args),
                0 <= i <= args@.len(),
                out@.len() == i,
                *self == *old(self),
                forall|j: int| 0 <= j < i ==> contract_lowers(#[trigger] args@[j], out@[j]),
            decreases args@.len() - i,
        {
            proof {
                assert(decreases_to!(*args => args@));
                assert(decreases_to!(args@ => args@[i as int]));
            }
            let m = self.lower_contract_expr(&args[i])?;
            out.push(m);
            i = i + 1;
        }
        Ok(out)
    }

    /// Lowers the contracts of a function: its `requires` and `ensures`
    /// clauses in order (invariants are not part of a function's contract);
    /// none when there is neither.
    pub fn lower_contracts(&mut self, contracts: &Vec<crate::ast::Contract>)
        -> (r: Result<Option<crate::mir::FunctionContract>, MirError>)
        ensures
            *final(self) == *old(self),
            r matches Ok(o) && match o {
                None => clauses_of(contracts@, true).len() == 0 && clauses_of(contracts@, false).len() == 0,
                Some(c) => (clauses_of(contracts@, true).len() > 0 || clauses_of(contracts@, false).len() > 0)
                    && clauses_lower(clauses_of(contracts@, true), c.requires@)
                    && clauses_lower(clauses_of(contracts@, false), c.ensures@),
            },
    {
        let mut pre: Vec<crate::mir::ContractClause> = Vec::new();
        let mut post: Vec<crate::mir::ContractClause> = Vec::new();
        let mut i: usize = 0;
        while i < contracts.len()
            invariant
                0 <= i <= contracts@.len(),
                *self == *old(self),
                clauses_lower(clauses_of(contracts@.take(i as int), true), pre@),
                clauses_lower(clauses_of(contracts@.take(i as int), false), post@),
            decreases contracts@.len() - i,
        {
            proof {
                assert(contracts@.take(i + 1).drop_last() =~= contracts@.take(i as int));
            }
            match &contracts[i] {
                crate::ast::Contract::Requires(clause) => {
                    let c = self.lower_contract_clause(clause)?;
                    pre.push(c);
                },
                crate::ast::Contract::Ensures(clause) => {
                    let c = self.lower_contract_clause(clause)?;
                    post.push(c);
                },
                crate::ast::Contract::Invariant(_) => {},
            }
            i = i + 1;
        }
        assert(contracts@.take(i as int) =~= contracts@);
        if pre.len() == 0 && post.len() == 0 {
            Ok(None)
        } else {
            Ok(Some(crate::mir::FunctionContract { requires: pre, ensures: post }))
        }
    }

    /// Lowers one contract clause: its condition and message.
    pub fn lower_contract_clause(&mut self, clause: &crate::ast::ContractClause) -> (r: Result<crate::mir::ContractClause, MirError>)
        ensures
            *final(self) == *old(self),
            r matches Ok(c) && contract_lowers(clause.condition, c.condition)
                && c.message == clause.message && c.span == clause.span,
    {
        let condition = self.lower_contract_expr(&clause.condition)?;
        let message = match &clause.message {
            Some(m) => Some(m.clone()),
            None => None,
        };
        Ok(crate::mir::ContractClause { condition, message, span: clause.span })
    }
}

impl LoweringContext {
    /// The next function identifier.
    pub fn next_function_id(&self) -> (n: u32)
        ensures
            n == self.next_fn(),
    {
        self.next_fn_id
    }

    /// Lowers a declared function: its generic parameters are in scope for
    /// its types, its parameters become locals, its body is lowered into a
    /// new function (a block's value or the expression is returned), its
    /// contracts are attached, and the function is registered under its
    /// identifier and name; `main` becomes the entry point. A function that
    /// was not declared in the first pass is an internal error.
    pub fn lower_function(&mut self, f: &crate::ast::FunctionDecl) -> (r: Result<(), MirError>)
        requires
            old(self).wf(),
        ensures
            final(self).wf(),
            r is Ok ==> old(self).next_fn() <= final(self).next_fn(),
            r is Ok ==> (old(self).fn_names_spec().get_spec(f.name.node@) matches Some(id)
                && final(self).program_spec().functions.get_spec(id) matches Some(g)
                && g.name@ == f.name.node@
                && g.params@.len() == f.params@.len()),
        decreases f, 2nat,
    {
        let fn_id = match self.fn_names.get(f.name.node.as_str()) {
            Some(id) => *id,
            None => return Err(MirError::Internal { message: crate::text::owned_string("function was not declared"), span: f.span }),
        };
        let mut type_params: Vec<String> = Vec::new();
        let mut k: usize = 0;
        while k < f.generic_params.len()
            invariant
                0 <= k <= f.generic_params@.len(),
            decreases f.generic_params@.len() - k,
        {
            type_params.push(f.generic_params[k].node.clone());
            k = k + 1;
        }
        self.current_type_params = type_params.clone();
        let return_ty = match &f.return_type {
            Some(t) => self.lower_type(t),
            None => MirType::Unit,
        };
        let mut mir_fn = MirFunction::new(f.name.node.clone(), return_ty, f.span);
        mir_fn.is_public = f.is_public;
        mir_fn.type_params = type_params;
        let entry = mir_fn.new_block();
        let contract = self.lower_contracts(&f.contracts)?;
        let ghost n0 = self.next_fn();
        let body_result: Result<(), MirError>;
        {
            let mut fn_ctx = FunctionLoweringContext::new(self, &mut mir_fn);
            let ghost ctx_at_end = *final(fn_ctx.ctx);
            let ghost func_at_end = *final(fn_ctx.func);
            fn_ctx.enter_block(entry);
            let mut i: usize = 0;
            while i < f.params.len()
                invariant
                    0 <= i <= f.params@.len(),
                    fn_ctx.ok(),
                    *final(fn_ctx.ctx) == ctx_at_end,
                    *final(fn_ctx.func) == func_at_end,
                    fn_ctx.ctx_now().next_fn() >= n0,
                    fn_ctx.func_now().params@.len() == i,
                    fn_ctx.func_now().name@ == f.name.node@,
                decreases f.params@.len() - i,
            {
                let ty = match &f.params[i].ty {
                    Some(t) => fn_ctx.ctx.lower_type(t),
                    None => MirType::Unit,
                };
                fn_ctx.add_param(f.params[i].name.node.clone(), ty);
                i = i + 1;
            }
            body_result = match &f.body {
                crate::ast::FunctionBody::Block(block) => {
                    match crate::lower_expr::lower_block(&mut fn_ctx, block) {
                        Ok(value) => {
                            match value {
                                Some(v) => fn_ctx.emit_assign(Place::return_place(), Rvalue::Use(v), block.span),
                                None => {},
                            }
                            fn_ctx.ensure_terminated();
                            Ok(())
                        },
                        Err(e) => Err(e),
                    }
                },
                crate::ast::FunctionBody::Expression(e) => {
                    match crate::lower_expr::lower_expr(&mut fn_ctx, e) {
                        Ok(v) => {
                            fn_ctx.emit_assign(Place::return_place(), Rvalue::Use(v), e.span);
                            fn_ctx.emit_terminator(TerminatorKind::Return, e.span);
                            Ok(())
                        },
                        Err(err) => Err(err),
                    }
                },
            };
            assert(fn_ctx.ok());
            assert(body_result is Ok ==> fn_ctx.ctx_now().next_fn() >= n0);
            proof {
                assert(has_resolved(fn_ctx));
            }
        }
        assert(self.wf());
        body_result?;
        if fn_id.0 >= self.next_fn_id {
            return Err(MirError::Internal { message: crate::text::owned_string("function identifier was not allocated"), span: f.span });
        }
        mir_fn.contract = contract;
        self.insert_function(fn_id, mir_fn);
        self.program.register_fn_name(f.name.node.clone(), fn_id);
        if crate::text::str_equal(f.name.node.as_str(), "main") {
            self.program.entry = Some(fn_id);
        }
        self.current_type_params = Vec::new();
        Ok(())
    }

    /// Puts a function of an allocated identifier into the program.
    fn insert_function(&mut self, id: FunctionId, func: MirFunction)
        requires
            old(self).wf(),
            id.0 < old(self).next_fn(),
            func.wf(),
        ensures
            final(self).wf(),
            final(self).program_spec().functions.get_spec(id) == Some(func),
            final(self).next_fn() == old(self).next_fn(),
            final(self).fn_names_spec() == old(self).fn_names_spec(),
    {
        let ghost old_map = self.program.functions;
        let _ = self.program.functions.insert(id, func);
        assert forall|i: int| 0 <= i < self.program.functions.entries@.len() implies
            (#[trigger] self.program.functions.entries@[i]).1.wf()
            && self.program.functions.entries@[i].0.0 < self.next_fn() by {
            let k = self.program.functions.entries@[i].0;
            crate::assoc::lemma_get_at(&self.program.functions, i);
            assert(self.program.functions.has(k));
            if k != id {
                assert(old_map.has(k));
                let j = choose|j: int| 0 <= j < old_map.entries@.len() && #[trigger] old_map.entries@[j].0 == k;
                crate::assoc::lemma_get_at(&old_map, j);
            }
        }
    }
}


/// The error for a program that declares more items of a kind than there
/// are identifiers.
fn identifiers_exhausted(span: Span) -> (e: MirError)
    ensures
        e is Internal,
{
    MirError::Internal { message: crate::text::owned_string("identifiers exhausted"), span }
}

impl LoweringContext {
    /// Declares a function: the next function identifier, under its name.
    pub fn collect_function(&mut self, f: &crate::ast::FunctionDecl) -> (id: FunctionId)
        requires
            old(self).wf(),
            old(self).next_fn() < u32::MAX,
        ensures
            final(self).wf(),
            id == FunctionId(old(self).next_fn()),
            final(self).next_fn() == old(self).next_fn() + 1,
            final(self).fn_names_spec().get_spec(f.name.node@) == Some(id),
            forall|n: Seq<char>| n != f.name.node@ ==> #[trigger] final(self).fn_names_spec().get_spec(n)
                == old(self).fn_names_spec().get_spec(n),
            final(self).program_spec() == old(self).program_spec(),
            final(self).struct_names_spec() == old(self).struct_names_spec(),
            final(self).enum_names_spec() == old(self).enum_names_spec(),
    {
        let id = FunctionId(self.next_fn_id);
        self.next_fn_id = self.next_fn_id + 1;
        self.fn_names.insert(f.name.node.clone(), id);
        id
    }

    /// The first pass over an item: a function, struct, data type or enum
    /// is declared under the next identifier of its kind, the items of a
    /// module are declared in order, and the other items declare nothing.
    /// Running out of identifiers is an internal error.
    pub fn collect_item(&mut self, item: &crate::ast::Item) -> (r: Result<(), MirError>)
        requires
            old(self).wf(),
        ensures
            final(self).wf(),
            old(self).next_fn() <= final(self).next_fn(),
            final(self).program_spec() == old(self).program_spec(),
            item matches crate::ast::Item::Function(f) ==> (old(self).next_fn() < u32::MAX ==> r is Ok
                && final(self).fn_names_spec().get_spec(f.name.node@) == Some(FunctionId(old(self).next_fn()))),
        decreases item,
    {
        match item {
            crate::ast::Item::Function(f) => {
                if self.next_fn_id == u32::MAX {
                    return Err(identifiers_exhausted(f.span));
                }
                let _ = self.collect_function(f);
                Ok(())
            },
            crate::ast::Item::Struct(s) => {
                if self.next_struct_id == u32::MAX {
                    return Err(identifiers_exhausted(s.span));
                }
                let _ = self.collect_struct(s);
                Ok(())
            },
            crate::ast::Item::Data(d) => {
                if self.next_struct_id == u32::MAX {
                    return Err(identifiers_exhausted(d.span));
                }
                let _ = self.collect_data(d);
                Ok(())
            },
            crate::ast::Item::Enum(e) => {
                if self.next_enum_id == u32::MAX {
                    return Err(identifiers_exhausted(e.span));
                }
                let _ = self.collect_enum(e);
                Ok(())
            },
            crate::ast::Item::Module(m) => {
                let v = &m.items;
                let mut i: usize = 0;
                while i < v.len()
                    invariant
                        v == &m.items,
                        *item == crate::ast::Item::Module(*m),
                        0 <= i <= v@.len(),
                        self.wf(),
                        old(self).next_fn() <= self.next_fn(),
                        self.program_spec() == old(self).program_spec(),
                    decreases v@.len() - i,
                {
                    proof {
                        assert(decreases_to!(*item => item->Module_0));
                        assert(decreases_to!(*m => m.items));
                        assert(decreases_to!(m.items => v@));
                        assert(decreases_to!(v@ => v@[i as int]));
                    }
                    self.collect_item(&v[i])?;
                    i = i + 1;
                }
                Ok(())
            },
            _ => Ok(()),
        }
    }

    /// Lowers a test: a unit function named `__test_` and the test's name,
    /// under the next function identifier (declared before its body is
    /// lowered), whose body is the test's block.
    pub fn lower_test(&mut self, t: &crate::ast::TestDecl) -> (r: Result<(), MirError>)
        requires
            old(self).wf(),
        ensures
            final(self).wf(),
            r is Ok ==> old(self).next_fn() < final(self).next_fn(),
            r is Ok ==> (final(self).program_spec().functions.get_spec(FunctionId(old(self).next_fn())) matches Some(g)
                && g.name@ == "__test_"@ + t.name@ && g.params@.len() == 0),
            old(self).next_fn() == u32::MAX ==> r is Err,
    {
        if self.next_fn_id == u32::MAX {
            return Err(identifiers_exhausted(t.span));
        }
        let fn_id = FunctionId(self.next_fn_id);
        self.next_fn_id = self.next_fn_id + 1;
        let test_name = crate::text::concat2("__test_", t.name.as_str());
        self.fn_names.insert(test_name.clone(), fn_id);
        let mut mir_fn = MirFunction::new(test_name, MirType::Unit, t.span);
        let entry = mir_fn.new_block();
        let ghost n0 = self.next_fn();
        let body_result: Result<(), MirError>;
        {
            let mut fn_ctx = FunctionLoweringContext::new(self, &mut mir_fn);
            fn_ctx.enter_block(entry);
            body_result = match crate::lower_expr::lower_block(&mut fn_ctx, &t.body) {
                Ok(_) => {
                    fn_ctx.ensure_terminated();
                    Ok(())
                },
                Err(e) => Err(e),
            };
            assert(fn_ctx.ok());
            assert(body_result is Ok ==> fn_ctx.ctx_now().next_fn() >= n0);
            proof {
                assert(has_resolved(fn_ctx));
            }
        }
        body_result?;
        self.insert_function(fn_id, mir_fn);
        Ok(())
    }

    /// The second pass over an item: functions, structs, data types, enums
    /// and tests are lowered, the items of a module in order, and the other
    /// items produce nothing. A declaration that the first pass did not see
    /// is an internal error.
    pub fn lower_item(&mut self, item: &crate::ast::Item) -> (r: Result<(), MirError>)
        requires
            old(self).wf(),
        ensures
            final(self).wf(),
        decreases item,
    {
        match item {
            crate::ast::Item::Function(f) => self.lower_function(f),
            crate::ast::Item::Struct(s) => {
                if self.lookup_struct(s.name.node.as_str()).is_none() {
                    return Err(MirError::Internal { message: crate::text::owned_string("struct was not declared"), span: s.span });
                }
                self.lower_struct(s)
            },
            crate::ast::Item::Data(d) => {
                if self.lookup_struct(d.name.node.as_str()).is_none() {
                    return Err(MirError::Internal { message: crate::text::owned_string("data type was not declared"), span: d.span });
                }
                self.lower_data(d)
            },
            crate::ast::Item::Enum(e) => {
                if self.lookup_enum(e.name.node.as_str()).is_none() {
                    return Err(MirError::Internal { message: crate::text::owned_string("enum was not declared"), span: e.span });
                }
                self.lower_enum(e)
            },
            crate::ast::Item::Module(m) => {
                let v = &m.items;
                let mut i: usize = 0;
                while i < v.len()
                    invariant
                        v == &m.items,
                        *item == crate::ast::Item::Module(*m),
                        0 <= i <= v@.len(),
                        self.wf(),
                    decreases v@.len() - i,
                {
                    proof {
                        assert(decreases_to!(*item => item->Module_0));
                        assert(decreases_to!(*m => m.items));
                        assert(decreases_to!(m.items => v@));
                        assert(decreases_to!(v@ => v@[i as int]));
                    }
                    self.lower_item(&v[i])?;
                    i = i + 1;
                }
                Ok(())
            },
            crate::ast::Item::Test(t) => self.lower_test(t),
            _ => Ok(()),
        }
    }

    /// Lowers a program: a first pass declares every function, struct, data
    /// type and enum (so that any of them can be named before it is
    /// defined), the program's function counter is set past them, and a
    /// second pass lowers every item. The result is the program built, which
    /// the context no longer holds.
    pub fn lower_program(&mut self, program: &crate::ast::Program) -> (r: Result<MirProgram, MirError>)
        requires
            old(self).wf(),
        ensures
            final(self).wf(),
            r matches Ok(p) ==> p.wf(),
    {
        let mut i: usize = 0;
        while i < program.items.len()
            invariant
                0 <= i <= program.items@.len(),
                self.wf(),
            decreases program.items@.len() - i,
        {
            self.collect_item(&program.items[i])?;
            i = i + 1;
        }
        let n = self.next_fn_id;
        self.program.set_next_fn_id(n);
        let mut j: usize = 0;
        while j < program.items.len()
            invariant
                0 <= j <= program.items@.len(),
                self.wf(),
            decreases program.items@.len() - j,
        {
            self.lower_item(&program.items[j])?;
            j = j + 1;
        }
        let mut built = MirProgram::new();
        std::mem::swap(&mut built, &mut self.program);
        Ok(built)
    }
}

/// Lowers a program to MIR with a fresh lowering context (see
/// `LoweringContext::lower_program`).
pub fn lower_program(program: &crate::ast::Program) -> (r: Result<MirProgram, MirError>)
    ensures
        r matches Ok(p) ==> p.wf(),
{
    let mut ctx = LoweringContext::new();
    ctx.lower_program(program)
}


impl<'a> FunctionLoweringContext<'a> {
    /// Lowers an expression into the function (see `lower_expr::lower_expr`).
    pub fn lower_expr(&mut self, expr: &crate::ast::Expr) -> (r: Result<Operand, MirError>)
        requires
            old(self).ok(),
        ensures
            final(self).ok(),
            *final(final(self).ctx) == *final(old(self).ctx),
            *final(final(self).func) == *final(old(self).func),
            r is Ok ==> final(self).follows(*old(self)),
            r matches Ok(o) ==> operand_below(o, final(self).func_now().locals@.len() as int),
    {
        crate::lower_expr::lower_expr(self, expr)
    }

    /// Lowers an expression that names a place (see
    /// `lower_expr::lower_expr_to_place`).
    pub fn lower_expr_to_place(&mut self, expr: &crate::ast::Expr) -> (r: Result<Place, MirError>)
        requires
            old(self).ok(),
        ensures
            final(self).ok(),
            *final(final(self).ctx) == *final(old(self).ctx),
            *final(final(self).func) == *final(old(self).func),
            r is Ok ==> final(self).follows(*old(self)),
            r matches Ok(p) ==> p.local.0 < final(self).func_now().locals@.len(),
    {
        crate::lower_expr::lower_expr_to_place(self, expr)
    }

    /// Lowers a statement (see `lower_expr::lower_stmt`).
    pub fn lower_stmt(&mut self, stmt: &crate::ast::Stmt) -> (r: Result<(), MirError>)
        requires
            old(self).ok(),
        ensures
            final(self).ok(),
            *final(final(self).ctx) == *final(old(self).ctx),
            *final(final(self).func) == *final(old(self).func),
            r is Ok ==> final(self).follows(*old(self)),
    {
        crate::lower_expr::lower_stmt(self, stmt)
    }

    /// Lowers a block, giving its value (see `lower_expr::lower_block`).
    pub fn lower_block(&mut self, block: &crate::ast::Block) -> (r: Result<Option<Operand>, MirError>)
        requires
            old(self).ok(),
        ensures
            final(self).ok(),
            *final(final(self).ctx) == *final(old(self).ctx),
            *final(final(self).func) == *final(old(self).func),
            r is Ok ==> final(self).follows(*old(self)),
            r matches Ok(Some(o)) ==> operand_below(o, final(self).func_now().locals@.len() as int),
    {
        crate::lower_expr::lower_block(self, block)
    }
}

} // verus!
