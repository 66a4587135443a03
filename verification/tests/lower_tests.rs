use aria_lang::assoc::NameMap;
use aria_lang::lower::{
    extract_type_bindings, infer_operand_type, infer_place_type, infer_polymorphic_builtin_return_type,
    operand_for_local, substitute_type_params, FunctionLoweringContext, FunctionSignature, LoweringContext,
    MirError, ModuleTypeRegistry, TypeInferenceContext,
};
use aria_lang::mir::{
    BlockId, BuiltinKind, Constant, FunctionId, Linkage, Local, MirFunction, MirType, Operand, Place, Span,
    StatementKind, TerminatorKind, TypeVarId,
};

#[test]
fn test_type_var_creation() {
    let mut ctx = LoweringContext::new();
    let var1 = ctx.fresh_type_var();
    let var2 = ctx.fresh_type_var();

    assert!(matches!(var1, MirType::TypeVar(TypeVarId(0))));
    assert!(matches!(var2, MirType::TypeVar(TypeVarId(1))));
}

#[test]
fn test_type_unification_same_types() {
    let mut ctx = LoweringContext::new();

    assert!(ctx.unify_types(&MirType::Int, &MirType::Int));
    assert!(ctx.unify_types(&MirType::String, &MirType::String));
    assert!(ctx.unify_types(&MirType::Bool, &MirType::Bool));
}

#[test]
fn test_type_unification_different_types() {
    let mut ctx = LoweringContext::new();

    assert!(!ctx.unify_types(&MirType::Int, &MirType::String));
    assert!(!ctx.unify_types(&MirType::Bool, &MirType::Float));
}

#[test]
fn test_type_var_unification() {
    let mut ctx = LoweringContext::new();
    let var = ctx.fresh_type_var();

    assert!(ctx.unify_types(&var, &MirType::Int));

    let resolved = ctx.resolve_type(&var);
    assert_eq!(resolved, MirType::Int);
}

#[test]
fn test_compound_type_unification() {
    let mut ctx = LoweringContext::new();

    let arr1 = MirType::Array(Box::new(MirType::Int));
    let arr2 = MirType::Array(Box::new(MirType::Int));
    assert!(ctx.unify_types(&arr1, &arr2));

    let arr3 = MirType::Array(Box::new(MirType::String));
    assert!(!ctx.unify_types(&arr1, &arr3));
}

#[test]
fn test_type_var_in_compound_type() {
    let mut ctx = LoweringContext::new();
    let var = ctx.fresh_type_var();

    let arr_var = MirType::Array(Box::new(var.clone()));
    let arr_int = MirType::Array(Box::new(MirType::Int));

    assert!(ctx.unify_types(&arr_var, &arr_int));

    let resolved = ctx.resolve_type(&arr_var);
    assert_eq!(resolved, MirType::Array(Box::new(MirType::Int)));
}

#[test]
fn unify_occurs_check_fails() {
    let mut ctx = TypeInferenceContext::new();
    let t = ctx.fresh_type_var();
    let arr = MirType::Array(Box::new(t.clone()));
    assert!(!ctx.unify(&t, &arr));
    assert_eq!(ctx.resolve(&t), t);
}

#[test]
fn unify_binds_through_chains() {
    let mut ctx = TypeInferenceContext::new();
    let a = ctx.fresh_type_var();
    let b = ctx.fresh_type_var();
    assert!(ctx.unify(&a, &b));
    assert!(ctx.unify(&b, &MirType::String));
    assert_eq!(ctx.resolve(&a), MirType::String);
    assert_eq!(ctx.resolve(&MirType::Optional(Box::new(a.clone()))), MirType::Optional(Box::new(MirType::String)));
}

#[test]
fn unify_tuple_drops_bindings_of_a_failed_match() {
    let mut ctx = TypeInferenceContext::new();
    let a = ctx.fresh_type_var();
    let left = MirType::Tuple(vec![a.clone(), MirType::Int]);
    let right = MirType::Tuple(vec![MirType::Bool, MirType::String]);
    assert!(!ctx.unify(&left, &right));
    // The first pair unified before the second failed; nothing is kept.
    assert_eq!(ctx.resolve(&a), a);
}

#[test]
fn unify_closures_only_when_equal() {
    let mut ctx = TypeInferenceContext::new();
    let a = ctx.fresh_type_var();
    let c1 = MirType::Closure { params: vec![a.clone()], ret: Box::new(MirType::Unit) };
    let c2 = MirType::Closure { params: vec![MirType::Int], ret: Box::new(MirType::Unit) };
    assert!(!ctx.unify(&c1, &c2));
    assert!(ctx.unify(&c1, &c1.clone()));
}

#[test]
fn unify_function_pointers_and_generics() {
    let mut ctx = TypeInferenceContext::new();
    let a = ctx.fresh_type_var();
    let b = ctx.fresh_type_var();
    let f1 = MirType::FnPtr { params: vec![a.clone()], ret: Box::new(b.clone()) };
    let f2 = MirType::FnPtr { params: vec![MirType::Int], ret: Box::new(MirType::Bool) };
    assert!(ctx.unify(&f1, &f2));
    assert_eq!(ctx.resolve(&f1), f2);
    let g1 = MirType::Generic { name: "List".to_string(), args: vec![MirType::Int] };
    let g2 = MirType::Generic { name: "Set".to_string(), args: vec![MirType::Int] };
    assert!(!ctx.unify(&g1, &g2));
    ctx.reset();
    assert!(matches!(ctx.fresh_type_var(), MirType::TypeVar(TypeVarId(0))));
}

#[test]
fn lowering_context_registers_builtins() {
    let ctx = LoweringContext::new();
    assert_eq!(ctx.lookup_function("print"), Some(FunctionId(0)));
    assert_eq!(ctx.lookup_function("map"), Some(FunctionId(33)));
    assert_eq!(ctx.lookup_function("panic"), Some(FunctionId(42)));
    assert_eq!(ctx.lookup_function("nonexistent"), None);
    let f = ctx.get_function(&FunctionId(42)).unwrap();
    assert_eq!(f.name, "panic");
    assert_eq!(f.return_ty, MirType::Never);
    assert_eq!(f.linkage, Linkage::Builtin(BuiltinKind::Panic));
    assert!(f.is_public);
    let split = ctx.get_function(&FunctionId(11)).unwrap();
    assert_eq!(split.return_ty, MirType::Array(Box::new(MirType::String)));
}

#[test]
fn lowering_context_lambda_names_and_anonymous_functions() {
    let mut ctx = LoweringContext::new();
    assert_eq!(ctx.next_lambda_name("lambda"), "lambda_0");
    assert_eq!(ctx.next_lambda_name("closure"), "closure_1");
    let f = MirFunction::new("anon".to_string(), MirType::Unit, Span::dummy());
    let id = ctx.register_anonymous_function(f);
    assert_eq!(id, FunctionId(43));
    assert_eq!(ctx.get_function(&id).unwrap().name, "anon");
    assert_eq!(ctx.intern_string("hi".to_string()), 0);
    assert_eq!(ctx.intern_string("ho".to_string()), 1);
    assert_eq!(ctx.intern_string("hi".to_string()), 0);
    assert!(ctx.lookup_struct("Point").is_none());
    assert!(ctx.lookup_enum("Color").is_none());
}

#[test]
fn registry_resolves_aliases() {
    let mut reg = ModuleTypeRegistry::new();
    let sig = FunctionSignature { params: vec![], return_type: MirType::Int, type_params: vec![] };
    reg.register_function("std::math::abs".to_string(), sig);
    reg.register_struct("geo::Point".to_string(), vec![("x".to_string(), MirType::Int)]);
    reg.register_enum("geo::Shape".to_string(), vec![("Circle".to_string(), vec![MirType::Float])]);
    reg.add_alias("m".to_string(), "std::math".to_string());
    reg.add_alias("g".to_string(), "geo".to_string());

    assert_eq!(reg.lookup_function("std::math::abs").unwrap().return_type, MirType::Int);
    assert_eq!(reg.lookup_function("m::abs").unwrap().return_type, MirType::Int);
    assert!(reg.lookup_function("x::abs").is_none());
    assert!(reg.lookup_function("abs").is_none());
    assert_eq!(reg.lookup_struct("g::Point").unwrap()[0].0, "x");
    assert_eq!(reg.lookup_enum("g::Shape").unwrap()[0].0, "Circle");
    assert!(reg.lookup_struct("g::Line").is_none());
}

#[test]
fn function_lowering_context_emits_into_blocks() {
    let mut ctx = LoweringContext::new();
    let mut func = MirFunction::new("f".to_string(), MirType::Int, Span::dummy());
    func.new_block();
    {
        let mut fctx = FunctionLoweringContext::new(&mut ctx, &mut func);
        assert!(!fctx.is_terminated());
        let x = fctx.new_named_local("x".to_string(), MirType::Int);
        assert_eq!(x, Local(1));
        assert_eq!(fctx.lookup_local("x"), Some(Local(1)));
        assert_eq!(fctx.lookup_local("y"), None);
        let t = fctx.new_temp(MirType::String);
        assert_eq!(t, Local(2));
        fctx.emit_stmt(StatementKind::Nop, Span::dummy());
        fctx.push_loop(BlockId(3), BlockId(4));
        assert_eq!(fctx.break_target(), Some(BlockId(3)));
        assert_eq!(fctx.continue_target(), Some(BlockId(4)));
        fctx.pop_loop();
        assert_eq!(fctx.break_target(), None);
        fctx.ensure_terminated();
        assert!(fctx.is_terminated());

        let op = operand_for_local(&fctx, x);
        assert!(matches!(op, Operand::Copy(ref p) if p.local == Local(1)));
        let op = operand_for_local(&fctx, t);
        assert!(matches!(op, Operand::Move(_)));
    }
    assert_eq!(func.blocks[0].statements.len(), 1);
    assert!(matches!(
        func.blocks[0].terminator.as_ref().map(|t| &t.kind),
        Some(TerminatorKind::Return)
    ));
    assert_eq!(func.locals.len(), 3);
}

#[test]
fn place_and_operand_types() {
    let mut ctx = LoweringContext::new();
    let mut func = MirFunction::new("f".to_string(), MirType::Unit, Span::dummy());
    let tuple = func.new_local(
        MirType::Tuple(vec![MirType::Int, MirType::Ref(Box::new(MirType::Bool))]),
        None,
    );
    let arr = func.new_local(MirType::Array(Box::new(MirType::Char)), None);
    let fctx = FunctionLoweringContext::new(&mut ctx, &mut func);

    let p = Place::from_local(tuple).field(1).deref();
    assert_eq!(infer_place_type(&fctx, &p), MirType::Bool);
    let p = Place::from_local(tuple).field(5);
    assert_eq!(infer_place_type(&fctx, &p), MirType::Unit);
    let p = Place::from_local(arr).index(Local(0));
    assert_eq!(infer_place_type(&fctx, &p), MirType::Char);
    assert_eq!(infer_place_type(&fctx, &Place::from_local(Local(99))), MirType::Unit);
    assert_eq!(infer_operand_type(&fctx, &Operand::Constant(Constant::String(0))), MirType::String);

    let args = vec![Operand::Copy(Place::from_local(arr))];
    assert_eq!(
        infer_polymorphic_builtin_return_type(&fctx, BuiltinKind::First, &args, &MirType::Int),
        MirType::Char
    );
    assert_eq!(
        infer_polymorphic_builtin_return_type(&fctx, BuiltinKind::Reverse, &args, &MirType::Int),
        MirType::Array(Box::new(MirType::Char))
    );
    assert_eq!(
        infer_polymorphic_builtin_return_type(&fctx, BuiltinKind::Len, &args, &MirType::Int),
        MirType::Int
    );
    assert_eq!(
        infer_polymorphic_builtin_return_type(&fctx, BuiltinKind::Last, &[], &MirType::Int),
        MirType::Int
    );
}

#[test]
fn type_bindings_first_binding_wins() {
    let t = MirType::TypeParam("T".to_string());
    let u = MirType::TypeParam("U".to_string());
    let param = MirType::Tuple(vec![t.clone(), MirType::Array(Box::new(u.clone())), t.clone()]);
    let arg = MirType::Tuple(vec![
        MirType::Int,
        MirType::Array(Box::new(MirType::String)),
        MirType::Bool,
    ]);
    let mut subst: NameMap<MirType> = NameMap::new();
    extract_type_bindings(&param, &arg, &mut subst);
    assert_eq!(subst.get("T"), Some(&MirType::Int));
    assert_eq!(subst.get("U"), Some(&MirType::String));
    assert_eq!(subst.entries.len(), 2);

    let ret = MirType::MapOf(Box::new(t.clone()), Box::new(u.clone()));
    assert_eq!(
        substitute_type_params(&ret, &subst),
        MirType::MapOf(Box::new(MirType::Int), Box::new(MirType::String))
    );
    let unbound = MirType::TypeParam("V".to_string());
    assert_eq!(substitute_type_params(&unbound, &subst), unbound);
}

#[test]
fn mir_error_span_and_message() {
    let span = Span { start: 3, end: 9 };
    let e = MirError::UndefinedVariable { name: "x".to_string(), span };
    assert_eq!(e.span(), span);
    assert_eq!(e.message(), "cannot find variable `x` in this scope");
    let e = MirError::TypeMismatch { expected: "Int".to_string(), found: "Bool".to_string(), span };
    assert_eq!(e.message(), "mismatched types: expected `Int`, found `Bool`");
    let e = MirError::InvalidPattern { span };
    assert_eq!(e.span(), span);
}

#[test]
fn failed_unification_keeps_bindings() {
    let mut ctx = aria_lang::lower::TypeInferenceContext::new();
    let v = ctx.fresh_type_var();
    let a = aria_lang::mir::MirType::Tuple(vec![v.clone(), aria_lang::mir::MirType::Int]);
    let b = aria_lang::mir::MirType::Tuple(vec![aria_lang::mir::MirType::Int, aria_lang::mir::MirType::String]);
    assert!(!ctx.unify(&a, &b));
    assert_eq!(ctx.resolve(&v), v);
}

#[test]
fn unification_binds_the_parts_of_arrays() {
    let mut ctx = TypeInferenceContext::new();
    let v = ctx.fresh_type_var();
    let a = MirType::Array(Box::new(v.clone()));
    let b = MirType::Array(Box::new(MirType::Int));
    assert!(ctx.unify(&a, &b));
    assert_eq!(ctx.resolve(&v), MirType::Int);
}
