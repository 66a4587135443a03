use aria_lang::ast::{DataDecl, EnumDecl, EnumVariant, EnumVariantData, FieldDecl, Ident, StructDecl, TypeExpr};
use aria_lang::lower::LoweringContext;
use aria_lang::mir::{EnumId, MirType, Span, StructId};

fn id(name: &str) -> Ident {
    Ident { node: name.to_string(), span: Span::dummy() }
}

fn named(name: &str) -> TypeExpr {
    TypeExpr::Named(id(name))
}

fn generic(name: &str, args: Vec<TypeExpr>) -> TypeExpr {
    TypeExpr::Generic { name: id(name), args, span: Span::dummy() }
}

#[test]
fn lower_type_maps_builtin_names() {
    let ctx = LoweringContext::new();
    assert_eq!(ctx.lower_type(&named("Int")), MirType::Int);
    assert_eq!(ctx.lower_type(&named("()")), MirType::Unit);
    assert_eq!(ctx.lower_type(&named("UInt16")), MirType::UInt16);
    assert_eq!(ctx.lower_type(&named("Float64")), MirType::Float64);
    assert_eq!(ctx.lower_type(&named("String")), MirType::String);
    assert_eq!(ctx.lower_type(&named("Nowhere")), MirType::Unit);
    assert_eq!(ctx.lower_type(&TypeExpr::Inferred(Span::dummy())), MirType::Unit);
}

#[test]
fn lower_type_resolves_parameters_structs_and_enums() {
    let mut ctx = LoweringContext::new();
    let sid = ctx.collect_struct(&StructDecl { name: id("Point"), fields: vec![], span: Span::dummy() });
    let eid = ctx.collect_enum(&EnumDecl { name: id("Color"), variants: vec![], span: Span::dummy() });
    assert_eq!(sid, StructId(0));
    assert_eq!(eid, EnumId(0));
    assert_eq!(ctx.lower_type(&named("Point")), MirType::Struct(StructId(0)));
    assert_eq!(ctx.lower_type(&named("Color")), MirType::Enum(EnumId(0)));
    assert_eq!(ctx.lower_type(&named("T")), MirType::Unit);
    ctx.set_type_params(vec!["T".to_string()]);
    assert_eq!(ctx.lower_type(&named("T")), MirType::TypeParam("T".to_string()));
    // A builtin name wins over a parameter of the same name.
    ctx.set_type_params(vec!["Int".to_string()]);
    assert_eq!(ctx.lower_type(&named("Int")), MirType::Int);
    // A path stands for its last segment.
    let path = TypeExpr::Path { segments: vec![id("geo"), id("Point")], span: Span::dummy() };
    assert_eq!(ctx.lower_type(&path), MirType::Struct(StructId(0)));
    assert_eq!(ctx.lower_type(&TypeExpr::Path { segments: vec![], span: Span::dummy() }), MirType::Unit);
    // A generic name that is not builtin is looked up as a struct or enum.
    assert_eq!(ctx.lower_type(&generic("Point", vec![named("Int")])), MirType::Struct(StructId(0)));
}

#[test]
fn lower_type_builds_compound_types() {
    let ctx = LoweringContext::new();
    assert_eq!(ctx.lower_type(&generic("Vec", vec![named("Int")])), MirType::Array(Box::new(MirType::Int)));
    // With the wrong number of arguments the builtin generic does not apply.
    assert_eq!(ctx.lower_type(&generic("Array", vec![named("Int"), named("Int")])), MirType::Unit);
    assert_eq!(
        ctx.lower_type(&generic("HashMap", vec![named("String"), named("Bool")])),
        MirType::MapOf(Box::new(MirType::String), Box::new(MirType::Bool))
    );
    assert_eq!(ctx.lower_type(&generic("Option", vec![named("Char")])), MirType::Optional(Box::new(MirType::Char)));
    assert_eq!(
        ctx.lower_type(&generic("Result", vec![named("Int")])),
        MirType::Result(Box::new(MirType::Int), Box::new(MirType::Unit))
    );
    assert_eq!(
        ctx.lower_type(&generic("Result", vec![named("Int"), named("String")])),
        MirType::Result(Box::new(MirType::Int), Box::new(MirType::String))
    );
    let tuple = TypeExpr::Tuple { elements: vec![named("Int"), named("Bool")], span: Span::dummy() };
    assert_eq!(ctx.lower_type(&tuple), MirType::Tuple(vec![MirType::Int, MirType::Bool]));
    let reference = TypeExpr::Reference { mutable: true, inner: Box::new(named("Int")), span: Span::dummy() };
    assert_eq!(ctx.lower_type(&reference), MirType::RefMut(Box::new(MirType::Int)));
    let shared = TypeExpr::Reference { mutable: false, inner: Box::new(named("Int")), span: Span::dummy() };
    assert_eq!(ctx.lower_type(&shared), MirType::Ref(Box::new(MirType::Int)));
    let func = TypeExpr::Function { params: vec![named("Int")], return_type: None, span: Span::dummy() };
    assert_eq!(
        ctx.lower_type(&func),
        MirType::FnPtr { params: vec![MirType::Int], ret: Box::new(MirType::Unit) }
    );
    let res = TypeExpr::Result { ok: Box::new(named("Int")), err: Some(Box::new(named("String"))), span: Span::dummy() };
    assert_eq!(ctx.lower_type(&res), MirType::Result(Box::new(MirType::Int), Box::new(MirType::String)));
    let map = TypeExpr::MapOf { key: Box::new(named("String")), value: Box::new(named("Int")), span: Span::dummy() };
    assert_eq!(ctx.lower_type(&map), MirType::MapOf(Box::new(MirType::String), Box::new(MirType::Int)));
    let arr = TypeExpr::Array { element: Box::new(named("Bool")), span: Span::dummy() };
    assert_eq!(ctx.lower_type(&arr), MirType::Array(Box::new(MirType::Bool)));
    let opt = TypeExpr::Optional { inner: Box::new(named("Int")), span: Span::dummy() };
    assert_eq!(ctx.lower_type(&opt), MirType::Optional(Box::new(MirType::Int)));
}

#[test]
fn lowering_a_struct_fills_the_struct_table() {
    let mut ctx = LoweringContext::new();
    let decl = StructDecl {
        name: id("Point"),
        fields: vec![
            FieldDecl { name: id("x"), ty: named("Int") },
            FieldDecl { name: id("next"), ty: generic("Option", vec![named("Point")]) },
        ],
        span: Span { start: 3, end: 40 },
    };
    let sid = ctx.collect_struct(&decl);
    assert!(ctx.lower_struct(&decl).is_ok());
    let st = ctx.get_struct(sid).unwrap();
    assert_eq!(st.name, "Point");
    assert_eq!(st.span, Span { start: 3, end: 40 });
    assert_eq!(st.fields.len(), 2);
    assert_eq!(st.fields[0].name, "x");
    assert_eq!(st.fields[0].ty, MirType::Int);
    assert_eq!(st.fields[1].ty, MirType::Optional(Box::new(MirType::Struct(sid))));
    assert!(st.invariants.is_none());

    let data = DataDecl { name: id("Pair"), fields: vec![FieldDecl { name: id("a"), ty: named("Bool") }], span: Span::dummy() };
    let did = ctx.collect_data(&data);
    assert_eq!(did, StructId(1));
    assert!(ctx.lower_data(&data).is_ok());
    assert_eq!(ctx.get_struct(did).unwrap().fields[0].ty, MirType::Bool);
}

#[test]
fn lowering_an_enum_fills_the_enum_table() {
    let mut ctx = LoweringContext::new();
    let decl = EnumDecl {
        name: id("Shape"),
        variants: vec![
            EnumVariant { name: id("Empty"), data: EnumVariantData::Unit },
            EnumVariant { name: id("Circle"), data: EnumVariantData::Tuple(vec![named("Float")]) },
            EnumVariant {
                name: id("Rect"),
                data: EnumVariantData::Struct(vec![
                    FieldDecl { name: id("w"), ty: named("Int") },
                    FieldDecl { name: id("h"), ty: named("Int") },
                ]),
            },
            EnumVariant { name: id("Code"), data: EnumVariantData::Discriminant(7) },
        ],
        span: Span::dummy(),
    };
    let eid = ctx.collect_enum(&decl);
    assert!(ctx.lower_enum(&decl).is_ok());
    let e = ctx.get_enum(eid).unwrap();
    assert_eq!(e.name, "Shape");
    let names: Vec<&str> = e.variants.iter().map(|v| v.name.as_str()).collect();
    assert_eq!(names, vec!["Empty", "Circle", "Rect", "Code"]);
    assert!(e.variants[0].fields.is_empty());
    assert_eq!(e.variants[1].fields, vec![MirType::Float]);
    assert_eq!(e.variants[2].fields, vec![MirType::Int, MirType::Int]);
    assert!(e.variants[3].fields.is_empty());
}
