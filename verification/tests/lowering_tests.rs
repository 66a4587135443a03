//! Whole-program lowering. Each program is written out as the syntax tree
//! of the source text shown above it.

use aria_lang::ast::{
    BinaryOp, Block, CallArg, Expr, ExprKind, FieldDecl, FieldInit, FloatLit, FunctionBody, FunctionDecl, Ident,
    Item, MatchArm, MatchArmBody, Param, Pattern, PatternKind, Program, Stmt, StmtKind, StringPart, StructDecl,
    TestDecl, TypeExpr,
};
use aria_lang::lower::{lower_program, MirError};
use aria_lang::mir::{MirProgram, MirType, Span};
use aria_lang::piece::Piece;
use aria_lang::pretty::pretty_pieces;

fn sp(start: usize, end: usize) -> Span {
    Span { start, end }
}

fn ident(name: &str) -> Ident {
    Ident { node: name.to_string(), span: sp(0, 0) }
}

fn ex(kind: ExprKind) -> Expr {
    Expr { kind, span: sp(0, 0) }
}

fn ex_at(kind: ExprKind, start: usize) -> Expr {
    Expr { kind, span: sp(start, start + 1) }
}

fn lit_int(text: &str) -> Expr {
    ex(ExprKind::Integer(text.to_string()))
}

fn var(name: &str) -> Expr {
    ex(ExprKind::Ident(name.to_string()))
}

fn string(text: &str) -> Expr {
    ex(ExprKind::String(text.to_string()))
}

fn float(v: f64) -> Expr {
    ex(ExprKind::Float(FloatLit::Plain(v.to_bits())))
}

fn bin(op: BinaryOp, left: Expr, right: Expr) -> Expr {
    ex(ExprKind::Binary { op, left: Box::new(left), right: Box::new(right) })
}

fn call(name: &str, args: Vec<Expr>) -> Expr {
    ex(ExprKind::Call {
        func: Box::new(var(name)),
        args: args.into_iter().map(|value| CallArg { name: None, value }).collect(),
    })
}

fn st(kind: StmtKind) -> Stmt {
    Stmt { kind, span: sp(0, 0) }
}

fn pat(kind: PatternKind) -> Pattern {
    Pattern { kind, span: sp(0, 0) }
}

fn let_(name: &str, value: Expr) -> Stmt {
    st(StmtKind::Let { pattern: pat(PatternKind::Ident(name.to_string())), ty: None, value })
}

fn ret(value: Expr) -> Stmt {
    st(StmtKind::Return(Some(value)))
}

fn block(stmts: Vec<Stmt>) -> Block {
    Block { stmts, span: sp(0, 0) }
}

fn named(name: &str) -> TypeExpr {
    TypeExpr::Named(ident(name))
}

fn func(name: &str, params: &[(&str, &str)], ret_ty: Option<&str>, body: Vec<Stmt>) -> Item {
    Item::Function(FunctionDecl {
        name: ident(name),
        generic_params: vec![],
        params: params.iter().map(|(n, t)| Param { name: ident(n), ty: Some(named(t)) }).collect(),
        return_type: ret_ty.map(named),
        body: FunctionBody::Block(block(body)),
        contracts: vec![],
        is_public: false,
        span: sp(0, 0),
    })
}

fn arm(pattern: PatternKind, value: Expr) -> MatchArm {
    MatchArm { pattern: pat(pattern), body: MatchArmBody::Expr(value), span: sp(0, 0) }
}

fn render(pieces: &[Piece]) -> String {
    let mut s = String::new();
    for p in pieces {
        match p {
            Piece::Char(c) => s.push(char::from_u32(*c).unwrap()),
            Piece::Float64(bits) => s.push_str(&format!("{}", f64::from_bits(*bits))),
            Piece::Float32(bits) => s.push_str(&format!("{}", f32::from_bits(*bits))),
        }
    }
    s
}

fn pretty_print(program: &MirProgram) -> String {
    render(&pretty_pieces(program))
}

fn lower_items(items: Vec<Item>) -> Result<String, String> {
    let program = Program { items };
    match lower_program(&program) {
        Ok(mir) => Ok(pretty_print(&mir)),
        Err(e) => Err(e.message()),
    }
}

fn assert_lowers(items: Vec<Item>) -> String {
    match lower_items(items) {
        Ok(mir) => mir,
        Err(e) => panic!("Failed to lower: {}", e),
    }
}

fn assert_lower_fails(items: Vec<Item>) {
    if lower_items(items).is_ok() {
        panic!("Expected lowering to fail");
    }
}

// fn main()
// end
#[test]
fn test_lower_empty_function() {
    let mir = assert_lowers(vec![func("main", &[], None, vec![])]);
    assert!(mir.contains("fn main"));
}

// fn add(a: Int, b: Int) -> Int
//   return a + b
// end
#[test]
fn test_lower_function_with_return() {
    let mir = assert_lowers(vec![func(
        "add",
        &[("a", "Int"), ("b", "Int")],
        Some("Int"),
        vec![ret(bin(BinaryOp::Add, var("a"), var("b")))],
    )]);
    assert!(mir.contains("fn add"));
}

// fn main()
//   let x = 42
// end
#[test]
fn test_lower_let_binding() {
    let mir = assert_lowers(vec![func("main", &[], None, vec![let_("x", lit_int("42"))])]);
    assert!(mir.contains("42"));
}

// fn main()
//   let x = 1 + 2 * 3
// end
#[test]
fn test_lower_arithmetic() {
    let value = bin(BinaryOp::Add, lit_int("1"), bin(BinaryOp::Mul, lit_int("2"), lit_int("3")));
    let mir = assert_lowers(vec![func("main", &[], None, vec![let_("x", value)])]);
    assert!(mir.contains("+") || mir.contains("*"));
}

// fn main()
//   let s = "hello"
// end
#[test]
fn test_lower_string_literal() {
    let mir = assert_lowers(vec![func("main", &[], None, vec![let_("s", string("hello"))])]);
    assert!(mir.contains("str#"));
}

// fn greet(name: String) -> String
//   let msg = "Hello, #{name}!"
//   return msg
// end
#[test]
fn test_lower_string_interpolation_simple() {
    let parts = vec![
        StringPart::Literal("Hello, ".to_string()),
        StringPart::Expr(Box::new(var("name"))),
        StringPart::Literal("!".to_string()),
    ];
    let mir = assert_lowers(vec![func(
        "greet",
        &[("name", "String")],
        Some("String"),
        vec![let_("msg", ex(ExprKind::InterpolatedString(parts))), ret(var("msg"))],
    )]);
    assert!(mir.contains("fn greet"));
}

// fn show(x: Int) -> String
//   return "value: #{x + 1}"
// end
#[test]
fn test_lower_string_interpolation_with_expression() {
    let parts = vec![
        StringPart::Literal("value: ".to_string()),
        StringPart::Expr(Box::new(bin(BinaryOp::Add, var("x"), lit_int("1")))),
    ];
    let mir = assert_lowers(vec![func(
        "show",
        &[("x", "Int")],
        Some("String"),
        vec![ret(ex(ExprKind::InterpolatedString(parts)))],
    )]);
    assert!(mir.contains("fn show"));
}

// fn main()
//   let f = (x) => x + 1
// end
#[test]
fn test_lower_simple_lambda() {
    let lambda = ex_at(
        ExprKind::Lambda {
            params: vec![Param { name: ident("x"), ty: None }],
            body: Box::new(bin(BinaryOp::Add, var("x"), lit_int("1"))),
        },
        20,
    );
    let mir = assert_lowers(vec![func("main", &[], None, vec![let_("f", lambda)])]);
    assert!(mir.contains("__lambda_"));
}

// fn main()
//   let offset = 10
//   let f = { |x| x + offset }
// end
#[test]
fn test_lower_lambda_with_capture() {
    let lambda = ex_at(
        ExprKind::Lambda {
            params: vec![Param { name: ident("x"), ty: None }],
            body: Box::new(bin(BinaryOp::Add, var("x"), var("offset"))),
        },
        40,
    );
    let mir = assert_lowers(vec![func("main", &[], None, vec![let_("offset", lit_int("10")), let_("f", lambda)])]);
    assert!(mir.contains("__lambda_"));
}

// fn max(a: Int, b: Int) -> Int
//   if a > b
//     return a
//   else
//     return b
//   end
// end
#[test]
fn test_lower_if_else() {
    let body = vec![st(StmtKind::If {
        condition: bin(BinaryOp::Gt, var("a"), var("b")),
        then_branch: block(vec![ret(var("a"))]),
        elsif_branches: vec![],
        else_branch: Some(block(vec![ret(var("b"))])),
    })];
    let mir = assert_lowers(vec![func("max", &[("a", "Int"), ("b", "Int")], Some("Int"), body)]);
    assert!(mir.contains("fn max"));
}

// fn count()
//   let i = 0
//   while i < 10
//     i = i + 1
//   end
// end
#[test]
fn test_lower_while_loop() {
    let body = vec![
        let_("i", lit_int("0")),
        st(StmtKind::While {
            condition: bin(BinaryOp::Lt, var("i"), lit_int("10")),
            body: block(vec![st(StmtKind::Assign {
                target: var("i"),
                op: None,
                value: bin(BinaryOp::Add, var("i"), lit_int("1")),
            })]),
        }),
    ];
    let mir = assert_lowers(vec![func("count", &[], None, body)]);
    assert!(mir.contains("fn count"));
}

// fn iterate()
//   let arr = [1, 2, 3]
//   for x in arr
//     print(x)
//   end
// end
#[test]
fn test_lower_for_loop() {
    let body = vec![
        let_("arr", ex(ExprKind::Array(vec![lit_int("1"), lit_int("2"), lit_int("3")]))),
        st(StmtKind::For {
            pattern: pat(PatternKind::Ident("x".to_string())),
            iterable: var("arr"),
            body: block(vec![st(StmtKind::Expr(call("print", vec![var("x")])))]),
        }),
    ];
    let mir = assert_lowers(vec![func("iterate", &[], None, body)]);
    assert!(mir.contains("fn iterate"));
}

// fn classify(x: Int) -> String
//   match x
//     0 => "zero"
//     1 => "one"
//     _ => "other"
//   end
// end
#[test]
fn test_lower_match_with_literals() {
    let arms = vec![
        arm(PatternKind::Literal(Box::new(lit_int("0"))), string("zero")),
        arm(PatternKind::Literal(Box::new(lit_int("1"))), string("one")),
        arm(PatternKind::Wildcard, string("other")),
    ];
    let body = vec![st(StmtKind::Expr(ex(ExprKind::Match { scrutinee: Box::new(var("x")), arms })))];
    let mir = assert_lowers(vec![func("classify", &[("x", "Int")], Some("String"), body)]);
    assert!(mir.contains("fn classify"));
}

// struct Point
//   x: Float
//   y: Float
// end
//
// fn origin() -> Point
//   return Point(x: 0.0, y: 0.0)
// end
#[test]
fn test_lower_struct_definition() {
    let point = Item::Struct(StructDecl {
        name: ident("Point"),
        fields: vec![
            FieldDecl { name: ident("x"), ty: named("Float") },
            FieldDecl { name: ident("y"), ty: named("Float") },
        ],
        span: sp(0, 0),
    });
    let init = ex(ExprKind::StructInit {
        name: ident("Point"),
        fields: vec![
            FieldInit { name: ident("x"), value: Some(float(0.0)) },
            FieldInit { name: ident("y"), value: Some(float(0.0)) },
        ],
    });
    let mir = assert_lowers(vec![point, func("origin", &[], Some("Point"), vec![ret(init)])]);
    assert!(mir.contains("Point"));
}

// fn double(x: Int) -> Int
//   return x * 2
// end
//
// fn main()
//   let result = 5 |> double
// end
#[test]
fn test_lower_pipe_operator() {
    let double = func("double", &[("x", "Int")], Some("Int"), vec![ret(bin(BinaryOp::Mul, var("x"), lit_int("2")))]);
    let pipe = ex(ExprKind::Pipe { left: Box::new(lit_int("5")), right: Box::new(var("double")) });
    let main = func("main", &[], None, vec![let_("result", pipe)]);
    let mir = assert_lowers(vec![double, main]);
    assert!(mir.contains("fn main"));
    assert!(mir.contains("fn double"));
}

// fn both(a: Bool, b: Bool) -> Bool
//   return a && b
// end
#[test]
fn test_lower_short_circuit_and() {
    let mir = assert_lowers(vec![func(
        "both",
        &[("a", "Bool"), ("b", "Bool")],
        Some("Bool"),
        vec![ret(bin(BinaryOp::And, var("a"), var("b")))],
    )]);
    assert!(mir.contains("fn both"));
}

// fn either(a: Bool, b: Bool) -> Bool
//   return a || b
// end
#[test]
fn test_lower_short_circuit_or() {
    let mir = assert_lowers(vec![func(
        "either",
        &[("a", "Bool"), ("b", "Bool")],
        Some("Bool"),
        vec![ret(bin(BinaryOp::Or, var("a"), var("b")))],
    )]);
    assert!(mir.contains("fn either"));
}

// fn make_array()
//   let arr = [1, 2, 3, 4, 5]
// end
#[test]
fn test_lower_array_literal() {
    let arr = ex(ExprKind::Array(vec![lit_int("1"), lit_int("2"), lit_int("3"), lit_int("4"), lit_int("5")]));
    let mir = assert_lowers(vec![func("make_array", &[], None, vec![let_("arr", arr)])]);
    assert!(mir.contains("fn make_array"));
}

// fn make_tuple()
//   let t = (1, true)
// end
#[test]
fn test_lower_tuple_literal() {
    let t = ex(ExprKind::Tuple(vec![lit_int("1"), ex(ExprKind::Bool(true))]));
    let mir = assert_lowers(vec![func("make_tuple", &[], None, vec![let_("t", t)])]);
    assert!(mir.contains("fn make_tuple"));
}

// fn main()
//   return undefined_var
// end
#[test]
fn test_lower_undefined_variable_fails() {
    assert_lower_fails(vec![func("main", &[], None, vec![ret(var("undefined_var"))])]);
}

// fn main()
//   let x = nonexistent_function(42)
// end
#[test]
fn test_lower_undefined_function_fails() {
    assert_lower_fails(vec![func("main", &[], None, vec![let_("x", call("nonexistent_function", vec![lit_int("42")]))])]);
}

// fn get_int() -> Int / return 42; fn get_bool() -> Bool / return true;
// fn get_float() -> Float / return 3.14; fn get_string() -> String / return "hello"
#[test]
fn test_lower_preserves_function_return_types() {
    let items = vec![
        func("get_int", &[], Some("Int"), vec![ret(lit_int("42"))]),
        func("get_bool", &[], Some("Bool"), vec![ret(ex(ExprKind::Bool(true)))]),
        func("get_float", &[], Some("Float"), vec![ret(float(3.14))]),
        func("get_string", &[], Some("String"), vec![ret(string("hello"))]),
    ];
    let mir = lower_program(&Program { items }).expect("Lowering should succeed");
    for (_, func) in &mir.functions.entries {
        match func.name.as_str() {
            "get_int" => assert_eq!(func.return_ty, MirType::Int),
            "get_bool" => assert_eq!(func.return_ty, MirType::Bool),
            "get_float" => assert_eq!(func.return_ty, MirType::Float),
            "get_string" => assert_eq!(func.return_ty, MirType::String),
            _ => {}
        }
    }
}

// fn add(a: Int, b: Int) -> Int
//   return a + b
// end
#[test]
fn test_lower_function_params_have_correct_types() {
    let items = vec![func(
        "add",
        &[("a", "Int"), ("b", "Int")],
        Some("Int"),
        vec![ret(bin(BinaryOp::Add, var("a"), var("b")))],
    )];
    let mir = lower_program(&Program { items }).expect("Lowering should succeed");
    for (_, func) in &mir.functions.entries {
        if func.name.as_str() == "add" {
            assert_eq!(func.return_ty, MirType::Int);
            assert_eq!(func.params.len(), 2);
        }
    }
}

// fn complex(x: Int) -> String
//   if x > 0
//     match x
//       1 => "one"
//       _ => "positive"
//     end
//   else
//     return "non-positive"
//   end
// end
#[test]
fn test_lower_nested_if_match() {
    let arms = vec![
        arm(PatternKind::Literal(Box::new(lit_int("1"))), string("one")),
        arm(PatternKind::Wildcard, string("positive")),
    ];
    let m = st(StmtKind::Expr(ex(ExprKind::Match { scrutinee: Box::new(var("x")), arms })));
    let body = vec![st(StmtKind::If {
        condition: bin(BinaryOp::Gt, var("x"), lit_int("0")),
        then_branch: block(vec![m]),
        elsif_branches: vec![],
        else_branch: Some(block(vec![ret(string("non-positive"))])),
    })];
    let mir = assert_lowers(vec![func("complex", &[("x", "Int")], Some("String"), body)]);
    assert!(mir.contains("fn complex"));
}

// fn square(x: Int) -> Int / return x * x
// fn cube(x: Int) -> Int / return x * x * x
// fn main() / let a = square(3) / let b = cube(2)
#[test]
fn test_lower_multiple_functions() {
    let square = func("square", &[("x", "Int")], Some("Int"), vec![ret(bin(BinaryOp::Mul, var("x"), var("x")))]);
    let cube = func(
        "cube",
        &[("x", "Int")],
        Some("Int"),
        vec![ret(bin(BinaryOp::Mul, bin(BinaryOp::Mul, var("x"), var("x")), var("x")))],
    );
    let main = func(
        "main",
        &[],
        None,
        vec![let_("a", call("square", vec![lit_int("3")])), let_("b", call("cube", vec![lit_int("2")]))],
    );
    let mir = assert_lowers(vec![square, cube, main]);
    assert!(mir.contains("fn square"));
    assert!(mir.contains("fn cube"));
    assert!(mir.contains("fn main"));
}

// Functions may be called before they are defined: the first pass declares
// every function.
#[test]
fn lowering_calls_a_function_defined_later() {
    let main = func("main", &[], None, vec![let_("a", call("later", vec![]))]);
    let later = func("later", &[], Some("Int"), vec![ret(lit_int("1"))]);
    let mir = assert_lowers(vec![main, later]);
    assert!(mir.contains("fn later"));
    assert!(mir.contains("// entry: fn#"));
}

// An undefined name is reported as such, with its name.
#[test]
fn lowering_reports_the_undefined_name() {
    let program = Program { items: vec![func("main", &[], None, vec![ret(var("nowhere"))])] };
    match lower_program(&program) {
        Err(MirError::UndefinedVariable { name, .. }) => assert_eq!(name, "nowhere"),
        other => panic!("unexpected result: {:?}", other.map(|_| ())),
    }
}

// A refutable pattern cannot bind a `let`.
#[test]
fn lowering_rejects_a_literal_let_pattern() {
    let bad = st(StmtKind::Let {
        pattern: pat(PatternKind::Literal(Box::new(lit_int("1")))),
        ty: None,
        value: lit_int("1"),
    });
    let program = Program { items: vec![func("main", &[], None, vec![bad])] };
    assert!(matches!(lower_program(&program), Err(MirError::InvalidPattern { .. })));
}

// A lambda's body becomes a function named after its offset, and the
// closure holds the captured variable.
#[test]
fn lowering_names_a_lambda_by_its_offset() {
    let lambda = ex_at(
        ExprKind::Lambda {
            params: vec![Param { name: ident("x"), ty: None }],
            body: Box::new(bin(BinaryOp::Add, var("x"), var("offset"))),
        },
        57,
    );
    let mir = assert_lowers(vec![func("main", &[], None, vec![let_("offset", lit_int("10")), let_("f", lambda)])]);
    assert!(mir.contains("__lambda_57"));
    assert!(mir.contains("closure("));
}

// A comprehension pushes each element through the `push` builtin.
#[test]
fn lowering_a_comprehension_calls_push() {
    let comp = ex(ExprKind::ArrayComprehension {
        element: Box::new(bin(BinaryOp::Mul, var("x"), lit_int("2"))),
        pattern: pat(PatternKind::Ident("x".to_string())),
        iterable: Box::new(ex(ExprKind::Array(vec![lit_int("1"), lit_int("2")]))),
        condition: None,
    });
    let program = Program { items: vec![func("main", &[], None, vec![let_("d", comp)])] };
    let mir = lower_program(&program).expect("lowering succeeds");
    let main = mir.functions.entries.iter().find(|(_, f)| f.name == "main").unwrap();
    let text = render(&aria_lang::pretty::pretty_function_pieces(&main.1));
    assert!(text.contains(" = fn#"));
}

// A test becomes a unit function named after it.
#[test]
fn lowering_a_test_declaration() {
    let t = Item::Test(TestDecl { name: "adds".to_string(), body: block(vec![let_("x", lit_int("1"))]), span: sp(0, 0) });
    let mir = assert_lowers(vec![t]);
    assert!(mir.contains("__test_adds"));
}

// `break` outside a loop is an internal error.
#[test]
fn lowering_a_break_outside_a_loop_fails() {
    let program = Program { items: vec![func("main", &[], None, vec![st(StmtKind::Break(None))])] };
    assert!(matches!(lower_program(&program), Err(MirError::Internal { .. })));
}

// `break` inside a loop jumps to the loop's exit.
#[test]
fn lowering_a_break_inside_a_loop() {
    let body = vec![st(StmtKind::Loop { body: block(vec![st(StmtKind::Break(None))]) })];
    let mir = assert_lowers(vec![func("spin", &[], None, body)]);
    assert!(mir.contains("fn spin"));
}

// A range expression is not supported.
#[test]
fn lowering_a_range_is_unsupported() {
    let range = ex(ExprKind::Range { start: Some(Box::new(lit_int("1"))), end: Some(Box::new(lit_int("3"))), inclusive: false });
    let program = Program { items: vec![func("main", &[], None, vec![let_("r", range)])] };
    assert!(matches!(lower_program(&program), Err(MirError::UnsupportedFeature { .. })));
}
