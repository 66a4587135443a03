//! The Aria syntax tree that lowering reads: type expressions, expressions,
//! statements, patterns and declarations. Number literals are held as the
//! values the lexer read: integers as their text, floats as IEEE-754 bits.

use vstd::prelude::*;
use crate::mir::Span;

verus! {

/// A name with its source span.
#[derive(Debug, Clone)]
pub struct Ident {
    pub node: String,
    pub span: Span,
}

/// A type as written in source.
#[derive(Debug)]
pub enum TypeExpr {
    /// `Int`, `Point`, `T`.
    Named(Ident),
    /// `Array<Int>`, `Result<T, E>`, `List<T>`.
    Generic { name: Ident, args: Vec<TypeExpr>, span: Span },
    /// `[T]`.
    Array { element: Box<TypeExpr>, span: Span },
    /// `{K: V}`.
    MapOf { key: Box<TypeExpr>, value: Box<TypeExpr>, span: Span },
    /// `(A, B)`.
    Tuple { elements: Vec<TypeExpr>, span: Span },
    /// `T?`.
    Optional { inner: Box<TypeExpr>, span: Span },
    /// `T!E`, the error type optional.
    Result { ok: Box<TypeExpr>, err: Option<Box<TypeExpr>>, span: Span },
    /// `&T`, `&mut T`.
    Reference { mutable: bool, inner: Box<TypeExpr>, span: Span },
    /// `fn(A) -> R`, the return type optional.
    Function { params: Vec<TypeExpr>, return_type: Option<Box<TypeExpr>>, span: Span },
    /// `a::b::T`.
    Path { segments: Vec<Ident>, span: Span },
    /// `_`.
    Inferred(Span),
}

/// A field of a struct, data type or struct-like enum variant.
#[derive(Debug)]
pub struct FieldDecl {
    pub name: Ident,
    pub ty: TypeExpr,
}

/// A struct declaration.
#[derive(Debug)]
pub struct StructDecl {
    pub name: Ident,
    pub fields: Vec<FieldDecl>,
    pub span: Span,
}

/// An immutable data declaration.
#[derive(Debug)]
pub struct DataDecl {
    pub name: Ident,
    pub fields: Vec<FieldDecl>,
    pub span: Span,
}

/// The payload of an enum variant.
#[derive(Debug)]
pub enum EnumVariantData {
    /// No payload.
    Unit,
    /// Positional fields.
    Tuple(Vec<TypeExpr>),
    /// Named fields.
    Struct(Vec<FieldDecl>),
    /// An explicit discriminant value.
    Discriminant(i64),
}

/// An enum variant.
#[derive(Debug)]
pub struct EnumVariant {
    pub name: Ident,
    pub data: EnumVariantData,
}

/// An enum declaration.
#[derive(Debug)]
pub struct EnumDecl {
    pub name: Ident,
    pub variants: Vec<EnumVariant>,
    pub span: Span,
}

// ============================================================================
// Expressions
// ============================================================================

/// Binary operators, compound assignments included.
#[derive(Debug, Clone, Copy, PartialEq, Eq, Structural)]
pub enum BinaryOp {
    Add,
    Sub,
    Mul,
    Div,
    IntDiv,
    Mod,
    Pow,
    Eq,
    NotEq,
    Lt,
    Gt,
    LtEq,
    GtEq,
    And,
    Or,
    BitAnd,
    BitOr,
    BitXor,
    Shl,
    Shr,
    AddAssign,
    SubAssign,
    MulAssign,
    DivAssign,
    IntDivAssign,
    ModAssign,
    PowAssign,
    BitAndAssign,
    BitOrAssign,
    BitXorAssign,
    ShlAssign,
    ShrAssign,
}

/// How a binary operator is written in Aria source.
pub open spec fn source_symbol(op: BinaryOp) -> Seq<char> {
    match op {
        BinaryOp::Add => "+"@,
        BinaryOp::Sub => "-"@,
        BinaryOp::Mul => "*"@,
        BinaryOp::Div => "/"@,
        BinaryOp::IntDiv => "//"@,
        BinaryOp::Mod => "%"@,
        BinaryOp::Pow => "**"@,
        BinaryOp::Eq => "=="@,
        BinaryOp::NotEq => "!="@,
        BinaryOp::Lt => "<"@,
        BinaryOp::Gt => ">"@,
        BinaryOp::LtEq => "<="@,
        BinaryOp::GtEq => ">="@,
        BinaryOp::And => "&&"@,
        BinaryOp::Or => "||"@,
        BinaryOp::BitAnd => "&"@,
        BinaryOp::BitOr => "|"@,
        BinaryOp::BitXor => "^"@,
        BinaryOp::Shl => "<<"@,
        BinaryOp::Shr => ">>"@,
        BinaryOp::AddAssign => "+="@,
        BinaryOp::SubAssign => "-="@,
        BinaryOp::MulAssign => "*="@,
        BinaryOp::DivAssign => "/="@,
        BinaryOp::IntDivAssign => "//="@,
        BinaryOp::ModAssign => "%="@,
        BinaryOp::PowAssign => "**="@,
        BinaryOp::BitAndAssign => "&="@,
        BinaryOp::BitOrAssign => "|="@,
        BinaryOp::BitXorAssign => "^="@,
        BinaryOp::ShlAssign => "<<="@,
        BinaryOp::ShrAssign => ">>="@,
    }
}

/// Unary operators.
#[derive(Debug, Clone, Copy, PartialEq, Eq, Structural)]
pub enum UnaryOp {
    Neg,
    Not,
    BitNot,
    Ref,
    Deref,
}

/// A float literal: its IEEE-754 bits and the suffix it was written with.
#[derive(Debug, Clone, Copy, PartialEq, Eq, Structural)]
pub enum FloatLit {
    /// No suffix: a 64-bit float.
    Plain(u64),
    /// The `f32` suffix.
    F32(u32),
    /// The `f64` suffix.
    F64(u64),
}

/// An expression with its source span.
#[derive(Debug)]
pub struct Expr {
    pub kind: ExprKind,
    pub span: Span,
}

/// The kinds of expression.
#[derive(Debug)]
pub enum ExprKind {
    /// An integer literal, as written.
    Integer(String),
    Float(FloatLit),
    String(String),
    /// A character literal, as written between the quotes.
    Char(String),
    Bool(bool),
    Nil,
    Ident(String),
    /// `self`.
    SelfLower,
    /// `Self`.
    SelfUpper,
    Array(Vec<Expr>),
    Tuple(Vec<Expr>),
    /// `{k: v, ...}`.
    MapOf(Vec<(Expr, Expr)>),
    Binary { op: BinaryOp, left: Box<Expr>, right: Box<Expr> },
    Unary { op: UnaryOp, operand: Box<Expr> },
    Field { object: Box<Expr>, field: Ident },
    Index { object: Box<Expr>, index: Box<Expr> },
    MethodCall { object: Box<Expr>, method: Ident, args: Vec<Expr> },
    Call { func: Box<Expr>, args: Vec<CallArg> },
    If { condition: Box<Expr>, then_branch: Block, elsif_branches: Vec<(Expr, Block)>, else_branch: Option<Block> },
    Match { scrutinee: Box<Expr>, arms: Vec<MatchArm> },
    Block(Block),
    /// `|params| expr`.
    Lambda { params: Vec<Param>, body: Box<Expr> },
    /// `|params| { stmts }`.
    BlockLambda { params: Vec<Param>, body: Block },
    /// `[element for pattern in iterable if condition]`.
    ArrayComprehension { element: Box<Expr>, pattern: Pattern, iterable: Box<Expr>, condition: Option<Box<Expr>> },
    /// `{key: value for pattern in iterable if condition}`.
    MapComprehension { key: Box<Expr>, value: Box<Expr>, pattern: Pattern, iterable: Box<Expr>, condition: Option<Box<Expr>> },
    Range { start: Option<Box<Expr>>, end: Option<Box<Expr>>, inclusive: bool },
    /// `left |> right`.
    Pipe { left: Box<Expr>, right: Box<Expr> },
    /// `expr?`.
    Try(Box<Expr>),
    /// `expr!`.
    Unwrap(Box<Expr>),
    /// `object?.field`.
    SafeNav { object: Box<Expr>, field: Ident },
    StructInit { name: Ident, fields: Vec<FieldInit> },
    Spawn(Box<Expr>),
    Await(Box<Expr>),
    Select(Vec<SelectArm>),
    ChannelSend { channel: Box<Expr>, value: Box<Expr> },
    ChannelRecv { channel: Box<Expr> },
    /// `old(expr)` in a contract.
    Old(Box<Expr>),
    /// `result` in a contract.
    Result,
    Forall { var: Ident, ty: TypeExpr, condition: Option<Box<Expr>>, body: Box<Expr> },
    Exists { var: Ident, ty: TypeExpr, condition: Option<Box<Expr>>, body: Box<Expr> },
    Paren(Box<Expr>),
    Ternary { condition: Box<Expr>, then_expr: Box<Expr>, else_expr: Box<Expr> },
    /// `a::b::c`.
    Path(Vec<Ident>),
    /// `"text #{expr} text"`.
    InterpolatedString(Vec<StringPart>),
    /// What the parser left where it found an error.
    Error,
    /// `handle expr { ... }`.
    Handle(Box<Expr>),
    /// `raise expr`.
    Raise(Box<Expr>),
    /// `resume expr`.
    Resume(Box<Expr>),
}

/// An argument of a call, named or positional.
#[derive(Debug)]
pub struct CallArg {
    pub name: Option<Ident>,
    pub value: Expr,
}

/// A field of a struct literal; `name:` alone stands for `name: name`.
#[derive(Debug)]
pub struct FieldInit {
    pub name: Ident,
    pub value: Option<Expr>,
}

/// An arm of a `select`.
#[derive(Debug)]
pub struct SelectArm {
    pub body: Expr,
    pub span: Span,
}

/// A part of an interpolated string.
#[derive(Debug)]
pub enum StringPart {
    Literal(String),
    Expr(Box<Expr>),
    /// `#{expr:format}`.
    FormattedExpr { expr: Box<Expr>, format: String },
}

/// A parameter of a function or lambda.
#[derive(Debug)]
pub struct Param {
    pub name: Ident,
    pub ty: Option<TypeExpr>,
}

/// An arm of a `match`.
#[derive(Debug)]
pub struct MatchArm {
    pub pattern: Pattern,
    pub body: MatchArmBody,
    pub span: Span,
}

/// The body of a match arm.
#[derive(Debug)]
pub enum MatchArmBody {
    Expr(Expr),
    Block(Block),
}

// ============================================================================
// Statements
// ============================================================================

/// A block of statements.
#[derive(Debug)]
pub struct Block {
    pub stmts: Vec<Stmt>,
    pub span: Span,
}

/// A statement with its source span.
#[derive(Debug)]
pub struct Stmt {
    pub kind: StmtKind,
    pub span: Span,
}

/// The kinds of statement.
#[derive(Debug)]
pub enum StmtKind {
    Expr(Expr),
    Let { pattern: Pattern, ty: Option<TypeExpr>, value: Expr },
    Var { name: Ident, ty: Option<TypeExpr>, value: Expr },
    Const { name: Ident, ty: Option<TypeExpr>, value: Expr },
    /// `target = value`, or `target op= value` with the compound operator.
    Assign { target: Expr, op: Option<BinaryOp>, value: Expr },
    For { pattern: Pattern, iterable: Expr, body: Block },
    While { condition: Expr, body: Block },
    Loop { body: Block },
    If { condition: Expr, then_branch: Block, elsif_branches: Vec<(Expr, Block)>, else_branch: Option<Block> },
    Unless { condition: Expr, body: Block, else_branch: Option<Block> },
    Match { scrutinee: Expr, arms: Vec<MatchArm> },
    Return(Option<Expr>),
    Break(Option<Expr>),
    Continue,
    Defer(Expr),
    Unsafe(Block),
    /// A declaration inside a function body.
    Item(Box<Item>),
}

// ============================================================================
// Patterns
// ============================================================================

/// A pattern with its source span.
#[derive(Debug)]
pub struct Pattern {
    pub kind: PatternKind,
    pub span: Span,
}

/// The kinds of pattern.
#[derive(Debug)]
pub enum PatternKind {
    /// `_`.
    Wildcard,
    Ident(String),
    Literal(Box<Expr>),
    Tuple(Vec<Pattern>),
    /// `[a, b, ..rest]`.
    Array { elements: Vec<Pattern>, rest: Option<Box<Pattern>> },
    /// `Point { x, y: py }`, the struct name optional.
    Struct { name: Option<Ident>, fields: Vec<FieldPattern> },
    /// `Shape::Circle(r)`.
    Variant { path: Vec<Ident>, variant: Ident, fields: Option<Vec<Pattern>> },
    Range { start: Box<Expr>, end: Box<Expr>, inclusive: bool },
    /// `a | b`.
    Or(Vec<Pattern>),
    /// `pattern if condition`.
    Guard { pattern: Box<Pattern>, condition: Box<Expr> },
    /// `name @ pattern`.
    Binding { name: Ident, pattern: Box<Pattern> },
    /// `pattern: Type`.
    Typed { pattern: Box<Pattern>, ty: TypeExpr },
    /// `..name`.
    Rest(Option<Ident>),
}

/// A field of a struct pattern; `name` alone binds the field to `name`.
#[derive(Debug)]
pub struct FieldPattern {
    pub name: Ident,
    pub pattern: Option<Pattern>,
    pub span: Span,
}

// ============================================================================
// Declarations
// ============================================================================

/// The body of a function: a block or `= expr`.
#[derive(Debug)]
pub enum FunctionBody {
    Block(Block),
    Expression(Box<Expr>),
}

/// A contract clause with its optional message.
#[derive(Debug)]
pub struct ContractClause {
    pub condition: Expr,
    pub message: Option<String>,
    pub span: Span,
}

/// A contract of a function.
#[derive(Debug)]
pub enum Contract {
    Requires(ContractClause),
    Ensures(ContractClause),
    Invariant(ContractClause),
}

/// A function declaration.
#[derive(Debug)]
pub struct FunctionDecl {
    pub name: Ident,
    /// The names of the generic parameters.
    pub generic_params: Vec<Ident>,
    pub params: Vec<Param>,
    pub return_type: Option<TypeExpr>,
    pub body: FunctionBody,
    pub contracts: Vec<Contract>,
    pub is_public: bool,
    pub span: Span,
}

/// A test declaration.
#[derive(Debug)]
pub struct TestDecl {
    pub name: String,
    pub body: Block,
    pub span: Span,
}

/// A module declaration.
#[derive(Debug)]
pub struct ModuleDecl {
    pub name: Ident,
    pub items: Vec<Item>,
    pub span: Span,
}

/// A top-level or nested declaration. The declarations that produce no MIR
/// are held by their span.
#[derive(Debug)]
pub enum Item {
    Function(FunctionDecl),
    Struct(StructDecl),
    Data(DataDecl),
    Enum(EnumDecl),
    Module(ModuleDecl),
    Const(Span),
    Import(Span),
    Export(Span),
    Use(Span),
    TypeAlias(Span),
    Trait(Span),
    Impl(Span),
    Test(TestDecl),
    Extern(Span),
}

/// A parsed program.
#[derive(Debug)]
pub struct Program {
    pub items: Vec<Item>,
}

} // verus!
