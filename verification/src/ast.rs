//! The syntax tree that the compiler reads.
//!
//! A node holds what the compiler reads of it. Floating-point literals stand as the bits of a
//! double, and a text that only a source printer can give (an annotation written back as source)
//! stands beside the expression it belongs to.
use vstd::prelude::*;

verus! {

/// A place in the source, with both numbers counted from 1.
#[derive(Debug, Clone, Copy, PartialEq, Eq, Structural)]
pub struct SourceLocation {
    pub row: u32,
    pub column: u32,
}

/// The range of a node in the source, of which the compiler reads where it starts.
#[derive(Debug, Clone, Copy, PartialEq, Eq, Structural)]
pub struct TextRange {
    pub start: SourceLocation,
}

/// The range at the very start of a source.
pub open spec fn origin() -> TextRange {
    TextRange { start: SourceLocation { row: 1, column: 1 } }
}

impl Default for TextRange {
    fn default() -> (r: Self)
        ensures
            r == origin(),
    {
        TextRange { start: SourceLocation { row: 1, column: 1 } }
    }
}

pub struct ModModule {
    pub body: Vec<Stmt>,
}

pub struct ModExpression {
    pub body: Box<Expr>,
}

pub enum Mod {
    Module(ModModule),
    Expression(ModExpression),
}

pub enum Stmt {
    FunctionDef(StmtFunctionDef),
    ClassDef(StmtClassDef),
    Return(StmtReturn),
    Delete(StmtDelete),
    TypeAlias(StmtTypeAlias),
    Assign(StmtAssign),
    AugAssign(StmtAugAssign),
    AnnAssign(StmtAnnAssign),
    For(StmtFor),
    While(StmtWhile),
    If(StmtIf),
    With(StmtWith),
    Match(StmtMatch),
    Raise(StmtRaise),
    Try(StmtTry),
    Assert(StmtAssert),
    Import(StmtImport),
    ImportFrom(StmtImportFrom),
    Global(TextRange),
    Nonlocal(TextRange),
    Expr(StmtExpr),
    Pass(TextRange),
    Break(TextRange),
    Continue(TextRange),
    IpyEscapeCommand(TextRange),
}

pub struct StmtFunctionDef {
    pub range: TextRange,
    pub is_async: bool,
    pub decorator_list: Vec<Decorator>,
    pub name: String,
    pub type_params: Option<Box<TypeParams>>,
    pub parameters: Box<Parameters>,
    pub returns: Option<Box<Annotation>>,
    pub body: Vec<Stmt>,
}

pub struct StmtClassDef {
    pub range: TextRange,
    pub decorator_list: Vec<Decorator>,
    pub name: String,
    pub type_params: Option<Box<TypeParams>>,
    pub arguments: Option<Box<Arguments>>,
    pub body: Vec<Stmt>,
}

pub struct StmtReturn {
    pub range: TextRange,
    pub value: Option<Box<Expr>>,
}

pub struct StmtDelete {
    pub range: TextRange,
    pub targets: Vec<Expr>,
}

pub struct StmtTypeAlias {
    pub range: TextRange,
    pub name: Box<Expr>,
    pub type_params: Option<Box<TypeParams>>,
    pub value: Box<Expr>,
}

pub struct StmtAssign {
    pub range: TextRange,
    pub targets: Vec<Expr>,
    pub value: Box<Expr>,
}

pub struct StmtAugAssign {
    pub range: TextRange,
    pub target: Box<Expr>,
    pub op: Operator,
    pub value: Box<Expr>,
}

pub struct StmtAnnAssign {
    pub range: TextRange,
    pub target: Box<Expr>,
    pub annotation: Box<Annotation>,
    pub value: Option<Box<Expr>>,
}

pub struct StmtFor {
    pub range: TextRange,
    pub is_async: bool,
    pub target: Box<Expr>,
    pub iter: Box<Expr>,
    pub body: Vec<Stmt>,
    pub orelse: Vec<Stmt>,
}

pub struct StmtWhile {
    pub range: TextRange,
    pub test: Box<Expr>,
    pub body: Vec<Stmt>,
    pub orelse: Vec<Stmt>,
}

pub struct StmtIf {
    pub range: TextRange,
    pub test: Box<Expr>,
    pub body: Vec<Stmt>,
    pub elif_else_clauses: Vec<ElifElseClause>,
}

/// An `elif` clause, which has a test, or an `else` clause, which has none.
pub struct ElifElseClause {
    pub test: Option<Expr>,
    pub body: Vec<Stmt>,
}

pub struct StmtWith {
    pub range: TextRange,
    pub is_async: bool,
    pub items: Vec<WithItem>,
    pub body: Vec<Stmt>,
}

pub struct WithItem {
    pub context_expr: Expr,
    pub optional_vars: Option<Box<Expr>>,
}

pub struct StmtMatch {
    pub range: TextRange,
    pub subject: Box<Expr>,
    pub cases: Vec<MatchCase>,
}

pub struct MatchCase {
    pub pattern: Pattern,
    pub guard: Option<Box<Expr>>,
    pub body: Vec<Stmt>,
}

pub enum Pattern {
    MatchValue(PatternMatchValue),
    MatchAs(PatternMatchAs),
    /// Any pattern that the compiler does not support: a singleton, a sequence, a mapping, a
    /// class, a star or an alternative.
    Other(TextRange),
}

pub struct PatternMatchValue {
    pub range: TextRange,
    pub value: Box<Expr>,
}

pub struct PatternMatchAs {
    pub range: TextRange,
    pub pattern: Option<Box<Pattern>>,
    pub name: Option<String>,
}

pub struct StmtRaise {
    pub range: TextRange,
    pub exc: Option<Box<Expr>>,
    pub cause: Option<Box<Expr>>,
}

pub struct StmtTry {
    pub range: TextRange,
    pub body: Vec<Stmt>,
    pub handlers: Vec<ExceptHandler>,
    pub orelse: Vec<Stmt>,
    pub finalbody: Vec<Stmt>,
    pub is_star: bool,
}

pub struct ExceptHandler {
    pub type_: Option<Box<Expr>>,
    pub name: Option<String>,
    pub body: Vec<Stmt>,
}

pub struct StmtAssert {
    pub range: TextRange,
    pub test: Box<Expr>,
    pub msg: Option<Box<Expr>>,
}

pub struct StmtImport {
    pub range: TextRange,
    pub names: Vec<Alias>,
}

pub struct StmtImportFrom {
    pub range: TextRange,
    pub module: Option<String>,
    pub names: Vec<Alias>,
    pub level: u32,
}

pub struct Alias {
    pub name: String,
    pub asname: Option<String>,
}

pub struct StmtExpr {
    pub range: TextRange,
    pub value: Box<Expr>,
}

pub struct Decorator {
    pub expression: Expr,
}

/// An annotation: the expression, and the expression written back as source.
pub struct Annotation {
    pub expr: Expr,
    pub source: String,
}

pub struct Parameters {
    pub posonlyargs: Vec<ParameterWithDefault>,
    pub args: Vec<ParameterWithDefault>,
    pub vararg: Option<Box<Parameter>>,
    pub kwonlyargs: Vec<ParameterWithDefault>,
    pub kwarg: Option<Box<Parameter>>,
}

pub struct ParameterWithDefault {
    pub parameter: Parameter,
    pub default: Option<Box<Expr>>,
}

pub struct Parameter {
    pub name: String,
    pub annotation: Option<Box<Annotation>>,
}

pub struct TypeParams {
    pub type_params: Vec<TypeParam>,
}

pub enum TypeParam {
    TypeVar(TypeParamTypeVar),
    ParamSpec(TypeParamParamSpec),
    TypeVarTuple(TypeParamTypeVarTuple),
}

pub struct TypeParamTypeVar {
    pub name: String,
    pub bound: Option<Box<Expr>>,
}

pub struct TypeParamParamSpec {
    pub name: String,
}

pub struct TypeParamTypeVarTuple {
    pub name: String,
}

pub enum Expr {
    BoolOp(ExprBoolOp),
    Named(ExprNamed),
    BinOp(ExprBinOp),
    UnaryOp(ExprUnaryOp),
    Lambda(ExprLambda),
    If(ExprIf),
    Dict(ExprDict),
    SetDisplay(ExprSet),
    ListComp(ExprListComp),
    SetComp(ExprSetComp),
    DictComp(ExprDictComp),
    Generator(ExprGenerator),
    Await(ExprAwait),
    Yield(ExprYield),
    YieldFrom(ExprYieldFrom),
    Compare(ExprCompare),
    Call(ExprCall),
    FString(ExprFString),
    StringLiteral(ExprStringLiteral),
    BytesLiteral(ExprBytesLiteral),
    NumberLiteral(ExprNumberLiteral),
    BooleanLiteral(ExprBooleanLiteral),
    NoneLiteral(TextRange),
    EllipsisLiteral(TextRange),
    Attribute(ExprAttribute),
    Subscript(ExprSubscript),
    Starred(ExprStarred),
    Name(ExprName),
    List(ExprList),
    Tuple(ExprTuple),
    Slice(ExprSlice),
    IpyEscapeCommand(TextRange),
}

pub struct ExprBoolOp {
    pub range: TextRange,
    pub op: BoolOp,
    pub values: Vec<Expr>,
}

pub struct ExprNamed {
    pub range: TextRange,
    pub target: Box<Expr>,
    pub value: Box<Expr>,
}

pub struct ExprBinOp {
    pub range: TextRange,
    pub left: Box<Expr>,
    pub op: Operator,
    pub right: Box<Expr>,
}

pub struct ExprUnaryOp {
    pub range: TextRange,
    pub op: UnaryOp,
    pub operand: Box<Expr>,
}

pub struct ExprLambda {
    pub range: TextRange,
    pub parameters: Option<Box<Parameters>>,
    pub body: Box<Expr>,
}

pub struct ExprIf {
    pub range: TextRange,
    pub test: Box<Expr>,
    pub body: Box<Expr>,
    pub orelse: Box<Expr>,
}

pub struct ExprDict {
    pub range: TextRange,
    pub items: Vec<DictItem>,
}

/// A `key: value` item, or a `**value` item, which has no key.
pub struct DictItem {
    pub key: Option<Expr>,
    pub value: Expr,
}

pub struct ExprSet {
    pub range: TextRange,
    pub elts: Vec<Expr>,
}

pub struct ExprListComp {
    pub range: TextRange,
    pub elt: Box<Expr>,
    pub generators: Vec<Comprehension>,
}

pub struct ExprSetComp {
    pub range: TextRange,
    pub elt: Box<Expr>,
    pub generators: Vec<Comprehension>,
}

pub struct ExprDictComp {
    pub range: TextRange,
    pub key: Box<Expr>,
    pub value: Box<Expr>,
    pub generators: Vec<Comprehension>,
}

pub struct ExprGenerator {
    pub range: TextRange,
    pub elt: Box<Expr>,
    pub generators: Vec<Comprehension>,
}

pub struct Comprehension {
    pub target: Expr,
    pub iter: Expr,
    pub ifs: Vec<Expr>,
    pub is_async: bool,
}

pub struct ExprAwait {
    pub range: TextRange,
    pub value: Box<Expr>,
}

pub struct ExprYield {
    pub range: TextRange,
    pub value: Option<Box<Expr>>,
}

pub struct ExprYieldFrom {
    pub range: TextRange,
    pub value: Box<Expr>,
}

pub struct ExprCompare {
    pub range: TextRange,
    pub left: Box<Expr>,
    pub ops: Vec<CmpOp>,
    pub comparators: Vec<Expr>,
}

pub struct ExprCall {
    pub range: TextRange,
    pub func: Box<Expr>,
    pub arguments: Arguments,
}

pub struct Arguments {
    pub args: Vec<Expr>,
    pub keywords: Vec<Keyword>,
}

/// A `name=value` argument, or a `**value` argument, which has no name.
pub struct Keyword {
    pub arg: Option<String>,
    pub value: Expr,
}

pub struct ExprFString {
    pub range: TextRange,
    pub value: FStringValue,
}

/// The parts of an implicitly concatenated f-string.
pub struct FStringValue {
    pub parts: Vec<FStringPart>,
}

pub enum FStringPart {
    Literal(String),
    FString(FString),
}

pub struct FString {
    pub elements: Vec<FStringElement>,
}

pub enum FStringElement {
    Literal(String),
    Expression(FStringExpressionElement),
}

pub struct FStringExpressionElement {
    pub expression: Box<Expr>,
    pub debug_text: Option<DebugText>,
    pub conversion: ConversionFlag,
    pub format_spec: Option<Box<FStringFormatSpec>>,
}

/// The text of a `{expression=}` element: what stands before the expression, the source of the
/// expression, and what stands after it.
pub struct DebugText {
    pub leading: String,
    pub source: String,
    pub trailing: String,
}

pub struct FStringFormatSpec {
    pub elements: Vec<FStringElement>,
}

pub struct ExprStringLiteral {
    pub range: TextRange,
    pub value: String,
}

/// The parts of an implicitly concatenated bytes literal.
pub struct ExprBytesLiteral {
    pub range: TextRange,
    pub value: Vec<Vec<u8>>,
}

pub struct ExprNumberLiteral {
    pub range: TextRange,
    pub value: Number,
}

pub enum Number {
    Int(Int),
    /// The bits of a double.
    Float(u64),
    /// The bits of two doubles.
    Complex { re: u64, im: u64 },
}

/// An integer literal: its value, or where that does not fit, its source text.
pub enum Int {
    Small(u64),
    Big(String),
}

pub struct ExprBooleanLiteral {
    pub range: TextRange,
    pub value: bool,
}

pub struct ExprAttribute {
    pub range: TextRange,
    pub value: Box<Expr>,
    pub attr: String,
}

pub struct ExprSubscript {
    pub range: TextRange,
    pub value: Box<Expr>,
    pub slice: Box<Expr>,
}

pub struct ExprStarred {
    pub range: TextRange,
    pub value: Box<Expr>,
}

pub struct ExprName {
    pub range: TextRange,
    pub id: String,
}

pub struct ExprList {
    pub range: TextRange,
    pub elts: Vec<Expr>,
}

pub struct ExprTuple {
    pub range: TextRange,
    pub elts: Vec<Expr>,
}

pub struct ExprSlice {
    pub range: TextRange,
    pub lower: Option<Box<Expr>>,
    pub upper: Option<Box<Expr>>,
    pub step: Option<Box<Expr>>,
}

#[derive(Debug, Clone, Copy, PartialEq, Eq, Structural)]
pub enum BoolOp {
    And,
    Or,
}

#[derive(Debug, Clone, Copy, PartialEq, Eq, Structural)]
pub enum Operator {
    Add,
    Sub,
    Mult,
    MatMult,
    Div,
    Mod,
    Pow,
    LShift,
    RShift,
    BitOr,
    BitXor,
    BitAnd,
    FloorDiv,
}

#[derive(Debug, Clone, Copy, PartialEq, Eq, Structural)]
pub enum UnaryOp {
    Invert,
    Not,
    UAdd,
    USub,
}

#[derive(Debug, Clone, Copy, PartialEq, Eq, Structural)]
pub enum CmpOp {
    Eq,
    NotEq,
    Lt,
    LtE,
    Gt,
    GtE,
    Is,
    IsNot,
    In,
    NotIn,
}

#[derive(Debug, Clone, Copy, PartialEq, Eq, Structural)]
pub enum ConversionFlag {
    /// No conversion.
    Plain,
    Str,
    Ascii,
    Repr,
}

/// The range of an expression.
pub open spec fn expr_range(e: Expr) -> TextRange {
    match e {
        Expr::BoolOp(x) => x.range,
        Expr::Named(x) => x.range,
        Expr::BinOp(x) => x.range,
        Expr::UnaryOp(x) => x.range,
        Expr::Lambda(x) => x.range,
        Expr::If(x) => x.range,
        Expr::Dict(x) => x.range,
        Expr::SetDisplay(x) => x.range,
        Expr::ListComp(x) => x.range,
        Expr::SetComp(x) => x.range,
        Expr::DictComp(x) => x.range,
        Expr::Generator(x) => x.range,
        Expr::Await(x) => x.range,
        Expr::Yield(x) => x.range,
        Expr::YieldFrom(x) => x.range,
        Expr::Compare(x) => x.range,
        Expr::Call(x) => x.range,
        Expr::FString(x) => x.range,
        Expr::StringLiteral(x) => x.range,
        Expr::BytesLiteral(x) => x.range,
        Expr::NumberLiteral(x) => x.range,
        Expr::BooleanLiteral(x) => x.range,
        Expr::NoneLiteral(range) => range,
        Expr::EllipsisLiteral(range) => range,
        Expr::Attribute(x) => x.range,
        Expr::Subscript(x) => x.range,
        Expr::Starred(x) => x.range,
        Expr::Name(x) => x.range,
        Expr::List(x) => x.range,
        Expr::Tuple(x) => x.range,
        Expr::Slice(x) => x.range,
        Expr::IpyEscapeCommand(range) => range,
    }
}

/// The range of a statement.
pub open spec fn stmt_range(s: Stmt) -> TextRange {
    match s {
        Stmt::FunctionDef(x) => x.range,
        Stmt::ClassDef(x) => x.range,
        Stmt::Return(x) => x.range,
        Stmt::Delete(x) => x.range,
        Stmt::TypeAlias(x) => x.range,
        Stmt::Assign(x) => x.range,
        Stmt::AugAssign(x) => x.range,
        Stmt::AnnAssign(x) => x.range,
        Stmt::For(x) => x.range,
        Stmt::While(x) => x.range,
        Stmt::If(x) => x.range,
        Stmt::With(x) => x.range,
        Stmt::Match(x) => x.range,
        Stmt::Raise(x) => x.range,
        Stmt::Try(x) => x.range,
        Stmt::Assert(x) => x.range,
        Stmt::Import(x) => x.range,
        Stmt::ImportFrom(x) => x.range,
        Stmt::Global(range) => range,
        Stmt::Nonlocal(range) => range,
        Stmt::Expr(x) => x.range,
        Stmt::Pass(range) => range,
        Stmt::Break(range) => range,
        Stmt::Continue(range) => range,
        Stmt::IpyEscapeCommand(range) => range,
    }
}

impl Expr {
    pub fn range(&self) -> (r: TextRange)
        ensures
            r == expr_range(*self),
    {
        match self {
            Expr::BoolOp(x) => x.range,
            Expr::Named(x) => x.range,
            Expr::BinOp(x) => x.range,
            Expr::UnaryOp(x) => x.range,
            Expr::Lambda(x) => x.range,
            Expr::If(x) => x.range,
            Expr::Dict(x) => x.range,
            Expr::SetDisplay(x) => x.range,
            Expr::ListComp(x) => x.range,
            Expr::SetComp(x) => x.range,
            Expr::DictComp(x) => x.range,
            Expr::Generator(x) => x.range,
            Expr::Await(x) => x.range,
            Expr::Yield(x) => x.range,
            Expr::YieldFrom(x) => x.range,
            Expr::Compare(x) => x.range,
            Expr::Call(x) => x.range,
            Expr::FString(x) => x.range,
            Expr::StringLiteral(x) => x.range,
            Expr::BytesLiteral(x) => x.range,
            Expr::NumberLiteral(x) => x.range,
            Expr::BooleanLiteral(x) => x.range,
            Expr::NoneLiteral(range) => *range,
            Expr::EllipsisLiteral(range) => *range,
            Expr::Attribute(x) => x.range,
            Expr::Subscript(x) => x.range,
            Expr::Starred(x) => x.range,
            Expr::Name(x) => x.range,
            Expr::List(x) => x.range,
            Expr::Tuple(x) => x.range,
            Expr::Slice(x) => x.range,
            Expr::IpyEscapeCommand(range) => *range,
        }
    }
}

impl Stmt {
    pub fn range(&self) -> (r: TextRange)
        ensures
            r == stmt_range(*self),
    {
        match self {
            Stmt::FunctionDef(x) => x.range,
            Stmt::ClassDef(x) => x.range,
            Stmt::Return(x) => x.range,
            Stmt::Delete(x) => x.range,
            Stmt::TypeAlias(x) => x.range,
            Stmt::Assign(x) => x.range,
            Stmt::AugAssign(x) => x.range,
            Stmt::AnnAssign(x) => x.range,
            Stmt::For(x) => x.range,
            Stmt::While(x) => x.range,
            Stmt::If(x) => x.range,
            Stmt::With(x) => x.range,
            Stmt::Match(x) => x.range,
            Stmt::Raise(x) => x.range,
            Stmt::Try(x) => x.range,
            Stmt::Assert(x) => x.range,
            Stmt::Import(x) => x.range,
            Stmt::ImportFrom(x) => x.range,
            Stmt::Global(range) => *range,
            Stmt::Nonlocal(range) => *range,
            Stmt::Expr(x) => x.range,
            Stmt::Pass(range) => *range,
            Stmt::Break(range) => *range,
            Stmt::Continue(range) => *range,
            Stmt::IpyEscapeCommand(range) => *range,
        }
    }
}

/// What Python calls an expression of this kind in its messages.
pub open spec fn expr_python_name(e: Expr) -> Seq<char> {
    match e {
        Expr::BoolOp(_) | Expr::BinOp(_) | Expr::UnaryOp(_) => "operator"@,
        Expr::Subscript(_) => "subscript"@,
        Expr::Await(_) => "await expression"@,
        Expr::Yield(_) | Expr::YieldFrom(_) => "yield expression"@,
        Expr::Compare(_) => "comparison"@,
        Expr::Attribute(_) => "attribute"@,
        Expr::Call(_) => "function call"@,
        Expr::BooleanLiteral(b) => if b.value {
            "True"@
        } else {
            "False"@
        },
        Expr::EllipsisLiteral(_) => "ellipsis"@,
        Expr::NoneLiteral(_) => "None"@,
        Expr::NumberLiteral(_) | Expr::BytesLiteral(_) | Expr::StringLiteral(_) => "literal"@,
        Expr::Tuple(_) => "tuple"@,
        Expr::List(_) => "list"@,
        Expr::Dict(_) => "dict display"@,
        Expr::SetDisplay(_) => "set display"@,
        Expr::ListComp(_) => "list comprehension"@,
        Expr::DictComp(_) => "dict comprehension"@,
        Expr::SetComp(_) => "set comprehension"@,
        Expr::Generator(_) => "generator expression"@,
        Expr::Starred(_) => "starred"@,
        Expr::Slice(_) => "slice"@,
        Expr::FString(_) => "f-string expression"@,
        Expr::Name(_) => "name"@,
        Expr::Lambda(_) => "lambda"@,
        Expr::If(_) => "conditional expression"@,
        Expr::Named(_) => "named expression"@,
        Expr::IpyEscapeCommand(_) => "ipython escape command"@,
    }
}

impl Expr {
    pub fn python_name(&self) -> (r: &'static str)
        ensures
            r@ == expr_python_name(*self),
    {
        match self {
            Expr::BoolOp(_) | Expr::BinOp(_) | Expr::UnaryOp(_) => "operator",
            Expr::Subscript(_) => "subscript",
            Expr::Await(_) => "await expression",
            Expr::Yield(_) | Expr::YieldFrom(_) => "yield expression",
            Expr::Compare(_) => "comparison",
            Expr::Attribute(_) => "attribute",
            Expr::Call(_) => "function call",
            Expr::BooleanLiteral(b) => if b.value {
                "True"
            } else {
                "False"
            },
            Expr::EllipsisLiteral(_) => "ellipsis",
            Expr::NoneLiteral(_) => "None",
            Expr::NumberLiteral(_) | Expr::BytesLiteral(_) | Expr::StringLiteral(_) => "literal",
            Expr::Tuple(_) => "tuple",
            Expr::List(_) => "list",
            Expr::Dict(_) => "dict display",
            Expr::SetDisplay(_) => "set display",
            Expr::ListComp(_) => "list comprehension",
            Expr::DictComp(_) => "dict comprehension",
            Expr::SetComp(_) => "set comprehension",
            Expr::Generator(_) => "generator expression",
            Expr::Starred(_) => "starred",
            Expr::Slice(_) => "slice",
            Expr::FString(_) => "f-string expression",
            Expr::Name(_) => "name",
            Expr::Lambda(_) => "lambda",
            Expr::If(_) => "conditional expression",
            Expr::Named(_) => "named expression",
            Expr::IpyEscapeCommand(_) => "ipython escape command",
        }
    }
}

} // verus!
