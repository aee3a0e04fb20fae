use pycodegen::ast::{
    Alias, Annotation, Arguments, BoolOp, CmpOp, Comprehension, ConversionFlag, Decorator, DictItem,
    ElifElseClause, ExceptHandler, Expr, ExprAttribute, ExprAwait, ExprBinOp, ExprBoolOp,
    ExprBooleanLiteral, ExprBytesLiteral, ExprCall, ExprCompare, ExprDict, ExprFString,
    ExprGenerator, ExprIf, ExprLambda, ExprList, ExprListComp, ExprName, ExprNamed,
    ExprNumberLiteral, ExprSlice, ExprStarred, ExprStringLiteral, ExprSubscript, ExprTuple,
    ExprUnaryOp, ExprYield, ExprYieldFrom, FString, FStringElement, FStringExpressionElement,
    FStringPart, FStringValue, Int, Keyword, MatchCase, Mod, ModExpression, ModModule, Number,
    Operator, Parameter, ParameterWithDefault, Parameters, Pattern, PatternMatchAs,
    PatternMatchValue, SourceLocation, Stmt, StmtAnnAssign, StmtAssert, StmtAssign, StmtAugAssign,
    StmtClassDef, StmtDelete, StmtExpr, StmtFor, StmtFunctionDef, StmtIf, StmtImport,
    StmtImportFrom, StmtMatch, StmtRaise, StmtReturn, StmtTry, StmtWhile, StmtWith, TextRange,
    UnaryOp, WithItem,
};
use pycodegen::bytecode::{
    BinaryOperator, BlockIdx, CodeObject, ComparisonOperator, ConstantData, Instruction,
    MakeFunctionFlags, RaiseKind, TestOperator, UnpackExArgs, NULL,
};
use pycodegen::compile::{
    checked_compile_top, compile_block_expression, compile_expression, compile_program,
    compile_program_single, compile_top, Mode, SourceCode,
};
use pycodegen::compiler::CompileOpts;
use pycodegen::error::{CodegenError, CodegenErrorType};
use pycodegen::symboltable::{Symbol, SymbolEntry, SymbolScope, SymbolTable, SymbolTableError};

// Building syntax trees.

fn at(row: u32, column: u32) -> TextRange {
    TextRange { start: SourceLocation { row, column } }
}

fn r() -> TextRange {
    TextRange::default()
}

fn name(id: &str) -> Expr {
    Expr::Name(ExprName { range: r(), id: id.to_string() })
}

fn num(n: u64) -> Expr {
    Expr::NumberLiteral(ExprNumberLiteral { range: r(), value: Number::Int(Int::Small(n)) })
}

fn text(s: &str) -> Expr {
    Expr::StringLiteral(ExprStringLiteral { range: r(), value: s.to_string() })
}

fn truth(value: bool) -> Expr {
    Expr::BooleanLiteral(ExprBooleanLiteral { range: r(), value })
}

fn bool_op(op: BoolOp, values: Vec<Expr>) -> Expr {
    Expr::BoolOp(ExprBoolOp { range: r(), op, values })
}

fn not(e: Expr) -> Expr {
    Expr::UnaryOp(ExprUnaryOp { range: r(), op: UnaryOp::Not, operand: Box::new(e) })
}

fn star(e: Expr) -> Expr {
    Expr::Starred(ExprStarred { range: r(), value: Box::new(e) })
}

fn tuple(elts: Vec<Expr>) -> Expr {
    Expr::Tuple(ExprTuple { range: r(), elts })
}

fn list(elts: Vec<Expr>) -> Expr {
    Expr::List(ExprList { range: r(), elts })
}

fn attribute(value: Expr, attr: &str) -> Expr {
    Expr::Attribute(ExprAttribute { range: r(), value: Box::new(value), attr: attr.to_string() })
}

fn call(func: Expr, args: Vec<Expr>, keywords: Vec<Keyword>) -> Expr {
    Expr::Call(ExprCall {
        range: r(),
        func: Box::new(func),
        arguments: Arguments { args, keywords },
    })
}

fn keyword(arg: Option<&str>, value: Expr) -> Keyword {
    Keyword { arg: arg.map(|s| s.to_string()), value }
}

fn compare(left: Expr, ops: Vec<CmpOp>, comparators: Vec<Expr>) -> Expr {
    Expr::Compare(ExprCompare { range: r(), left: Box::new(left), ops, comparators })
}

fn generator(target: Expr, iter: Expr, ifs: Vec<Expr>, is_async: bool) -> Comprehension {
    Comprehension { target, iter, ifs, is_async }
}

fn list_comp(elt: Expr, generators: Vec<Comprehension>) -> Expr {
    Expr::ListComp(ExprListComp { range: r(), elt: Box::new(elt), generators })
}

fn value(e: Expr) -> Stmt {
    Stmt::Expr(StmtExpr { range: r(), value: Box::new(e) })
}

fn assign(target: Expr, e: Expr) -> Stmt {
    Stmt::Assign(StmtAssign { range: r(), targets: vec![target], value: Box::new(e) })
}

fn if_then(test: Expr, body: Vec<Stmt>) -> Stmt {
    Stmt::If(StmtIf { range: r(), test: Box::new(test), body, elif_else_clauses: vec![] })
}

fn pass() -> Stmt {
    Stmt::Pass(r())
}

fn give(e: Option<Expr>) -> Stmt {
    Stmt::Return(StmtReturn { range: r(), value: e.map(Box::new) })
}

fn parameter(name: &str) -> Parameter {
    Parameter { name: name.to_string(), annotation: None }
}

fn plain(name: &str) -> ParameterWithDefault {
    ParameterWithDefault { parameter: parameter(name), default: None }
}

fn with_default(name: &str, default: Expr) -> ParameterWithDefault {
    ParameterWithDefault { parameter: parameter(name), default: Some(Box::new(default)) }
}

fn parameters(args: Vec<ParameterWithDefault>) -> Parameters {
    Parameters { posonlyargs: vec![], args, vararg: None, kwonlyargs: vec![], kwarg: None }
}

fn function(name: &str, is_async: bool, p: Parameters, body: Vec<Stmt>) -> Stmt {
    Stmt::FunctionDef(StmtFunctionDef {
        range: r(),
        is_async,
        decorator_list: vec![],
        name: name.to_string(),
        type_params: None,
        parameters: Box::new(p),
        returns: None,
        body,
    })
}

fn class(name: &str, arguments: Option<Arguments>, body: Vec<Stmt>) -> Stmt {
    Stmt::ClassDef(StmtClassDef {
        range: r(),
        decorator_list: vec![],
        name: name.to_string(),
        type_params: None,
        arguments: arguments.map(Box::new),
        body,
    })
}

fn alias(name: &str, asname: Option<&str>) -> Alias {
    Alias { name: name.to_string(), asname: asname.map(|s| s.to_string()) }
}

fn from_import(module: Option<&str>, names: Vec<Alias>, level: u32) -> Stmt {
    Stmt::ImportFrom(StmtImportFrom {
        range: r(),
        module: module.map(|s| s.to_string()),
        names,
        level,
    })
}

// Building symbol tables.

fn entry(name: &str, scope: SymbolScope) -> SymbolEntry {
    SymbolEntry { name: name.to_string(), symbol: Symbol { scope, free_class: false } }
}

fn table(symbols: Vec<SymbolEntry>, sub_tables: Vec<SymbolTable>) -> SymbolTable {
    SymbolTable { symbols, sub_tables }
}

/// The table of a module that uses these names.
fn globals(names: &[&str]) -> SymbolTable {
    table(names.iter().map(|n| entry(n, SymbolScope::GlobalImplicit)).collect(), vec![])
}

/// The table of a function with these locals.
fn locals(names: &[&str]) -> SymbolTable {
    table(names.iter().map(|n| entry(n, SymbolScope::Local)).collect(), vec![])
}

fn with_tables(mut t: SymbolTable, sub_tables: Vec<SymbolTable>) -> SymbolTable {
    t.sub_tables = sub_tables;
    t
}

// Compiling, and reading the result.

const PATH: &str = "source_path";

fn compiled_at(body: Vec<Stmt>, t: SymbolTable, optimize: u8) -> Result<CodeObject, CodegenError> {
    compile_program(
        &ModModule { body },
        SourceCode { path: PATH },
        Ok(t),
        CompileOpts { optimize },
    )
}

fn taken(c: Result<CodeObject, CodegenError>) -> CodeObject {
    match c {
        Ok(code) => code,
        Err(_) => panic!("the program does not compile"),
    }
}

fn program(body: Vec<Stmt>, t: SymbolTable) -> CodeObject {
    taken(compiled_at(body, t, 0))
}

fn error(body: Vec<Stmt>, t: SymbolTable) -> CodegenError {
    match compiled_at(body, t, 0) {
        Ok(_) => panic!("the program compiles"),
        Err(e) => e,
    }
}

fn eval(e: Expr, t: SymbolTable) -> CodeObject {
    taken(compile_expression(
        &ModExpression { body: Box::new(e) },
        SourceCode { path: PATH },
        Ok(t),
        CompileOpts::default(),
    ))
}

fn eval_error(e: Expr, t: SymbolTable) -> CodegenError {
    match compile_expression(
        &ModExpression { body: Box::new(e) },
        SourceCode { path: PATH },
        Ok(t),
        CompileOpts::default(),
    ) {
        Ok(_) => panic!("the expression compiles"),
        Err(e) => e,
    }
}

fn block(c: &CodeObject, b: usize) -> Vec<Instruction> {
    c.code.blocks[b].instructions.iter().map(|i| i.instr).collect()
}

/// Where each block falls through to.
fn links(c: &CodeObject) -> Vec<u32> {
    c.code.blocks.iter().map(|b| b.next.0).collect()
}

fn show(c: &ConstantData) -> String {
    match c {
        ConstantData::Tuple { elements } => {
            let parts: Vec<String> = elements.iter().map(show).collect();
            format!("({})", parts.join(", "))
        }
        ConstantData::Integer { value } => value.to_string(),
        ConstantData::Float { value } => format!("float {value:x}"),
        ConstantData::Complex { re, im } => format!("complex {re:x} {im:x}"),
        ConstantData::Boolean { value } => value.to_string(),
        ConstantData::Str { value } => format!("{value:?}"),
        ConstantData::Bytes { value } => format!("{value:?}"),
        ConstantData::Code { code } => format!("code {}", code.code.obj_name),
        ConstantData::NoneValue => "None".to_string(),
        ConstantData::Ellipsis => "...".to_string(),
    }
}

fn constants(c: &CodeObject) -> Vec<String> {
    c.code.constants.iter().map(show).collect()
}

fn inner(c: &CodeObject, i: usize) -> &CodeObject {
    match &c.code.constants[i] {
        ConstantData::Code { code } => code,
        _ => panic!("no code object"),
    }
}

fn b(i: u32) -> BlockIdx {
    BlockIdx(i)
}

fn load(idx: u32) -> Instruction {
    Instruction::LoadConst { idx }
}

fn no_function_flags() -> MakeFunctionFlags {
    MakeFunctionFlags {
        closure: false,
        annotations: false,
        kw_only_defaults: false,
        defaults: false,
        type_params: false,
    }
}

// Conditions.

#[test]
fn test_if_ors() {
    // if True or False or False: pass
    let c = program(
        vec![if_then(
            bool_op(BoolOp::Or, vec![truth(true), truth(false), truth(false)]),
            vec![pass()],
        )],
        globals(&[]),
    );
    assert_eq!(
        block(&c, 0),
        vec![
            load(0),
            Instruction::JumpIfTrue { target: b(2) },
            load(1),
            Instruction::JumpIfTrue { target: b(2) },
            load(1),
            Instruction::JumpIfFalse { target: b(1) },
        ]
    );
    assert_eq!(block(&c, 1), vec![Instruction::ReturnConst { idx: 2 }]);
    assert_eq!(block(&c, 2), vec![]);
    assert_eq!(links(&c), vec![2, NULL, 1]);
    assert_eq!(constants(&c), vec!["true", "false", "None"]);
}

#[test]
fn test_if_ands() {
    // if True and False and False: pass
    let c = program(
        vec![if_then(
            bool_op(BoolOp::And, vec![truth(true), truth(false), truth(false)]),
            vec![pass()],
        )],
        globals(&[]),
    );
    assert_eq!(
        block(&c, 0),
        vec![
            load(0),
            Instruction::JumpIfFalse { target: b(1) },
            load(1),
            Instruction::JumpIfFalse { target: b(1) },
            load(1),
            Instruction::JumpIfFalse { target: b(1) },
        ]
    );
    assert_eq!(block(&c, 1), vec![Instruction::ReturnConst { idx: 2 }]);
    assert_eq!(links(&c), vec![1, NULL]);
}

#[test]
fn test_if_mixed() {
    // if (True and False) or (False and True): pass
    let c = program(
        vec![if_then(
            bool_op(
                BoolOp::Or,
                vec![
                    bool_op(BoolOp::And, vec![truth(true), truth(false)]),
                    bool_op(BoolOp::And, vec![truth(false), truth(true)]),
                ],
            ),
            vec![pass()],
        )],
        globals(&[]),
    );
    assert_eq!(
        block(&c, 0),
        vec![
            load(0),
            Instruction::JumpIfFalse { target: b(3) },
            load(1),
            Instruction::JumpIfTrue { target: b(2) },
        ]
    );
    assert_eq!(
        block(&c, 3),
        vec![
            load(1),
            Instruction::JumpIfFalse { target: b(1) },
            load(0),
            Instruction::JumpIfFalse { target: b(1) },
        ]
    );
    assert_eq!(block(&c, 2), vec![]);
    assert_eq!(block(&c, 1), vec![Instruction::ReturnConst { idx: 2 }]);
    assert_eq!(links(&c), vec![3, NULL, 1, 2]);
}

#[test]
fn negations_turn_the_jump() {
    // if not not x: pass
    let c = program(vec![if_then(not(not(name("x"))), vec![])], globals(&["x"]));
    assert_eq!(
        block(&c, 0),
        vec![Instruction::LoadNameAny(0), Instruction::JumpIfFalse { target: b(1) }]
    );
    // if not x: pass
    let c = program(vec![if_then(not(name("x")), vec![])], globals(&["x"]));
    assert_eq!(
        block(&c, 0),
        vec![Instruction::LoadNameAny(0), Instruction::JumpIfTrue { target: b(1) }]
    );
}

#[test]
fn clauses_follow_each_other() {
    // if x: a
    // elif y: b
    // else: c
    let c = program(
        vec![Stmt::If(StmtIf {
            range: r(),
            test: Box::new(name("x")),
            body: vec![value(name("a"))],
            elif_else_clauses: vec![
                ElifElseClause { test: Some(name("y")), body: vec![value(name("b"))] },
                ElifElseClause { test: None, body: vec![value(name("c"))] },
            ],
        })],
        globals(&["x", "y", "a", "b", "c"]),
    );
    assert_eq!(
        block(&c, 0),
        vec![
            Instruction::LoadNameAny(0),
            Instruction::JumpIfFalse { target: b(2) },
            Instruction::LoadNameAny(1),
            Instruction::Pop,
            Instruction::Jump { target: b(1) },
        ]
    );
    assert_eq!(
        block(&c, 2),
        vec![
            Instruction::LoadNameAny(2),
            Instruction::JumpIfFalse { target: b(3) },
            Instruction::LoadNameAny(3),
            Instruction::Pop,
            Instruction::Jump { target: b(1) },
        ]
    );
    assert_eq!(block(&c, 3), vec![Instruction::LoadNameAny(4), Instruction::Pop]);
    assert_eq!(block(&c, 1), vec![Instruction::ReturnConst { idx: 0 }]);
    assert_eq!(links(&c), vec![2, NULL, 3, 1]);
    assert_eq!(c.code.name_cache, vec!["x", "a", "y", "b", "c"]);
}

#[test]
fn boolean_values_stay_on_the_stack() {
    let c = eval(bool_op(BoolOp::And, vec![name("x"), name("y")]), globals(&["x", "y"]));
    assert_eq!(
        block(&c, 0),
        vec![
            Instruction::LoadNameAny(0),
            Instruction::JumpIfFalseOrPop { target: b(1) },
            Instruction::LoadNameAny(1),
        ]
    );
    assert_eq!(block(&c, 1), vec![Instruction::ReturnValue]);
    let c = eval(bool_op(BoolOp::Or, vec![name("x"), name("y")]), globals(&["x", "y"]));
    assert_eq!(block(&c, 0)[1], Instruction::JumpIfTrueOrPop { target: b(1) });
}

#[test]
fn conditional_expressions_have_two_ways() {
    let c = eval(
        Expr::If(ExprIf {
            range: r(),
            test: Box::new(name("t")),
            body: Box::new(num(1)),
            orelse: Box::new(num(2)),
        }),
        globals(&["t"]),
    );
    assert_eq!(
        block(&c, 0),
        vec![
            Instruction::LoadNameAny(0),
            Instruction::JumpIfFalse { target: b(1) },
            load(0),
            Instruction::Jump { target: b(2) },
        ]
    );
    assert_eq!(block(&c, 1), vec![load(1)]);
    assert_eq!(block(&c, 2), vec![Instruction::ReturnValue]);
    assert_eq!(links(&c), vec![1, 2, NULL]);
}

#[test]
fn comparisons_chain() {
    // a < b
    let c = eval(compare(name("a"), vec![CmpOp::Lt], vec![name("b")]), globals(&["a", "b"]));
    assert_eq!(
        block(&c, 0),
        vec![
            Instruction::LoadNameAny(0),
            Instruction::LoadNameAny(1),
            Instruction::CompareOperation { op: ComparisonOperator::Less },
            Instruction::ReturnValue,
        ]
    );
    // a < b is not c
    let c = eval(
        compare(name("a"), vec![CmpOp::Lt, CmpOp::IsNot], vec![name("b"), name("c")]),
        globals(&["a", "b", "c"]),
    );
    assert_eq!(
        block(&c, 0),
        vec![
            Instruction::LoadNameAny(0),
            Instruction::LoadNameAny(1),
            Instruction::Duplicate,
            Instruction::Rotate3,
            Instruction::CompareOperation { op: ComparisonOperator::Less },
            Instruction::JumpIfFalseOrPop { target: b(1) },
            Instruction::LoadNameAny(2),
            Instruction::TestOperation { op: TestOperator::IsNot },
            Instruction::Jump { target: b(2) },
        ]
    );
    assert_eq!(block(&c, 1), vec![Instruction::Rotate2, Instruction::Pop]);
    assert_eq!(block(&c, 2), vec![Instruction::ReturnValue]);
    assert_eq!(links(&c), vec![1, 2, NULL]);
}

// Loops, context managers and exceptions.

#[test]
fn while_loops_go_back() {
    // while x:
    //     break
    //     continue
    // else:
    //     y
    let c = program(
        vec![Stmt::While(StmtWhile {
            range: r(),
            test: Box::new(name("x")),
            body: vec![Stmt::Break(r()), Stmt::Continue(r())],
            orelse: vec![value(name("y"))],
        })],
        globals(&["x", "y"]),
    );
    assert_eq!(block(&c, 0), vec![Instruction::SetupLoop]);
    assert_eq!(
        block(&c, 1),
        vec![
            Instruction::LoadNameAny(0),
            Instruction::JumpIfFalse { target: b(2) },
            Instruction::Break { target: b(3) },
            Instruction::Continue { target: b(1) },
            Instruction::Jump { target: b(1) },
        ]
    );
    assert_eq!(
        block(&c, 2),
        vec![Instruction::PopBlock, Instruction::LoadNameAny(1), Instruction::Pop]
    );
    assert_eq!(block(&c, 3), vec![Instruction::ReturnConst { idx: 0 }]);
    assert_eq!(links(&c), vec![1, 2, 3, NULL]);
}

#[test]
fn async_for_loops_catch_the_end() {
    // async def f(): async for x in y: pass
    let t = with_tables(
        globals(&["f"]),
        vec![table(
            vec![entry("x", SymbolScope::Local), entry("y", SymbolScope::GlobalImplicit)],
            vec![],
        )],
    );
    let c = program(
        vec![function(
            "f",
            true,
            parameters(vec![]),
            vec![Stmt::For(StmtFor {
                range: r(),
                is_async: true,
                target: Box::new(name("x")),
                iter: Box::new(name("y")),
                body: vec![pass()],
                orelse: vec![],
            })],
        )],
        t,
    );
    let f = inner(&c, 0);
    assert!(f.code.flags.is_coroutine);
    assert_eq!(
        block(f, 0),
        vec![Instruction::SetupLoop, Instruction::LoadGlobal(0), Instruction::GetAIter]
    );
    assert_eq!(
        block(f, 1),
        vec![
            Instruction::SetupExcept { handler: b(2) },
            Instruction::GetANext,
            load(0),
            Instruction::YieldFrom,
            Instruction::StoreFast(0),
            Instruction::PopBlock,
            Instruction::Jump { target: b(1) },
        ]
    );
    assert_eq!(block(f, 2), vec![Instruction::EndAsyncFor, Instruction::PopBlock]);
    assert_eq!(block(f, 3), vec![Instruction::ReturnConst { idx: 0 }]);
}

#[test]
fn test_nested_double_async_with() {
    // for stop_exc in (StopIteration('spam'), StopAsyncIteration('ham')):
    //     with self.subTest(type=type(stop_exc)):
    //         try:
    //             async with egg():
    //                 raise stop_exc
    //         except Exception as ex:
    //             self.assertIs(ex, stop_exc)
    //         else:
    //             self.fail(f'{stop_exc} was suppressed')
    let message = Expr::FString(ExprFString {
        range: r(),
        value: FStringValue {
            parts: vec![FStringPart::FString(FString {
                elements: vec![
                    FStringElement::Expression(FStringExpressionElement {
                        expression: Box::new(name("stop_exc")),
                        debug_text: None,
                        conversion: ConversionFlag::Plain,
                        format_spec: None,
                    }),
                    FStringElement::Literal(" was suppressed".to_string()),
                ],
            })],
        },
    });
    let try_statement = Stmt::Try(StmtTry {
        range: r(),
        body: vec![Stmt::With(StmtWith {
            range: r(),
            is_async: true,
            items: vec![WithItem {
                context_expr: call(name("egg"), vec![], vec![]),
                optional_vars: None,
            }],
            body: vec![Stmt::Raise(StmtRaise {
                range: r(),
                exc: Some(Box::new(name("stop_exc"))),
                cause: None,
            })],
        })],
        handlers: vec![ExceptHandler {
            type_: Some(Box::new(name("Exception"))),
            name: Some("ex".to_string()),
            body: vec![value(call(
                attribute(name("self"), "assertIs"),
                vec![name("ex"), name("stop_exc")],
                vec![],
            ))],
        }],
        orelse: vec![value(call(attribute(name("self"), "fail"), vec![message], vec![]))],
        finalbody: vec![],
        is_star: false,
    });
    let with_statement = Stmt::With(StmtWith {
        range: r(),
        is_async: false,
        items: vec![WithItem {
            context_expr: call(
                attribute(name("self"), "subTest"),
                vec![],
                vec![keyword(Some("type"), call(name("type"), vec![name("stop_exc")], vec![]))],
            ),
            optional_vars: None,
        }],
        body: vec![try_statement],
    });
    let c = program(
        vec![Stmt::For(StmtFor {
            range: r(),
            is_async: false,
            target: Box::new(name("stop_exc")),
            iter: Box::new(tuple(vec![
                call(name("StopIteration"), vec![text("spam")], vec![]),
                call(name("StopAsyncIteration"), vec![text("ham")], vec![]),
            ])),
            body: vec![with_statement],
            orelse: vec![],
        })],
        table(
            vec![
                entry("stop_exc", SymbolScope::Local),
                entry("ex", SymbolScope::Local),
                entry("StopIteration", SymbolScope::GlobalImplicit),
                entry("StopAsyncIteration", SymbolScope::GlobalImplicit),
                entry("self", SymbolScope::GlobalImplicit),
                entry("type", SymbolScope::GlobalImplicit),
                entry("egg", SymbolScope::GlobalImplicit),
                entry("Exception", SymbolScope::GlobalImplicit),
            ],
            vec![],
        ),
    );
    assert_eq!(
        block(&c, 0),
        vec![
            Instruction::SetupLoop,
            Instruction::LoadNameAny(0),
            load(0),
            Instruction::CallFunctionPositional { nargs: 1 },
            Instruction::LoadNameAny(1),
            load(1),
            Instruction::CallFunctionPositional { nargs: 1 },
            Instruction::BuildTuple { size: 2 },
            Instruction::GetIter,
        ]
    );
    assert_eq!(
        block(&c, 1),
        vec![
            Instruction::ForIter { target: b(2) },
            Instruction::StoreLocal(2),
            Instruction::LoadNameAny(3),
            Instruction::LoadMethod { idx: 4 },
            Instruction::LoadNameAny(5),
            Instruction::LoadNameAny(2),
            Instruction::CallFunctionPositional { nargs: 1 },
            load(2),
            Instruction::CallMethodKeyword { nargs: 1 },
            Instruction::SetupWith { end: b(4) },
            Instruction::Pop,
            Instruction::SetupExcept { handler: b(5) },
            Instruction::LoadNameAny(6),
            Instruction::CallFunctionPositional { nargs: 0 },
            Instruction::BeforeAsyncWith,
            Instruction::GetAwaitable,
            load(3),
            Instruction::YieldFrom,
            Instruction::SetupAsyncWith { end: b(8) },
            Instruction::Pop,
            Instruction::LoadNameAny(2),
            Instruction::Raise { kind: RaiseKind::Raise },
            Instruction::PopBlock,
            Instruction::EnterFinally,
        ]
    );
    assert_eq!(
        block(&c, 8),
        vec![
            Instruction::WithCleanupStart,
            Instruction::GetAwaitable,
            load(3),
            Instruction::YieldFrom,
            Instruction::WithCleanupFinish,
            Instruction::PopBlock,
            Instruction::Jump { target: b(7) },
        ]
    );
    assert_eq!(
        block(&c, 5),
        vec![
            Instruction::Duplicate,
            Instruction::LoadNameAny(7),
            Instruction::TestOperation { op: TestOperator::ExceptionMatch },
            Instruction::JumpIfFalse { target: b(9) },
            Instruction::StoreLocal(8),
            Instruction::LoadNameAny(3),
            Instruction::LoadMethod { idx: 9 },
            Instruction::LoadNameAny(8),
            Instruction::LoadNameAny(2),
            Instruction::CallMethodPositional { nargs: 2 },
            Instruction::Pop,
            Instruction::PopException,
            Instruction::Jump { target: b(6) },
        ]
    );
    assert_eq!(block(&c, 9), vec![Instruction::Raise { kind: RaiseKind::Reraise }]);
    assert_eq!(
        block(&c, 7),
        vec![
            Instruction::LoadNameAny(3),
            Instruction::LoadMethod { idx: 10 },
            load(4),
            Instruction::LoadNameAny(2),
            Instruction::FormatValue { conversion: ConversionFlag::Plain },
            load(5),
            Instruction::BuildString { size: 2 },
            Instruction::CallMethodPositional { nargs: 1 },
            Instruction::Pop,
        ]
    );
    assert_eq!(block(&c, 6), vec![Instruction::PopBlock, Instruction::EnterFinally]);
    assert_eq!(
        block(&c, 4),
        vec![
            Instruction::WithCleanupStart,
            Instruction::WithCleanupFinish,
            Instruction::Jump { target: b(1) },
        ]
    );
    assert_eq!(block(&c, 2), vec![Instruction::PopBlock]);
    assert_eq!(block(&c, 3), vec![Instruction::ReturnConst { idx: 3 }]);
    assert_eq!(links(&c), vec![1, 8, 3, NULL, 2, 9, 4, 6, 5, 7]);
    assert_eq!(
        constants(&c),
        vec!["\"spam\"", "\"ham\"", "(\"type\")", "None", "\"\"", "\" was suppressed\""]
    );
    assert_eq!(
        c.code.name_cache,
        vec![
            "StopIteration",
            "StopAsyncIteration",
            "stop_exc",
            "self",
            "subTest",
            "type",
            "egg",
            "Exception",
            "ex",
            "assertIs",
            "fail",
        ]
    );
}

#[test]
fn finally_blocks_are_entered_both_ways() {
    // try: x
    // finally: y
    let c = program(
        vec![Stmt::Try(StmtTry {
            range: r(),
            body: vec![value(name("x"))],
            handlers: vec![],
            orelse: vec![],
            finalbody: vec![value(name("y"))],
            is_star: false,
        })],
        globals(&["x", "y"]),
    );
    assert_eq!(
        block(&c, 0),
        vec![
            Instruction::SetupFinally { handler: b(2) },
            Instruction::SetupExcept { handler: b(1) },
            Instruction::LoadNameAny(0),
            Instruction::Pop,
            Instruction::PopBlock,
            Instruction::Jump { target: b(3) },
        ]
    );
    assert_eq!(block(&c, 1), vec![Instruction::Raise { kind: RaiseKind::Reraise }]);
    assert_eq!(block(&c, 3), vec![Instruction::PopBlock, Instruction::EnterFinally]);
    assert_eq!(
        block(&c, 2),
        vec![
            Instruction::LoadNameAny(1),
            Instruction::Pop,
            Instruction::EndFinally,
            Instruction::ReturnConst { idx: 0 },
        ]
    );
    assert_eq!(links(&c), vec![1, 3, NULL, 2]);
}

#[test]
fn match_cases_are_tried_in_order() {
    // match x:
    //     case 1: a
    //     case y: b
    let c = program(
        vec![Stmt::Match(StmtMatch {
            range: r(),
            subject: Box::new(name("x")),
            cases: vec![
                MatchCase {
                    pattern: Pattern::MatchValue(PatternMatchValue {
                        range: r(),
                        value: Box::new(num(1)),
                    }),
                    guard: None,
                    body: vec![value(name("a"))],
                },
                MatchCase {
                    pattern: Pattern::MatchAs(PatternMatchAs {
                        range: r(),
                        pattern: None,
                        name: Some("y".to_string()),
                    }),
                    guard: None,
                    body: vec![value(name("b"))],
                },
            ],
        })],
        globals(&["x", "y", "a", "b"]),
    );
    assert_eq!(block(&c, 0), vec![Instruction::LoadNameAny(0)]);
    assert_eq!(
        block(&c, 1),
        vec![
            Instruction::Duplicate,
            load(0),
            Instruction::CompareOperation { op: ComparisonOperator::Equal },
            Instruction::JumpIfFalse { target: b(2) },
            Instruction::LoadNameAny(1),
            Instruction::Pop,
            Instruction::Jump { target: b(3) },
        ]
    );
    assert_eq!(
        block(&c, 2),
        vec![
            Instruction::Duplicate,
            Instruction::StoreLocal(2),
            Instruction::JumpIfFalse { target: b(3) },
            Instruction::LoadNameAny(3),
            Instruction::Pop,
            Instruction::Jump { target: b(3) },
        ]
    );
    assert_eq!(block(&c, 3), vec![Instruction::ReturnConst { idx: 1 }]);
    assert_eq!(links(&c), vec![1, 2, 3, NULL]);
}

// Names, constants and pools.

#[test]
fn names_and_constants_come_in_once() {
    // x = 1; y = x; x = 1
    let c = program(
        vec![assign(name("x"), num(1)), assign(name("y"), name("x")), assign(name("x"), num(1))],
        locals(&["x", "y"]),
    );
    assert_eq!(
        block(&c, 0),
        vec![
            load(0),
            Instruction::StoreLocal(0),
            Instruction::LoadNameAny(0),
            Instruction::StoreLocal(1),
            load(0),
            Instruction::StoreLocal(0),
            Instruction::ReturnConst { idx: 1 },
        ]
    );
    assert_eq!(c.code.name_cache, vec!["x", "y"]);
    assert_eq!(constants(&c), vec!["1", "None"]);
}

#[test]
fn constants_of_all_kinds() {
    let c = program(
        vec![
            value(Expr::BytesLiteral(ExprBytesLiteral {
                range: r(),
                value: vec![vec![1, 2], vec![3]],
            })),
            value(Expr::NumberLiteral(ExprNumberLiteral {
                range: r(),
                value: Number::Float(0x3ff0_0000_0000_0000),
            })),
            value(Expr::NumberLiteral(ExprNumberLiteral {
                range: r(),
                value: Number::Complex { re: 0, im: 0x4000_0000_0000_0000 },
            })),
            value(Expr::NumberLiteral(ExprNumberLiteral {
                range: r(),
                value: Number::Int(Int::Big("0xFFFFFFFFFFFFFFFFFF".to_string())),
            })),
            value(Expr::NoneLiteral(r())),
            value(Expr::EllipsisLiteral(r())),
            value(text("s")),
        ],
        globals(&[]),
    );
    assert_eq!(
        constants(&c),
        vec![
            "[1, 2, 3]",
            "float 3ff0000000000000",
            "complex 0 4000000000000000",
            "4722366482869645213695",
            "None",
            "...",
            "\"s\"",
        ]
    );
}

#[test]
fn literals_that_are_no_integers_are_refused() {
    let e = eval_error(
        Expr::NumberLiteral(ExprNumberLiteral {
            range: at(3, 5),
            value: Number::Int(Int::Big("0b12".to_string())),
        }),
        globals(&[]),
    );
    match e.error {
        CodegenErrorType::SyntaxError(s) => {
            assert!(s.starts_with("unparsed integer literal (radix 2): 12 ("), "{s}");
            assert!(s.ends_with(')'));
        }
        _ => panic!("another error"),
    }
    assert_eq!(e.location, Some(SourceLocation { row: 3, column: 5 }));
    assert_eq!(e.source_path, PATH);
}

#[test]
fn debug_is_a_constant() {
    let c = taken(compiled_at(vec![value(name("__debug__"))], globals(&["__debug__"]), 0));
    assert_eq!(constants(&c), vec!["true", "None"]);
    let c = taken(compiled_at(vec![value(name("__debug__"))], globals(&["__debug__"]), 1));
    assert_eq!(constants(&c), vec!["false", "None"]);
}

#[test]
fn forbidden_names_are_not_changed() {
    let e = error(vec![assign(name("__debug__"), num(1))], globals(&["__debug__"]));
    assert!(matches!(e.error, CodegenErrorType::SyntaxError(s) if s == "cannot assign to __debug__"));
    let e = error(
        vec![Stmt::Delete(StmtDelete { range: r(), targets: vec![name("__debug__")] })],
        globals(&["__debug__"]),
    );
    assert!(matches!(e.error, CodegenErrorType::SyntaxError(s) if s == "cannot delete __debug__"));
    let e = error(
        vec![function("f", false, parameters(vec![plain("__debug__")]), vec![])],
        with_tables(globals(&["f"]), vec![locals(&["__debug__"])]),
    );
    assert!(matches!(e.error, CodegenErrorType::SyntaxError(s) if s == "cannot assign to __debug__"));
}

#[test]
fn assertions_are_left_out_of_optimised_code() {
    let body = || {
        vec![Stmt::Assert(StmtAssert {
            range: r(),
            test: Box::new(name("x")),
            msg: Some(Box::new(name("m"))),
        })]
    };
    let c = taken(compiled_at(body(), globals(&["x", "m"]), 0));
    assert_eq!(
        block(&c, 0),
        vec![
            Instruction::LoadNameAny(0),
            Instruction::JumpIfTrue { target: b(1) },
            Instruction::LoadGlobal(1),
            Instruction::LoadNameAny(2),
            Instruction::CallFunctionPositional { nargs: 1 },
            Instruction::Raise { kind: RaiseKind::Raise },
        ]
    );
    assert_eq!(c.code.name_cache, vec!["x", "AssertionError", "m"]);
    let c = taken(compiled_at(body(), globals(&["x", "m"]), 1));
    assert_eq!(block(&c, 0), vec![Instruction::ReturnConst { idx: 0 }]);
    assert_eq!(c.optimize, 1);
}

#[test]
fn deletions_and_in_place_operations() {
    // del x, y.a, z[0]
    let c = program(
        vec![
            Stmt::Delete(StmtDelete {
                range: r(),
                targets: vec![
                    name("x"),
                    attribute(name("y"), "a"),
                    Expr::Subscript(ExprSubscript {
                        range: r(),
                        value: Box::new(name("z")),
                        slice: Box::new(num(0)),
                    }),
                ],
            }),
            Stmt::AugAssign(StmtAugAssign {
                range: r(),
                target: Box::new(attribute(name("y"), "a")),
                op: Operator::Add,
                value: Box::new(num(1)),
            }),
        ],
        globals(&["x", "y", "z"]),
    );
    assert_eq!(
        block(&c, 0),
        vec![
            Instruction::DeleteLocal(0),
            Instruction::LoadNameAny(1),
            Instruction::DeleteAttr { idx: 2 },
            Instruction::LoadNameAny(3),
            load(0),
            Instruction::DeleteSubscript,
            Instruction::LoadNameAny(1),
            Instruction::Duplicate,
            Instruction::LoadAttr { idx: 2 },
            load(1),
            Instruction::BinaryOperationInplace { op: BinaryOperator::Add },
            Instruction::Rotate2,
            Instruction::StoreAttr { idx: 2 },
            Instruction::ReturnConst { idx: 2 },
        ]
    );
    let e = error(
        vec![Stmt::Delete(StmtDelete { range: r(), targets: vec![num(1)] })],
        globals(&[]),
    );
    assert!(matches!(e.error, CodegenErrorType::Delete(_)));
}

#[test]
fn unpacking_assignments() {
    // a, *b, c = x
    let c = program(
        vec![assign(tuple(vec![name("a"), star(name("b")), name("c")]), name("x"))],
        globals(&["a", "b", "c", "x"]),
    );
    assert_eq!(
        block(&c, 0),
        vec![
            Instruction::LoadNameAny(0),
            Instruction::UnpackEx { args: UnpackExArgs { before: 1, after: 1 } },
            Instruction::StoreLocal(1),
            Instruction::StoreLocal(2),
            Instruction::StoreLocal(3),
            Instruction::ReturnConst { idx: 0 },
        ]
    );
    // [a, c] = x
    let c = program(
        vec![assign(list(vec![name("a"), name("c")]), name("x"))],
        globals(&["a", "c", "x"]),
    );
    assert_eq!(block(&c, 0)[1], Instruction::UnpackSequence { size: 2 });
    let e = error(
        vec![assign(tuple(vec![star(name("a")), star(name("b"))]), name("x"))],
        globals(&["a", "b", "x"]),
    );
    assert!(matches!(e.error, CodegenErrorType::MultipleStarArgs));
    let mut many: Vec<Expr> = Vec::new();
    for _ in 0..256 {
        many.push(name("a"));
    }
    many.push(star(name("b")));
    let e = error(vec![assign(tuple(many), name("x"))], globals(&["a", "b", "x"]));
    assert!(matches!(e.error, CodegenErrorType::TooManyStarUnpack));
    let e = error(vec![assign(num(1), name("x"))], globals(&["x"]));
    assert!(matches!(e.error, CodegenErrorType::Assign(_)));
}

// Displays and calls.

#[test]
fn displays_unpack_in_runs() {
    // [1, *x, 2]
    let c = eval(list(vec![num(1), star(name("x")), num(2)]), globals(&["x"]));
    assert_eq!(
        block(&c, 0),
        vec![
            load(0),
            Instruction::BuildTuple { size: 1 },
            Instruction::LoadNameAny(0),
            load(1),
            Instruction::BuildTuple { size: 1 },
            Instruction::BuildListUnpack { size: 3 },
            Instruction::ReturnValue,
        ]
    );
    // {'k': 1, **x}
    let c = eval(
        Expr::Dict(ExprDict {
            range: r(),
            items: vec![
                DictItem { key: Some(text("k")), value: num(1) },
                DictItem { key: None, value: name("x") },
            ],
        }),
        globals(&["x"]),
    );
    assert_eq!(
        block(&c, 0),
        vec![
            load(0),
            load(1),
            Instruction::BuildMap { size: 1 },
            Instruction::LoadNameAny(0),
            Instruction::DictUpdate,
            Instruction::ReturnValue,
        ]
    );
}

fn dict(items: Vec<(Option<Expr>, Expr)>) -> Expr {
    let items = items.into_iter().map(|(key, value)| DictItem { key, value }).collect();
    Expr::Dict(ExprDict { range: r(), items })
}

#[test]
fn dict_items_override_those_before_them() {
    let update = Instruction::DictUpdate;
    let build = |size: u32| Instruction::BuildMap { size };
    let x = Instruction::LoadNameAny(0);
    // {**x, 'k': 1}
    let c = eval(
        dict(vec![(None, name("x")), (Some(text("k")), num(1))]),
        globals(&["x"]),
    );
    assert_eq!(
        block(&c, 0),
        vec![build(0), x, update, load(0), load(1), build(1), update, Instruction::ReturnValue]
    );
    // {'k': 1, 'l': 2, **x, **x, 'k': 2, 'l': 1}
    let c = eval(
        dict(vec![
            (Some(text("k")), num(1)),
            (Some(text("l")), num(2)),
            (None, name("x")),
            (None, name("x")),
            (Some(text("k")), num(2)),
            (Some(text("l")), num(1)),
        ]),
        globals(&["x"]),
    );
    assert_eq!(
        block(&c, 0),
        vec![
            load(0),
            load(1),
            load(2),
            load(3),
            build(2),
            x,
            update,
            x,
            update,
            load(0),
            load(3),
            load(2),
            load(1),
            build(2),
            update,
            Instruction::ReturnValue,
        ]
    );
    // {}
    let c = eval(dict(vec![]), globals(&[]));
    assert_eq!(block(&c, 0), vec![build(0), Instruction::ReturnValue]);
}

#[test]
fn slices_have_two_or_three_bounds() {
    let slice = |step: Option<Expr>| {
        Expr::Subscript(ExprSubscript {
            range: r(),
            value: Box::new(name("x")),
            slice: Box::new(Expr::Slice(ExprSlice {
                range: r(),
                lower: Some(Box::new(num(1))),
                upper: None,
                step: step.map(Box::new),
            })),
        })
    };
    let c = eval(slice(None), globals(&["x"]));
    assert_eq!(
        block(&c, 0),
        vec![
            Instruction::LoadNameAny(0),
            load(0),
            load(1),
            Instruction::BuildSlice { step: false },
            Instruction::Subscript,
            Instruction::ReturnValue,
        ]
    );
    let c = eval(slice(Some(num(2))), globals(&["x"]));
    assert_eq!(block(&c, 0)[4], Instruction::BuildSlice { step: true });
}

#[test]
fn calls_pass_what_they_are_given() {
    // f(1, *x, k=2)
    let c = eval(
        call(name("f"), vec![num(1), star(name("x"))], vec![keyword(Some("k"), num(2))]),
        globals(&["f", "x"]),
    );
    assert_eq!(
        block(&c, 0),
        vec![
            Instruction::LoadNameAny(0),
            load(0),
            Instruction::BuildTuple { size: 1 },
            Instruction::LoadNameAny(1),
            Instruction::BuildTupleUnpack { size: 2 },
            load(1),
            load(2),
            Instruction::BuildMap { size: 1 },
            Instruction::CallFunctionEx { has_kwargs: true },
            Instruction::ReturnValue,
        ]
    );
    assert_eq!(constants(&c), vec!["1", "\"k\"", "2"]);
    let e = eval_error(
        call(name("f"), vec![], vec![keyword(Some("__debug__"), num(1))]),
        globals(&["f"]),
    );
    assert!(matches!(e.error, CodegenErrorType::SyntaxError(s) if s == "cannot assign to __debug__"));
}

#[test]
fn a_star_needs_a_place_to_unpack_into() {
    let e = eval_error(star(name("x")), globals(&["x"]));
    assert!(matches!(e.error, CodegenErrorType::InvalidStarExpr));
}

// Functions, classes and comprehensions.

#[test]
fn functions_are_made_of_their_code() {
    // def f(a, b=1):
    //     "doc"
    //     return a
    let t = with_tables(globals(&["f"]), vec![locals(&["a", "b"])]);
    let c = program(
        vec![function(
            "f",
            false,
            parameters(vec![plain("a"), with_default("b", num(1))]),
            vec![value(text("doc")), give(Some(name("a")))],
        )],
        t,
    );
    assert_eq!(
        block(&c, 0),
        vec![
            load(0),
            Instruction::BuildTuple { size: 1 },
            load(1),
            load(2),
            Instruction::MakeFunction(MakeFunctionFlags { defaults: true, ..no_function_flags() }),
            Instruction::Duplicate,
            load(3),
            Instruction::Rotate2,
            Instruction::StoreAttr { idx: 0 },
            Instruction::StoreLocal(1),
            Instruction::ReturnConst { idx: 4 },
        ]
    );
    assert_eq!(constants(&c), vec!["1", "code f", "\"f\"", "\"doc\"", "None"]);
    let f = inner(&c, 1);
    assert_eq!(f.code.arg_count, 2);
    assert_eq!(f.code.varname_cache, vec!["a", "b"]);
    assert_eq!(block(f, 0), vec![Instruction::LoadFast(0), Instruction::ReturnValue]);
    assert!(f.code.flags.new_locals && f.code.flags.is_optimized);
}

#[test]
fn docstrings_are_left_out_of_code_that_is_optimised_further() {
    let body = || {
        vec![function("f", false, parameters(vec![]), vec![value(text("doc")), pass()])]
    };
    let t = || with_tables(globals(&["f"]), vec![locals(&[])]);
    let c = taken(compiled_at(body(), t(), 1));
    assert!(constants(&c).contains(&"\"doc\"".to_string()));
    let c = taken(compiled_at(body(), t(), 2));
    assert!(!constants(&c).contains(&"\"doc\"".to_string()));
}

#[test]
fn inner_functions_close_over_cells() {
    // def f(x):
    //     def g(): return x
    let g_table = table(vec![entry("x", SymbolScope::Free)], vec![]);
    let f_table = table(
        vec![entry("x", SymbolScope::Cell), entry("g", SymbolScope::Local)],
        vec![g_table],
    );
    let c = program(
        vec![function(
            "f",
            false,
            parameters(vec![plain("x")]),
            vec![function("g", false, parameters(vec![]), vec![give(Some(name("x")))])],
        )],
        with_tables(globals(&["f"]), vec![f_table]),
    );
    let f = inner(&c, 0);
    assert_eq!(f.code.cellvar_cache, vec!["x"]);
    assert_eq!(
        block(f, 0),
        vec![
            Instruction::LoadClosure(0),
            Instruction::BuildTuple { size: 1 },
            load(1),
            load(2),
            Instruction::MakeFunction(MakeFunctionFlags { closure: true, ..no_function_flags() }),
            Instruction::StoreFast(1),
            Instruction::ReturnConst { idx: 0 },
        ]
    );
    assert_eq!(constants(f), vec!["None", "code g", "\"f.<locals>.g\""]);
    let g = inner(f, 1);
    assert_eq!(g.code.freevar_cache, vec!["x"]);
    assert_eq!(block(g, 0), vec![Instruction::LoadDeref(0), Instruction::ReturnValue]);
}

#[test]
fn decorators_are_called_on_the_function() {
    let c = program(
        vec![Stmt::FunctionDef(StmtFunctionDef {
            range: r(),
            is_async: false,
            decorator_list: vec![Decorator { expression: name("d") }],
            name: "f".to_string(),
            type_params: None,
            parameters: Box::new(Parameters {
                posonlyargs: vec![plain("p")],
                args: vec![],
                vararg: Some(Box::new(parameter("args"))),
                kwonlyargs: vec![with_default("k", num(7))],
                kwarg: Some(Box::new(parameter("kwargs"))),
            }),
            returns: Some(Box::new(Annotation {
                expr: name("T"),
                source: "T".to_string(),
            })),
            body: vec![pass()],
        })],
        with_tables(
            globals(&["d", "f", "T"]),
            vec![locals(&["p", "k", "args", "kwargs"])],
        ),
    );
    assert_eq!(
        block(&c, 0),
        vec![
            Instruction::LoadNameAny(0),
            load(0),
            load(1),
            Instruction::BuildMap { size: 1 },
            load(2),
            Instruction::LoadNameAny(1),
            Instruction::BuildMap { size: 1 },
            load(3),
            load(4),
            Instruction::MakeFunction(MakeFunctionFlags {
                annotations: true,
                kw_only_defaults: true,
                ..no_function_flags()
            }),
            Instruction::CallFunctionPositional { nargs: 1 },
            Instruction::StoreLocal(2),
            Instruction::ReturnConst { idx: 5 },
        ]
    );
    let f = inner(&c, 3);
    assert_eq!(f.code.posonlyarg_count, 1);
    assert_eq!(f.code.arg_count, 1);
    assert_eq!(f.code.kwonlyarg_count, 1);
    assert!(f.code.flags.has_varargs && f.code.flags.has_varkeywords);
    assert_eq!(f.code.varname_cache, vec!["p", "k", "args", "kwargs"]);
}

#[test]
fn classes_mangle_private_names() {
    // class A(B):
    //     __x = 1
    let c = program(
        vec![class(
            "A",
            Some(Arguments { args: vec![name("B")], keywords: vec![] }),
            vec![assign(name("__x"), num(1))],
        )],
        with_tables(globals(&["A", "B"]), vec![locals(&["_A__x"])]),
    );
    assert_eq!(
        block(&c, 0),
        vec![
            Instruction::LoadBuildClass,
            load(0),
            load(1),
            Instruction::MakeFunction(no_function_flags()),
            load(1),
            Instruction::LoadNameAny(0),
            Instruction::CallFunctionPositional { nargs: 3 },
            Instruction::StoreLocal(1),
            Instruction::ReturnConst { idx: 2 },
        ]
    );
    let a = inner(&c, 0);
    assert_eq!(a.code.obj_name, "A");
    assert_eq!(
        a.code.name_cache,
        vec!["__name__", "__module__", "__qualname__", "__doc__", "_A__x"]
    );
    assert_eq!(
        block(a, 0),
        vec![
            Instruction::LoadGlobal(0),
            Instruction::StoreLocal(1),
            load(0),
            Instruction::StoreLocal(2),
            load(1),
            Instruction::StoreLocal(3),
            load(2),
            Instruction::StoreLocal(4),
            Instruction::ReturnConst { idx: 1 },
        ]
    );
    assert_eq!(constants(a), vec!["\"A\"", "None", "1"]);
}

#[test]
fn lambdas_return_their_body() {
    let c = eval(
        Expr::Lambda(ExprLambda {
            range: r(),
            parameters: Some(Box::new(parameters(vec![plain("x")]))),
            body: Box::new(Expr::BinOp(ExprBinOp {
                range: r(),
                left: Box::new(name("x")),
                op: Operator::Mult,
                right: Box::new(num(2)),
            })),
        }),
        with_tables(globals(&[]), vec![locals(&["x"])]),
    );
    let f = inner(&c, 0);
    assert_eq!(f.code.obj_name, "<lambda>");
    assert_eq!(
        block(f, 0),
        vec![
            Instruction::LoadFast(0),
            load(1),
            Instruction::BinaryOperation { op: BinaryOperator::Multiply },
            Instruction::ReturnValue,
        ]
    );
    assert_eq!(constants(f), vec!["None", "2"]);
}

#[test]
fn comprehensions_are_called_with_their_first_iterator() {
    // [x for x in y if x]
    let c = eval(
        list_comp(name("x"), vec![generator(name("x"), name("y"), vec![name("x")], false)]),
        with_tables(globals(&["y"]), vec![locals(&["x"])]),
    );
    assert_eq!(
        block(&c, 0),
        vec![
            load(0),
            load(1),
            Instruction::MakeFunction(no_function_flags()),
            Instruction::LoadNameAny(0),
            Instruction::GetIter,
            Instruction::CallFunctionPositional { nargs: 1 },
            Instruction::ReturnValue,
        ]
    );
    assert_eq!(constants(&c), vec!["code <listcomp>", "\"<listcomp>\""]);
    let f = inner(&c, 0);
    assert_eq!(f.code.varname_cache, vec![".0", "x"]);
    assert_eq!(
        block(f, 0),
        vec![Instruction::BuildList { size: 0 }, Instruction::LoadFast(0)]
    );
    assert_eq!(
        block(f, 1),
        vec![
            Instruction::ForIter { target: b(2) },
            Instruction::StoreFast(1),
            Instruction::LoadFast(1),
            Instruction::JumpIfFalse { target: b(1) },
            Instruction::LoadFast(1),
            Instruction::ListAppend { i: 1 },
            Instruction::Jump { target: b(1) },
        ]
    );
    assert_eq!(block(f, 2), vec![Instruction::ReturnValue]);
    assert_eq!(links(f), vec![1, 2, NULL]);
}

#[test]
fn generators_yield_what_they_give() {
    let c = eval(
        Expr::Generator(ExprGenerator {
            range: r(),
            elt: Box::new(name("x")),
            generators: vec![generator(name("x"), name("y"), vec![], false)],
        }),
        with_tables(globals(&["y"]), vec![locals(&["x"])]),
    );
    let f = inner(&c, 0);
    assert!(f.code.flags.is_generator);
    assert_eq!(
        block(f, 1),
        vec![
            Instruction::ForIter { target: b(2) },
            Instruction::StoreFast(1),
            Instruction::LoadFast(1),
            Instruction::YieldValue,
            Instruction::Pop,
            Instruction::Jump { target: b(1) },
        ]
    );
    assert_eq!(block(f, 2), vec![Instruction::ReturnConst { idx: 0 }]);
}

#[test]
fn a_comprehension_cannot_unpack() {
    let e = eval_error(
        list_comp(star(name("x")), vec![generator(name("x"), name("y"), vec![], false)]),
        with_tables(globals(&["y"]), vec![locals(&["x"])]),
    );
    assert!(matches!(
        e.error,
        CodegenErrorType::SyntaxError(s) if s == "iterable unpacking cannot be used in comprehension"
    ));
}

#[test]
fn a_class_declared_global_starts_a_path_of_its_own() {
    // def f():
    //     global A
    //     class A: pass
    let f_table = table(
        vec![entry("A", SymbolScope::GlobalExplicit)],
        vec![locals(&[])],
    );
    let c = program(
        vec![function(
            "f",
            false,
            parameters(vec![]),
            vec![Stmt::Global(r()), class("A", None, vec![pass()])],
        )],
        with_tables(globals(&["f"]), vec![f_table]),
    );
    let f = inner(&c, 0);
    let a = inner(f, 1);
    assert_eq!(constants(a)[0], "\"A\"");
    assert_eq!(block(f, 0)[5], Instruction::CallFunctionPositional { nargs: 2 });
    assert_eq!(block(f, 0)[6], Instruction::StoreGlobal(0));
}

// Statements that stand where they may not.

#[test]
fn statements_out_of_place() {
    let e = error(vec![Stmt::Break(at(2, 3))], globals(&[]));
    assert!(matches!(e.error, CodegenErrorType::InvalidBreak));
    assert_eq!(e.location, Some(SourceLocation { row: 2, column: 3 }));
    let e = error(vec![Stmt::Continue(r())], globals(&[]));
    assert!(matches!(e.error, CodegenErrorType::InvalidContinue));
    let e = error(vec![give(None)], globals(&[]));
    assert!(matches!(e.error, CodegenErrorType::InvalidReturn));
    let e = eval_error(
        Expr::Yield(ExprYield { range: r(), value: None }),
        globals(&[]),
    );
    assert!(matches!(e.error, CodegenErrorType::InvalidYield));
    let e = eval_error(
        Expr::YieldFrom(ExprYieldFrom { range: r(), value: Box::new(name("x")) }),
        globals(&["x"]),
    );
    assert!(matches!(e.error, CodegenErrorType::InvalidYieldFrom));
    let e = eval_error(
        Expr::Await(ExprAwait { range: r(), value: Box::new(name("x")) }),
        globals(&["x"]),
    );
    assert!(matches!(e.error, CodegenErrorType::InvalidAwait));
}

#[test]
fn async_functions_have_limits() {
    let run = |body: Vec<Stmt>| {
        error(
            vec![function("f", true, parameters(vec![]), body)],
            with_tables(globals(&["f"]), vec![locals(&["x"])]),
        )
    };
    let e = run(vec![value(Expr::YieldFrom(ExprYieldFrom {
        range: r(),
        value: Box::new(name("x")),
    }))]);
    assert!(matches!(e.error, CodegenErrorType::AsyncYieldFrom));
    let e = run(vec![
        value(Expr::Yield(ExprYield { range: r(), value: None })),
        give(Some(num(1))),
    ]);
    assert!(matches!(e.error, CodegenErrorType::AsyncReturnValue));
}

#[test]
fn future_imports_come_first() {
    let names = |n: &str| vec![alias(n, None)];
    let e = error(
        vec![pass(), from_import(Some("__future__"), names("annotations"), 0)],
        globals(&[]),
    );
    assert!(matches!(e.error, CodegenErrorType::InvalidFuturePlacement));
    let e = error(
        vec![from_import(Some("__future__"), names("braces"), 0)],
        globals(&[]),
    );
    assert!(matches!(e.error, CodegenErrorType::InvalidFutureFeature(s) if s == "braces"));
    // With it, an annotation is kept as source.
    let c = program(
        vec![
            from_import(Some("__future__"), names("annotations"), 0),
            Stmt::AnnAssign(StmtAnnAssign {
                range: r(),
                target: Box::new(name("x")),
                annotation: Box::new(Annotation {
                    expr: name("T"),
                    source: "T".to_string(),
                }),
                value: None,
            }),
        ],
        globals(&["annotations", "x", "T"]),
    );
    assert!(block(&c, 0).contains(&Instruction::SetupAnnotation));
    assert!(constants(&c).contains(&"\"T\"".to_string()));
    assert!(!c.code.name_cache.contains(&"T".to_string()));
}

#[test]
fn imports_bind_names() {
    // import a.b
    // import a.b as c
    // from ..m import n as k
    let c = program(
        vec![
            Stmt::Import(StmtImport {
                range: r(),
                names: vec![alias("a.b", None), alias("a.b", Some("c"))],
            }),
            from_import(Some("m"), vec![alias("n", Some("k"))], 2),
        ],
        globals(&["a", "c", "k"]),
    );
    assert_eq!(
        block(&c, 0),
        vec![
            load(0),
            load(1),
            Instruction::ImportName { idx: 0 },
            Instruction::StoreLocal(1),
            load(0),
            load(1),
            Instruction::ImportName { idx: 0 },
            Instruction::LoadAttr { idx: 2 },
            Instruction::StoreLocal(3),
            load(2),
            load(3),
            Instruction::ImportName { idx: 4 },
            Instruction::ImportFrom { idx: 5 },
            Instruction::StoreLocal(6),
            Instruction::Pop,
            Instruction::ReturnConst { idx: 1 },
        ]
    );
    assert_eq!(constants(&c), vec!["0", "None", "2", "(\"n\")"]);
    assert_eq!(c.code.name_cache, vec!["a.b", "a", "b", "c", "m", "n", "k"]);
}

#[test]
fn a_function_cannot_import_everything() {
    let e = error(
        vec![function(
            "f",
            false,
            parameters(vec![]),
            vec![from_import(Some("m"), vec![alias("*", None)], 0)],
        )],
        with_tables(globals(&["f"]), vec![locals(&[])]),
    );
    assert!(matches!(e.error, CodegenErrorType::FunctionImportStar));
}

#[test]
fn with_statements_need_items_and_a_body() {
    let with = |items: Vec<WithItem>, body: Vec<Stmt>| {
        error(
            vec![Stmt::With(StmtWith { range: r(), is_async: false, items, body })],
            globals(&["x"]),
        )
    };
    assert!(matches!(with(vec![], vec![pass()]).error, CodegenErrorType::EmptyWithItems));
    let items = vec![WithItem { context_expr: name("x"), optional_vars: None }];
    assert!(matches!(with(items, vec![]).error, CodegenErrorType::EmptyWithBody));
}

#[test]
fn match_statements_have_limits() {
    let run = |first: Pattern| {
        let last = Pattern::MatchAs(PatternMatchAs { range: r(), pattern: None, name: None });
        error(
            vec![Stmt::Match(StmtMatch {
                range: r(),
                subject: Box::new(name("x")),
                cases: vec![
                    MatchCase { pattern: first, guard: None, body: vec![] },
                    MatchCase { pattern: last, guard: None, body: vec![] },
                ],
            })],
            globals(&["x"]),
        )
    };
    let e = run(Pattern::MatchAs(PatternMatchAs { range: at(9, 1), pattern: None, name: None }));
    assert!(matches!(e.error, CodegenErrorType::InvalidMatchCase));
    assert_eq!(e.location, Some(SourceLocation { row: 9, column: 1 }));
    assert!(matches!(run(Pattern::Other(r())).error, CodegenErrorType::NotImplementedYet));
}

#[test]
fn exception_groups_are_not_implemented() {
    let e = error(
        vec![Stmt::Try(StmtTry {
            range: r(),
            body: vec![],
            handlers: vec![],
            orelse: vec![],
            finalbody: vec![],
            is_star: true,
        })],
        globals(&[]),
    );
    assert!(matches!(e.error, CodegenErrorType::NotImplementedYet));
}

#[test]
fn a_failed_scan_is_a_syntax_error() {
    let scanned: Result<SymbolTable, SymbolTableError> = Err(SymbolTableError {
        error: "no binding for nonlocal 'x' found".to_string(),
        location: Some(SourceLocation { row: 4, column: 2 }),
    });
    match compile_program(
        &ModModule { body: vec![] },
        SourceCode { path: PATH },
        scanned,
        CompileOpts::default(),
    ) {
        Ok(_) => panic!("compiles"),
        Err(e) => {
            assert!(matches!(
                e.error,
                CodegenErrorType::SyntaxError(s) if s == "no binding for nonlocal 'x' found"
            ));
            assert_eq!(e.location, Some(SourceLocation { row: 4, column: 2 }));
            assert_eq!(e.source_path, PATH);
        }
    }
}

// Whole programs in the modes that there are.

#[test]
fn the_docstring_of_a_module_is_stored() {
    let c = program(vec![value(text("  doc"))], globals(&[]));
    assert_eq!(
        block(&c, 0),
        vec![load(0), Instruction::StoreGlobal(0), Instruction::ReturnConst { idx: 1 }]
    );
    assert_eq!(constants(&c), vec!["\"doc\"", "None"]);
    assert_eq!(c.code.name_cache, vec!["__doc__"]);
    assert_eq!(c.code.obj_name, "<module>");
    assert_eq!(c.code.source_path, PATH);
}

#[test]
fn a_prompt_shows_values() {
    let single = |body: Vec<Stmt>| {
        taken(compile_program_single(
            &ModModule { body },
            SourceCode { path: PATH },
            Ok(globals(&["x", "y"])),
            CompileOpts::default(),
        ))
    };
    let c = single(vec![value(name("x")), value(name("y"))]);
    assert_eq!(
        block(&c, 0),
        vec![
            Instruction::LoadNameAny(0),
            Instruction::PrintExpr,
            Instruction::LoadNameAny(1),
            Instruction::Duplicate,
            Instruction::PrintExpr,
            Instruction::ReturnValue,
        ]
    );
    assert_eq!(block(&single(vec![]), 0), vec![Instruction::ReturnConst { idx: 0 }]);
    assert_eq!(block(&single(vec![pass()]), 0), vec![Instruction::ReturnConst { idx: 0 }]);
}

#[test]
fn a_block_has_the_value_of_its_last_statement() {
    let run = |body: Vec<Stmt>, t: SymbolTable| {
        taken(compile_block_expression(
            &ModModule { body },
            SourceCode { path: PATH },
            Ok(t),
            CompileOpts::default(),
        ))
    };
    let c = run(vec![value(name("x"))], globals(&["x"]));
    assert_eq!(block(&c, 0), vec![Instruction::LoadNameAny(0), Instruction::ReturnValue]);
    let c = run(
        vec![function("f", false, parameters(vec![]), vec![pass()])],
        with_tables(globals(&["f"]), vec![locals(&[])]),
    );
    assert_eq!(
        block(&c, 0),
        vec![
            load(0),
            load(1),
            Instruction::MakeFunction(no_function_flags()),
            Instruction::Duplicate,
            Instruction::StoreLocal(0),
            Instruction::ReturnValue,
        ]
    );
    let c = run(vec![pass()], globals(&[]));
    assert_eq!(block(&c, 0), vec![Instruction::ReturnConst { idx: 0 }]);
}

#[test]
fn the_mode_chooses_how_a_module_is_compiled() {
    let module = || Mod::Module(ModModule { body: vec![value(name("x"))] });
    let run = |ast: Mod, mode: Mode| {
        taken(compile_top(
            ast,
            SourceCode { path: PATH },
            Ok(globals(&["x"])),
            mode,
            CompileOpts::default(),
        ))
    };
    let exec = vec![
        Instruction::LoadNameAny(0),
        Instruction::Pop,
        Instruction::ReturnConst { idx: 0 },
    ];
    assert_eq!(block(&run(module(), Mode::Exec), 0), exec);
    assert_eq!(block(&run(module(), Mode::Eval), 0), exec);
    assert_eq!(
        block(&run(module(), Mode::Single), 0),
        vec![
            Instruction::LoadNameAny(0),
            Instruction::Duplicate,
            Instruction::PrintExpr,
            Instruction::ReturnValue,
        ]
    );
    let shown = vec![Instruction::LoadNameAny(0), Instruction::ReturnValue];
    assert_eq!(block(&run(module(), Mode::BlockExpr), 0), shown);
    let expression = Mod::Expression(ModExpression { body: Box::new(name("x")) });
    assert_eq!(block(&run(expression, Mode::Exec), 0), shown);
}

#[test]
fn a_tree_without_its_table_has_no_result() {
    let run = |body: Vec<Stmt>, t: SymbolTable| {
        checked_compile_top(
            &Mod::Module(ModModule { body }),
            &SourceCode { path: PATH },
            Ok(t),
            Mode::Exec,
            CompileOpts::default(),
        )
    };
    assert!(run(vec![value(name("x"))], globals(&[])).is_none());
    assert!(run(vec![], with_tables(globals(&[]), vec![locals(&[])])).is_none());
    assert!(run(vec![value(name("x"))], globals(&["x"])).is_some());
    // An error is a result.
    assert!(matches!(run(vec![Stmt::Break(r())], globals(&[])), Some(Err(_))));
}

#[test]
fn named_expressions_keep_their_value() {
    let c = eval(
        Expr::Named(ExprNamed {
            range: r(),
            target: Box::new(name("x")),
            value: Box::new(num(1)),
        }),
        globals(&["x"]),
    );
    assert_eq!(
        block(&c, 0),
        vec![
            load(0),
            Instruction::Duplicate,
            Instruction::StoreLocal(0),
            Instruction::ReturnValue,
        ]
    );
}

#[test]
fn instructions_know_their_place() {
    let c = program(
        vec![Stmt::Expr(StmtExpr {
            range: at(7, 1),
            value: Box::new(Expr::Name(ExprName { range: at(7, 4), id: "x".to_string() })),
        })],
        globals(&["x"]),
    );
    let places: Vec<SourceLocation> =
        c.code.blocks[0].instructions.iter().map(|i| i.location).collect();
    assert_eq!(places[0], SourceLocation { row: 7, column: 4 });
}

// What holds of all code.

/// Whether the arguments of an instruction refer to what the code has.
fn fits(i: Instruction, c: &CodeObject) -> bool {
    let block = |b: BlockIdx| (b.0 as usize) < c.code.blocks.len();
    let names = c.code.name_cache.len();
    let cells = c.code.cellvar_cache.len() + c.code.freevar_cache.len();
    match i {
        Instruction::LoadConst { idx } | Instruction::ReturnConst { idx } => {
            (idx as usize) < c.code.constants.len()
        }
        Instruction::LoadFast(i) | Instruction::StoreFast(i) => {
            (i as usize) < c.code.varname_cache.len()
        }
        Instruction::LoadNameAny(i)
        | Instruction::StoreLocal(i)
        | Instruction::LoadGlobal(i)
        | Instruction::StoreGlobal(i) => (i as usize) < names,
        Instruction::LoadAttr { idx } | Instruction::LoadMethod { idx } => (idx as usize) < names,
        Instruction::LoadDeref(i) | Instruction::LoadClosure(i) => (i as usize) < cells,
        Instruction::Jump { target }
        | Instruction::JumpIfTrue { target }
        | Instruction::JumpIfFalse { target }
        | Instruction::ForIter { target } => block(target),
        Instruction::SetupExcept { handler } => block(handler),
        _ => true,
    }
}

fn all_fit(c: &CodeObject) {
    for b in &c.code.blocks {
        assert!(b.next.0 == NULL || (b.next.0 as usize) < c.code.blocks.len());
        for i in &b.instructions {
            assert!(fits(i.instr, c), "{:?}", i.instr);
        }
    }
    let mut names = c.code.name_cache.clone();
    names.sort();
    names.dedup();
    assert_eq!(names.len(), c.code.name_cache.len());
    for k in &c.code.constants {
        if let ConstantData::Code { code } = k {
            all_fit(code);
        }
    }
}

#[test]
fn arguments_refer_to_what_the_code_has() {
    // def f(a):
    //     for b in a:
    //         if b and a or not b: b = [a for a in b]
    //     return lambda: a
    let comprehension = list_comp(
        name("a"),
        vec![generator(name("a"), name("b"), vec![], false)],
    );
    let test = bool_op(
        BoolOp::Or,
        vec![bool_op(BoolOp::And, vec![name("b"), name("a")]), not(name("b"))],
    );
    let body = vec![
        Stmt::For(StmtFor {
            range: r(),
            is_async: false,
            target: Box::new(name("b")),
            iter: Box::new(name("a")),
            body: vec![if_then(test, vec![assign(name("b"), comprehension)])],
            orelse: vec![],
        }),
        give(Some(Expr::Lambda(ExprLambda {
            range: r(),
            parameters: None,
            body: Box::new(name("a")),
        }))),
    ];
    let f_table = table(
        vec![entry("a", SymbolScope::Cell), entry("b", SymbolScope::Local)],
        vec![locals(&["a"]), table(vec![entry("a", SymbolScope::Free)], vec![])],
    );
    let c = program(
        vec![function("f", false, parameters(vec![plain("a")]), body)],
        with_tables(globals(&["f"]), vec![f_table]),
    );
    all_fit(&c);
    // Each block of the function but the first follows exactly one other.
    let mut followed = links(inner(&c, 0));
    followed.retain(|b| *b != NULL);
    followed.sort();
    let expected: Vec<u32> = (1..inner(&c, 0).code.blocks.len() as u32).collect();
    assert_eq!(followed, expected);
}

#[test]
fn one_block_is_the_last() {
    // while x:
    //     match x:
    //         case 1:
    //             if x and y: y
    //         case _: y
    let inner_if = if_then(
        bool_op(BoolOp::And, vec![name("x"), name("y")]),
        vec![value(name("y"))],
    );
    let one = PatternMatchValue { range: r(), value: Box::new(num(1)) };
    let any = PatternMatchAs { range: r(), pattern: None, name: None };
    let c = program(
        vec![Stmt::While(StmtWhile {
            range: r(),
            test: Box::new(name("x")),
            body: vec![Stmt::Match(StmtMatch {
                range: r(),
                subject: Box::new(name("x")),
                cases: vec![
                    MatchCase {
                        pattern: Pattern::MatchValue(one),
                        guard: None,
                        body: vec![inner_if],
                    },
                    MatchCase {
                        pattern: Pattern::MatchAs(any),
                        guard: None,
                        body: vec![value(name("y"))],
                    },
                ],
            })],
            orelse: vec![],
        })],
        globals(&["x", "y"]),
    );
    let last = c.code.current_block.0 as usize;
    assert_eq!(c.code.blocks.len(), 8);
    for (i, next) in links(&c).into_iter().enumerate() {
        assert_eq!(next == NULL, i == last);
    }
}

#[test]
fn with_items_are_nested() {
    let item = |manager: &str, var: Option<&str>| WithItem {
        context_expr: name(manager),
        optional_vars: var.map(|v| Box::new(name(v))),
    };
    let with = |range: TextRange, items: Vec<WithItem>, body: Vec<Stmt>| {
        Stmt::With(StmtWith { range, is_async: false, items, body })
    };
    let names = || globals(&["a", "b", "c", "x"]);
    // with a as x, b, c: x
    let flat = program(
        vec![with(
            at(1, 1),
            vec![item("a", Some("x")), item("b", None), item("c", None)],
            vec![value(name("x"))],
        )],
        names(),
    );
    // with a as x:
    //     with b, c: x
    let nested = program(
        vec![with(
            at(1, 1),
            vec![item("a", Some("x"))],
            vec![with(at(2, 5), vec![item("b", None), item("c", None)], vec![value(name("x"))])],
        )],
        names(),
    );
    assert_eq!(flat.code.blocks.len(), 4);
    assert_eq!(links(&flat), links(&nested));
    for i in 0..4 {
        assert_eq!(block(&flat, i), block(&nested, i));
    }
    assert_eq!(flat.code.name_cache, nested.code.name_cache);
    assert_eq!(constants(&flat), constants(&nested));
}
