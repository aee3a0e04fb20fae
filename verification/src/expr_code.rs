//! The code of expressions, as chains of steps on the state of a compilation.
use vstd::prelude::*;

use crate::ast::{
    expr_python_name, expr_range, Arguments, BoolOp, CmpOp, Comprehension, ConversionFlag,
    DebugText, DictItem, Expr, ExprAttribute, ExprAwait, ExprBinOp, ExprBoolOp, ExprCall,
    ExprCompare, ExprDict, ExprIf, ExprLambda, ExprNamed, ExprSlice, ExprSubscript, ExprUnaryOp,
    ExprYield, ExprYieldFrom, FStringElement, FStringExpressionElement, FStringPart, FStringValue,
    Int, Keyword, Number, Operator, Parameter, ParameterWithDefault, Parameters, TextRange, UnaryOp,
};
use crate::bytecode::{
    BinaryOperator, BlockIdx, CodeFlags, CodeModel, ComparisonOperator, ConstantModel, Instruction,
    MakeFunctionFlags, TestOperator, UnaryOperator, UnpackExArgs,
};
use crate::contains::has_await;
use crate::error::{ErrorKind, ErrorModel};
use crate::integer::int_literal;
use crate::state::{group_halted_steps, CompileContext, FunctionContext, NameUsage, State, Status};

verus! {

broadcast use group_halted_steps;

/// How a call passes its arguments.
#[derive(Debug, Clone, Copy, PartialEq, Eq, Structural)]
#[allow(inconsistent_fields)]
pub enum CallType {
    Positional { nargs: u32 },
    Keyword { nargs: u32 },
    Ex { has_kwargs: bool },
}

#[derive(Debug, Clone, Copy, PartialEq, Eq, Structural)]
pub enum ComprehensionType {
    Generator,
    List,
    SetDisplay,
    Dict,
}

/// The collections that are written with their elements.
#[derive(Debug, Clone, Copy, PartialEq, Eq, Structural)]
pub enum Display {
    List,
    Tuple,
    SetDisplay,
}

/// The instruction that builds a collection, of elements or of tuples of them.
pub open spec fn display_code(ty: Display, size: u32, unpack: bool) -> Instruction {
    match ty {
        Display::List => if unpack {
            Instruction::BuildListUnpack { size }
        } else {
            Instruction::BuildList { size }
        },
        Display::Tuple => if unpack {
            Instruction::BuildTupleUnpack { size }
        } else {
            Instruction::BuildTuple { size }
        },
        Display::SetDisplay => if unpack {
            Instruction::BuildSetUnpack { size }
        } else {
            Instruction::BuildSet { size }
        },
    }
}

/// The instruction of a binary operator.
pub open spec fn operator_code(op: Operator, inplace: bool) -> Instruction {
    let op = match op {
        Operator::Add => BinaryOperator::Add,
        Operator::Sub => BinaryOperator::Subtract,
        Operator::Mult => BinaryOperator::Multiply,
        Operator::MatMult => BinaryOperator::MatrixMultiply,
        Operator::Div => BinaryOperator::Divide,
        Operator::FloorDiv => BinaryOperator::FloorDivide,
        Operator::Mod => BinaryOperator::Modulo,
        Operator::Pow => BinaryOperator::Power,
        Operator::LShift => BinaryOperator::Lshift,
        Operator::RShift => BinaryOperator::Rshift,
        Operator::BitOr => BinaryOperator::Or,
        Operator::BitXor => BinaryOperator::Xor,
        Operator::BitAnd => BinaryOperator::And,
    };
    if inplace {
        Instruction::BinaryOperationInplace { op }
    } else {
        Instruction::BinaryOperation { op }
    }
}

/// The instruction of a unary operator.
pub open spec fn unary_code(op: UnaryOp) -> Instruction {
    let op = match op {
        UnaryOp::UAdd => UnaryOperator::Plus,
        UnaryOp::USub => UnaryOperator::Minus,
        UnaryOp::Not => UnaryOperator::Not,
        UnaryOp::Invert => UnaryOperator::Invert,
    };
    Instruction::UnaryOperation { op }
}

/// The instruction of a comparison.
pub open spec fn comparison_code(op: CmpOp) -> Instruction {
    match op {
        CmpOp::Eq => Instruction::CompareOperation { op: ComparisonOperator::Equal },
        CmpOp::NotEq => Instruction::CompareOperation { op: ComparisonOperator::NotEqual },
        CmpOp::Lt => Instruction::CompareOperation { op: ComparisonOperator::Less },
        CmpOp::LtE => Instruction::CompareOperation { op: ComparisonOperator::LessOrEqual },
        CmpOp::Gt => Instruction::CompareOperation { op: ComparisonOperator::Greater },
        CmpOp::GtE => Instruction::CompareOperation { op: ComparisonOperator::GreaterOrEqual },
        CmpOp::In => Instruction::TestOperation { op: TestOperator::In },
        CmpOp::NotIn => Instruction::TestOperation { op: TestOperator::NotIn },
        CmpOp::Is => Instruction::TestOperation { op: TestOperator::Is },
        CmpOp::IsNot => Instruction::TestOperation { op: TestOperator::IsNot },
    }
}

/// The instruction that leaves a boolean operation early with the value on the stack.
pub open spec fn short_circuit(op: BoolOp, target: BlockIdx) -> Instruction {
    match op {
        BoolOp::And => Instruction::JumpIfFalseOrPop { target },
        BoolOp::Or => Instruction::JumpIfTrueOrPop { target },
    }
}

/// The instruction that jumps if the value on the stack is as the condition says.
pub open spec fn conditional_jump(condition: bool, target: BlockIdx) -> Instruction {
    if condition {
        Instruction::JumpIfTrue { target }
    } else {
        Instruction::JumpIfFalse { target }
    }
}

/// The instruction of a call.
pub open spec fn call_code(ty: CallType, method: bool) -> Instruction {
    match ty {
        CallType::Positional { nargs } => if method {
            Instruction::CallMethodPositional { nargs }
        } else {
            Instruction::CallFunctionPositional { nargs }
        },
        CallType::Keyword { nargs } => if method {
            Instruction::CallMethodKeyword { nargs }
        } else {
            Instruction::CallFunctionKeyword { nargs }
        },
        CallType::Ex { has_kwargs } => if method {
            Instruction::CallMethodEx { has_kwargs }
        } else {
            Instruction::CallFunctionEx { has_kwargs }
        },
    }
}

/// The first starred expression of `s[i..]`.
pub open spec fn first_star(s: Seq<Expr>, i: nat) -> Option<nat>
    decreases s.len() - i,
{
    if i >= s.len() {
        None
    } else if s[i as int] is Starred {
        Some(i)
    } else {
        first_star(s, i + 1)
    }
}

/// The number of values that `s[i..]` leaves on the stack where a run of plain elements leaves
/// one tuple.
pub open spec fn run_count(s: Seq<Expr>, i: nat) -> nat
    decreases s.len() - i,
{
    if i >= s.len() {
        0
    } else if s[i as int] is Starred || i + 1 == s.len() || s[i as int + 1] is Starred {
        1 + run_count(s, i + 1)
    } else {
        run_count(s, i + 1)
    }
}

/// The number of values that elements leave on the stack, `before` of which are there already.
pub open spec fn gathered(before: u32, s: Seq<Expr>) -> nat {
    if first_star(s, 0) is Some {
        run_count(s, 0) + if before > 0 {
            1nat
        } else {
            0
        }
    } else {
        before as nat + s.len()
    }
}

/// Whether one of the keywords `s[i..]` is a `**` argument.
pub open spec fn double_star(s: Seq<Keyword>, i: nat) -> bool
    decreases s.len() - i,
{
    i < s.len() && (s[i as int].arg is None || double_star(s, i + 1))
}

/// The number of maps that `s[i..]` leaves on the stack where a run of named arguments leaves
/// one.
pub open spec fn keyword_run_count(s: Seq<Keyword>, i: nat) -> nat
    decreases s.len() - i,
{
    if i >= s.len() {
        0
    } else if s[i as int].arg is None || i + 1 == s.len() || s[i as int + 1].arg is None {
        1 + keyword_run_count(s, i + 1)
    } else {
        keyword_run_count(s, i + 1)
    }
}

/// The names of keywords.
pub open spec fn keyword_names(s: Seq<Keyword>) -> Seq<ConstantModel> {
    s.map_values(
        |k: Keyword|
            match k.arg {
                Some(name) => ConstantModel::Str(name@),
                None => ConstantModel::NoneValue,
            },
    )
}

/// The number of arguments of a call, `before` of which are there already.
pub open spec fn argument_count(before: u32, a: Arguments) -> nat {
    a.args@.len() + a.keywords@.len() + before as nat
}

/// How a call passes its arguments.
pub open spec fn call_type(before: u32, a: Arguments) -> CallType {
    if first_star(a.args@, 0) is Some || double_star(a.keywords@, 0) {
        CallType::Ex { has_kwargs: a.keywords@.len() > 0 }
    } else if a.keywords@.len() > 0 {
        CallType::Keyword { nargs: argument_count(before, a) as u32 }
    } else {
        CallType::Positional { nargs: argument_count(before, a) as u32 }
    }
}

/// The number of parameters among `s[i..]` that have a default.
pub open spec fn default_count(s: Seq<ParameterWithDefault>, i: nat) -> nat
    decreases s.len() - i,
{
    if i >= s.len() {
        0
    } else if s[i as int].default is Some {
        1 + default_count(s, i + 1)
    } else {
        default_count(s, i + 1)
    }
}

/// The number of positional parameters that have a default.
pub open spec fn positional_defaults(p: Parameters) -> nat {
    default_count(p.posonlyargs@, 0) + default_count(p.args@, 0)
}

/// What a function is made with on account of its parameters.
pub open spec fn parameter_flags(p: Parameters) -> MakeFunctionFlags {
    MakeFunctionFlags {
        closure: false,
        annotations: false,
        kw_only_defaults: default_count(p.kwonlyargs@, 0) > 0,
        defaults: positional_defaults(p) > 0,
        type_params: false,
    }
}

/// What a function is made with that has nothing besides its code and its name.
pub open spec fn plain_function() -> MakeFunctionFlags {
    MakeFunctionFlags {
        closure: false,
        annotations: false,
        kw_only_defaults: false,
        defaults: false,
        type_params: false,
    }
}

/// The flags of a code unit with none set.
pub open spec fn no_flags() -> CodeFlags {
    CodeFlags {
        new_locals: false,
        is_generator: false,
        is_coroutine: false,
        has_varargs: false,
        has_varkeywords: false,
        is_optimized: false,
    }
}

/// The flags of the code of a function.
pub open spec fn function_flags() -> CodeFlags {
    CodeFlags { new_locals: true, is_optimized: true, ..no_flags() }
}

/// The generators of a comprehension.
pub open spec fn comprehension_generators(e: Expr) -> Seq<Comprehension> {
    match e {
        Expr::ListComp(x) => x.generators@,
        Expr::SetComp(x) => x.generators@,
        Expr::DictComp(x) => x.generators@,
        Expr::Generator(x) => x.generators@,
        _ => Seq::empty(),
    }
}

pub open spec fn comprehension_type(e: Expr) -> ComprehensionType {
    match e {
        Expr::ListComp(_) => ComprehensionType::List,
        Expr::SetComp(_) => ComprehensionType::SetDisplay,
        Expr::DictComp(_) => ComprehensionType::Dict,
        _ => ComprehensionType::Generator,
    }
}

/// The name of the function that a comprehension becomes.
pub open spec fn comprehension_name(ty: ComprehensionType) -> Seq<char> {
    match ty {
        ComprehensionType::List => "<listcomp>"@,
        ComprehensionType::SetDisplay => "<setcomp>"@,
        ComprehensionType::Dict => "<dictcomp>"@,
        ComprehensionType::Generator => "<genexpr>"@,
    }
}

/// Whether what a comprehension gives for each turn contains an await expression.
#[verifier::opaque]
pub open spec fn element_awaits(e: Expr) -> bool {
    match e {
        Expr::ListComp(x) => has_await(*x.elt),
        Expr::SetComp(x) => has_await(*x.elt),
        Expr::DictComp(x) => has_await(*x.key) || has_await(*x.value),
        Expr::Generator(x) => has_await(*x.elt),
        _ => false,
    }
}

/// Whether one of the generators `s[i..]` is asynchronous.
pub open spec fn async_generator(s: Seq<Comprehension>, i: nat) -> bool
    decreases s.len() - i,
{
    i < s.len() && (s[i as int].is_async || async_generator(s, i + 1))
}

/// Whether a comprehension awaits: one of its generators is asynchronous or what it gives
/// contains an await expression, and it is a generator expression or stands in an asynchronous
/// function.
pub open spec fn comprehension_awaits(e: Expr, func: FunctionContext) -> bool {
    &&& async_generator(comprehension_generators(e), 0) || element_awaits(e)
    &&& comprehension_type(e) == ComprehensionType::Generator || func
        == FunctionContext::AsyncFunction
}

/// The bytes of a concatenated literal, from part `i` on.
pub open spec fn joined_bytes(parts: Seq<Vec<u8>>, i: nat) -> Seq<u8>
    decreases parts.len() - i,
{
    if i >= parts.len() {
        Seq::empty()
    } else {
        parts[i as int]@ + joined_bytes(parts, i + 1)
    }
}

/// The conversion of a formatted value: a `{expression=}` element without a format is shown as
/// its `repr`.
pub open spec fn element_conversion(x: FStringExpressionElement) -> ConversionFlag {
    if x.conversion == ConversionFlag::Plain && x.debug_text is Some && x.format_spec is None {
        ConversionFlag::Repr
    } else {
        x.conversion
    }
}

impl State {
    /// The context of the body of a function, inside the current context.
    pub open spec fn function_ctx(self, is_async: bool) -> CompileContext {
        CompileContext {
            loop_data: None,
            in_class: self.ctx.in_class,
            func: if is_async {
                FunctionContext::AsyncFunction
            } else {
                FunctionContext::Function
            },
        }
    }

    /// Turns an inner code unit into a function object.
    #[verifier::opaque]
    pub open spec fn make_function(
        self,
        code: CodeModel,
        optimize: u8,
        name: Seq<char>,
        flags: MakeFunctionFlags,
    ) -> State {
        self.load_const(ConstantModel::Code(code, optimize)).load_const(
            ConstantModel::Str(name),
        ).emit(Instruction::MakeFunction(flags))
    }

    /// Closes the current code unit, goes back to a context, and makes a function of the unit.
    #[verifier::opaque]
    pub open spec fn close_function(
        self,
        ctx: CompileContext,
        name: Seq<char>,
        flags: MakeFunctionFlags,
    ) -> State {
        let code = self.top();
        self.pop_code().set_ctx(ctx).closure(code.freevars).make_function(
            code,
            self.optimize,
            name,
            MakeFunctionFlags { closure: code.freevars.len() > 0, ..flags },
        )
    }

    /// Evaluates an expression onto the stack.
    #[verifier::opaque]
    pub open spec fn expr(self, e: Expr) -> State
        decreases e, 3nat, 0nat,
    {
        let s = self.set_range(expr_range(e));
        match e {
            Expr::Call(x) => s.call(x),
            Expr::BoolOp(x) => s.bool_op(x),
            Expr::BinOp(x) => s.bin_op(x),
            Expr::Subscript(x) => s.subscript(x),
            Expr::UnaryOp(x) => s.unary_op(x),
            Expr::Attribute(x) => s.attribute(x),
            Expr::Compare(x) => s.compare(x),
            Expr::List(x) => s.display(x.elts@, Display::List),
            Expr::Tuple(x) => s.display(x.elts@, Display::Tuple),
            Expr::SetDisplay(x) => s.display(x.elts@, Display::SetDisplay),
            Expr::Dict(x) => s.dict(x),
            Expr::Slice(x) => s.slice(x),
            Expr::Yield(x) => s.yield_value(x),
            Expr::Await(x) => s.await_value(x),
            Expr::YieldFrom(x) => s.yield_from(x),
            Expr::Name(x) => s.load_name(x.id@),
            Expr::Lambda(x) => s.lambda(x),
            Expr::ListComp(_) | Expr::SetComp(_) | Expr::DictComp(_) | Expr::Generator(
                _,
            ) => s.comprehension(e),
            Expr::Starred(_) => s.fail(ErrorKind::InvalidStarExpr),
            Expr::If(x) => s.conditional(x),
            Expr::Named(x) => s.named(x),
            Expr::FString(x) => s.fstring(x.value),
            Expr::IpyEscapeCommand(_) => s.stuck(),
            _ => s.literal(e),
        }
    }

    /// Loads the value of a literal.
    #[verifier::opaque]
    pub open spec fn literal(self, e: Expr) -> State {
        match e {
            Expr::StringLiteral(x) => self.load_const(ConstantModel::Str(x.value@)),
            Expr::BytesLiteral(x) => self.load_const(
                ConstantModel::Bytes(joined_bytes(x.value@, 0)),
            ),
            Expr::NumberLiteral(x) => match x.value {
                Number::Int(i) => match int_literal(i) {
                    Ok(value) => self.load_const(ConstantModel::Integer(value)),
                    Err(text) => self.fail(ErrorKind::SyntaxError(text)),
                },
                Number::Float(bits) => self.load_const(ConstantModel::Float(bits)),
                Number::Complex { re, im } => self.load_const(ConstantModel::Complex(re, im)),
            },
            Expr::BooleanLiteral(x) => self.load_const(ConstantModel::Boolean(x.value)),
            Expr::NoneLiteral(_) => self.load_const(ConstantModel::NoneValue),
            Expr::EllipsisLiteral(_) => self.load_const(ConstantModel::Ellipsis),
            _ => self.stuck(),
        }
    }

    #[verifier::opaque]
    pub open spec fn bin_op(self, x: ExprBinOp) -> State
        decreases x, 0nat, 0nat,
    {
        let left = self.expr(*x.left);
        left.to(left.expr(*x.right).emit(operator_code(x.op, false)))
    }

    #[verifier::opaque]
    pub open spec fn subscript(self, x: ExprSubscript) -> State
        decreases x, 0nat, 0nat,
    {
        let value = self.expr(*x.value);
        value.to(value.expr(*x.slice).emit(Instruction::Subscript))
    }

    #[verifier::opaque]
    pub open spec fn unary_op(self, x: ExprUnaryOp) -> State
        decreases x, 0nat, 0nat,
    {
        self.expr(*x.operand).emit(unary_code(x.op))
    }

    #[verifier::opaque]
    pub open spec fn attribute(self, x: ExprAttribute) -> State
        decreases x, 0nat, 0nat,
    {
        let value = self.expr(*x.value);
        value.intern_name(x.attr@).emit(Instruction::LoadAttr { idx: value.name_index(x.attr@) })
    }

    /// Builds a list, a tuple or a set of its elements.
    #[verifier::opaque]
    pub open spec fn display(self, s: Seq<Expr>, ty: Display) -> State
        decreases s, 2nat, 0nat,
    {
        self.gather(0, s).emit(
            display_code(ty, gathered(0, s) as u32, first_star(s, 0) is Some),
        )
    }

    /// A yield expression, which makes a generator of the function it stands in.
    #[verifier::opaque]
    pub open spec fn yield_value(self, x: ExprYield) -> State
        decreases x, 0nat, 0nat,
    {
        if !self.ctx.within_func() {
            self.fail(ErrorKind::InvalidYield)
        } else {
            self.mark_generator().bound(x.value).emit(Instruction::YieldValue)
        }
    }

    #[verifier::opaque]
    pub open spec fn await_value(self, x: ExprAwait) -> State
        decreases x, 0nat, 0nat,
    {
        if self.ctx.func != FunctionContext::AsyncFunction {
            self.fail(ErrorKind::InvalidAwait)
        } else {
            self.expr(*x.value).emit(Instruction::GetAwaitable).load_const(
                ConstantModel::NoneValue,
            ).emit(Instruction::YieldFrom)
        }
    }

    #[verifier::opaque]
    pub open spec fn yield_from(self, x: ExprYieldFrom) -> State
        decreases x, 0nat, 0nat,
    {
        match self.ctx.func {
            FunctionContext::NoFunction => self.fail(ErrorKind::InvalidYieldFrom),
            FunctionContext::AsyncFunction => self.fail(ErrorKind::AsyncYieldFrom),
            FunctionContext::Function => self.mark_generator().expr(*x.value).emit(
                Instruction::GetIter,
            ).load_const(ConstantModel::NoneValue).emit(Instruction::YieldFrom),
        }
    }

    /// A named expression: its value stays on the stack, and is stored too.
    #[verifier::opaque]
    pub open spec fn named(self, x: ExprNamed) -> State
        decreases x, 0nat, 0nat,
    {
        let value = self.expr(*x.value);
        value.to(value.emit(Instruction::Duplicate).store(*x.target))
    }

    /// Evaluates the expressions `s[i..]`.
    #[verifier::opaque]
    pub open spec fn exprs(self, s: Seq<Expr>, i: nat) -> State
        decreases s, 0nat, s.len() - i,
    {
        if i >= s.len() {
            self
        } else {
            let one = self.expr(s[i as int]);
            one.to(one.exprs(s, i + 1))
        }
    }

    /// Evaluates an optional expression, or None.
    #[verifier::opaque]
    pub open spec fn bound(self, e: Option<Box<Expr>>) -> State
        decreases e, 0nat, 0nat,
    {
        match e {
            Some(e) => self.expr(*e),
            None => self.load_const(ConstantModel::NoneValue),
        }
    }

    #[verifier::opaque]
    pub open spec fn slice(self, x: ExprSlice) -> State
        decreases x, 0nat, 0nat,
    {
        let lower = self.bound(x.lower);
        let upper = lower.bound(x.upper);
        let step = match x.step {
            Some(step) => upper.expr(*step),
            None => upper,
        };
        lower.to(upper).to(step.emit(Instruction::BuildSlice { step: x.step is Some }))
    }

    /// A conditional expression: the test, its first and its second value.
    #[verifier::opaque]
    pub open spec fn conditional(self, x: ExprIf) -> State
        decreases x, 0nat, 0nat,
    {
        let else_block = self.fresh();
        let s = self.new_block();
        let after = s.fresh();
        let t = s.new_block();
        let tested = t.jump_if(*x.test, false, else_block);
        let first = tested.expr(*x.body).emit(Instruction::Jump { target: after }).switch_to(
            else_block,
        );
        let second = first.expr(*x.orelse).switch_to(after);
        t.to(tested).to(first).to(second)
    }

    /// Evaluates a boolean operation: the value that decides it stays on the stack.
    #[verifier::opaque]
    pub open spec fn bool_op(self, x: ExprBoolOp) -> State
        decreases x, 0nat, 0nat,
    {
        let after = self.fresh();
        let s = self.new_block();
        if x.values@.len() == 0 {
            s.stuck()
        } else {
            let t = s.bool_values(x.values@, 0, x.op, after);
            s.to(t).to(t.expr(x.values@[x.values@.len() - 1]).switch_to(after))
        }
    }

    /// Evaluates `s[i..]` but for the last, leaving for `after` where one decides.
    #[verifier::opaque]
    pub open spec fn bool_values(self, s: Seq<Expr>, i: nat, op: BoolOp, after: BlockIdx) -> State
        decreases s, 0nat, s.len() - i,
    {
        if i + 1 >= s.len() {
            self
        } else {
            let one = self.expr(s[i as int]).emit(short_circuit(op, after));
            one.to(one.bool_values(s, i + 1, op, after))
        }
    }

    /// Jumps to `target` if the truth of an expression is `condition`, else falls through.
    #[verifier::opaque]
    pub open spec fn jump_if(self, e: Expr, condition: bool, target: BlockIdx) -> State
        decreases e, 4nat, 0nat,
    {
        match e {
            Expr::BoolOp(x) => if (x.op == BoolOp::And) == condition {
                let end = self.fresh();
                let s = self.new_block();
                if x.values@.len() == 0 {
                    s.stuck()
                } else {
                    let last = x.values@.len() - 1;
                    let t = s.jump_ifs(x.values@, 0, last as nat, !condition, end);
                    s.to(t).to(t.jump_if(x.values@[last], condition, target).switch_to(end))
                }
            } else {
                self.jump_ifs(x.values@, 0, x.values@.len(), condition, target)
            },
            Expr::UnaryOp(x) => if x.op == UnaryOp::Not {
                self.jump_if(*x.operand, !condition, target)
            } else {
                self.expr(e).emit(conditional_jump(condition, target))
            },
            _ => self.expr(e).emit(conditional_jump(condition, target)),
        }
    }

    /// Jumps to `target` as soon as the truth of one of `s[i..n]` is `condition`.
    #[verifier::opaque]
    pub open spec fn jump_ifs(
        self,
        s: Seq<Expr>,
        i: nat,
        n: nat,
        condition: bool,
        target: BlockIdx,
    ) -> State
        decreases s, 0nat, n - i,
    {
        if i >= n || n > s.len() {
            self
        } else {
            let one = self.jump_if(s[i as int], condition, target);
            one.to(one.jump_ifs(s, i + 1, n, condition, target))
        }
    }

    /// Compares expressions in a chain, which ends with the first comparison that is false.
    #[verifier::opaque]
    pub open spec fn compare(self, x: ExprCompare) -> State
        decreases x, 0nat, 0nat,
    {
        let n = x.ops@.len();
        if n == 0 || x.comparators@.len() != n {
            self.stuck()
        } else {
            let s = self.expr(*x.left);
            if n == 1 {
                s.to(s.expr(x.comparators@[0]).emit(comparison_code(x.ops@[0])))
            } else {
                let break_block = s.fresh();
                let t = s.new_block();
                let after = t.fresh();
                let u = t.new_block();
                let v = u.compare_middle(x.ops@, x.comparators@, 0, break_block);
                let w = v.expr(x.comparators@[n - 1]).emit(comparison_code(x.ops@[n - 1])).emit(
                    Instruction::Jump { target: after },
                ).switch_to(break_block).emit(Instruction::Rotate2).emit(
                    Instruction::Pop,
                ).switch_to(after);
                u.to(v).to(w)
            }
        }
    }

    /// The comparisons with `s[i..]` but for the last.
    #[verifier::opaque]
    pub open spec fn compare_middle(
        self,
        ops: Seq<CmpOp>,
        s: Seq<Expr>,
        i: nat,
        break_block: BlockIdx,
    ) -> State
        decreases s, 0nat, s.len() - i,
    {
        if i + 1 >= s.len() {
            self
        } else {
            let one = self.expr(s[i as int]).emit(Instruction::Duplicate).emit(
                Instruction::Rotate3,
            ).emit(comparison_code(ops[i as int])).emit(
                Instruction::JumpIfFalseOrPop { target: break_block },
            );
            one.to(one.compare_middle(ops, s, i + 1, break_block))
        }
    }

    /// Builds a dict from its items, in the order of the source: each overrides those before it.
    #[verifier::opaque]
    pub open spec fn dict(self, x: ExprDict) -> State
        decreases x, 0nat, 0nat,
    {
        self.dict_items(x.items@, 0, 0, false)
    }

    /// Adds the items `s[i..]` to a dict, the keys and values of `run` items having come right
    /// before. The dict is on the stack below them if it is `made`.
    #[verifier::opaque]
    pub open spec fn dict_items(self, s: Seq<DictItem>, i: nat, run: nat, made: bool) -> State
        decreases s, 0nat, s.len() - i,
    {
        if i >= s.len() {
            self.dict_run(run, made)
        } else {
            match s[i as int].key {
                Some(key) => {
                    let k = self.expr(key);
                    let v = k.to(k.expr(s[i as int].value));
                    v.to(v.dict_items(s, i + 1, run + 1, made))
                },
                None => {
                    let t = self.dict_run(run, made);
                    let u = t.to(t.expr(s[i as int].value).emit(Instruction::DictUpdate));
                    u.to(u.dict_items(s, i + 1, 0, true))
                },
            }
        }
    }

    /// Makes the dict of the first `run` items, or if it is `made`, updates it with those of a
    /// later run.
    pub open spec fn dict_run(self, run: nat, made: bool) -> State {
        if made && run == 0 {
            self
        } else if run > u32::MAX {
            self.stuck()
        } else {
            let t = self.emit(Instruction::BuildMap { size: run as u32 });
            if made {
                t.emit(Instruction::DictUpdate)
            } else {
                t
            }
        }
    }

    /// Evaluates elements: plain ones each onto the stack, or if one is starred, the runs of
    /// plain ones as tuples between the starred ones.
    #[verifier::opaque]
    pub open spec fn gather(self, before: u32, s: Seq<Expr>) -> State
        decreases s, 1nat, 0nat,
    {
        let t = if first_star(s, 0) is Some {
            (if before > 0 {
                self.emit(Instruction::BuildTuple { size: before })
            } else {
                self
            }).gather_runs(s, 0, 0)
        } else {
            self.exprs(s, 0)
        };
        if gathered(before, s) > u32::MAX {
            t.stuck()
        } else {
            t
        }
    }

    /// Evaluates `s[i..]`, `run` plain elements having come right before.
    #[verifier::opaque]
    pub open spec fn gather_runs(self, s: Seq<Expr>, i: nat, run: nat) -> State
        decreases s, 0nat, s.len() - i,
    {
        if i >= s.len() {
            self
        } else {
            match s[i as int] {
                Expr::Starred(x) => {
                    let one = self.expr(*x.value);
                    one.to(one.gather_runs(s, i + 1, 0))
                },
                _ => {
                    let one = self.expr(s[i as int]);
                    if i + 1 < s.len() && !(s[i as int + 1] is Starred) {
                        one.to(one.gather_runs(s, i + 1, run + 1))
                    } else if run + 1 > u32::MAX {
                        one.stuck()
                    } else {
                        let built = one.emit(Instruction::BuildTuple { size: (run + 1) as u32 });
                        built.to(built.gather_runs(s, i + 1, 0))
                    }
                },
            }
        }
    }

    #[verifier::opaque]
    pub open spec fn call(self, x: ExprCall) -> State
        decreases x, 0nat, 0nat,
    {
        let ty = call_type(0, x.arguments);
        match *x.func {
            Expr::Attribute(f) => {
                let s = self.expr(*f.value);
                let t = s.intern_name(f.attr@).emit(
                    Instruction::LoadMethod { idx: s.name_index(f.attr@) },
                );
                t.to(t.call_arguments(0, x.arguments).emit(call_code(ty, true)))
            },
            _ => {
                let s = self.expr(*x.func);
                s.to(s.call_arguments(0, x.arguments).emit(call_code(ty, false)))
            },
        }
    }

    /// Evaluates the arguments of a call, `before` of which are on the stack already.
    #[verifier::opaque]
    pub open spec fn call_arguments(self, before: u32, a: Arguments) -> State
        decreases a, 0nat, 0nat,
    {
        let unpack = first_star(a.args@, 0) is Some;
        let size = gathered(before, a.args@) as u32;
        if argument_count(before, a) > u32::MAX {
            self.stuck()
        } else {
            let s = self.gather(before, a.args@).check_keywords(a.keywords@, 0);
            s.to(s.pass_keywords(unpack, size, a.keywords@))
        }
    }

    /// Passes keywords: where arguments are unpacked, the positional ones become a tuple and the
    /// named ones a map; else the values stay on the stack, under a tuple of the names.
    #[verifier::opaque]
    pub open spec fn pass_keywords(self, unpack: bool, size: u32, s: Seq<Keyword>) -> State
        decreases s, 2nat, 0nat,
    {
        if unpack || double_star(s, 0) {
            let t = self.emit(
                if unpack {
                    Instruction::BuildTupleUnpack { size }
                } else {
                    Instruction::BuildTuple { size }
                },
            );
            if s.len() > 0 {
                t.keywords(s)
            } else {
                t
            }
        } else if s.len() > 0 {
            self.keyword_values(s, 0).load_const(ConstantModel::Tuple(keyword_names(s)))
        } else {
            self
        }
    }

    /// Evaluates the values of the keywords `s[i..]`.
    #[verifier::opaque]
    pub open spec fn keyword_values(self, s: Seq<Keyword>, i: nat) -> State
        decreases s, 0nat, s.len() - i,
    {
        if i >= s.len() {
            self
        } else {
            let one = self.expr(s[i as int].value);
            one.to(one.keyword_values(s, i + 1))
        }
    }

    /// Builds one map of keywords: runs of named ones as maps, between the `**` ones.
    #[verifier::opaque]
    pub open spec fn keywords(self, s: Seq<Keyword>) -> State
        decreases s, 1nat, 0nat,
    {
        let t = self.keyword_runs(s, 0, 0);
        let n = keyword_run_count(s, 0);
        if n > u32::MAX {
            t.stuck()
        } else if n > 1 {
            t.emit(Instruction::BuildMapForCall { size: n as u32 })
        } else {
            t
        }
    }

    /// Evaluates the keywords `s[i..]`, `run` named ones having come right before.
    #[verifier::opaque]
    pub open spec fn keyword_runs(self, s: Seq<Keyword>, i: nat, run: nat) -> State
        decreases s, 0nat, s.len() - i,
    {
        if i >= s.len() {
            self
        } else {
            match s[i as int].arg {
                None => {
                    let one = self.expr(s[i as int].value);
                    one.to(one.keyword_runs(s, i + 1, 0))
                },
                Some(name) => {
                    let named = self.load_const(ConstantModel::Str(name@));
                    let one = named.to(named.expr(s[i as int].value));
                    if i + 1 < s.len() && s[i as int + 1].arg is Some {
                        one.to(one.keyword_runs(s, i + 1, run + 1))
                    } else if run + 1 > u32::MAX {
                        one.stuck()
                    } else {
                        let built = one.emit(Instruction::BuildMap { size: (run + 1) as u32 });
                        built.to(built.keyword_runs(s, i + 1, 0))
                    }
                },
            }
        }
    }

    /// Stores the value on the stack in a target.
    #[verifier::opaque]
    pub open spec fn store(self, e: Expr) -> State
        decreases e, 2nat, 0nat,
    {
        match e {
            Expr::Name(x) => self.store_name(x.id@),
            Expr::Subscript(x) => {
                let value = self.expr(*x.value);
                value.to(value.expr(*x.slice).emit(Instruction::StoreSubscript))
            },
            Expr::Attribute(x) => {
                let s = self.check_name(x.attr@, NameUsage::Store);
                let value = s.expr(*x.value);
                s.to(
                    value.intern_name(x.attr@).emit(
                        Instruction::StoreAttr { idx: value.name_index(x.attr@) },
                    ),
                )
            },
            Expr::List(x) => {
                let s = self.unpack(x.elts@, x.range);
                s.to(s.store_elements(x.elts@, 0))
            },
            Expr::Tuple(x) => {
                let s = self.unpack(x.elts@, x.range);
                s.to(s.store_elements(x.elts@, 0))
            },
            Expr::Starred(_) => self.fail(
                ErrorKind::SyntaxError("starred assignment target must be in a list or tuple"@),
            ),
            _ => self.fail(ErrorKind::Assign(expr_python_name(e))),
        }
    }

    /// Unpacks the value on the stack for targets at a range, one of which may be starred.
    #[verifier::opaque]
    pub open spec fn unpack(self, s: Seq<Expr>, range: TextRange) -> State {
        match first_star(s, 0) {
            None => if s.len() > u32::MAX {
                self.stuck()
            } else {
                self.emit(Instruction::UnpackSequence { size: s.len() as u32 })
            },
            Some(i) => if i > u8::MAX || s.len() - i - 1 > u8::MAX {
                self.fail_at(ErrorKind::TooManyStarUnpack, range)
            } else {
                let args = UnpackExArgs { before: i as u8, after: (s.len() - i - 1) as u8 };
                let t = self.emit(Instruction::UnpackEx { args });
                if first_star(s, i + 1) is Some {
                    t.fail(ErrorKind::MultipleStarArgs)
                } else {
                    t
                }
            },
        }
    }

    /// Stores unpacked values in the targets `s[i..]`.
    #[verifier::opaque]
    pub open spec fn store_elements(self, s: Seq<Expr>, i: nat) -> State
        decreases s, 0nat, s.len() - i,
    {
        if i >= s.len() {
            self
        } else {
            let one = match s[i as int] {
                Expr::Starred(x) => self.store(*x.value),
                _ => self.store(s[i as int]),
            };
            one.to(one.store_elements(s, i + 1))
        }
    }

    /// Evaluates the defaults of the parameters `s[i..]`.
    #[verifier::opaque]
    pub open spec fn defaults(self, s: Seq<ParameterWithDefault>, i: nat) -> State
        decreases s, 0nat, s.len() - i,
    {
        if i >= s.len() {
            self
        } else {
            match s[i as int].default {
                Some(e) => {
                    let one = self.expr(*e);
                    one.to(one.defaults(s, i + 1))
                },
                None => self.defaults(s, i + 1),
            }
        }
    }

    /// Evaluates the names and defaults of the keyword-only parameters among `s[i..]` that have
    /// one.
    #[verifier::opaque]
    pub open spec fn keyword_defaults(self, s: Seq<ParameterWithDefault>, i: nat) -> State
        decreases s, 0nat, s.len() - i,
    {
        if i >= s.len() {
            self
        } else {
            match s[i as int].default {
                Some(e) => {
                    let named = self.load_const(ConstantModel::Str(s[i as int].parameter.name@));
                    let one = named.expr(*e);
                    named.to(one).to(one.keyword_defaults(s, i + 1))
                },
                None => self.keyword_defaults(s, i + 1),
            }
        }
    }

    /// Evaluates the defaults of a function and opens its code.
    #[verifier::opaque]
    pub open spec fn enter_function(self, name: Seq<char>, p: Parameters) -> State
        decreases p, 0nat, 0nat,
    {
        let n = positional_defaults(p);
        let k = default_count(p.kwonlyargs@, 0);
        let s = self.defaults(p.posonlyargs@, 0);
        let t = s.to(s.defaults(p.args@, 0));
        let u = if n == 0 {
            t
        } else if n > u32::MAX {
            t.stuck()
        } else {
            t.emit(Instruction::BuildTuple { size: n as u32 })
        };
        let v = u.to(u.keyword_defaults(p.kwonlyargs@, 0));
        let w = if k == 0 {
            v
        } else if k > u32::MAX {
            v.stuck()
        } else {
            v.emit(Instruction::BuildMap { size: k as u32 })
        };
        let positional = p.posonlyargs@.len() + p.args@.len();
        if positional > u32::MAX || p.kwonlyargs@.len() > u32::MAX {
            w.stuck()
        } else {
            w.push_code(
                function_flags(),
                p.posonlyargs@.len() as u32,
                positional as u32,
                p.kwonlyargs@.len() as u32,
                name,
            ).parameters(p)
        }
    }

    #[verifier::opaque]
    pub open spec fn lambda(self, x: ExprLambda) -> State
        decreases x, 0nat, 0nat,
    {
        let name = "<lambda>"@;
        let entered = (match x.parameters {
            Some(p) => self.enter_function(name, *p),
            None => self.push_code(function_flags(), 0, 0, 0, name),
        }).set_ctx(self.function_ctx(false)).insert_const(ConstantModel::NoneValue);
        let flags = match x.parameters {
            Some(p) => parameter_flags(*p),
            None => plain_function(),
        };
        entered.to(entered.expr(*x.body).return_value()).close_function(self.ctx, name, flags)
    }

    /// Evaluates what a comprehension gives, in which nothing can be unpacked.
    #[verifier::opaque]
    pub open spec fn comprehension_element(self, e: Expr) -> State
        decreases e, 4nat, 0nat,
    {
        let s = self.expr(e);
        match s.status {
            Status::Failed(error) => if error.error is InvalidStarExpr {
                State {
                    status: Status::Failed(
                        ErrorModel {
                            location: Some(s.range.start),
                            error: ErrorKind::SyntaxError(
                                "iterable unpacking cannot be used in comprehension"@,
                            ),
                            source_path: s.path,
                        },
                    ),
                    ..s
                }
            } else {
                s
            },
            _ => s,
        }
    }

    /// Evaluates what a comprehension gives for each turn.
    #[verifier::opaque]
    pub open spec fn comprehension_value(self, e: Expr) -> State
        decreases e, 0nat, 0nat,
    {
        match e {
            Expr::ListComp(x) => self.comprehension_element(*x.elt),
            Expr::SetComp(x) => self.comprehension_element(*x.elt),
            Expr::DictComp(x) => {
                let key = self.expr(*x.key);
                key.to(key.expr(*x.value))
            },
            Expr::Generator(x) => self.comprehension_element(*x.elt),
            _ => self,
        }
    }

    /// Adds what a comprehension gives to the collection below `n` iterators, or yields it.
    #[verifier::opaque]
    pub open spec fn comprehension_collect(self, ty: ComprehensionType, n: nat) -> State {
        if ty == ComprehensionType::Generator {
            self.mark_generator().emit(Instruction::YieldValue).emit(Instruction::Pop)
        } else if n > u32::MAX {
            self.stuck()
        } else {
            self.emit(
                match ty {
                    ComprehensionType::List => Instruction::ListAppend { i: n as u32 },
                    ComprehensionType::SetDisplay => Instruction::SetAdd { i: n as u32 },
                    _ => Instruction::MapAdd { i: n as u32 },
                },
            )
        }
    }

    /// The start of the loop of a generator: its iterator, its target, and the conditions under
    /// which a turn is left out.
    #[verifier::opaque]
    pub open spec fn comprehension_loop(
        self,
        x: Comprehension,
        first: Option<u32>,
        loop_block: BlockIdx,
        after: BlockIdx,
    ) -> State
        decreases x, 0nat, 0nat,
    {
        let s = (match first {
            Some(arg0) => self.emit(Instruction::LoadFast(arg0)),
            None => self.expr(x.iter).emit(
                if x.is_async {
                    Instruction::GetAIter
                } else {
                    Instruction::GetIter
                },
            ),
        }).switch_to(loop_block);
        let t = if x.is_async {
            s.emit(Instruction::SetupExcept { handler: after }).emit(
                Instruction::GetANext,
            ).load_const(ConstantModel::NoneValue).emit(Instruction::YieldFrom)
        } else {
            s.emit(Instruction::ForIter { target: after })
        };
        let u = t.store(x.target);
        let v = if x.is_async {
            u.emit(Instruction::PopBlock)
        } else {
            u
        };
        t.to(v).to(v.jump_ifs(x.ifs@, 0, x.ifs@.len(), false, loop_block))
    }

    /// The loops of the generators `g[i..]` of a comprehension, each within the one before; the
    /// first takes the iterator that the function is called with.
    #[verifier::opaque]
    pub open spec fn comprehension_loops(
        self,
        e: Expr,
        g: Seq<Comprehension>,
        i: nat,
        arg0: u32,
    ) -> State
        decreases e, 1nat, g.len() - i,
    {
        if g != comprehension_generators(e) {
            self
        } else if i >= g.len() {
            self.comprehension_value(e).comprehension_collect(comprehension_type(e), g.len())
        } else {
            let loop_block = self.fresh();
            let s = self.new_block();
            let after = s.fresh();
            let t = s.new_block();
            let first = if i == 0 {
                Some(arg0)
            } else {
                None
            };
            let u = t.comprehension_loop(g[i as int], first, loop_block, after);
            let v = u.comprehension_loops(e, g, i + 1, arg0).emit(
                Instruction::Jump { target: loop_block },
            ).switch_to(after);
            let w = if async_generator(g, 0) {
                v.emit(Instruction::EndAsyncFor)
            } else {
                v
            };
            t.to(u).to(w)
        }
    }

    /// The function that a comprehension becomes: its one parameter is the iterator of the first
    /// generator.
    #[verifier::opaque]
    pub open spec fn comprehension_function(self, e: Expr, is_async: bool) -> State
        decreases e, 2nat, 0nat,
    {
        let g = comprehension_generators(e);
        let ty = comprehension_type(e);
        let s = self.push_code(
            CodeFlags { is_coroutine: is_async, ..function_flags() },
            1,
            1,
            0,
            comprehension_name(ty),
        );
        let arg0 = s.varname_index(".0"@);
        let named = s.intern_varname(".0"@);
        let t = match ty {
            ComprehensionType::List => named.emit(Instruction::BuildList { size: 0 }),
            ComprehensionType::SetDisplay => named.emit(Instruction::BuildSet { size: 0 }),
            ComprehensionType::Dict => named.emit(Instruction::BuildMap { size: 0 }),
            ComprehensionType::Generator => named,
        };
        let u = t.to(t.comprehension_loops(e, g, 0, arg0));
        (if ty == ComprehensionType::Generator {
            u.load_const(ConstantModel::NoneValue)
        } else {
            u
        }).return_value()
    }

    /// A comprehension: a function that is called at once with the iterator of the first
    /// generator.
    #[verifier::opaque]
    pub open spec fn comprehension(self, e: Expr) -> State
        decreases e, 2nat, 1nat,
    {
        let g = comprehension_generators(e);
        let ty = comprehension_type(e);
        let is_async = comprehension_awaits(e, self.ctx.func);
        let within = self.set_ctx(self.function_ctx(is_async));
        if g.len() == 0 {
            within.stuck()
        } else {
            let t = within.comprehension_function(e, is_async).close_function(
                self.ctx,
                comprehension_name(ty),
                plain_function(),
            );
            t.to(t.expr(g[0].iter)).call_comprehension(
                async_generator(g, 0),
                is_async && ty != ComprehensionType::Generator,
            )
        }
    }

    /// Calls the function of a comprehension with the iterator of what is on the stack, and
    /// awaits its result if need be.
    #[verifier::opaque]
    pub open spec fn call_comprehension(self, async_iter: bool, awaited: bool) -> State {
        let s = self.emit(
            if async_iter {
                Instruction::GetAIter
            } else {
                Instruction::GetIter
            },
        ).emit(Instruction::CallFunctionPositional { nargs: 1 });
        if awaited {
            s.emit(Instruction::GetAwaitable).load_const(ConstantModel::NoneValue).emit(
                Instruction::YieldFrom,
            )
        } else {
            s
        }
    }

    /// Builds a string of the parts of an f-string.
    #[verifier::opaque]
    pub open spec fn fstring(self, x: FStringValue) -> State
        decreases x, 0nat, 0nat,
    {
        let s = self.fstring_parts(x.parts@, 0);
        let n = x.parts@.len();
        if n > u32::MAX {
            s.stuck()
        } else if n > 1 {
            s.emit(Instruction::BuildString { size: n as u32 })
        } else {
            s
        }
    }

    /// Evaluates the parts `s[i..]` of an f-string.
    #[verifier::opaque]
    pub open spec fn fstring_parts(self, s: Seq<FStringPart>, i: nat) -> State
        decreases s, 0nat, s.len() - i,
    {
        if i >= s.len() {
            self
        } else {
            let one = match s[i as int] {
                FStringPart::Literal(text) => self.load_const(ConstantModel::Str(text@)),
                FStringPart::FString(f) => self.fstring_elements(f.elements@),
            };
            one.to(one.fstring_parts(s, i + 1))
        }
    }

    /// Builds a string of elements.
    #[verifier::opaque]
    pub open spec fn fstring_elements(self, s: Seq<FStringElement>) -> State
        decreases s, 1nat, 0nat,
    {
        let t = self.fstring_element_values(s, 0);
        if s.len() > u32::MAX {
            t.stuck()
        } else if s.len() == 0 {
            t.load_const(ConstantModel::Str(""@))
        } else if s.len() > 1 {
            t.emit(Instruction::BuildString { size: s.len() as u32 })
        } else {
            t
        }
    }

    /// Evaluates the elements `s[i..]` of an f-string.
    #[verifier::opaque]
    pub open spec fn fstring_element_values(self, s: Seq<FStringElement>, i: nat) -> State
        decreases s, 0nat, s.len() - i,
    {
        if i >= s.len() {
            self
        } else {
            let one = match s[i as int] {
                FStringElement::Literal(text) => self.load_const(ConstantModel::Str(text@)),
                FStringElement::Expression(x) => self.fstring_expression(x),
            };
            one.to(one.fstring_element_values(s, i + 1))
        }
    }

    /// Loads the text of a `{expression=}` element.
    #[verifier::opaque]
    pub open spec fn debug_text(self, text: Option<DebugText>) -> State {
        match text {
            Some(text) => self.load_const(ConstantModel::Str(text.leading@)).load_const(
                ConstantModel::Str(text.source@),
            ).load_const(ConstantModel::Str(text.trailing@)),
            None => self,
        }
    }

    /// Evaluates and formats an expression of an f-string.
    #[verifier::opaque]
    pub open spec fn fstring_expression(self, x: FStringExpressionElement) -> State
        decreases x, 0nat, 0nat,
    {
        let s = self.debug_text(x.debug_text);
        let t = match x.format_spec {
            Some(spec) => s.fstring_elements(spec.elements@),
            None => s.load_const(ConstantModel::Str(""@)),
        };
        let u = t.expr(*x.expression).emit(
            Instruction::FormatValue { conversion: element_conversion(x) },
        );
        let v = if x.debug_text is Some {
            u.emit(Instruction::BuildString { size: 4 })
        } else {
            u
        };
        s.to(t).to(v)
    }
}

impl State {
    /// Refuses forbidden names among the keywords `s[i..]`.
    #[verifier::opaque]
    pub open spec fn check_keywords(self, s: Seq<Keyword>, i: nat) -> State
        decreases s.len() - i,
    {
        if !self.running() || i >= s.len() {
            self
        } else {
            let one = match s[i as int].arg {
                Some(name) => self.check_name(name@, NameUsage::Store),
                None => self,
            };
            one.to(one.check_keywords(s, i + 1))
        }
    }

    /// Makes local variables of the parameters `s[i..]`: of those with a default, of those
    /// without one, or of both.
    #[verifier::opaque]
    pub open spec fn varnames(
        self,
        s: Seq<ParameterWithDefault>,
        i: nat,
        without: bool,
        with: bool,
    ) -> State
        decreases s.len() - i,
    {
        if !self.running() || i >= s.len() {
            self
        } else {
            let has_default = s[i as int].default is Some;
            let one = if (has_default && with) || (!has_default && without) {
                self.intern_varname(s[i as int].parameter.name@)
            } else {
                self
            };
            one.to(one.varnames(s, i + 1, without, with))
        }
    }

    /// Makes a local variable of a `*` parameter.
    #[verifier::opaque]
    pub open spec fn vararg(self, p: Option<Box<Parameter>>) -> State {
        match p {
            Some(p) if self.running() => self.mark_varargs().intern_varname(p.name@),
            _ => self,
        }
    }

    /// Makes a local variable of a `**` parameter.
    #[verifier::opaque]
    pub open spec fn kwarg(self, p: Option<Box<Parameter>>) -> State {
        match p {
            Some(p) if self.running() => self.mark_varkeywords().intern_varname(p.name@),
            _ => self,
        }
    }

    /// Makes local variables of the positional parameters of a function.
    #[verifier::opaque]
    pub open spec fn positional(self, p: Parameters) -> State {
        self.varnames(p.posonlyargs@, 0, true, true).varnames(p.args@, 0, true, true)
    }

    /// Makes local variables of the keyword-only parameters of a function.
    #[verifier::opaque]
    pub open spec fn keyword_only(self, p: Parameters) -> State {
        self.varnames(p.kwonlyargs@, 0, true, false).varnames(p.kwonlyargs@, 0, false, true)
    }

    /// Makes local variables of the parameters of a function, in the order in which they are
    /// passed: keyword-only ones without a default before those with one, then `*` and `**`.
    #[verifier::opaque]
    pub open spec fn parameters(self, p: Parameters) -> State {
        self.positional(p).keyword_only(p).vararg(p.vararg).kwarg(p.kwarg)
    }
}

pub broadcast proof fn halted_check_keywords(s: State, keywords: Seq<Keyword>, i: nat)
    requires
        !s.running(),
    ensures
        #[trigger] s.check_keywords(keywords, i) == s,
{
    reveal(State::check_keywords);
}

pub broadcast proof fn halted_varnames(
    s: State,
    parameters: Seq<ParameterWithDefault>,
    i: nat,
    without: bool,
    with: bool,
)
    requires
        !s.running(),
    ensures
        #[trigger] s.varnames(parameters, i, without, with) == s,
{
    reveal(State::varnames);
}

pub broadcast proof fn halted_vararg(s: State, p: Option<Box<Parameter>>)
    requires
        !s.running(),
    ensures
        #[trigger] s.vararg(p) == s,
{
    reveal(State::vararg);
}

pub broadcast proof fn halted_kwarg(s: State, p: Option<Box<Parameter>>)
    requires
        !s.running(),
    ensures
        #[trigger] s.kwarg(p) == s,
{
    reveal(State::kwarg);
}

pub broadcast proof fn halted_positional(s: State, p: Parameters)
    requires
        !s.running(),
    ensures
        #[trigger] s.positional(p) == s,
{
    broadcast use halted_varnames;

    reveal(State::positional);
}

pub broadcast proof fn halted_keyword_only(s: State, p: Parameters)
    requires
        !s.running(),
    ensures
        #[trigger] s.keyword_only(p) == s,
{
    broadcast use halted_varnames;

    reveal(State::keyword_only);
}

pub broadcast proof fn halted_parameters(s: State, p: Parameters)
    requires
        !s.running(),
    ensures
        #[trigger] s.parameters(p) == s,
{
    broadcast use {halted_positional, halted_keyword_only, halted_vararg, halted_kwarg};

    reveal(State::parameters);
}

pub broadcast proof fn halted_make_function(
    s: State,
    code: CodeModel,
    optimize: u8,
    name: Seq<char>,
    flags: MakeFunctionFlags,
)
    requires
        !s.running(),
    ensures
        #[trigger] s.make_function(code, optimize, name, flags) == s,
{
    reveal(State::make_function);
}

pub broadcast proof fn halted_comprehension_collect(s: State, ty: ComprehensionType, n: nat)
    requires
        !s.running(),
    ensures
        #[trigger] s.comprehension_collect(ty, n) == s,
{
    reveal(State::comprehension_collect);
}

pub broadcast proof fn halted_call_comprehension(s: State, async_iter: bool, awaited: bool)
    requires
        !s.running(),
    ensures
        #[trigger] s.call_comprehension(async_iter, awaited) == s,
{
    reveal(State::call_comprehension);
}

pub broadcast proof fn halted_close_function(
    s: State,
    ctx: CompileContext,
    name: Seq<char>,
    flags: MakeFunctionFlags,
)
    requires
        !s.running(),
    ensures
        #[trigger] s.close_function(ctx, name, flags) == s,
{
    broadcast use halted_make_function;

    reveal(State::close_function);
}

pub broadcast group group_halted_parts {
    halted_close_function,
    halted_comprehension_collect,
    halted_call_comprehension,
    halted_check_keywords,
    halted_varnames,
    halted_vararg,
    halted_kwarg,
    halted_positional,
    halted_keyword_only,
    halted_parameters,
    halted_make_function,
}

} // verus!
