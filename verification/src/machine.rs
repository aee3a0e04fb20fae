//! What instructions do when they are run, on a stack of values and a stack of frames.
//!
//! A value is known by how it came about. Which way a conditional jump goes is up to the truth of
//! the value that it tests.
use vstd::prelude::*;

use crate::ast::ConversionFlag;
use crate::bytecode::{
    BinaryOperator, BlockIdx, CodeModel, ComparisonOperator, ConstantModel, Instruction,
    InstructionInfo, MakeFunctionFlags, RaiseKind, TestOperator, UnaryOperator, NULL,
};

verus! {

/// How a value comes about from others.
pub enum Made {
    /// By the operator that the source writes so.
    Binary(Seq<char>),
    InPlace(Seq<char>),
    Unary(Seq<char>),
    Compare(Seq<char>),
    /// An exception that is of a class.
    Matches,
    Attribute(Seq<char>),
    Item,
    Slice,
    Tuple,
    List,
    SetOf,
    /// A map of keys and values, each key before its value.
    MapOf,
    ChainedTuple,
    ChainedList,
    ChainedSet,
    /// The first map, updated with the second.
    Updated,
    MergedMaps,
    Joined,
    /// A value, formatted as the other says.
    Formatted(ConversionFlag),
    Call,
    CallKeyword,
    CallUnpacked,
    /// A function, of its defaults, if it has any, and its name.
    Function,
    Iterator,
    AsyncIterator,
    AsyncNext,
    Awaitable,
    /// What is sent to a generator after it gave a value.
    Sent,
    /// What an iteration or an awaitable ends with.
    Received,
    NextItem,
    /// The part of an unpacked value at a place.
    Part(nat),
    Module,
    Member(Seq<char>),
    /// What leaves a context.
    Exit,
    /// What a context gave when it was entered.
    Entered,
    ExitResult,
    Exception,
    Cell(Seq<char>),
    ClassBuilder,
    TypeParameter,
}

/// A value at run time.
pub enum Term {
    Const(ConstantModel),
    Var(Seq<char>),
    Of(Made, Seq<Term>),
}

/// What is to be done about a part of code when it is left, and the height of the stack there.
pub enum Frame {
    Loop(nat),
    Except(nat),
    Finally(nat),
    /// An exception is being handled.
    ExceptHandler(nat),
    /// A finally block is being run.
    FinallyHandler(nat),
}

/// The height of the stack at which a frame was set up.
pub open spec fn level(f: Frame) -> nat {
    match f {
        Frame::Loop(n) => n,
        Frame::Except(n) => n,
        Frame::Finally(n) => n,
        Frame::ExceptHandler(n) => n,
        Frame::FinallyHandler(n) => n,
    }
}

/// The stacks of a machine.
#[verifier::ext_equal]
pub struct Machine {
    pub stack: Seq<Term>,
    pub frames: Seq<Frame>,
}

/// What a run depends on: the truth of values, and what may be added to a collection or returned.
pub struct World {
    pub truth: spec_fn(Term) -> bool,
    /// Whether values may be added to a collection together.
    pub insert: spec_fn(Seq<Term>) -> bool,
    /// Whether a value may be returned.
    pub give: spec_fn(Term) -> bool,
}

/// Where a run goes after an instruction: on to the next one, or to a block, or either.
pub struct Flow {
    pub next: Option<Machine>,
    pub jump: Option<(BlockIdx, Machine)>,
}

impl Machine {
    /// The value that is `n` below the top.
    pub open spec fn peek(self, n: int) -> Term {
        self.stack[self.stack.len() - 1 - n]
    }

    pub open spec fn drop(self, n: int) -> Machine {
        Machine { stack: self.stack.take(self.stack.len() - n), ..self }
    }

    pub open spec fn push(self, v: Term) -> Machine {
        Machine { stack: self.stack.push(v), ..self }
    }

    /// The topmost `n` values, the lowest first.
    pub open spec fn topmost(self, n: int) -> Seq<Term> {
        self.stack.skip(self.stack.len() - n)
    }

    pub open spec fn push_all(self, v: Seq<Term>) -> Machine {
        Machine { stack: self.stack + v, ..self }
    }

    pub open spec fn enter(self, f: Frame) -> Machine {
        Machine { frames: self.frames.push(f), ..self }
    }

    pub open spec fn leave(self) -> Machine {
        Machine { frames: self.frames.drop_last(), ..self }
    }

    pub open spec fn height(self) -> nat {
        self.stack.len()
    }
}

/// The machine goes on with the next instruction.
pub open spec fn on(k: Machine) -> Option<Flow> {
    Some(Flow { next: Some(k), jump: None })
}

/// The machine goes to a block.
pub open spec fn away(target: BlockIdx, k: Machine) -> Option<Flow> {
    Some(Flow { next: None, jump: Some((target, k)) })
}

/// The run ends, or is taken up where an exception is handled.
pub open spec fn ended() -> Option<Flow> {
    Some(Flow { next: None, jump: None })
}

/// The topmost `n` values become one.
pub open spec fn make(k: Machine, n: int, how: Made) -> Option<Flow> {
    if k.height() < n {
        None
    } else {
        on(k.drop(n).push(Term::Of(how, k.topmost(n))))
    }
}

/// The topmost `n` values are taken off.
pub open spec fn consume(k: Machine, n: int) -> Option<Flow> {
    if k.height() < n {
        None
    } else {
        on(k.drop(n))
    }
}

/// The place of the innermost loop among some frames.
pub open spec fn innermost_loop(frames: Seq<Frame>) -> Option<nat>
    decreases frames.len(),
{
    if frames.len() == 0 {
        None
    } else if frames.last() is Loop {
        Some((frames.len() - 1) as nat)
    } else {
        innermost_loop(frames.drop_last())
    }
}

/// How the source writes an operator.
pub open spec fn binary_symbol(op: BinaryOperator) -> Seq<char> {
    match op {
        BinaryOperator::Power => "**"@,
        BinaryOperator::Multiply => "*"@,
        BinaryOperator::MatrixMultiply => "@"@,
        BinaryOperator::Divide => "/"@,
        BinaryOperator::FloorDivide => "//"@,
        BinaryOperator::Modulo => "%"@,
        BinaryOperator::Add => "+"@,
        BinaryOperator::Subtract => "-"@,
        BinaryOperator::Lshift => "<<"@,
        BinaryOperator::Rshift => ">>"@,
        BinaryOperator::And => "&"@,
        BinaryOperator::Xor => "^"@,
        BinaryOperator::Or => "|"@,
    }
}

pub open spec fn unary_symbol(op: UnaryOperator) -> Seq<char> {
    match op {
        UnaryOperator::Not => "not"@,
        UnaryOperator::Invert => "~"@,
        UnaryOperator::Minus => "-"@,
        UnaryOperator::Plus => "+"@,
    }
}

pub open spec fn comparison_symbol(op: ComparisonOperator) -> Seq<char> {
    match op {
        ComparisonOperator::Less => "<"@,
        ComparisonOperator::Greater => ">"@,
        ComparisonOperator::NotEqual => "!="@,
        ComparisonOperator::Equal => "=="@,
        ComparisonOperator::LessOrEqual => "<="@,
        ComparisonOperator::GreaterOrEqual => ">="@,
    }
}

pub open spec fn test_made(op: TestOperator) -> Made {
    match op {
        TestOperator::In => Made::Compare("in"@),
        TestOperator::NotIn => Made::Compare("not in"@),
        TestOperator::Is => Made::Compare("is"@),
        TestOperator::IsNot => Made::Compare("is not"@),
        TestOperator::ExceptionMatch => Made::Matches,
    }
}

/// The number of values that a function is made of, besides its code and its name.
pub open spec fn function_parts(f: MakeFunctionFlags) -> int {
    (if f.closure { 1int } else { 0 }) + (if f.annotations { 1int } else { 0 }) + (
    if f.kw_only_defaults { 1int } else { 0 }) + (if f.defaults { 1int } else { 0 }) + (
    if f.type_params { 1int } else { 0 })
}

/// What an instruction does that neither jumps nor has to do with frames, in code with these pools.
#[verifier::opaque]
pub open spec fn plain_step(w: World, p: CodeModel, k: Machine, i: Instruction) -> Option<Flow> {
    match i {
        Instruction::LoadConst { idx } => if idx < p.constants.len() {
            on(k.push(Term::Const(p.constants[idx as int])))
        } else {
            None
        },
        Instruction::LoadFast(i) => if i < p.varnames.len() {
            on(k.push(Term::Var(p.varnames[i as int])))
        } else {
            None
        },
        Instruction::LoadNameAny(i) | Instruction::LoadGlobal(i) => if i < p.names.len() {
            on(k.push(Term::Var(p.names[i as int])))
        } else {
            None
        },
        Instruction::LoadDeref(i) | Instruction::LoadClassDeref(i) => if i < (p.cellvars
            + p.freevars).len() {
            on(k.push(Term::Var((p.cellvars + p.freevars)[i as int])))
        } else {
            None
        },
        Instruction::LoadClosure(i) => if i < (p.cellvars + p.freevars).len() {
            on(k.push(Term::Of(Made::Cell((p.cellvars + p.freevars)[i as int]), Seq::empty())))
        } else {
            None
        },
        Instruction::StoreFast(_) | Instruction::StoreLocal(_) | Instruction::StoreGlobal(_)
        | Instruction::StoreDeref(_) => consume(k, 1),
        Instruction::DeleteFast(_) | Instruction::DeleteLocal(_) | Instruction::DeleteGlobal(_)
        | Instruction::DeleteDeref(_) => on(k),
        Instruction::Subscript => make(k, 2, Made::Item),
        Instruction::StoreSubscript => consume(k, 3),
        Instruction::DeleteSubscript => consume(k, 2),
        Instruction::StoreAttr { .. } => consume(k, 2),
        Instruction::DeleteAttr { .. } => consume(k, 1),
        Instruction::UnaryOperation { op } => make(k, 1, Made::Unary(unary_symbol(op))),
        Instruction::BinaryOperation { op } => make(k, 2, Made::Binary(binary_symbol(op))),
        Instruction::BinaryOperationInplace { op } => make(k, 2, Made::InPlace(binary_symbol(op))),
        Instruction::LoadAttr { idx } | Instruction::LoadMethod { idx } => if idx < p.names.len() {
            make(k, 1, Made::Attribute(p.names[idx as int]))
        } else {
            None
        },
        Instruction::TestOperation { op } => make(k, 2, test_made(op)),
        Instruction::CompareOperation { op } => make(k, 2, Made::Compare(comparison_symbol(op))),
        Instruction::Pop => consume(k, 1),
        Instruction::Rotate2 => if k.height() < 2 {
            None
        } else {
            on(k.drop(2).push(k.peek(0)).push(k.peek(1)))
        },
        Instruction::Rotate3 => if k.height() < 3 {
            None
        } else {
            on(k.drop(3).push(k.peek(0)).push(k.peek(2)).push(k.peek(1)))
        },
        Instruction::Duplicate => if k.height() < 1 {
            None
        } else {
            on(k.push(k.peek(0)))
        },
        Instruction::Duplicate2 => if k.height() < 2 {
            None
        } else {
            on(k.push(k.peek(1)).push(k.peek(0)))
        },
        Instruction::GetIter => make(k, 1, Made::Iterator),
        Instruction::GetAIter => make(k, 1, Made::AsyncIterator),
        Instruction::GetANext => if k.height() < 1 {
            None
        } else {
            on(k.push(Term::Of(Made::AsyncNext, seq![k.peek(0)])))
        },
        Instruction::GetAwaitable => make(k, 1, Made::Awaitable),
        Instruction::YieldValue => make(k, 1, Made::Sent),
        Instruction::YieldFrom => if k.height() < 2 {
            None
        } else {
            on(k.drop(2).push(Term::Of(Made::Received, seq![k.peek(1)])))
        },
        Instruction::MakeFunction(f) => if k.height() < function_parts(f) + 2 {
            None
        } else {
            on(
                k.drop(function_parts(f) + 2).push(
                    Term::Of(
                        Made::Function,
                        k.drop(2).topmost(function_parts(f)).push(k.peek(0)),
                    ),
                ),
            )
        },
        Instruction::CallFunctionPositional { nargs } | Instruction::CallMethodPositional {
            nargs,
        } => make(k, nargs + 1, Made::Call),
        Instruction::CallFunctionKeyword { nargs } | Instruction::CallMethodKeyword {
            nargs,
        } => make(k, nargs + 2, Made::CallKeyword),
        Instruction::CallFunctionEx { has_kwargs } | Instruction::CallMethodEx {
            has_kwargs,
        } => make(
            k,
            if has_kwargs {
                3
            } else {
                2
            },
            Made::CallUnpacked,
        ),
        Instruction::BuildString { size } => make(k, size as int, Made::Joined),
        Instruction::BuildTuple { size } => make(k, size as int, Made::Tuple),
        Instruction::BuildTupleUnpack { size } => make(k, size as int, Made::ChainedTuple),
        Instruction::BuildList { size } => make(k, size as int, Made::List),
        Instruction::BuildListUnpack { size } => make(k, size as int, Made::ChainedList),
        Instruction::BuildSet { size } => make(k, size as int, Made::SetOf),
        Instruction::BuildSetUnpack { size } => make(k, size as int, Made::ChainedSet),
        Instruction::BuildMap { size } => make(k, 2 * size, Made::MapOf),
        Instruction::BuildMapForCall { size } => make(k, size as int, Made::MergedMaps),
        Instruction::DictUpdate => make(k, 2, Made::Updated),
        Instruction::BuildSlice { step } => make(
            k,
            if step {
                3
            } else {
                2
            },
            Made::Slice,
        ),
        Instruction::ListAppend { i } => add_to(w, k, 1, i, Made::List),
        Instruction::SetAdd { i } => add_to(w, k, 1, i, Made::SetOf),
        Instruction::MapAdd { i } => add_to(w, k, 2, i, Made::MapOf),
        Instruction::PrintExpr => consume(k, 1),
        Instruction::LoadBuildClass => on(k.push(Term::Of(Made::ClassBuilder, Seq::empty()))),
        Instruction::UnpackSequence { size } => if k.height() < 1 {
            None
        } else {
            on(unpacked(k.drop(1), k.peek(0), size as nat))
        },
        Instruction::UnpackEx { args } => if k.height() < 1 {
            None
        } else {
            on(unpacked(k.drop(1), k.peek(0), (args.before + 1 + args.after) as nat))
        },
        Instruction::FormatValue { conversion } => make(k, 2, Made::Formatted(conversion)),
        Instruction::ImportName { .. } | Instruction::ImportNameless => make(k, 2, Made::Module),
        Instruction::ImportFrom { idx } => if k.height() < 1 || idx >= p.names.len() {
            None
        } else {
            on(k.push(Term::Of(Made::Member(p.names[idx as int]), seq![k.peek(0)])))
        },
        Instruction::ImportStar => consume(k, 1),
        Instruction::SetupAnnotation => on(k),
        Instruction::BeforeAsyncWith => if k.height() < 1 {
            None
        } else {
            on(
                k.drop(1).push(Term::Of(Made::Exit, k.topmost(1))).push(
                    Term::Of(Made::Entered, k.topmost(1)),
                ),
            )
        },
        Instruction::TypeVar | Instruction::TypeVarTuple | Instruction::ParamSpec => make(
            k,
            1,
            Made::TypeParameter,
        ),
        Instruction::TypeVarWithBound => make(k, 2, Made::TypeParameter),
        _ => None,
    }
}

/// The topmost `n` values are added to the collection that is then `i` below the top.
pub open spec fn add_to(w: World, k: Machine, n: int, i: u32, how: Made) -> Option<Flow> {
    if k.height() < n + i + 1 || !(w.insert)(k.topmost(n)) || !is_made(k.peek(n + i), how) {
        None
    } else {
        on(k.drop(n))
    }
}

/// Whether a value came about in a way.
pub open spec fn is_made(v: Term, how: Made) -> bool {
    v matches Term::Of(m, _) && m == how
}

/// The parts of an unpacked value on the stack, the first on top.
pub open spec fn unpacked(k: Machine, v: Term, n: nat) -> Machine
    decreases n,
{
    if n == 0 {
        k
    } else {
        unpacked(k.push(Term::Of(Made::Part((n - 1) as nat), seq![v])), v, (n - 1) as nat)
    }
}

/// What an instruction does that jumps, ends the run, or has to do with frames. Where code is set
/// up to handle exceptions, the run may go there from then on, with the stack as it is there.
#[verifier::opaque]
pub open spec fn leap(w: World, p: CodeModel, k: Machine, i: Instruction) -> Option<Flow> {
    match i {
        Instruction::Jump { target } => away(target, k),
        Instruction::JumpIfTrue { target } => conditional(w, k, true, target),
        Instruction::JumpIfFalse { target } => conditional(w, k, false, target),
        Instruction::JumpIfTrueOrPop { target } => deciding(w, k, true, target),
        Instruction::JumpIfFalseOrPop { target } => deciding(w, k, false, target),
        Instruction::ForIter { target } => if k.height() < 1 {
            None
        } else {
            Some(
                Flow {
                    next: Some(k.push(Term::Of(Made::NextItem, seq![k.peek(0)]))),
                    jump: Some((target, k.drop(1))),
                },
            )
        },
        Instruction::Break { target } => match innermost_loop(k.frames) {
            Some(j) => away(
                target,
                Machine {
                    stack: k.stack.take(level(k.frames[j as int]) as int),
                    frames: k.frames.take(j as int),
                },
            ),
            None => None,
        },
        Instruction::Continue { target } => match innermost_loop(k.frames) {
            Some(j) => away(
                target,
                Machine {
                    stack: if j + 1 < k.frames.len() {
                        k.stack.take(level(k.frames[j as int + 1]) as int)
                    } else {
                        k.stack
                    },
                    frames: k.frames.take(j as int + 1),
                },
            ),
            None => None,
        },
        Instruction::ReturnValue => if k.height() < 1 || !(w.give)(k.peek(0)) {
            None
        } else {
            ended()
        },
        Instruction::ReturnConst { idx } => if idx >= p.constants.len() || !(w.give)(
            Term::Const(p.constants[idx as int]),
        ) {
            None
        } else {
            ended()
        },
        Instruction::Raise { kind } => if k.height() < (match kind {
            RaiseKind::Reraise => 0int,
            RaiseKind::Raise => 1,
            RaiseKind::RaiseCause => 2,
        }) {
            None
        } else {
            ended()
        },
        Instruction::SetupLoop => on(k.enter(Frame::Loop(k.height()))),
        Instruction::SetupExcept { handler } => Some(
            Flow {
                next: Some(k.enter(Frame::Except(k.height()))),
                jump: Some((handler, caught(k))),
            },
        ),
        Instruction::SetupFinally { handler } => Some(
            Flow {
                next: Some(k.enter(Frame::Finally(k.height()))),
                jump: Some((handler, k.enter(Frame::FinallyHandler(k.height())))),
            },
        ),
        Instruction::SetupWith { end } => if k.height() < 1 {
            None
        } else {
            let e = k.drop(1).push(Term::Of(Made::Exit, k.topmost(1)));
            Some(
                Flow {
                    next: Some(
                        e.enter(Frame::Finally(e.height())).push(
                            Term::Of(Made::Entered, k.topmost(1)),
                        ),
                    ),
                    jump: Some((end, e.enter(Frame::FinallyHandler(e.height())))),
                },
            )
        },
        Instruction::SetupAsyncWith { end } => if k.height() < 1 {
            None
        } else {
            let e = k.drop(1);
            Some(
                Flow {
                    next: Some(e.enter(Frame::Finally(e.height())).push(k.peek(0))),
                    jump: Some((end, e.enter(Frame::FinallyHandler(e.height())))),
                },
            )
        },
        Instruction::WithCleanupStart => if k.frames.len() == 0 || !(k.frames.last() is FinallyHandler)
            || k.height() < 1 || !(k.peek(0) matches Term::Of(Made::Exit, _)) {
            None
        } else {
            on(k.drop(1).push(Term::Of(Made::ExitResult, k.topmost(1))))
        },
        Instruction::WithCleanupFinish => if k.frames.len() == 0 || !(k.frames.last() is FinallyHandler)
            || k.height() < 1 {
            None
        } else {
            on(k.drop(1).leave())
        },
        Instruction::PopBlock => if k.frames.len() == 0 || k.frames.last() is ExceptHandler
            || k.frames.last() is FinallyHandler {
            None
        } else {
            on(k.leave())
        },
        Instruction::EnterFinally => on(k.enter(Frame::FinallyHandler(k.height()))),
        Instruction::EndFinally => if k.frames.len() == 0 || !(k.frames.last() is FinallyHandler) {
            None
        } else {
            on(k.leave())
        },
        Instruction::PopException => if k.frames.len() == 0 || !(k.frames.last() is ExceptHandler) {
            None
        } else {
            on(k.leave())
        },
        Instruction::EndAsyncFor => if k.frames.len() == 0 || !(k.frames.last() is ExceptHandler)
            || k.height() < 2 {
            None
        } else {
            on(k.drop(2).leave())
        },
        _ => None,
    }
}

/// The machine where an exception is handled.
pub open spec fn caught(k: Machine) -> Machine {
    k.enter(Frame::ExceptHandler(k.height())).push(Term::Of(Made::Exception, Seq::empty()))
}

/// A jump that takes the value it tests off the stack.
pub open spec fn conditional(w: World, k: Machine, condition: bool, target: BlockIdx) -> Option<
    Flow,
> {
    if k.height() < 1 {
        None
    } else if (w.truth)(k.peek(0)) == condition {
        away(target, k.drop(1))
    } else {
        on(k.drop(1))
    }
}

/// A jump that takes the value it tests off the stack only if it does not jump.
pub open spec fn deciding(w: World, k: Machine, condition: bool, target: BlockIdx) -> Option<Flow> {
    if k.height() < 1 {
        None
    } else if (w.truth)(k.peek(0)) == condition {
        away(target, k)
    } else {
        on(k.drop(1))
    }
}

/// Whether an instruction jumps, ends the run, or has to do with frames.
pub open spec fn leaps(i: Instruction) -> bool {
    match i {
        Instruction::Jump { .. } | Instruction::JumpIfTrue { .. } | Instruction::JumpIfFalse {
            ..
        } | Instruction::JumpIfTrueOrPop { .. } | Instruction::JumpIfFalseOrPop { .. }
        | Instruction::ForIter { .. } | Instruction::Break { .. } | Instruction::Continue { .. }
        | Instruction::ReturnValue | Instruction::ReturnConst { .. } | Instruction::Raise { .. }
        | Instruction::SetupLoop | Instruction::SetupExcept { .. } | Instruction::SetupFinally {
            ..
        } | Instruction::SetupWith { .. } | Instruction::SetupAsyncWith { .. }
        | Instruction::WithCleanupStart | Instruction::WithCleanupFinish | Instruction::PopBlock
        | Instruction::EnterFinally | Instruction::EndFinally | Instruction::PopException
        | Instruction::EndAsyncFor => true,
        _ => false,
    }
}

/// What an instruction does in code with these pools, unless it cannot be run.
pub open spec fn step(w: World, p: CodeModel, k: Machine, i: Instruction) -> Option<Flow> {
    if leaps(i) {
        leap(w, p, k, i)
    } else {
        plain_step(w, p, k, i)
    }
}

/// What is known of code: the machine at the start of every block that a run comes to, and where
/// the code goes on, unless no run comes there.
#[verifier::ext_equal]
pub struct Notes {
    pub at: Map<int, Machine>,
    pub cur: Option<Machine>,
}

/// Whether a jump goes to a block with the machine that is known to be there.
pub open spec fn lands(at: Map<int, Machine>, f: Flow) -> bool {
    match f.jump {
        Some((b, k)) => at.contains_key(b.0 as int) && at[b.0 as int] == k,
        None => true,
    }
}

/// Where a run is after some instructions of a block, all of whose jumps go where the notes say;
/// nothing if an instruction cannot be run or goes elsewhere.
pub open spec fn run_of(
    w: World,
    p: CodeModel,
    at: Map<int, Machine>,
    k: Machine,
    s: Seq<InstructionInfo>,
) -> Option<Option<Machine>>
    decreases s.len(),
{
    if s.len() == 0 {
        Some(Some(k))
    } else {
        match run_of(w, p, at, k, s.drop_last()) {
            None => None,
            Some(None) => Some(None),
            Some(Some(j)) => match step(w, p, j, s.last().instr) {
                None => None,
                Some(f) => if lands(at, f) {
                    Some(f.next)
                } else {
                    None
                },
            },
        }
    }
}

/// Whether the notes are true of a block that code has left: a run that starts there goes where
/// they say.
pub open spec fn block_noted(w: World, p: CodeModel, c: CodeModel, at: Map<int, Machine>, b: int) -> bool {
    match run_of(w, p, at, at[b], c.blocks[b].instructions) {
        None => false,
        Some(None) => true,
        Some(Some(k)) => at.contains_key(c.blocks[b].next.0 as int) && at[c.blocks[b].next.0 as int]
            == k,
    }
}

/// Whether notes are true of a code unit: every run goes where they say.
#[verifier::opaque]
pub open spec fn noted(w: World, p: CodeModel, c: CodeModel, n: Notes) -> bool {
    &&& c.current_block.0 < c.blocks.len()
    &&& c.blocks[c.current_block.0 as int].next == BlockIdx(NULL)
    &&& forall|b: int|
        0 <= b < c.blocks.len() && b != c.current_block.0 && (#[trigger] c.blocks[b]).next
            == BlockIdx(NULL) ==> c.blocks[b].instructions.len() == 0
    &&& forall|b: int| #[trigger] n.at.contains_key(b) ==> 0 <= b < c.blocks.len()
    &&& forall|b: int|
        #[trigger] n.at.contains_key(b) && c.blocks[b].next != BlockIdx(NULL) ==> block_noted(
            w,
            p,
            c,
            n.at,
            b,
        )
    &&& if n.at.contains_key(c.current_block.0 as int) {
        run_of(
            w,
            p,
            n.at,
            n.at[c.current_block.0 as int],
            c.blocks[c.current_block.0 as int].instructions,
        ) == Some(n.cur)
    } else {
        n.cur is None
    }
}

} // verus!
