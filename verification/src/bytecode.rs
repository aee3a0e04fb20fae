//! Instructions, constants and code objects.
use vstd::prelude::*;

use crate::ast::{ConversionFlag, SourceLocation};
use crate::bigint::bigint_value;
use crate::text::texts;
use malachite_bigint::BigInt;

verus! {

/// The number of a block within its code object.
#[derive(Debug, Clone, Copy, PartialEq, Eq, Structural)]
pub struct BlockIdx(pub u32);

/// The number that stands for no block.
pub const NULL: u32 = 0xffff_ffff;

#[derive(Debug, Clone, Copy, PartialEq, Eq, Structural)]
pub enum RaiseKind {
    Reraise,
    Raise,
    RaiseCause,
}

#[derive(Debug, Clone, Copy, PartialEq, Eq, Structural)]
pub enum ComparisonOperator {
    Less,
    Greater,
    NotEqual,
    Equal,
    LessOrEqual,
    GreaterOrEqual,
}

#[derive(Debug, Clone, Copy, PartialEq, Eq, Structural)]
pub enum TestOperator {
    In,
    NotIn,
    Is,
    IsNot,
    /// Two exceptions that match.
    ExceptionMatch,
}

#[derive(Debug, Clone, Copy, PartialEq, Eq, Structural)]
pub enum BinaryOperator {
    Power,
    Multiply,
    MatrixMultiply,
    Divide,
    FloorDivide,
    Modulo,
    Add,
    Subtract,
    Lshift,
    Rshift,
    And,
    Xor,
    Or,
}

#[derive(Debug, Clone, Copy, PartialEq, Eq, Structural)]
pub enum UnaryOperator {
    Not,
    Invert,
    Minus,
    Plus,
}

#[derive(Debug, Clone, Copy, PartialEq, Eq, Structural)]
pub struct UnpackExArgs {
    pub before: u8,
    pub after: u8,
}

/// What a function object is made with, besides its code and its name.
#[derive(Debug, Clone, Copy, PartialEq, Eq, Structural)]
pub struct MakeFunctionFlags {
    pub closure: bool,
    pub annotations: bool,
    pub kw_only_defaults: bool,
    pub defaults: bool,
    pub type_params: bool,
}

#[derive(Debug, Clone, Copy, PartialEq, Eq, Structural)]
pub struct CodeFlags {
    pub new_locals: bool,
    pub is_generator: bool,
    pub is_coroutine: bool,
    pub has_varargs: bool,
    pub has_varkeywords: bool,
    pub is_optimized: bool,
}

/// An instruction with its argument: an index into one of its code object's pools, a count, or
/// the block it may go to.
#[derive(Debug, Clone, Copy, PartialEq, Eq, Structural)]
#[allow(inconsistent_fields)]
pub enum Instruction {
    ImportName { idx: u32 },
    ImportNameless,
    ImportStar,
    ImportFrom { idx: u32 },
    LoadFast(u32),
    LoadNameAny(u32),
    LoadGlobal(u32),
    LoadDeref(u32),
    LoadClassDeref(u32),
    StoreFast(u32),
    StoreLocal(u32),
    StoreGlobal(u32),
    StoreDeref(u32),
    DeleteFast(u32),
    DeleteLocal(u32),
    DeleteGlobal(u32),
    DeleteDeref(u32),
    LoadClosure(u32),
    Subscript,
    StoreSubscript,
    DeleteSubscript,
    StoreAttr { idx: u32 },
    DeleteAttr { idx: u32 },
    LoadConst { idx: u32 },
    UnaryOperation { op: UnaryOperator },
    BinaryOperation { op: BinaryOperator },
    BinaryOperationInplace { op: BinaryOperator },
    LoadAttr { idx: u32 },
    TestOperation { op: TestOperator },
    CompareOperation { op: ComparisonOperator },
    Pop,
    Rotate2,
    Rotate3,
    Duplicate,
    Duplicate2,
    GetIter,
    Continue { target: BlockIdx },
    Break { target: BlockIdx },
    Jump { target: BlockIdx },
    /// Pops the top of the stack, and jumps if it is true.
    JumpIfTrue { target: BlockIdx },
    /// Pops the top of the stack, and jumps if it is false.
    JumpIfFalse { target: BlockIdx },
    /// Jumps and keeps the top of the stack if it is true, else pops it.
    JumpIfTrueOrPop { target: BlockIdx },
    /// Jumps and keeps the top of the stack if it is false, else pops it.
    JumpIfFalseOrPop { target: BlockIdx },
    MakeFunction(MakeFunctionFlags),
    CallFunctionPositional { nargs: u32 },
    CallFunctionKeyword { nargs: u32 },
    CallFunctionEx { has_kwargs: bool },
    LoadMethod { idx: u32 },
    CallMethodPositional { nargs: u32 },
    CallMethodKeyword { nargs: u32 },
    CallMethodEx { has_kwargs: bool },
    ForIter { target: BlockIdx },
    ReturnValue,
    ReturnConst { idx: u32 },
    YieldValue,
    YieldFrom,
    SetupAnnotation,
    SetupLoop,
    /// Sets up a finally handler, which is entered by a jump, an exception or a return.
    SetupFinally { handler: BlockIdx },
    /// Enters a finally block without returning, only continuing.
    EnterFinally,
    /// Marks the end of a finally block.
    EndFinally,
    SetupExcept { handler: BlockIdx },
    SetupWith { end: BlockIdx },
    WithCleanupStart,
    WithCleanupFinish,
    PopBlock,
    Raise { kind: RaiseKind },
    BuildString { size: u32 },
    BuildTuple { size: u32 },
    BuildTupleUnpack { size: u32 },
    BuildList { size: u32 },
    BuildListUnpack { size: u32 },
    BuildSet { size: u32 },
    BuildSetUnpack { size: u32 },
    BuildMap { size: u32 },
    BuildMapForCall { size: u32 },
    DictUpdate,
    BuildSlice { step: bool },
    ListAppend { i: u32 },
    SetAdd { i: u32 },
    MapAdd { i: u32 },
    PrintExpr,
    LoadBuildClass,
    UnpackSequence { size: u32 },
    UnpackEx { args: UnpackExArgs },
    FormatValue { conversion: ConversionFlag },
    PopException,
    SetupAsyncWith { end: BlockIdx },
    BeforeAsyncWith,
    GetAwaitable,
    GetAIter,
    GetANext,
    EndAsyncFor,
    TypeVar,
    TypeVarWithBound,
    TypeVarTuple,
    ParamSpec,
    TypeAlias,
}

/// An instruction and the place in the source that it comes from.
#[derive(Debug, Clone, Copy, PartialEq, Eq, Structural)]
pub struct InstructionInfo {
    pub instr: Instruction,
    pub location: SourceLocation,
}

/// A run of instructions, and the block that control falls through to.
pub struct Block {
    pub instructions: Vec<InstructionInfo>,
    pub next: BlockIdx,
}

/// A constant. Floating-point constants stand as the bits of doubles.
#[allow(inconsistent_fields)]
pub enum ConstantData {
    Tuple { elements: Vec<ConstantData> },
    Integer { value: BigInt },
    Float { value: u64 },
    Complex { re: u64, im: u64 },
    Boolean { value: bool },
    Str { value: String },
    Bytes { value: Vec<u8> },
    Code { code: Box<CodeObject> },
    NoneValue,
    Ellipsis,
}

/// A code unit: its blocks, and the pools that its instructions index.
pub struct CodeInfo {
    pub flags: CodeFlags,
    pub posonlyarg_count: u32,
    pub arg_count: u32,
    pub kwonlyarg_count: u32,
    pub source_path: String,
    pub first_line_number: u32,
    pub obj_name: String,
    pub blocks: Vec<Block>,
    pub current_block: BlockIdx,
    pub constants: Vec<ConstantData>,
    pub name_cache: Vec<String>,
    pub varname_cache: Vec<String>,
    pub cellvar_cache: Vec<String>,
    pub freevar_cache: Vec<String>,
}

/// A complete code unit, with the level at which it is to be optimised.
pub struct CodeObject {
    pub code: CodeInfo,
    pub optimize: u8,
}

/// The contents of a block.
#[verifier::ext_equal]
pub struct BlockModel {
    pub instructions: Seq<InstructionInfo>,
    pub next: BlockIdx,
}

/// The contents of a constant.
#[verifier::ext_equal]
pub enum ConstantModel {
    Tuple(Seq<ConstantModel>),
    Integer(int),
    Float(u64),
    Complex(u64, u64),
    Boolean(bool),
    Str(Seq<char>),
    Bytes(Seq<u8>),
    Code(CodeModel, u8),
    NoneValue,
    Ellipsis,
}

/// The contents of a code unit.
#[verifier::ext_equal]
pub struct CodeModel {
    pub flags: CodeFlags,
    pub posonlyarg_count: u32,
    pub arg_count: u32,
    pub kwonlyarg_count: u32,
    pub source_path: Seq<char>,
    pub first_line_number: u32,
    pub obj_name: Seq<char>,
    pub blocks: Seq<BlockModel>,
    pub current_block: BlockIdx,
    pub constants: Seq<ConstantModel>,
    pub names: Seq<Seq<char>>,
    pub varnames: Seq<Seq<char>>,
    pub cellvars: Seq<Seq<char>>,
    pub freevars: Seq<Seq<char>>,
}

/// A block without instructions, after which nothing follows.
pub open spec fn empty_block() -> BlockModel {
    BlockModel { instructions: Seq::empty(), next: BlockIdx(NULL) }
}

impl View for Block {
    type V = BlockModel;

    open spec fn view(&self) -> BlockModel {
        BlockModel { instructions: self.instructions@, next: self.next }
    }
}

/// The contents of constants, in their order.
pub open spec fn constant_models(s: Seq<ConstantData>) -> Seq<ConstantModel>
    decreases s,
{
    Seq::new(
        s.len(),
        |i: int|
            if 0 <= i < s.len() {
                constant_model(s[i])
            } else {
                ConstantModel::NoneValue
            },
    )
}

/// The contents of a constant.
pub open spec fn constant_model(c: ConstantData) -> ConstantModel
    decreases c,
{
    match c {
        ConstantData::Tuple { elements } => ConstantModel::Tuple(constant_models(elements@)),
        ConstantData::Integer { value } => ConstantModel::Integer(bigint_value(value)),
        ConstantData::Float { value } => ConstantModel::Float(value),
        ConstantData::Complex { re, im } => ConstantModel::Complex(re, im),
        ConstantData::Boolean { value } => ConstantModel::Boolean(value),
        ConstantData::Str { value } => ConstantModel::Str(value@),
        ConstantData::Bytes { value } => ConstantModel::Bytes(value@),
        ConstantData::Code { code } => ConstantModel::Code(code_model(code.code), code.optimize),
        ConstantData::NoneValue => ConstantModel::NoneValue,
        ConstantData::Ellipsis => ConstantModel::Ellipsis,
    }
}

/// The contents of a code unit.
#[verifier::opaque]
pub open spec fn code_model(c: CodeInfo) -> CodeModel
    decreases c,
{
    CodeModel {
        flags: c.flags,
        posonlyarg_count: c.posonlyarg_count,
        arg_count: c.arg_count,
        kwonlyarg_count: c.kwonlyarg_count,
        source_path: c.source_path@,
        first_line_number: c.first_line_number,
        obj_name: c.obj_name@,
        blocks: block_models(c.blocks@),
        current_block: c.current_block,
        constants: constant_models(c.constants@),
        names: texts(c.name_cache@),
        varnames: texts(c.varname_cache@),
        cellvars: texts(c.cellvar_cache@),
        freevars: texts(c.freevar_cache@),
    }
}

/// The contents of blocks, in their order.
pub open spec fn block_models(s: Seq<Block>) -> Seq<BlockModel> {
    s.map_values(|b: Block| b@)
}

impl View for ConstantData {
    type V = ConstantModel;

    open spec fn view(&self) -> ConstantModel {
        constant_model(*self)
    }
}

impl View for CodeInfo {
    type V = CodeModel;

    open spec fn view(&self) -> CodeModel {
        code_model(*self)
    }
}

} // verus!
