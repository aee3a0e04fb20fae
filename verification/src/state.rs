//! The state of a compilation, and what each step of the compiler does to it.
//!
//! A step on a state that has halted leaves it as it is, so the code of a construct is a chain of
//! steps: the first one that halts decides how the chain ends. Where a step is itself the code of
//! a construct, `to` says that the chain goes on to it only from a running state.
use vstd::prelude::*;

use crate::ast::TextRange;
use crate::bytecode::{
    empty_block, BlockIdx, BlockModel, CodeFlags, CodeModel, ConstantModel, Instruction,
    InstructionInfo, NULL,
};
use crate::error::{CodegenError, ErrorKind, ErrorModel};
use crate::pool::{constant_slot, item_slot, with_constant, with_item};
use crate::symboltable::{found_symbol, mangled, Symbol, SymbolEntry, SymbolScope, SymbolTable};
use crate::text::position;
use crate::validity::code_ok;

verus! {

#[derive(Debug, Clone, Copy, PartialEq, Eq, Structural)]
pub enum NameUsage {
    Load,
    Store,
    Delete,
}

/// How far a module is past the place where `from __future__` imports may stand.
#[derive(Debug, Clone, Copy, PartialEq, Eq, Structural)]
pub enum DoneWithFuture {
    No,
    DoneWithDoc,
    Yes,
}

#[derive(Debug, Clone, Copy, PartialEq, Eq, Structural)]
pub enum FunctionContext {
    NoFunction,
    Function,
    AsyncFunction,
}

/// What surrounds the code that is being compiled.
#[derive(Debug, Clone, Copy)]
pub struct CompileContext {
    /// Where `continue` and `break` go to.
    pub loop_data: Option<(BlockIdx, BlockIdx)>,
    pub in_class: bool,
    pub func: FunctionContext,
}

impl CompileContext {
    pub open spec fn within_func(self) -> bool {
        self.func != FunctionContext::NoFunction
    }

    pub fn in_func(self) -> (r: bool)
        ensures
            r == self.within_func(),
    {
        self.func != FunctionContext::NoFunction
    }
}

/// Why the compiler stopped before the end.
pub enum Halt {
    /// The program has an error.
    Error(CodegenError),
    /// The syntax tree or the symbol table is not one that a parser gives, a construct is not
    /// supported at all, or a count does not fit.
    Panic,
}

/// Whether and how a compilation has halted.
pub enum Status {
    Running,
    Failed(ErrorModel),
    Stuck,
}

impl Halt {
    pub open spec fn status(self) -> Status {
        match self {
            Halt::Error(e) => Status::Failed(e@),
            Halt::Panic => Status::Stuck,
        }
    }
}

/// A symbol table in use: the tables within it are taken one after the other, in source order.
pub struct FrameModel {
    pub table: SymbolTable,
    pub next: nat,
}

/// The pools of names that an instruction may index.
pub enum Pool {
    Names,
    Varnames,
    Cellvars,
    Freevars,
}

/// The state of a compilation.
pub struct State {
    pub status: Status,
    /// The code units that are being compiled, the innermost last.
    pub codes: Seq<CodeModel>,
    /// The symbol tables of the scopes around, the innermost last.
    pub tables: Seq<FrameModel>,
    pub range: TextRange,
    pub path: Seq<char>,
    pub qualified: Seq<Seq<char>>,
    pub future: DoneWithFuture,
    pub future_annotations: bool,
    pub ctx: CompileContext,
    pub class_name: Option<Seq<char>>,
    pub optimize: u8,
}

/// The state that a step leaves which ended in `r`.
pub open spec fn outcome<T>(s: State, r: Result<T, Halt>) -> State {
    match r {
        Ok(_) => s,
        Err(h) => State { status: h.status(), ..s },
    }
}

/// Whether an error that a step ended in says where it was found: at a place in the source that
/// is being compiled.
pub open spec fn located<T>(r: Result<T, Halt>, s: State) -> bool {
    r matches Err(Halt::Error(e)) ==> e@.location is Some && e@.source_path == s.path
}

/// The only name that no code may assign to or delete.
pub open spec fn forbidden_name(name: Seq<char>) -> bool {
    name == "__debug__"@
}

/// A pool of a code unit.
pub open spec fn pool_of(c: CodeModel, p: Pool) -> Seq<Seq<char>> {
    match p {
        Pool::Names => c.names,
        Pool::Varnames => c.varnames,
        Pool::Cellvars => c.cellvars,
        Pool::Freevars => c.freevars,
    }
}

/// A code unit with one of its pools replaced.
pub open spec fn with_pool(c: CodeModel, p: Pool, s: Seq<Seq<char>>) -> CodeModel {
    match p {
        Pool::Names => CodeModel { names: s, ..c },
        Pool::Varnames => CodeModel { varnames: s, ..c },
        Pool::Cellvars => CodeModel { cellvars: s, ..c },
        Pool::Freevars => CodeModel { freevars: s, ..c },
    }
}

/// The pool that holds the name of a symbol.
pub open spec fn pool_for(scope: SymbolScope, in_func: bool) -> Pool {
    match scope {
        SymbolScope::Local => if in_func {
            Pool::Varnames
        } else {
            Pool::Names
        },
        SymbolScope::Free => Pool::Freevars,
        SymbolScope::Cell => Pool::Cellvars,
        _ => Pool::Names,
    }
}

/// The instruction that loads, stores or deletes the name of a symbol: a fast local in a
/// function, a cell or free variable, a global where one is declared or where a function uses a
/// name that nothing binds, and otherwise whatever the scope holds under the name.
pub open spec fn name_instruction(
    scope: SymbolScope,
    ctx: CompileContext,
    usage: NameUsage,
    idx: u32,
) -> Instruction {
    match scope {
        SymbolScope::Free | SymbolScope::Cell => match usage {
            NameUsage::Load => if !ctx.within_func() && ctx.in_class {
                Instruction::LoadClassDeref(idx)
            } else {
                Instruction::LoadDeref(idx)
            },
            NameUsage::Store => Instruction::StoreDeref(idx),
            NameUsage::Delete => Instruction::DeleteDeref(idx),
        },
        _ => if scope == SymbolScope::Local && ctx.within_func() {
            match usage {
                NameUsage::Load => Instruction::LoadFast(idx),
                NameUsage::Store => Instruction::StoreFast(idx),
                NameUsage::Delete => Instruction::DeleteFast(idx),
            }
        } else if scope == SymbolScope::GlobalExplicit || (scope != SymbolScope::Local
            && ctx.within_func()) {
            match usage {
                NameUsage::Load => Instruction::LoadGlobal(idx),
                NameUsage::Store => Instruction::StoreGlobal(idx),
                NameUsage::Delete => Instruction::DeleteGlobal(idx),
            }
        } else {
            match usage {
                NameUsage::Load => Instruction::LoadNameAny(idx),
                NameUsage::Store => Instruction::StoreLocal(idx),
                NameUsage::Delete => Instruction::DeleteLocal(idx),
            }
        },
    }
}

/// The names among the first `n` symbols that are cells.
pub open spec fn cell_names(s: Seq<SymbolEntry>, n: nat) -> Seq<Seq<char>>
    decreases n,
{
    if n == 0 || n > s.len() {
        Seq::empty()
    } else {
        let before = cell_names(s, (n - 1) as nat);
        if s[n - 1].symbol.scope == SymbolScope::Cell {
            with_item(before, s[n - 1].name@)
        } else {
            before
        }
    }
}

/// The names among the first `n` symbols that are free, or free in a scope nested in a class.
pub open spec fn free_names(s: Seq<SymbolEntry>, n: nat) -> Seq<Seq<char>>
    decreases n,
{
    if n == 0 || n > s.len() {
        Seq::empty()
    } else {
        let before = free_names(s, (n - 1) as nat);
        if s[n - 1].symbol.scope == SymbolScope::Free || s[n - 1].symbol.free_class {
            with_item(before, s[n - 1].name@)
        } else {
            before
        }
    }
}

impl State {
    pub open spec fn running(self) -> bool {
        self.status is Running
    }

    /// A code unit is open, and each open one is valid.
    pub open spec fn wf(self) -> bool {
        &&& self.codes.len() > 0
        &&& forall|i: int| 0 <= i < self.codes.len() ==> code_ok(#[trigger] self.codes[i])
    }

    /// The code unit that is being compiled.
    pub open spec fn top(self) -> CodeModel {
        self.codes.last()
    }

    pub open spec fn with_top(self, c: CodeModel) -> State {
        State { codes: self.codes.update(self.codes.len() - 1, c), ..self }
    }

    /// Goes on to a later state, unless this one has halted.
    pub open spec fn to(self, later: State) -> State {
        if self.running() {
            later
        } else {
            self
        }
    }

    /// Stops with an error at a range.
    pub open spec fn fail_at(self, error: ErrorKind, range: TextRange) -> State {
        if self.running() {
            State {
                status: Status::Failed(
                    ErrorModel { location: Some(range.start), error, source_path: self.path },
                ),
                ..self
            }
        } else {
            self
        }
    }

    /// Stops with an error at the current range.
    pub open spec fn fail(self, error: ErrorKind) -> State {
        self.fail_at(error, self.range)
    }

    /// Stops where nothing sensible can be done.
    pub open spec fn stuck(self) -> State {
        if self.running() {
            State { status: Status::Stuck, ..self }
        } else {
            self
        }
    }

    pub open spec fn set_range(self, range: TextRange) -> State {
        if self.running() {
            State { range, ..self }
        } else {
            self
        }
    }

    pub open spec fn set_ctx(self, ctx: CompileContext) -> State {
        if self.running() {
            State { ctx, ..self }
        } else {
            self
        }
    }

    pub open spec fn set_loop(self, loop_data: Option<(BlockIdx, BlockIdx)>) -> State {
        if self.running() {
            State { ctx: CompileContext { loop_data, ..self.ctx }, ..self }
        } else {
            self
        }
    }

    pub open spec fn set_class(self, class_name: Option<Seq<char>>) -> State {
        if self.running() {
            State { class_name, ..self }
        } else {
            self
        }
    }

    pub open spec fn set_future(self, future: DoneWithFuture) -> State {
        if self.running() {
            State { future, ..self }
        } else {
            self
        }
    }

    pub open spec fn set_qualified(self, qualified: Seq<Seq<char>>) -> State {
        if self.running() {
            State { qualified, ..self }
        } else {
            self
        }
    }

    pub open spec fn push_path(self, name: Seq<char>) -> State {
        self.set_qualified(self.qualified.push(name))
    }

    #[verifier::opaque]
    pub open spec fn set_flags(self, flags: CodeFlags) -> State {
        if self.running() {
            self.with_top(CodeModel { flags, ..self.top() })
        } else {
            self
        }
    }

    #[verifier::opaque]
    pub open spec fn mark_generator(self) -> State {
        self.set_flags(CodeFlags { is_generator: true, ..self.top().flags })
    }

    #[verifier::opaque]
    pub open spec fn mark_coroutine(self, is_coroutine: bool) -> State {
        self.set_flags(CodeFlags { is_coroutine, ..self.top().flags })
    }

    #[verifier::opaque]
    pub open spec fn mark_varargs(self) -> State {
        self.set_flags(CodeFlags { has_varargs: true, ..self.top().flags })
    }

    #[verifier::opaque]
    pub open spec fn mark_varkeywords(self) -> State {
        self.set_flags(CodeFlags { has_varkeywords: true, ..self.top().flags })
    }

    /// Appends an instruction to the current block.
    #[verifier::opaque]
    pub open spec fn emit(self, instr: Instruction) -> State {
        if self.running() {
            let c = self.top();
            let b = c.blocks[c.current_block.0 as int];
            let info = InstructionInfo { instr, location: self.range.start };
            self.with_top(
                CodeModel {
                    blocks: c.blocks.update(
                        c.current_block.0 as int,
                        BlockModel { instructions: b.instructions.push(info), ..b },
                    ),
                    ..c
                },
            )
        } else {
            self
        }
    }

    /// The block that is allocated next.
    pub open spec fn fresh(self) -> BlockIdx {
        BlockIdx(self.top().blocks.len() as u32)
    }

    /// Allocates a block.
    #[verifier::opaque]
    pub open spec fn new_block(self) -> State {
        if !self.running() {
            self
        } else if self.top().blocks.len() > u32::MAX {
            self.stuck()
        } else {
            self.with_top(
                CodeModel { blocks: self.top().blocks.push(empty_block()), ..self.top() },
            )
        }
    }

    /// Whether the code can go on in a block: it is another one, it has no successor yet, and
    /// neither has the current one.
    pub open spec fn can_switch(self, block: BlockIdx) -> bool {
        let c = self.top();
        &&& block != c.current_block
        &&& block.0 < c.blocks.len()
        &&& c.blocks[block.0 as int].next == BlockIdx(NULL)
        &&& c.blocks[c.current_block.0 as int].next == BlockIdx(NULL)
    }

    /// Goes on in a block, into which the current one falls through.
    #[verifier::opaque]
    pub open spec fn switch_to(self, block: BlockIdx) -> State {
        if !self.running() {
            self
        } else if !self.can_switch(block) {
            self.stuck()
        } else {
            let c = self.top();
            let b = c.blocks[c.current_block.0 as int];
            self.with_top(
                CodeModel {
                    blocks: c.blocks.update(
                        c.current_block.0 as int,
                        BlockModel { next: block, ..b },
                    ),
                    current_block: block,
                    ..c
                },
            )
        }
    }

    /// Puts a constant into the pool of the code unit.
    #[verifier::opaque]
    pub open spec fn insert_const(self, c: ConstantModel) -> State {
        if self.running() {
            self.with_top(
                CodeModel { constants: with_constant(self.top().constants, c), ..self.top() },
            )
        } else {
            self
        }
    }

    /// Puts a constant into the pool, and makes sure that its place can be an argument.
    #[verifier::opaque]
    pub open spec fn intern_const(self, c: ConstantModel) -> State {
        if !self.running() {
            self
        } else if constant_slot(self.top().constants, c) > u32::MAX {
            self.insert_const(c).stuck()
        } else {
            self.insert_const(c)
        }
    }

    /// The place of a constant in the pool.
    pub open spec fn const_index(self, c: ConstantModel) -> u32 {
        constant_slot(self.top().constants, c) as u32
    }

    #[verifier::opaque]
    pub open spec fn load_const(self, c: ConstantModel) -> State {
        self.intern_const(c).emit(Instruction::LoadConst { idx: self.const_index(c) })
    }

    #[verifier::opaque]
    pub open spec fn return_const(self, c: ConstantModel) -> State {
        self.intern_const(c).emit(Instruction::ReturnConst { idx: self.const_index(c) })
    }

    /// Returns the value on the stack; a constant that the block loaded last is returned as such.
    #[verifier::opaque]
    pub open spec fn return_value(self) -> State {
        if !self.running() {
            self
        } else {
            let c = self.top();
            let b = c.blocks[c.current_block.0 as int];
            if b.instructions.len() > 0 && b.instructions.last().instr is LoadConst {
                let last = InstructionInfo {
                    instr: Instruction::ReturnConst {
                        idx: b.instructions.last().instr->LoadConst_idx,
                    },
                    ..b.instructions.last()
                };
                self.with_top(
                    CodeModel {
                        blocks: c.blocks.update(
                            c.current_block.0 as int,
                            BlockModel {
                                instructions: b.instructions.update(
                                    b.instructions.len() - 1,
                                    last,
                                ),
                                ..b
                            },
                        ),
                        ..c
                    },
                )
            } else {
                self.emit(Instruction::ReturnValue)
            }
        }
    }

    /// Puts a text into a pool of the code unit.
    #[verifier::opaque]
    pub open spec fn insert_text(self, p: Pool, text: Seq<char>) -> State {
        if self.running() {
            let c = self.top();
            self.with_top(with_pool(c, p, with_item(pool_of(c, p), text)))
        } else {
            self
        }
    }

    /// The place of a text in a pool.
    pub open spec fn text_slot(self, p: Pool, text: Seq<char>) -> nat {
        item_slot(pool_of(self.top(), p), text)
    }

    /// Puts a name, mangled where it has to be, into a pool, and makes sure that its place can be
    /// an argument.
    #[verifier::opaque]
    pub open spec fn intern(self, p: Pool, name: Seq<char>) -> State {
        let m = mangled(self.class_name, name);
        if !self.running() {
            self
        } else if self.text_slot(p, m) > u32::MAX {
            self.insert_text(p, m).stuck()
        } else {
            self.insert_text(p, m)
        }
    }

    /// Puts a name into the pool of names.
    pub open spec fn intern_name(self, name: Seq<char>) -> State {
        self.intern(Pool::Names, name)
    }

    /// The place of a name in the pool of names.
    pub open spec fn name_index(self, name: Seq<char>) -> u32 {
        self.text_slot(Pool::Names, mangled(self.class_name, name)) as u32
    }

    /// Puts the name of a parameter into the pool of local variables.
    #[verifier::opaque]
    pub open spec fn intern_varname(self, name: Seq<char>) -> State {
        if forbidden_name(name) {
            self.fail(ErrorKind::SyntaxError("cannot assign to "@ + name))
        } else {
            self.intern(Pool::Varnames, name)
        }
    }

    /// The place of a parameter in the pool of local variables.
    pub open spec fn varname_index(self, name: Seq<char>) -> u32 {
        self.text_slot(Pool::Varnames, mangled(self.class_name, name)) as u32
    }

    /// Refuses to assign to or delete a forbidden name.
    #[verifier::opaque]
    pub open spec fn check_name(self, name: Seq<char>, usage: NameUsage) -> State {
        if !forbidden_name(name) || usage == NameUsage::Load {
            self
        } else if usage == NameUsage::Store {
            self.fail(ErrorKind::SyntaxError("cannot assign to"@ + " "@ + name))
        } else {
            self.fail(ErrorKind::SyntaxError("cannot delete"@ + " "@ + name))
        }
    }

    /// Loads, stores or deletes a symbol by its mangled name.
    #[verifier::opaque]
    pub open spec fn symbol_access(self, m: Seq<char>, symbol: Symbol, usage: NameUsage) -> State {
        if !self.running() {
            self
        } else {
            let p = pool_for(symbol.scope, self.ctx.within_func());
            let after = self.insert_text(p, m);
            let idx = self.text_slot(p, m) + if symbol.scope == SymbolScope::Free {
                self.top().cellvars.len()
            } else {
                0
            };
            if idx > u32::MAX {
                after.stuck()
            } else {
                after.emit(name_instruction(symbol.scope, self.ctx, usage, idx as u32))
            }
        }
    }

    /// Loads, stores or deletes a name: one that may not be changed is refused, one that the
    /// symbol table lacks is none that a scan leaves, and `__debug__` is a constant.
    #[verifier::opaque]
    pub open spec fn name(self, name: Seq<char>, usage: NameUsage) -> State {
        let m = mangled(self.class_name, name);
        let checked = self.check_name(m, usage);
        if !checked.running() {
            checked
        } else if self.tables.len() == 0 {
            self.stuck()
        } else {
            match found_symbol(self.tables.last().table, m) {
                None => self.stuck(),
                Some(symbol) => if usage == NameUsage::Load && m == "__debug__"@ {
                    self.load_const(ConstantModel::Boolean(self.optimize == 0))
                } else {
                    self.symbol_access(m, symbol, usage)
                },
            }
        }
    }

    pub open spec fn load_name(self, name: Seq<char>) -> State {
        self.name(name, NameUsage::Load)
    }

    pub open spec fn store_name(self, name: Seq<char>) -> State {
        self.name(name, NameUsage::Store)
    }

    /// Enters the next table within the current one.
    #[verifier::opaque]
    pub open spec fn push_table(self) -> State {
        if !self.running() {
            self
        } else if self.tables.len() == 0 || self.tables.last().next
            >= self.tables.last().table.sub_tables@.len() {
            self.stuck()
        } else {
            let f = self.tables.last();
            State {
                tables: self.tables.update(
                    self.tables.len() - 1,
                    FrameModel { next: f.next + 1, ..f },
                ).push(FrameModel { table: f.table.sub_tables@[f.next as int], next: 0 }),
                ..self
            }
        }
    }

    /// Leaves the current table.
    #[verifier::opaque]
    pub open spec fn pop_table(self) -> State {
        if !self.running() {
            self
        } else if self.tables.len() == 0 {
            self.stuck()
        } else {
            State { tables: self.tables.drop_last(), ..self }
        }
    }

    /// Opens a code unit in the next table.
    #[verifier::opaque]
    pub open spec fn push_code(
        self,
        flags: CodeFlags,
        posonlyarg_count: u32,
        arg_count: u32,
        kwonlyarg_count: u32,
        obj_name: Seq<char>,
    ) -> State {
        let inner = self.push_table();
        if !inner.running() {
            inner
        } else {
            let symbols = inner.tables.last().table.symbols@;
            State {
                codes: inner.codes.push(
                    CodeModel {
                        flags,
                        posonlyarg_count,
                        arg_count,
                        kwonlyarg_count,
                        source_path: self.path,
                        first_line_number: self.range.start.row,
                        obj_name,
                        blocks: seq![empty_block()],
                        current_block: BlockIdx(0),
                        constants: Seq::empty(),
                        names: Seq::empty(),
                        varnames: Seq::empty(),
                        cellvars: cell_names(symbols, symbols.len()),
                        freevars: free_names(symbols, symbols.len()),
                    },
                ),
                ..inner
            }
        }
    }

    /// Closes the current code unit and its table, all of whose inner tables have been taken.
    #[verifier::opaque]
    pub open spec fn pop_code(self) -> State {
        if !self.running() {
            self
        } else if self.tables.len() == 0 || self.tables.last().next
            < self.tables.last().table.sub_tables@.len() || self.codes.len() < 2 {
            self.stuck()
        } else {
            State { tables: self.tables.drop_last(), codes: self.codes.drop_last(), ..self }
        }
    }

    /// Loads the cell of one free variable of an inner code unit.
    #[verifier::opaque]
    pub open spec fn load_closure(self, var: Seq<char>) -> State {
        if !self.running() {
            self
        } else if self.tables.len() == 0 {
            self.stuck()
        } else {
            match found_symbol(self.tables.last().table, var) {
                None => self.stuck(),
                Some(symbol) => {
                    let free = symbol.scope == SymbolScope::Free;
                    let cell = symbol.scope == SymbolScope::Cell;
                    let vars = if cell {
                        self.top().cellvars
                    } else {
                        self.top().freevars
                    };
                    let slot = position(vars, var);
                    let base = if free {
                        self.top().cellvars.len()
                    } else {
                        0
                    };
                    if !(free || cell || symbol.free_class) || slot is None || slot->0 + base
                        > u32::MAX {
                        self.stuck()
                    } else {
                        self.emit(Instruction::LoadClosure((slot->0 + base) as u32))
                    }
                },
            }
        }
    }

    /// Loads the cells of the free variables `vars[i..]`.
    #[verifier::opaque]
    pub open spec fn load_closures(self, vars: Seq<Seq<char>>, i: nat) -> State
        decreases vars.len() - i,
    {
        if !self.running() || i >= vars.len() {
            self
        } else {
            let one = self.load_closure(vars[i as int]);
            one.to(one.load_closures(vars, i + 1))
        }
    }

    /// Builds the closure of an inner code unit with these free variables, if there are any.
    #[verifier::opaque]
    pub open spec fn closure(self, vars: Seq<Seq<char>>) -> State {
        if !self.running() || vars.len() == 0 {
            self
        } else if vars.len() > u32::MAX {
            self.load_closures(vars, 0).stuck()
        } else {
            self.load_closures(vars, 0).emit(Instruction::BuildTuple { size: vars.len() as u32 })
        }
    }
}

/// A step leaves a halted state as it is.
pub broadcast proof fn halted_emit(s: State, i: Instruction)
    requires
        !s.running(),
    ensures
        #[trigger] s.emit(i) == s,
{
    reveal(State::emit);
}

pub broadcast proof fn halted_new_block(s: State)
    requires
        !s.running(),
    ensures
        #[trigger] s.new_block() == s,
{
    reveal(State::new_block);
}

pub broadcast proof fn halted_switch_to(s: State, b: BlockIdx)
    requires
        !s.running(),
    ensures
        #[trigger] s.switch_to(b) == s,
{
    reveal(State::switch_to);
}

pub broadcast proof fn halted_insert_const(s: State, c: ConstantModel)
    requires
        !s.running(),
    ensures
        #[trigger] s.insert_const(c) == s,
{
    reveal(State::insert_const);
}

pub broadcast proof fn halted_intern_const(s: State, c: ConstantModel)
    requires
        !s.running(),
    ensures
        #[trigger] s.intern_const(c) == s,
{
    reveal(State::intern_const);
}

pub broadcast proof fn halted_load_const(s: State, c: ConstantModel)
    requires
        !s.running(),
    ensures
        #[trigger] s.load_const(c) == s,
{
    broadcast use {halted_emit, halted_intern_const};

    reveal(State::load_const);
}

pub broadcast proof fn halted_return_const(s: State, c: ConstantModel)
    requires
        !s.running(),
    ensures
        #[trigger] s.return_const(c) == s,
{
    broadcast use {halted_emit, halted_intern_const};

    reveal(State::return_const);
}

pub broadcast proof fn halted_set_flags(s: State, flags: CodeFlags)
    requires
        !s.running(),
    ensures
        #[trigger] s.set_flags(flags) == s,
{
    reveal(State::set_flags);
}

pub broadcast proof fn halted_mark_generator(s: State)
    requires
        !s.running(),
    ensures
        #[trigger] s.mark_generator() == s,
{
    reveal(State::mark_generator);
    reveal(State::set_flags);
}

pub broadcast proof fn halted_mark_coroutine(s: State, is_coroutine: bool)
    requires
        !s.running(),
    ensures
        #[trigger] s.mark_coroutine(is_coroutine) == s,
{
    reveal(State::mark_coroutine);
    reveal(State::set_flags);
}

pub broadcast proof fn halted_return_value(s: State)
    requires
        !s.running(),
    ensures
        #[trigger] s.return_value() == s,
{
    reveal(State::return_value);
}

pub broadcast proof fn halted_intern(s: State, p: Pool, name: Seq<char>)
    requires
        !s.running(),
    ensures
        #[trigger] s.intern(p, name) == s,
{
    reveal(State::intern);
}

pub broadcast proof fn halted_intern_varname(s: State, name: Seq<char>)
    requires
        !s.running(),
    ensures
        #[trigger] s.intern_varname(name) == s,
{
    reveal(State::intern_varname);
    reveal(State::intern);
}

pub broadcast proof fn halted_check_name(s: State, name: Seq<char>, usage: NameUsage)
    requires
        !s.running(),
    ensures
        #[trigger] s.check_name(name, usage) == s,
{
    reveal(State::check_name);
}

pub broadcast proof fn halted_name(s: State, name: Seq<char>, usage: NameUsage)
    requires
        !s.running(),
    ensures
        #[trigger] s.name(name, usage) == s,
{
    reveal(State::name);
    reveal(State::check_name);
}

pub broadcast proof fn halted_push_table(s: State)
    requires
        !s.running(),
    ensures
        #[trigger] s.push_table() == s,
{
    reveal(State::push_table);
}

pub broadcast proof fn halted_pop_table(s: State)
    requires
        !s.running(),
    ensures
        #[trigger] s.pop_table() == s,
{
    reveal(State::pop_table);
}

pub broadcast proof fn halted_push_code(
    s: State,
    flags: CodeFlags,
    a: u32,
    b: u32,
    c: u32,
    name: Seq<char>,
)
    requires
        !s.running(),
    ensures
        #[trigger] s.push_code(flags, a, b, c, name) == s,
{
    reveal(State::push_code);
    reveal(State::push_table);
}

pub broadcast proof fn halted_pop_code(s: State)
    requires
        !s.running(),
    ensures
        #[trigger] s.pop_code() == s,
{
    reveal(State::pop_code);
}

pub broadcast proof fn halted_load_closures(s: State, vars: Seq<Seq<char>>, i: nat)
    requires
        !s.running(),
    ensures
        #[trigger] s.load_closures(vars, i) == s,
{
    reveal(State::load_closures);
}

pub broadcast proof fn halted_closure(s: State, vars: Seq<Seq<char>>)
    requires
        !s.running(),
    ensures
        #[trigger] s.closure(vars) == s,
{
    reveal(State::closure);
}

pub broadcast group group_halted_steps {
    halted_emit,
    halted_new_block,
    halted_switch_to,
    halted_insert_const,
    halted_intern_const,
    halted_load_const,
    halted_return_const,
    halted_set_flags,
    halted_mark_generator,
    halted_mark_coroutine,
    halted_return_value,
    halted_intern,
    halted_intern_varname,
    halted_check_name,
    halted_name,
    halted_push_table,
    halted_pop_table,
    halted_push_code,
    halted_pop_code,
    halted_load_closures,
    halted_closure,
}

} // verus!
