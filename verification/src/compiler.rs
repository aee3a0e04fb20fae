//! The compiler's own state, and the steps that everything else is made of.
use vstd::prelude::*;

use crate::ast::TextRange;
use crate::bytecode::{
    code_model, empty_block, Block, BlockIdx, CodeFlags, CodeInfo, CodeModel, CodeObject,
    ConstantData, Instruction, InstructionInfo, NULL,
};
use crate::error::{CodegenError, CodegenErrorType, ErrorModel};
use crate::pool::{constant_slot, insert_constant, insert_text};
use crate::state::{
    cell_names, forbidden_name, free_names, group_halted_steps, located, outcome, pool_of,
    CompileContext, DoneWithFuture, FrameModel, Halt, NameUsage, Pool, State, Status,
};
use crate::symboltable::{
    mangle_name, mangled, text_of_option, Symbol, SymbolEntry, SymbolScope, SymbolTable,
};
use crate::text::{joined_pair, str_eq, texts};
use crate::validity::{
    code_ok, complete, constant_ok, group_layout, instr_fits, kept, lemma_emit, lemma_insert_const,
    lemma_insert_text, lemma_new_block, lemma_return_value, lemma_switch_to, lemma_top_ok,
    loose_ends, more_ends, moved, no_blocks, one_block, opened, pending, same_tables,
};

verus! {

broadcast use {group_halted_steps, group_layout};

/// How optimised the code is to be.
#[derive(Debug, Clone, Copy)]
pub struct CompileOpts {
    /// Any level above 0 leaves assert statements out, and any above 1 leaves docstrings out.
    pub optimize: u8,
}

impl Default for CompileOpts {
    fn default() -> (r: Self)
        ensures
            r.optimize == 0,
    {
        CompileOpts { optimize: 0 }
    }
}

/// A symbol table in use, and the number of tables within it that have been taken.
pub struct Frame<'a> {
    pub table: &'a SymbolTable,
    pub next: usize,
}

impl View for Frame<'_> {
    type V = FrameModel;

    open spec fn view(&self) -> FrameModel {
        FrameModel { table: *self.table, next: self.next as nat }
    }
}

/// Main structure holding the state of compilation.
pub struct Compiler<'a> {
    pub code_stack: Vec<CodeInfo>,
    pub symbol_table_stack: Vec<Frame<'a>>,
    pub source_path: String,
    pub current_source_range: TextRange,
    pub qualified_path: Vec<String>,
    pub done_with_future_stmts: DoneWithFuture,
    pub future_annotations: bool,
    pub ctx: CompileContext,
    pub class_name: Option<String>,
    pub opts: CompileOpts,
}

/// The contents of code units, in their order.
pub open spec fn code_models(s: Seq<CodeInfo>) -> Seq<CodeModel> {
    s.map_values(|c: CodeInfo| code_model(c))
}

impl View for Compiler<'_> {
    type V = State;

    open spec fn view(&self) -> State {
        State {
            status: Status::Running,
            codes: code_models(self.code_stack@),
            tables: self.symbol_table_stack@.map_values(|f: Frame| f@),
            range: self.current_source_range,
            path: self.source_path@,
            qualified: texts(self.qualified_path@),
            future: self.done_with_future_stmts,
            future_annotations: self.future_annotations,
            ctx: self.ctx,
            class_name: text_of_option(self.class_name),
            optimize: self.opts.optimize,
        }
    }
}

/// Whether no code may assign to or delete a name.
pub fn is_forbidden_name(name: &str) -> (r: bool)
    ensures
        r == forbidden_name(name@),
{
    str_eq(name, "__debug__")
}

/// A count as an argument, if it fits.
pub fn to_u32(n: usize) -> (r: Result<u32, Halt>)
    ensures
        n <= u32::MAX ==> r == Ok::<u32, Halt>(n as u32),
        n > u32::MAX ==> r == Err::<u32, Halt>(Halt::Panic),
{
    if n <= u32::MAX as usize {
        Ok(n as u32)
    } else {
        Err(Halt::Panic)
    }
}

impl<'a> Compiler<'a> {
    /// A code unit is open, and each open one is valid.
    pub open spec fn wf(self) -> bool {
        self@.wf()
    }

    /// An error at a range of the source.
    pub fn error_ranged(&self, error: CodegenErrorType, range: TextRange) -> (r: CodegenError)
        ensures
            r@ == (ErrorModel {
                location: Some(range.start),
                error: error@,
                source_path: self@.path,
            }),
    {
        CodegenError {
            error,
            location: Some(range.start),
            source_path: self.source_path.clone(),
        }
    }

    /// An error at the current range of the source.
    pub fn error(&self, error: CodegenErrorType) -> (r: CodegenError)
        ensures
            r@ == (ErrorModel {
                location: Some(self@.range.start),
                error: error@,
                source_path: self@.path,
            }),
    {
        self.error_ranged(error, self.current_source_range)
    }

    /// Appends an instruction to the current block. Its arguments refer to what the code unit has.
    pub fn emit(&mut self, instr: Instruction)
        requires
            old(self).wf(),
            instr_fits(instr, old(self)@.top()),
        ensures
            final(self).wf(),
            final(self)@ == old(self)@.emit(instr),
            kept(old(self)@, final(self)@),
    {
        proof {
            lemma_top_ok(self@);
            lemma_emit(self@, instr);
        }
        let n: usize = self.code_stack.len();
        let location = self.current_source_range.start;
        reveal(code_model);
        assert(self@.codes[n - 1] == self.code_stack@[n - 1]@);
        let code = &mut self.code_stack[n - 1];
        let current: usize = code.current_block.0 as usize;
        let block = &mut code.blocks[current];
        block.instructions.push(InstructionInfo { instr, location });
        proof {
            reveal(State::emit);
            let next = old(self)@.emit(instr);
            assert(self.code_stack@[n - 1]@.blocks =~= next.top().blocks);
            assert(self@.codes =~= next.codes);
        }
    }

    /// Allocates a block, which waits for its code.
    pub fn new_block(&mut self) -> (r: Result<BlockIdx, Halt>)
        requires
            old(self).wf(),
        ensures
            located(r, old(self)@),
            final(self)@.path == old(self)@.path,
            final(self).wf(),
            outcome(final(self)@, r) == old(self)@.new_block(),
            r matches Ok(b) ==> {
                &&& b == old(self)@.fresh()
                &&& b.0 == old(self)@.top().blocks.len()
                &&& pending(final(self)@.top(), b)
                &&& final(self)@.top().blocks.len() == old(self)@.top().blocks.len() + 1
                &&& moved(old(self)@, final(self)@, no_blocks())
                &&& more_ends(old(self)@.top(), final(self)@.top(), 1)
            },
    {
        proof {
            if self@.new_block().running() {
                lemma_new_block(self@);
            }
        }
        reveal(State::new_block);
        let n: usize = self.code_stack.len();
        reveal(code_model);
        assert(self@.codes[n - 1] == self.code_stack@[n - 1]@);
        let idx: u32 = to_u32(self.code_stack[n - 1].blocks.len())?;
        let code = &mut self.code_stack[n - 1];
        code.blocks.push(Block { instructions: Vec::new(), next: BlockIdx(NULL) });
        proof {
            let next = old(self)@.new_block();
            assert(self.code_stack@[n - 1].blocks@.last()@ =~= empty_block());
            assert(self.code_stack@[n - 1]@.blocks =~= next.top().blocks);
            assert(self@.codes =~= next.codes);
        }
        Ok(BlockIdx(idx))
    }

    /// Goes on in a block that waits for its code. The current block falls through to it, and has
    /// not been followed by any other.
    pub fn switch_to_block(&mut self, block: BlockIdx)
        requires
            old(self).wf(),
            pending(old(self)@.top(), block),
        ensures
            final(self).wf(),
            final(self)@ == old(self)@.switch_to(block),
            final(self)@.top().current_block == block,
            moved(old(self)@, final(self)@, one_block(block)),
            more_ends(old(self)@.top(), final(self)@.top(), -1),
    {
        proof {
            lemma_top_ok(self@);
            lemma_switch_to(self@, block);
        }
        reveal(State::switch_to);
        let n: usize = self.code_stack.len();
        reveal(code_model);
        assert(self@.codes[n - 1] == self.code_stack@[n - 1]@);
        let code = &mut self.code_stack[n - 1];
        let prev: usize = code.current_block.0 as usize;
        let prev_block = &mut code.blocks[prev];
        prev_block.next = block;
        code.current_block = block;
        proof {
            let next = old(self)@.switch_to(block);
            assert(self.code_stack@[n - 1]@.blocks =~= next.top().blocks);
            assert(self@.codes =~= next.codes);
        }
    }

    /// Puts a constant into the pool of the code unit, and gives its place.
    pub fn insert_const(&mut self, constant: ConstantData) -> (r: usize)
        requires
            old(self).wf(),
            constant_ok(constant@),
        ensures
            final(self).wf(),
            final(self)@ == old(self)@.insert_const(constant@),
            r == constant_slot(old(self)@.top().constants, constant@),
            r < final(self)@.top().constants.len(),
            kept(old(self)@, final(self)@),
    {
        proof {
            lemma_insert_const(self@, constant@);
        }
        reveal(State::insert_const);
        let n: usize = self.code_stack.len();
        reveal(code_model);
        assert(self@.codes[n - 1] == self.code_stack@[n - 1]@);
        let code = &mut self.code_stack[n - 1];
        let slot: usize = insert_constant(&mut code.constants, constant);
        proof {
            let next = old(self)@.insert_const(constant@);
            assert(self.code_stack@[n - 1]@ =~= next.top());
            assert(self@.codes =~= next.codes);
        }
        slot
    }

    fn arg_constant(&mut self, constant: ConstantData) -> (r: Result<u32, Halt>)
        requires
            old(self).wf(),
            constant_ok(constant@),
        ensures
            located(r, old(self)@),
            final(self)@.path == old(self)@.path,
            final(self).wf(),
            outcome(final(self)@, r) == old(self)@.intern_const(constant@),
            r matches Ok(idx) ==> {
                &&& idx == old(self)@.const_index(constant@)
                &&& idx < final(self)@.top().constants.len()
                &&& kept(old(self)@, final(self)@)
            },
    {
        reveal(State::intern_const);
        let slot: usize = self.insert_const(constant);
        to_u32(slot)
    }

    /// Loads a constant.
    pub fn emit_load_const(&mut self, constant: ConstantData) -> (r: Result<(), Halt>)
        requires
            old(self).wf(),
            constant_ok(constant@),
        ensures
            located(r, old(self)@),
            final(self)@.path == old(self)@.path,
            final(self).wf(),
            outcome(final(self)@, r) == old(self)@.load_const(constant@),
            r is Ok ==> kept(old(self)@, final(self)@),
    {
        reveal(State::load_const);
        let idx: u32 = self.arg_constant(constant)?;
        self.emit(Instruction::LoadConst { idx });
        Ok(())
    }

    /// Returns a constant.
    pub fn emit_return_const(&mut self, constant: ConstantData) -> (r: Result<(), Halt>)
        requires
            old(self).wf(),
            constant_ok(constant@),
        ensures
            located(r, old(self)@),
            final(self)@.path == old(self)@.path,
            final(self).wf(),
            outcome(final(self)@, r) == old(self)@.return_const(constant@),
            r is Ok ==> kept(old(self)@, final(self)@),
    {
        reveal(State::return_const);
        let idx: u32 = self.arg_constant(constant)?;
        self.emit(Instruction::ReturnConst { idx });
        Ok(())
    }

    /// Returns the value on the stack.
    pub fn emit_return_value(&mut self)
        requires
            old(self).wf(),
        ensures
            final(self).wf(),
            final(self)@ == old(self)@.return_value(),
            kept(old(self)@, final(self)@),
    {
        proof {
            lemma_top_ok(self@);
            lemma_return_value(self@);
        }
        reveal(State::return_value);
        let n: usize = self.code_stack.len();
        reveal(code_model);
        assert(self@.codes[n - 1] == self.code_stack@[n - 1]@);
        let code = &self.code_stack[n - 1];
        let current: usize = code.current_block.0 as usize;
        let count: usize = code.blocks[current].instructions.len();
        if count > 0 {
            if let Instruction::LoadConst { idx } = code.blocks[current].instructions[count - 1].instr {
                let code = &mut self.code_stack[n - 1];
                let block = &mut code.blocks[current];
                let last = &mut block.instructions[count - 1];
                last.instr = Instruction::ReturnConst { idx };
                proof {
                    let next = old(self)@.return_value();
                    assert(self.code_stack@[n - 1]@.blocks =~= next.top().blocks);
                    assert(self@.codes =~= next.codes);
                }
                return ;
            }
        }
        self.emit(Instruction::ReturnValue)
    }

    /// A name as the code of the current class uses it.
    pub fn mangle(&self, name: &str) -> (r: String)
        ensures
            r@ == mangled(self@.class_name, name@),
    {
        mangle_name(&self.class_name, name)
    }

    /// Puts a text into a pool of the code unit, and gives its place.
    fn insert_text(&mut self, pool: Pool, text: &str) -> (r: usize)
        requires
            old(self).wf(),
        ensures
            final(self).wf(),
            final(self)@ == old(self)@.insert_text(pool, text@),
            r == old(self)@.text_slot(pool, text@),
            r < pool_of(final(self)@.top(), pool).len(),
            kept(old(self)@, final(self)@),
    {
        proof {
            lemma_insert_text(self@, pool, text@);
        }
        reveal(State::insert_text);
        let n: usize = self.code_stack.len();
        reveal(code_model);
        assert(self@.codes[n - 1] == self.code_stack@[n - 1]@);
        let code = &mut self.code_stack[n - 1];
        let slot: usize = match pool {
            Pool::Names => insert_text(&mut code.name_cache, text),
            Pool::Varnames => insert_text(&mut code.varname_cache, text),
            Pool::Cellvars => insert_text(&mut code.cellvar_cache, text),
            Pool::Freevars => insert_text(&mut code.freevar_cache, text),
        };
        proof {
            let next = old(self)@.insert_text(pool, text@);
            assert(self.code_stack@[n - 1]@ =~= next.top());
            assert(self@.codes =~= next.codes);
        }
        slot
    }

    fn name_inner(&mut self, pool: Pool, name: &str) -> (r: Result<u32, Halt>)
        requires
            old(self).wf(),
        ensures
            located(r, old(self)@),
            final(self)@.path == old(self)@.path,
            final(self).wf(),
            outcome(final(self)@, r) == old(self)@.intern(pool, name@),
            r matches Ok(idx) ==> {
                &&& idx == old(self)@.text_slot(pool, mangled(old(self)@.class_name, name@))
                &&& idx < pool_of(final(self)@.top(), pool).len()
                &&& kept(old(self)@, final(self)@)
            },
    {
        reveal(State::intern);
        let name = self.mangle(name);
        let slot: usize = self.insert_text(pool, name.as_str());
        to_u32(slot)
    }

    /// Puts a name into the pool of names, and gives its place.
    pub fn name(&mut self, name: &str) -> (r: Result<u32, Halt>)
        requires
            old(self).wf(),
        ensures
            located(r, old(self)@),
            final(self)@.path == old(self)@.path,
            final(self).wf(),
            outcome(final(self)@, r) == old(self)@.intern_name(name@),
            r matches Ok(idx) ==> {
                &&& idx == old(self)@.name_index(name@)
                &&& idx < final(self)@.top().names.len()
                &&& kept(old(self)@, final(self)@)
            },
    {
        self.name_inner(Pool::Names, name)
    }

    /// Whether no parameter may have a name.
    pub fn is_forbidden_arg_name(name: &str) -> (r: bool)
        ensures
            r == forbidden_name(name@),
    {
        is_forbidden_name(name)
    }

    /// Puts the name of a parameter into the pool of local variables, and gives its place.
    pub fn varname(&mut self, name: &str) -> (r: Result<u32, Halt>)
        requires
            old(self).wf(),
        ensures
            located(r, old(self)@),
            final(self)@.path == old(self)@.path,
            final(self).wf(),
            outcome(final(self)@, r) == old(self)@.intern_varname(name@),
            r matches Ok(idx) ==> {
                &&& idx == old(self)@.varname_index(name@)
                &&& idx < final(self)@.top().varnames.len()
                &&& kept(old(self)@, final(self)@)
            },
    {
        reveal(State::intern_varname);
        if Compiler::is_forbidden_arg_name(name) {
            return Err(
                Halt::Error(
                    self.error(CodegenErrorType::SyntaxError(joined_pair("cannot assign to ", name))),
                ),
            );
        }
        self.name_inner(Pool::Varnames, name)
    }

    /// Refuses to assign to or delete a forbidden name.
    pub fn check_forbidden_name(&self, name: &str, usage: NameUsage) -> (r: Result<(), Halt>)
        ensures
            located(r, self@),
            outcome(self@, r) == self@.check_name(name@, usage),
    {
        reveal(State::check_name);
        if !is_forbidden_name(name) {
            return Ok(());
        }
        let msg = match usage {
            NameUsage::Load => {
                return Ok(());
            },
            NameUsage::Store => "cannot assign to",
            NameUsage::Delete => "cannot delete",
        };
        let msg = joined_pair(msg, " ");
        let msg = joined_pair(msg.as_str(), name);
        Err(Halt::Error(self.error(CodegenErrorType::SyntaxError(msg))))
    }

    fn symbol_access(&mut self, name: &str, symbol: Symbol, usage: NameUsage) -> (r: Result<
        (),
        Halt,
    >)
        requires
            old(self).wf(),
        ensures
            located(r, old(self)@),
            final(self)@.path == old(self)@.path,
            final(self).wf(),
            outcome(final(self)@, r) == old(self)@.symbol_access(name@, symbol, usage),
            r is Ok ==> kept(old(self)@, final(self)@),
    {
        reveal(State::symbol_access);
        let n: usize = self.code_stack.len();
        reveal(code_model);
        assert(self@.codes[n - 1] == self.code_stack@[n - 1]@);
        let cells: usize = self.code_stack[n - 1].cellvar_cache.len();
        let in_func = self.ctx.in_func();
        let in_class = self.ctx.in_class;
        let pool = match symbol.scope {
            SymbolScope::Local => if in_func {
                Pool::Varnames
            } else {
                Pool::Names
            },
            SymbolScope::Free => Pool::Freevars,
            SymbolScope::Cell => Pool::Cellvars,
            _ => Pool::Names,
        };
        let slot: usize = self.insert_text(pool, name);
        let idx: u32 = if symbol.scope == SymbolScope::Free {
            if slot > u32::MAX as usize || cells > u32::MAX as usize - slot {
                return Err(Halt::Panic);
            }
            (slot + cells) as u32
        } else {
            to_u32(slot)?
        };
        let instr = match symbol.scope {
            SymbolScope::Free | SymbolScope::Cell => match usage {
                NameUsage::Load => if !in_func && in_class {
                    Instruction::LoadClassDeref(idx)
                } else {
                    Instruction::LoadDeref(idx)
                },
                NameUsage::Store => Instruction::StoreDeref(idx),
                NameUsage::Delete => Instruction::DeleteDeref(idx),
            },
            _ => if symbol.scope == SymbolScope::Local && in_func {
                match usage {
                    NameUsage::Load => Instruction::LoadFast(idx),
                    NameUsage::Store => Instruction::StoreFast(idx),
                    NameUsage::Delete => Instruction::DeleteFast(idx),
                }
            } else if symbol.scope == SymbolScope::GlobalExplicit || (symbol.scope
                != SymbolScope::Local && in_func) {
                match usage {
                    NameUsage::Load => Instruction::LoadGlobal(idx),
                    NameUsage::Store => Instruction::StoreGlobal(idx),
                    NameUsage::Delete => Instruction::DeleteGlobal(idx),
                }
            } else {
                match usage {
                    NameUsage::Load => Instruction::LoadNameAny(idx),
                    NameUsage::Store => Instruction::StoreLocal(idx),
                    NameUsage::Delete => Instruction::DeleteLocal(idx),
                }
            },
        };
        self.emit(instr);
        Ok(())
    }

    pub fn compile_name(&mut self, name: &str, usage: NameUsage) -> (r: Result<(), Halt>)
        requires
            old(self).wf(),
        ensures
            located(r, old(self)@),
            final(self)@.path == old(self)@.path,
            final(self).wf(),
            outcome(final(self)@, r) == old(self)@.name(name@, usage),
            r is Ok ==> kept(old(self)@, final(self)@),
    {
        reveal(State::name);
        let name = self.mangle(name);
        self.check_forbidden_name(name.as_str(), usage)?;
        let n: usize = self.symbol_table_stack.len();
        if n == 0 {
            return Err(Halt::Panic);
        }
        assert(self@.tables.last() == self.symbol_table_stack@[n - 1]@);
        let symbol = match self.symbol_table_stack[n - 1].table.lookup(name.as_str()) {
            Some(symbol) => symbol,
            None => {
                return Err(Halt::Panic);
            },
        };
        if usage == NameUsage::Load && str_eq(name.as_str(), "__debug__") {
            return self.emit_load_const(
                ConstantData::Boolean { value: self.opts.optimize == 0 },
            );
        }
        self.symbol_access(name.as_str(), symbol, usage)
    }

    pub fn load_name(&mut self, name: &str) -> (r: Result<(), Halt>)
        requires
            old(self).wf(),
        ensures
            located(r, old(self)@),
            final(self)@.path == old(self)@.path,
            final(self).wf(),
            outcome(final(self)@, r) == old(self)@.load_name(name@),
            r is Ok ==> kept(old(self)@, final(self)@),
    {
        self.compile_name(name, NameUsage::Load)
    }

    pub fn store_name(&mut self, name: &str) -> (r: Result<(), Halt>)
        requires
            old(self).wf(),
        ensures
            located(r, old(self)@),
            final(self)@.path == old(self)@.path,
            final(self).wf(),
            outcome(final(self)@, r) == old(self)@.store_name(name@),
            r is Ok ==> kept(old(self)@, final(self)@),
    {
        self.compile_name(name, NameUsage::Store)
    }

    /// Push the next symbol table on to the stack
    pub fn push_symbol_table(&mut self) -> (r: Result<(), Halt>)
        requires
            old(self).wf(),
        ensures
            located(r, old(self)@),
            final(self)@.path == old(self)@.path,
            final(self).wf(),
            outcome(final(self)@, r) == old(self)@.push_table(),
            r is Ok ==> {
                &&& final(self)@.tables.len() == old(self)@.tables.len() + 1
                &&& same_tables(old(self)@.tables, final(self)@.tables.drop_last())
                &&& final(self)@ == (State { tables: final(self)@.tables, ..old(self)@ })
            },
    {
        reveal(State::push_table);
        let n: usize = self.symbol_table_stack.len();
        if n == 0 {
            return Err(Halt::Panic);
        }
        assert(self@.tables.last() == self.symbol_table_stack@[n - 1]@);
        let table = self.symbol_table_stack[n - 1].table;
        let next: usize = self.symbol_table_stack[n - 1].next;
        if next >= table.sub_tables.len() {
            return Err(Halt::Panic);
        }
        self.symbol_table_stack[n - 1].next = next + 1;
        self.symbol_table_stack.push(Frame { table: &table.sub_tables[next], next: 0 });
        assert(self@.tables =~= old(self)@.push_table().tables);
        assert(self@.tables.drop_last().drop_last() =~= old(self)@.tables.drop_last());
        Ok(())
    }

    /// Pop the current symbol table off the stack
    pub fn pop_symbol_table(&mut self) -> (r: Result<(), Halt>)
        requires
            old(self).wf(),
        ensures
            located(r, old(self)@),
            final(self)@.path == old(self)@.path,
            final(self).wf(),
            outcome(final(self)@, r) == old(self)@.pop_table(),
            r is Ok ==> final(self)@ == (State {
                tables: old(self)@.tables.drop_last(),
                ..old(self)@
            }),
    {
        reveal(State::pop_table);
        match self.symbol_table_stack.pop() {
            Some(_) => {
                assert(self@.tables =~= old(self)@.pop_table().tables);
                Ok(())
            },
            None => {
                assert(self@.tables =~= old(self)@.tables);
                Err(Halt::Panic)
            },
        }
    }

    pub fn push_output(
        &mut self,
        flags: CodeFlags,
        posonlyarg_count: u32,
        arg_count: u32,
        kwonlyarg_count: u32,
        obj_name: &str,
    ) -> (r: Result<(), Halt>)
        requires
            old(self).wf(),
        ensures
            located(r, old(self)@),
            final(self)@.path == old(self)@.path,
            final(self).wf(),
            outcome(final(self)@, r) == old(self)@.push_code(
                flags,
                posonlyarg_count,
                arg_count,
                kwonlyarg_count,
                obj_name@,
            ),
            r is Ok ==> opened(old(self)@, final(self)@) && final(self)@ == (State {
                codes: final(self)@.codes,
                tables: final(self)@.tables,
                ..old(self)@
            }),
    {
        reveal(State::push_code);
        reveal(code_model);
        let source_path = self.source_path.clone();
        let first_line_number: u32 = self.current_source_range.start.row;
        self.push_symbol_table()?;
        proof {
            reveal(State::push_table);
        }
        let n: usize = self.symbol_table_stack.len();
        assert(self@.tables.last() == self.symbol_table_stack@[n - 1]@);
        let table = self.symbol_table_stack[n - 1].table;
        let cellvar_cache = names_of_cells(&table.symbols);
        let freevar_cache = names_of_free(&table.symbols);
        let mut blocks: Vec<Block> = Vec::new();
        blocks.push(Block { instructions: Vec::new(), next: BlockIdx(NULL) });
        assert(blocks@[0]@ =~= empty_block());
        let info = CodeInfo {
            flags,
            posonlyarg_count,
            arg_count,
            kwonlyarg_count,
            source_path,
            first_line_number,
            obj_name: obj_name.to_owned(),
            blocks,
            current_block: BlockIdx(0),
            constants: Vec::new(),
            name_cache: Vec::new(),
            varname_cache: Vec::new(),
            cellvar_cache,
            freevar_cache,
        };
        let ghost inner = self@;
        self.code_stack.push(info);
        proof {
            let next = old(self)@.push_code(
                flags,
                posonlyarg_count,
                arg_count,
                kwonlyarg_count,
                obj_name@,
            );
            assert(info@.blocks =~= next.top().blocks);
            assert(info@.constants =~= next.top().constants);
            assert(info@.names =~= next.top().names);
            assert(info@.varnames =~= next.top().varnames);
            assert(self@.codes =~= inner.codes.push(info@));
            assert(self@.codes =~= next.codes);
            assert(self@.codes.drop_last() =~= inner.codes);
            reveal(code_ok);
            assert(code_ok(info@));
            assert(complete(info@)) by {
                reveal_with_fuel(loose_ends, 2);
            }
            assert forall|i: int| 0 <= i < self@.codes.len() implies code_ok(
                #[trigger] self@.codes[i],
            ) by {
                if i < inner.codes.len() {
                    assert(code_ok(inner.codes[i]));
                }
            }
        }
        Ok(())
    }

    /// Closes the current code unit and takes it off the stack.
    pub fn pop_code_object(&mut self) -> (r: Result<CodeObject, Halt>)
        requires
            old(self).wf(),
        ensures
            located(r, old(self)@),
            final(self)@.path == old(self)@.path,
            final(self).wf(),
            outcome(final(self)@, r) == old(self)@.pop_code(),
            r matches Ok(c) ==> {
                &&& c.code@ == old(self)@.top()
                &&& c.optimize == old(self)@.optimize
                &&& code_ok(c.code@)
                &&& complete(old(self)@.top()) ==> complete(c.code@)
                &&& final(self)@ == (State {
                    codes: old(self)@.codes.drop_last(),
                    tables: old(self)@.tables.drop_last(),
                    ..old(self)@
                })
            },
    {
        reveal(State::pop_code);
        reveal(code_model);
        proof {
            lemma_top_ok(self@);
        }
        let n: usize = self.symbol_table_stack.len();
        if n == 0 || self.code_stack.len() < 2 {
            return Err(Halt::Panic);
        }
        assert(self@.tables.last() == self.symbol_table_stack@[n - 1]@);
        let frame = &self.symbol_table_stack[n - 1];
        if frame.next < frame.table.sub_tables.len() {
            return Err(Halt::Panic);
        }
        let _ = self.symbol_table_stack.pop();
        assert(self.code_stack@.last()@ == old(self)@.top());
        let code = match self.code_stack.pop() {
            Some(code) => code,
            None => {
                return Err(Halt::Panic);
            },
        };
        assert(self@.tables =~= old(self)@.pop_code().tables);
        assert(self@.codes =~= old(self)@.pop_code().codes);
        assert(forall|i: int| 0 <= i < self@.codes.len() ==> self@.codes[i] == old(self)@.codes[i]);
        Ok(CodeObject { code, optimize: self.opts.optimize })
    }
}

/// The names of the symbols that are cells.
fn names_of_cells(symbols: &Vec<SymbolEntry>) -> (r: Vec<String>)
    ensures
        texts(r@) == cell_names(symbols@, symbols@.len()),
{
    let mut r: Vec<String> = Vec::new();
    let n: usize = symbols.len();
    let mut i: usize = 0;
    assert(texts(r@) =~= Seq::empty());
    while i < n
        invariant
            i <= n,
            n == symbols@.len(),
            texts(r@) == cell_names(symbols@, i as nat),
        decreases n - i,
    {
        if symbols[i].symbol.scope == SymbolScope::Cell {
            let _ = insert_text(&mut r, symbols[i].name.as_str());
        }
        i += 1;
    }
    r
}

/// The names of the symbols that are free, or free in a scope nested in a class.
fn names_of_free(symbols: &Vec<SymbolEntry>) -> (r: Vec<String>)
    ensures
        texts(r@) == free_names(symbols@, symbols@.len()),
{
    let mut r: Vec<String> = Vec::new();
    let n: usize = symbols.len();
    let mut i: usize = 0;
    assert(texts(r@) =~= Seq::empty());
    while i < n
        invariant
            i <= n,
            n == symbols@.len(),
            texts(r@) == free_names(symbols@, i as nat),
        decreases n - i,
    {
        if symbols[i].symbol.scope == SymbolScope::Free || symbols[i].symbol.free_class {
            let _ = insert_text(&mut r, symbols[i].name.as_str());
        }
        i += 1;
    }
    r
}

} // verus!
