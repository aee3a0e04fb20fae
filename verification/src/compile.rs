//! Compiles a syntax tree into a code object.
use vstd::prelude::*;

use crate::ast::{origin, Expr, Mod, ModExpression, ModModule, Stmt, TextRange};
use crate::bytecode::{
    code_model, empty_block, Block, BlockIdx, BlockModel, CodeFlags, CodeInfo, CodeModel,
    CodeObject, ConstantData, ConstantModel, Instruction, InstructionInfo, NULL,
};
use crate::compiler::{CompileOpts, Compiler, Frame};
use crate::doc::{body_start, doc_of, split_doc};
use crate::error::{CodegenError, ErrorKind, ErrorModel};
use crate::expr_code::{group_halted_parts, no_flags};
use crate::state::{
    group_halted_steps, located, outcome, CompileContext, DoneWithFuture, FrameModel,
    FunctionContext, Halt, State, Status,
};
use crate::stmt_code::{group_halted_statements, has_annotation};
use crate::symboltable::{SymbolTable, SymbolTableError};
use crate::validity::{
    code_ok, complete, group_layout, grown, instr_fits, kept, lemma_current_fit, lemma_instructions,
    lemma_top_ok, loose_ends, more_ends, moved, one_block,
};

verus! {

broadcast use {group_halted_steps, group_halted_parts, group_halted_statements, group_layout};

/// What a source is compiled as.
#[derive(Debug, Clone, Copy, PartialEq, Eq, Structural)]
pub enum Mode {
    Exec,
    Eval,
    Single,
    BlockExpr,
}

/// The source that a syntax tree comes from.
pub struct SourceCode<'a> {
    pub path: &'a str,
}

/// What comes of a compilation.
pub enum Compiled {
    /// A code unit and the level at which it is to be optimised.
    Code(CodeModel, u8),
    Failed(ErrorModel),
    /// No sensible result: see [`Halt::Panic`].
    Panics,
}

/// The contents of what a compilation returns.
pub open spec fn compiled(r: Result<CodeObject, CodegenError>) -> Compiled {
    match r {
        Ok(c) => Compiled::Code(c.code@, c.optimize),
        Err(e) => Compiled::Failed(e@),
    }
}

/// The contents of what a compilation returns that may stop without a result.
pub open spec fn halted_or_compiled(r: Result<CodeObject, Halt>) -> Compiled {
    match r {
        Ok(c) => Compiled::Code(c.code@, c.optimize),
        Err(Halt::Error(e)) => Compiled::Failed(e@),
        Err(Halt::Panic) => Compiled::Panics,
    }
}

/// What holds of every code object that a compilation returns: it is valid and complete, it is
/// that of a module of the source, and it is to be optimised as was asked.
pub open spec fn code_sound(c: CodeObject, path: Seq<char>, optimize: u8) -> bool {
    &&& code_ok(c.code@)
    &&& complete(c.code@)
    &&& c.code@.source_path == path
    &&& c.code@.obj_name == "<module>"@
    &&& c.optimize == optimize
}

/// What holds of every error that a compilation returns: it names the source, and a place in it
/// unless the scan for symbols gave none.
pub open spec fn error_sound(
    e: CodegenError,
    path: Seq<char>,
    scanned: Result<SymbolTable, SymbolTableError>,
) -> bool {
    &&& e.source_path@ == path
    &&& scanned is Ok ==> e.location is Some
}

/// What holds of every result of a compilation.
pub open spec fn sound(
    r: Result<CodeObject, CodegenError>,
    path: Seq<char>,
    scanned: Result<SymbolTable, SymbolTableError>,
    optimize: u8,
) -> bool {
    match r {
        Ok(c) => code_sound(c, path, optimize),
        Err(e) => error_sound(e, path, scanned),
    }
}

/// The code unit of a module, before anything of it is compiled.
pub open spec fn module_code(path: Seq<char>) -> CodeModel {
    CodeModel {
        flags: CodeFlags { new_locals: true, ..no_flags() },
        posonlyarg_count: 0,
        arg_count: 0,
        kwonlyarg_count: 0,
        source_path: path,
        first_line_number: 1,
        obj_name: "<module>"@,
        blocks: seq![empty_block()],
        current_block: BlockIdx(0),
        constants: Seq::empty(),
        names: Seq::empty(),
        varnames: Seq::empty(),
        cellvars: Seq::empty(),
        freevars: Seq::empty(),
    }
}

/// The state in which the compilation of a module starts.
pub open spec fn started(path: Seq<char>, table: SymbolTable, optimize: u8) -> State {
    State {
        status: Status::Running,
        codes: seq![module_code(path)],
        tables: seq![FrameModel { table, next: 0 }],
        range: origin(),
        path,
        qualified: Seq::empty(),
        future: DoneWithFuture::No,
        future_annotations: false,
        ctx: CompileContext {
            loop_data: None,
            in_class: false,
            func: FunctionContext::NoFunction,
        },
        class_name: None,
        optimize,
    }
}

impl State {
    /// What has come of a compilation: its code, if all the tables within that of the module have
    /// been taken.
    pub open spec fn finished(self) -> Compiled {
        match self.status {
            Status::Running => if self.tables.len() == 0 || self.tables.last().next
                < self.tables.last().table.sub_tables@.len() {
                Compiled::Panics
            } else {
                Compiled::Code(self.top(), self.optimize)
            },
            Status::Failed(e) => Compiled::Failed(e),
            Status::Stuck => Compiled::Panics,
        }
    }

    /// A program: its docstring, its statements, and a return of None.
    #[verifier::opaque]
    pub open spec fn program(self, body: Seq<Stmt>) -> State {
        let from = body_start(body);
        let s = match doc_of(body, self.optimize) {
            Some(doc) => {
                let s = self.load_const(ConstantModel::Str(doc));
                s.intern_name("__doc__"@).emit(
                    Instruction::StoreGlobal(s.name_index("__doc__"@)),
                )
            },
            None => self,
        };
        let t = if has_annotation(body, from) {
            s.emit(Instruction::SetupAnnotation)
        } else {
            s
        };
        t.to(t.stmts(body, from).return_const(ConstantModel::NoneValue))
    }

    /// A statement at a prompt, which shows the value of an expression.
    #[verifier::opaque]
    pub open spec fn shown(self, x: Stmt) -> State {
        match x {
            Stmt::Expr(x) => self.expr(*x.value).emit(Instruction::PrintExpr),
            _ => self.stmt(x),
        }
    }

    /// The statements `s[i..]` at a prompt but for the last.
    #[verifier::opaque]
    pub open spec fn shown_statements(self, s: Seq<Stmt>, i: nat) -> State
        decreases s.len() - i,
    {
        if i + 1 >= s.len() {
            self
        } else {
            let one = self.shown(s[i as int]);
            one.to(one.shown_statements(s, i + 1))
        }
    }

    /// What is typed at a prompt: the value of the last expression is shown and returned.
    #[verifier::opaque]
    pub open spec fn single(self, body: Seq<Stmt>) -> State {
        (if body.len() == 0 {
            self.load_const(ConstantModel::NoneValue)
        } else {
            let s = self.shown_statements(body, 0);
            match body[body.len() - 1] {
                Stmt::Expr(x) => s.to(
                    s.expr(*x.value).emit(Instruction::Duplicate).emit(Instruction::PrintExpr),
                ),
                last => s.to(s.stmt(last).load_const(ConstantModel::NoneValue)),
            }
        }).return_value()
    }

    /// The current block with its instructions replaced.
    pub open spec fn with_instructions(self, s: Seq<InstructionInfo>) -> State {
        let c = self.top();
        let at = c.current_block.0 as int;
        self.with_top(
            CodeModel {
                blocks: c.blocks.update(at, BlockModel { instructions: s, ..c.blocks[at] }),
                ..c
            },
        )
    }

    /// The instructions of the current block.
    pub open spec fn instructions(self) -> Seq<InstructionInfo> {
        self.top().blocks[self.top().current_block.0 as int].instructions
    }

    /// Takes the last instruction of the current block back, if there is one.
    #[verifier::opaque]
    pub open spec fn unemit(self) -> State {
        if self.running() && self.instructions().len() > 0 {
            self.with_instructions(self.instructions().drop_last())
        } else {
            self
        }
    }

    /// Appends an instruction with its own place in the source.
    #[verifier::opaque]
    pub open spec fn reemit(self, info: InstructionInfo) -> State {
        if self.running() {
            self.with_instructions(self.instructions().push(info))
        } else {
            self
        }
    }

    /// A block whose value is that of its last statement: the value of an expression, the
    /// function or class that a definition makes, and else None.
    #[verifier::opaque]
    pub open spec fn block_expression(self, body: Seq<Stmt>) -> State {
        let s = self.stmts(body, 0);
        (if body.len() == 0 {
            s
        } else {
            match body[body.len() - 1] {
                Stmt::Expr(_) => s.unemit(),
                Stmt::FunctionDef(_) | Stmt::ClassDef(_) => if s.instructions().len() == 0 {
                    s.stuck()
                } else {
                    s.unemit().emit(Instruction::Duplicate).reemit(s.instructions().last())
                },
                _ => s.load_const(ConstantModel::NoneValue),
            }
        }).return_value()
    }

    /// An expression whose value is returned.
    #[verifier::opaque]
    pub open spec fn eval(self, e: Expr) -> State {
        self.expr(e).return_value()
    }
}

/// What comes of a scan that found an error.
pub open spec fn scan_failure(e: SymbolTableError, path: Seq<char>) -> Compiled {
    Compiled::Failed(
        ErrorModel {
            location: e.location,
            error: ErrorKind::SyntaxError(e.error@),
            source_path: path,
        },
    )
}

/// What comes of compiling a program whose scan gave `scanned`.
pub open spec fn program_result(
    body: Seq<Stmt>,
    path: Seq<char>,
    scanned: Result<SymbolTable, SymbolTableError>,
    optimize: u8,
) -> Compiled {
    match scanned {
        Ok(table) => started(path, table, optimize).program(body).finished(),
        Err(e) => scan_failure(e, path),
    }
}

/// What comes of compiling what is typed at a prompt.
pub open spec fn single_result(
    body: Seq<Stmt>,
    path: Seq<char>,
    scanned: Result<SymbolTable, SymbolTableError>,
    optimize: u8,
) -> Compiled {
    match scanned {
        Ok(table) => started(path, table, optimize).single(body).finished(),
        Err(e) => scan_failure(e, path),
    }
}

/// What comes of compiling a block that has a value.
pub open spec fn block_result(
    body: Seq<Stmt>,
    path: Seq<char>,
    scanned: Result<SymbolTable, SymbolTableError>,
    optimize: u8,
) -> Compiled {
    match scanned {
        Ok(table) => started(path, table, optimize).block_expression(body).finished(),
        Err(e) => scan_failure(e, path),
    }
}

/// What comes of compiling an expression.
pub open spec fn expression_result(
    e: Expr,
    path: Seq<char>,
    scanned: Result<SymbolTable, SymbolTableError>,
    optimize: u8,
) -> Compiled {
    match scanned {
        Ok(table) => started(path, table, optimize).eval(e).finished(),
        Err(e) => scan_failure(e, path),
    }
}

/// What comes of compiling a syntax tree in a mode.
pub open spec fn top_result(
    ast: Mod,
    path: Seq<char>,
    scanned: Result<SymbolTable, SymbolTableError>,
    mode: Mode,
    optimize: u8,
) -> Compiled {
    match ast {
        Mod::Module(module) => match mode {
            Mode::Exec | Mode::Eval => program_result(module.body@, path, scanned, optimize),
            Mode::Single => single_result(module.body@, path, scanned, optimize),
            Mode::BlockExpr => block_result(module.body@, path, scanned, optimize),
        },
        Mod::Expression(expression) => expression_result(
            *expression.body,
            path,
            scanned,
            optimize,
        ),
    }
}

impl<'a> Compiler<'a> {
    /// A compiler at the start of a module with this symbol table.
    pub fn new(opts: CompileOpts, source_path: &str, table: &'a SymbolTable) -> (r: Self)
        ensures
            r.wf(),
            complete(r@.top()),
            r@ == started(source_path@, *table, opts.optimize),
    {
        reveal(code_model);
        let mut blocks: Vec<Block> = Vec::new();
        blocks.push(Block { instructions: Vec::new(), next: BlockIdx(NULL) });
        let module_info = CodeInfo {
            flags: CodeFlags {
                new_locals: true,
                is_generator: false,
                is_coroutine: false,
                has_varargs: false,
                has_varkeywords: false,
                is_optimized: false,
            },
            posonlyarg_count: 0,
            arg_count: 0,
            kwonlyarg_count: 0,
            source_path: source_path.to_owned(),
            first_line_number: 1,
            obj_name: "<module>".to_owned(),
            blocks,
            current_block: BlockIdx(0),
            constants: Vec::new(),
            name_cache: Vec::new(),
            varname_cache: Vec::new(),
            cellvar_cache: Vec::new(),
            freevar_cache: Vec::new(),
        };
        proof {
            let m = module_code(source_path@);
            assert(blocks@[0]@ =~= empty_block());
            assert(module_info@.blocks =~= m.blocks);
            assert(module_info@.constants =~= m.constants);
            assert(module_info@.names =~= m.names);
            assert(module_info@.varnames =~= m.varnames);
            assert(module_info@.cellvars =~= m.cellvars);
            assert(module_info@.freevars =~= m.freevars);
        }
        let mut code_stack: Vec<CodeInfo> = Vec::new();
        code_stack.push(module_info);
        let mut symbol_table_stack: Vec<Frame<'a>> = Vec::new();
        symbol_table_stack.push(Frame { table, next: 0 });
        assert(code_ok(module_info@)) by {
            reveal(code_ok);
        }
        assert(complete(module_info@)) by {
            reveal_with_fuel(loose_ends, 2);
        }
        let r = Compiler {
            code_stack,
            symbol_table_stack,
            source_path: source_path.to_owned(),
            current_source_range: TextRange::default(),
            qualified_path: Vec::new(),
            done_with_future_stmts: DoneWithFuture::No,
            future_annotations: false,
            ctx: CompileContext {
                loop_data: None,
                in_class: false,
                func: FunctionContext::NoFunction,
            },
            class_name: None,
            opts,
        };
        proof {
            let s = started(source_path@, *table, opts.optimize);
            assert(r@.codes =~= s.codes);
            assert(r@.tables =~= s.tables);
            assert(r@.qualified =~= s.qualified);
        }
        r
    }

    /// Closes the code unit of the module.
    fn finish(self) -> (r: Result<CodeObject, Halt>)
        requires
            self.wf(),
        ensures
            halted_or_compiled(r) == self@.finished(),
            r matches Ok(c) ==> code_ok(c.code@) && c.code@ == self@.top() && c.optimize
                == self@.optimize,
            !(r matches Err(Halt::Error(_))),
    {
        proof {
            lemma_top_ok(self@);
        }
        let n: usize = self.symbol_table_stack.len();
        if n == 0 {
            return Err(Halt::Panic);
        }
        assert(self@.tables.last() == self.symbol_table_stack@[n - 1]@);
        let frame = &self.symbol_table_stack[n - 1];
        if frame.next < frame.table.sub_tables.len() {
            return Err(Halt::Panic);
        }
        let mut code_stack = self.code_stack;
        assert(code_stack@.last()@ == self@.top());
        match code_stack.pop() {
            Some(code) => Ok(CodeObject { code, optimize: self.opts.optimize }),
            None => Err(Halt::Panic),
        }
    }

    #[verifier::spinoff_prover]
    fn compile_program(&mut self, body: &Vec<Stmt>) -> (r: Result<(), Halt>)
        requires
            old(self).wf(),
            old(self)@.loop_ok(),
        ensures
            located(r, old(self)@),
            final(self)@.path == old(self)@.path,
            final(self).wf(),
            r is Ok ==> kept(old(self)@, final(self)@),
            outcome(final(self)@, r) == old(self)@.program(body@),
    {
        reveal(State::program);
        let (doc, from) = split_doc(body, &self.opts);
        if let Some(value) = doc {
            self.emit_load_const(ConstantData::Str { value })?;
            let doc: u32 = self.name("__doc__")?;
            self.emit(Instruction::StoreGlobal(doc));
        }
        if Self::find_ann(body, from) {
            self.emit(Instruction::SetupAnnotation);
        }
        self.compile_statements(body, from)?;
        assert(self@.codes.len() == old(self)@.codes.len());
        // Emit None at end:
        self.emit_return_const(ConstantData::NoneValue)
    }

    fn compile_shown(&mut self, statement: &Stmt) -> (r: Result<(), Halt>)
        requires
            old(self).wf(),
            old(self)@.loop_ok(),
        ensures
            located(r, old(self)@),
            final(self)@.path == old(self)@.path,
            final(self).wf(),
            r is Ok ==> kept(old(self)@, final(self)@),
            outcome(final(self)@, r) == old(self)@.shown(*statement),
    {
        reveal(State::shown);
        match statement {
            Stmt::Expr(x) => {
                self.compile_expression(&x.value)?;
                self.emit(Instruction::PrintExpr);
                Ok(())
            },
            _ => self.compile_statement(statement),
        }
    }

    fn compile_shown_statements(&mut self, s: &Vec<Stmt>) -> (r: Result<(), Halt>)
        requires
            old(self).wf(),
            old(self)@.loop_ok(),
            s@.len() > 0,
        ensures
            located(r, old(self)@),
            final(self)@.path == old(self)@.path,
            final(self).wf(),
            r is Ok ==> kept(old(self)@, final(self)@),
            outcome(final(self)@, r) == old(self)@.shown_statements(s@, 0),
    {
        let n: usize = s.len();
        let mut i: usize = 0;
        while i < n - 1
            invariant
                self.wf(),
                kept(old(self)@, self@),
                old(self)@.loop_ok(),
                i <= n - 1,
                n == s@.len(),
                n > 0,
                old(self)@.shown_statements(s@, 0) == self@.shown_statements(s@, i as nat),
            decreases n - i,
        {
            reveal(State::shown_statements);
            self.compile_shown(&s[i])?;
            i += 1;
        }
        reveal(State::shown_statements);
        Ok(())
    }

    #[verifier::spinoff_prover]
    fn compile_program_single(&mut self, body: &Vec<Stmt>) -> (r: Result<(), Halt>)
        requires
            old(self).wf(),
            old(self)@.loop_ok(),
        ensures
            located(r, old(self)@),
            final(self)@.path == old(self)@.path,
            final(self).wf(),
            r is Ok ==> kept(old(self)@, final(self)@),
            outcome(final(self)@, r) == old(self)@.single(body@),
    {
        reveal(State::single);
        let n: usize = body.len();
        if n == 0 {
            self.emit_load_const(ConstantData::NoneValue)?;
        } else {
            self.compile_shown_statements(body)?;
            match &body[n - 1] {
                Stmt::Expr(x) => {
                    self.compile_expression(&x.value)?;
                    self.emit(Instruction::Duplicate);
                    self.emit(Instruction::PrintExpr);
                },
                last => {
                    self.compile_statement(last)?;
                    self.emit_load_const(ConstantData::NoneValue)?;
                },
            }
        }
        self.emit_return_value();
        Ok(())
    }

    /// Takes the last instruction of the current block back.
    fn unemit(&mut self) -> (r: Option<InstructionInfo>)
        requires
            old(self).wf(),
        ensures
            final(self).wf(),
            moved(old(self)@, final(self)@, one_block(old(self)@.top().current_block)),
            more_ends(old(self)@.top(), final(self)@.top(), 0),
            final(self)@ == old(self)@.unemit(),
            match r {
                Some(info) => {
                    &&& old(self)@.instructions().len() > 0
                    &&& info == old(self)@.instructions().last()
                    &&& instr_fits(info.instr, final(self)@.top())
                },
                None => old(self)@.instructions().len() == 0,
            },
    {
        proof {
            lemma_top_ok(self@);
            lemma_current_fit(self@);
            if self@.instructions().len() > 0 {
                lemma_instructions(self@, self@.instructions().drop_last());
            }
        }
        reveal(State::unemit);
        reveal(code_model);
        let n: usize = self.code_stack.len();
        assert(self@.codes[n - 1] == self.code_stack@[n - 1]@);
        let code = &mut self.code_stack[n - 1];
        let current: usize = code.current_block.0 as usize;
        let block = &mut code.blocks[current];
        let info = block.instructions.pop();
        proof {
            let next = old(self)@.unemit();
            assert(self.code_stack@[n - 1]@.blocks =~= next.top().blocks);
            assert(self@.codes =~= next.codes);
        }
        info
    }

    fn reemit(&mut self, info: InstructionInfo)
        requires
            old(self).wf(),
            instr_fits(info.instr, old(self)@.top()),
        ensures
            final(self).wf(),
            kept(old(self)@, final(self)@),
            final(self)@ == old(self)@.reemit(info),
    {
        proof {
            lemma_top_ok(self@);
            lemma_current_fit(self@);
            lemma_instructions(self@, self@.instructions().push(info));
        }
        reveal(State::reemit);
        reveal(code_model);
        let n: usize = self.code_stack.len();
        assert(self@.codes[n - 1] == self.code_stack@[n - 1]@);
        let code = &mut self.code_stack[n - 1];
        let current: usize = code.current_block.0 as usize;
        let block = &mut code.blocks[current];
        block.instructions.push(info);
        proof {
            let next = old(self)@.reemit(info);
            assert(self.code_stack@[n - 1]@.blocks =~= next.top().blocks);
            assert(self@.codes =~= next.codes);
        }
    }

    #[verifier::spinoff_prover]
    fn compile_block_expr(&mut self, body: &Vec<Stmt>) -> (r: Result<(), Halt>)
        requires
            old(self).wf(),
            old(self)@.loop_ok(),
        ensures
            located(r, old(self)@),
            final(self)@.path == old(self)@.path,
            final(self).wf(),
            r is Ok ==> {
                &&& final(self)@.codes.len() == old(self)@.codes.len()
                &&& grown(old(self)@.top(), final(self)@.top())
                &&& more_ends(old(self)@.top(), final(self)@.top(), 0)
                &&& final(self)@.optimize == old(self)@.optimize
            },
            outcome(final(self)@, r) == old(self)@.block_expression(body@),
    {
        reveal(State::block_expression);
        reveal(State::unemit);
        reveal(State::reemit);
        self.compile_statements(body, 0)?;
        let n: usize = body.len();
        if n > 0 {
            match &body[n - 1] {
                Stmt::Expr(_) => {
                    // pop Instruction::Pop
                    let _ = self.unemit();
                },
                Stmt::FunctionDef(_) | Stmt::ClassDef(_) => {
                    // pop Instruction::Store
                    match self.unemit() {
                        Some(store_inst) => {
                            self.emit(Instruction::Duplicate);
                            assert(instr_fits(store_inst.instr, self@.top()));
                            self.reemit(store_inst);
                        },
                        None => {
                            return Err(Halt::Panic);
                        },
                    }
                },
                _ => {
                    self.emit_load_const(ConstantData::NoneValue)?;
                },
            }
        }
        self.emit_return_value();
        Ok(())
    }

    fn compile_eval(&mut self, expression: &Expr) -> (r: Result<(), Halt>)
        requires
            old(self).wf(),
        ensures
            located(r, old(self)@),
            final(self)@.path == old(self)@.path,
            final(self).wf(),
            r is Ok ==> kept(old(self)@, final(self)@),
            outcome(final(self)@, r) == old(self)@.eval(*expression),
    {
        reveal(State::eval);
        self.compile_expression(expression)?;
        self.emit_return_value();
        Ok(())
    }
}

/// Compiles a program, unless that cannot be done.
fn run_program(
    ast: &ModModule,
    source_code: &SourceCode<'_>,
    scanned: Result<SymbolTable, SymbolTableError>,
    opts: CompileOpts,
) -> (r: Result<CodeObject, Halt>)
    ensures
        halted_or_compiled(r) == program_result(
            ast.body@,
            source_code.path@,
            scanned,
            opts.optimize,
        ),
        r matches Ok(c) ==> code_sound(c, source_code.path@, opts.optimize),
        r matches Err(Halt::Error(e)) ==> error_sound(e, source_code.path@, scanned),
{
    let symbol_table = match scanned {
        Ok(table) => table,
        Err(e) => {
            return Err(Halt::Error(e.into_codegen_error(source_code.path.to_owned())));
        },
    };
    let mut compiler = Compiler::new(opts, source_code.path, &symbol_table);
    compiler.compile_program(&ast.body)?;
    compiler.finish()
}

fn run_program_single(
    ast: &ModModule,
    source_code: &SourceCode<'_>,
    scanned: Result<SymbolTable, SymbolTableError>,
    opts: CompileOpts,
) -> (r: Result<CodeObject, Halt>)
    ensures
        halted_or_compiled(r) == single_result(
            ast.body@,
            source_code.path@,
            scanned,
            opts.optimize,
        ),
        r matches Ok(c) ==> code_sound(c, source_code.path@, opts.optimize),
        r matches Err(Halt::Error(e)) ==> error_sound(e, source_code.path@, scanned),
{
    let symbol_table = match scanned {
        Ok(table) => table,
        Err(e) => {
            return Err(Halt::Error(e.into_codegen_error(source_code.path.to_owned())));
        },
    };
    let mut compiler = Compiler::new(opts, source_code.path, &symbol_table);
    compiler.compile_program_single(&ast.body)?;
    compiler.finish()
}

fn run_block_expression(
    ast: &ModModule,
    source_code: &SourceCode<'_>,
    scanned: Result<SymbolTable, SymbolTableError>,
    opts: CompileOpts,
) -> (r: Result<CodeObject, Halt>)
    ensures
        halted_or_compiled(r) == block_result(
            ast.body@,
            source_code.path@,
            scanned,
            opts.optimize,
        ),
        r matches Ok(c) ==> code_sound(c, source_code.path@, opts.optimize),
        r matches Err(Halt::Error(e)) ==> error_sound(e, source_code.path@, scanned),
{
    let symbol_table = match scanned {
        Ok(table) => table,
        Err(e) => {
            return Err(Halt::Error(e.into_codegen_error(source_code.path.to_owned())));
        },
    };
    let mut compiler = Compiler::new(opts, source_code.path, &symbol_table);
    compiler.compile_block_expr(&ast.body)?;
    compiler.finish()
}

fn run_expression(
    ast: &ModExpression,
    source_code: &SourceCode<'_>,
    scanned: Result<SymbolTable, SymbolTableError>,
    opts: CompileOpts,
) -> (r: Result<CodeObject, Halt>)
    ensures
        halted_or_compiled(r) == expression_result(
            *ast.body,
            source_code.path@,
            scanned,
            opts.optimize,
        ),
        r matches Ok(c) ==> code_sound(c, source_code.path@, opts.optimize),
        r matches Err(Halt::Error(e)) ==> error_sound(e, source_code.path@, scanned),
{
    let symbol_table = match scanned {
        Ok(table) => table,
        Err(e) => {
            return Err(Halt::Error(e.into_codegen_error(source_code.path.to_owned())));
        },
    };
    let mut compiler = Compiler::new(opts, source_code.path, &symbol_table);
    compiler.compile_eval(&ast.body)?;
    compiler.finish()
}

/// The code object or the error that a compilation ended with.
pub fn settled(r: Result<CodeObject, Halt>) -> (c: Result<CodeObject, CodegenError>)
    requires
        !(halted_or_compiled(r) is Panics),
    ensures
        compiled(c) == halted_or_compiled(r),
        r matches Ok(code) ==> c == Ok::<CodeObject, CodegenError>(code),
        r matches Err(Halt::Error(e)) ==> c == Err::<CodeObject, CodegenError>(e),
{
    match r {
        Ok(code) => Ok(code),
        Err(Halt::Error(e)) => Err(e),
        Err(Halt::Panic) => vstd::pervasive::unreached(),
    }
}

/// Compiles a syntax tree, where `scanned` is what the scan of it for symbols gave; `None` where
/// there is no sensible result.
pub fn checked_compile_top(
    ast: &Mod,
    source_code: &SourceCode<'_>,
    scanned: Result<SymbolTable, SymbolTableError>,
    mode: Mode,
    opts: CompileOpts,
) -> (r: Option<Result<CodeObject, CodegenError>>)
    ensures
        match r {
            Some(c) => compiled(c) == top_result(
                *ast,
                source_code.path@,
                scanned,
                mode,
                opts.optimize,
            ),
            None => top_result(*ast, source_code.path@, scanned, mode, opts.optimize) is Panics,
        },
        r matches Some(c) ==> sound(c, source_code.path@, scanned, opts.optimize),
{
    match run_top(ast, source_code, scanned, mode, opts) {
        Err(Halt::Panic) => None,
        r => Some(settled(r)),
    }
}

fn run_top(
    ast: &Mod,
    source_code: &SourceCode<'_>,
    scanned: Result<SymbolTable, SymbolTableError>,
    mode: Mode,
    opts: CompileOpts,
) -> (r: Result<CodeObject, Halt>)
    ensures
        halted_or_compiled(r) == top_result(*ast, source_code.path@, scanned, mode, opts.optimize),
        r matches Ok(c) ==> code_sound(c, source_code.path@, opts.optimize),
        r matches Err(Halt::Error(e)) ==> error_sound(e, source_code.path@, scanned),
{
    match ast {
        Mod::Module(module) => match mode {
            Mode::Exec | Mode::Eval => run_program(module, source_code, scanned, opts),
            Mode::Single => run_program_single(module, source_code, scanned, opts),
            Mode::BlockExpr => run_block_expression(module, source_code, scanned, opts),
        },
        Mod::Expression(expression) => run_expression(expression, source_code, scanned, opts),
    }
}

/// Compile a syntax tree, where `scanned` is what the scan of it for symbols gave.
pub fn compile_top(
    ast: Mod,
    source_code: SourceCode<'_>,
    scanned: Result<SymbolTable, SymbolTableError>,
    mode: Mode,
    opts: CompileOpts,
) -> (r: Result<CodeObject, CodegenError>)
    requires
        !(top_result(ast, source_code.path@, scanned, mode, opts.optimize) is Panics),
    ensures
        compiled(r) == top_result(ast, source_code.path@, scanned, mode, opts.optimize),
        sound(r, source_code.path@, scanned, opts.optimize),
{
    match ast {
        Mod::Module(module) => match mode {
            Mode::Exec | Mode::Eval => compile_program(&module, source_code, scanned, opts),
            Mode::Single => compile_program_single(&module, source_code, scanned, opts),
            Mode::BlockExpr => compile_block_expression(&module, source_code, scanned, opts),
        },
        Mod::Expression(expression) => compile_expression(&expression, source_code, scanned, opts),
    }
}

/// Compile a standard Python program to bytecode
pub fn compile_program(
    ast: &ModModule,
    source_code: SourceCode<'_>,
    scanned: Result<SymbolTable, SymbolTableError>,
    opts: CompileOpts,
) -> (r: Result<CodeObject, CodegenError>)
    requires
        !(program_result(ast.body@, source_code.path@, scanned, opts.optimize) is Panics),
    ensures
        compiled(r) == program_result(ast.body@, source_code.path@, scanned, opts.optimize),
        sound(r, source_code.path@, scanned, opts.optimize),
{
    settled(run_program(ast, &source_code, scanned, opts))
}

/// Compile a Python program to bytecode for the context of a REPL
pub fn compile_program_single(
    ast: &ModModule,
    source_code: SourceCode<'_>,
    scanned: Result<SymbolTable, SymbolTableError>,
    opts: CompileOpts,
) -> (r: Result<CodeObject, CodegenError>)
    requires
        !(single_result(ast.body@, source_code.path@, scanned, opts.optimize) is Panics),
    ensures
        compiled(r) == single_result(ast.body@, source_code.path@, scanned, opts.optimize),
        sound(r, source_code.path@, scanned, opts.optimize),
{
    settled(run_program_single(ast, &source_code, scanned, opts))
}

/// Compile statements to the bytecode of a block that has the value of the last one
pub fn compile_block_expression(
    ast: &ModModule,
    source_code: SourceCode<'_>,
    scanned: Result<SymbolTable, SymbolTableError>,
    opts: CompileOpts,
) -> (r: Result<CodeObject, CodegenError>)
    requires
        !(block_result(ast.body@, source_code.path@, scanned, opts.optimize) is Panics),
    ensures
        compiled(r) == block_result(ast.body@, source_code.path@, scanned, opts.optimize),
        sound(r, source_code.path@, scanned, opts.optimize),
{
    settled(run_block_expression(ast, &source_code, scanned, opts))
}

/// Compile an expression to bytecode that returns its value
pub fn compile_expression(
    ast: &ModExpression,
    source_code: SourceCode<'_>,
    scanned: Result<SymbolTable, SymbolTableError>,
    opts: CompileOpts,
) -> (r: Result<CodeObject, CodegenError>)
    requires
        !(expression_result(*ast.body, source_code.path@, scanned, opts.optimize) is Panics),
    ensures
        compiled(r) == expression_result(*ast.body, source_code.path@, scanned, opts.optimize),
        sound(r, source_code.path@, scanned, opts.optimize),
{
    settled(run_expression(ast, &source_code, scanned, opts))
}

} // verus!
