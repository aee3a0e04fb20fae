//! Compiles statements that hold others: conditions, loops, with, match and try.
use vstd::prelude::*;

use crate::ast::{
    ElifElseClause, ExceptHandler, Expr, MatchCase, Pattern, Stmt, StmtFor, StmtIf, StmtMatch,
    StmtTry, StmtWhile, StmtWith,
};
use crate::bytecode::{
    code_model, BlockIdx, BlockModel, CodeModel, ComparisonOperator, ConstantData, Instruction,
    RaiseKind, TestOperator,
};
use crate::compiler::Compiler;
use crate::error::CodegenErrorType;
use crate::expr_code::group_halted_parts;
use crate::state::{group_halted_steps, located, outcome, Halt, State};
use crate::stmt_code::{group_halted_statements, relinked};
use crate::validity::{
    all_left, all_pending, block_range, group_layout, group_own_layout, kept, left, lemma_all_left,
    lemma_all_pending, lemma_laid_out, lemma_relink, more_ends, moved, no_blocks, one_block,
    pending, two_blocks,
};

verus! {

broadcast use {group_halted_steps, group_halted_parts, group_halted_statements, group_layout};

impl<'a> Compiler<'a> {
    #[verifier::spinoff_prover]
    pub fn compile_statements(&mut self, s: &Vec<Stmt>, from: usize) -> (r: Result<(), Halt>)
        requires
            old(self).wf(),
            old(self)@.loop_ok(),
            from <= s@.len(),
        ensures
            located(r, old(self)@),
            final(self)@.path == old(self)@.path,
            final(self).wf(),
            r is Ok ==> kept(old(self)@, final(self)@),
            outcome(final(self)@, r) == old(self)@.stmts(s@, from as nat),
        decreases s@, 0nat, s@.len() + 1,
    {
        let n: usize = s.len();
        let mut i: usize = from;
        while i < n
            invariant
                self.wf(),
                kept(old(self)@, self@),
                old(self)@.loop_ok(),
                from <= i <= n,
                n == s@.len(),
                old(self)@.stmts(s@, from as nat) == self@.stmts(s@, i as nat),
            decreases n - i,
        {
            reveal(State::stmts);
            reveal(State::stmt);
            self.compile_statement(&s[i])?;
            i += 1;
        }
        reveal(State::stmts);
        reveal(State::stmt);
        Ok(())
    }

    #[verifier::spinoff_prover]
    pub fn compile_statement(&mut self, statement: &Stmt) -> (r: Result<(), Halt>)
        requires
            old(self).wf(),
            old(self)@.loop_ok(),
        ensures
            located(r, old(self)@),
            final(self)@.path == old(self)@.path,
            final(self).wf(),
            r is Ok ==> kept(old(self)@, final(self)@),
            outcome(final(self)@, r) == old(self)@.stmt(*statement),
        decreases statement, 1nat, 0nat,
    {
        reveal(State::stmt);
        reveal(State::stmt_body);
        self.set_source_range(statement.range());
        self.note_future(statement)?;
        self.compile_statement_body(statement)
    }

    #[verifier::spinoff_prover]
    fn compile_statement_body(&mut self, statement: &Stmt) -> (r: Result<(), Halt>)
        requires
            old(self).wf(),
            old(self)@.loop_ok(),
        ensures
            located(r, old(self)@),
            final(self)@.path == old(self)@.path,
            final(self).wf(),
            r is Ok ==> kept(old(self)@, final(self)@),
            outcome(final(self)@, r) == old(self)@.stmt_body(*statement),
        decreases statement, 0nat, 0nat,
    {
        reveal(State::stmt_body);
        reveal(State::if_statement);
        reveal(State::while_loop);
        reveal(State::with_item);
        reveal(State::for_loop);
        reveal(State::match_statement);
        reveal(State::try_statement);
        reveal(State::function_def);
        reveal(State::class_def);
        match statement {
            Stmt::If(x) => self.compile_if(x),
            Stmt::While(x) => self.compile_while(x),
            Stmt::With(x) => self.compile_with(x, 0),
            Stmt::For(x) => self.compile_for(x),
            Stmt::Match(x) => self.compile_match(x),
            Stmt::Try(x) => {
                if x.is_star {
                    self.compile_try_star_statement(x)
                } else {
                    self.compile_try_statement(x)
                }
            },
            Stmt::FunctionDef(x) => self.compile_function_def(x),
            Stmt::ClassDef(x) => self.compile_class_def(x),
            _ => self.compile_simple(statement),
        }
    }

    #[verifier::spinoff_prover]
    fn compile_if(&mut self, x: &StmtIf) -> (r: Result<(), Halt>)
        requires
            old(self).wf(),
            old(self)@.loop_ok(),
        ensures
            located(r, old(self)@),
            final(self)@.path == old(self)@.path,
            final(self).wf(),
            r is Ok ==> kept(old(self)@, final(self)@),
            outcome(final(self)@, r) == old(self)@.if_statement(*x),
        decreases x, 0nat, 0nat,
    {
        reveal(State::if_statement);
        reveal(State::stmts);
        reveal(State::clauses);
        let after_block = self.new_block()?;
        if x.elif_else_clauses.len() == 0 {
            // Only if
            self.compile_jump_if(&x.test, false, after_block)?;
            self.compile_statements(&x.body, 0)?;
            self.switch_to_block(after_block);
            Ok(())
        } else {
            // If, elif*, elif/else
            let next_block = self.new_block()?;
            self.compile_jump_if(&x.test, false, next_block)?;
            self.compile_statements(&x.body, 0)?;
            self.emit(Instruction::Jump { target: after_block });
            let ghost before = self@.top();
            self.compile_clauses(&x.elif_else_clauses, next_block, after_block)?;
            proof {
                lemma_laid_out(
                    old(self)@.top(),
                    before,
                    self@.top(),
                    no_blocks(),
                    two_blocks(next_block, after_block),
                    no_blocks(),
                );
            }
            Ok(())
        }
    }

    #[verifier::spinoff_prover]
    fn compile_clauses(
        &mut self,
        s: &Vec<ElifElseClause>,
        next_block: BlockIdx,
        after_block: BlockIdx,
    ) -> (r: Result<(), Halt>)
        requires
            old(self).wf(),
            old(self)@.loop_ok(),
            pending(old(self)@.top(), next_block),
            pending(old(self)@.top(), after_block),
            next_block != after_block,
            s@.len() > 0,
        ensures
            located(r, old(self)@),
            final(self)@.path == old(self)@.path,
            final(self).wf(),
            r is Ok ==> moved(old(self)@, final(self)@, two_blocks(next_block, after_block)),
            r is Ok ==> more_ends(old(self)@.top(), final(self)@.top(), -2),
            outcome(final(self)@, r) == old(self)@.clauses(s@, 0, next_block, after_block),
        decreases s@, 0nat, s@.len() + 1,
    {
        let n: usize = s.len();
        let mut i: usize = 0;
        let mut next: BlockIdx = next_block;
        while i < n - 1
            invariant
                self.wf(),
                moved(old(self)@, self@, one_block(next_block)),
                more_ends(old(self)@.top(), self@.top(), 0),
                pending(self@.top(), next),
                pending(self@.top(), after_block),
                next != after_block,
                next == next_block || next.0 >= old(self)@.top().blocks.len(),
                old(self)@.loop_ok(),
                pending(old(self)@.top(), after_block),
                i <= n - 1,
                n == s@.len(),
                n > 0,
                old(self)@.clauses(s@, 0, next_block, after_block) == self@.clauses(
                    s@,
                    i as nat,
                    next,
                    after_block,
                ),
            decreases n - i,
        {
            broadcast use group_own_layout;

            reveal(State::clauses);
            reveal(State::stmts);
            let ghost before = self@.top();
            self.switch_to_block(next);
            proof {
                lemma_laid_out(
                    old(self)@.top(),
                    before,
                    self@.top(),
                    one_block(next_block),
                    one_block(next),
                    one_block(next_block),
                );
            }
            next = self.new_block()?;
            match &s[i].test {
                Some(test) => self.compile_jump_if(test, false, next)?,
                None => {
                    // must be elif
                    return Err(Halt::Panic);
                },
            }
            self.compile_statements(&s[i].body, 0)?;
            self.emit(Instruction::Jump { target: after_block });
            i += 1;
        }
        broadcast use group_own_layout;

        reveal(State::clauses);
        reveal(State::stmts);
        let tail = &s[n - 1];
        let ghost before = self@.top();
        self.switch_to_block(next);
        proof {
            lemma_laid_out(
                old(self)@.top(),
                before,
                self@.top(),
                one_block(next_block),
                one_block(next),
                one_block(next_block),
            );
        }
        if let Some(test) = &tail.test {
            self.compile_jump_if(test, false, after_block)?;
        }
        self.compile_statements(&tail.body, 0)?;
        let ghost before = self@.top();
        self.switch_to_block(after_block);
        proof {
            lemma_laid_out(
                old(self)@.top(),
                before,
                self@.top(),
                one_block(next_block),
                one_block(after_block),
                two_blocks(next_block, after_block),
            );
        }
        Ok(())
    }

    /// The body of a loop that starts at one block and is left for another, and the jump back.
    #[verifier::spinoff_prover]
    fn compile_loop_body(&mut self, body: &Vec<Stmt>, start: BlockIdx, end: BlockIdx) -> (r: Result<
        (),
        Halt,
    >)
        requires
            old(self).wf(),
            start.0 < old(self)@.top().blocks.len(),
            end.0 < old(self)@.top().blocks.len(),
        ensures
            located(r, old(self)@),
            final(self)@.path == old(self)@.path,
            final(self).wf(),
            r is Ok ==> kept(old(self)@, final(self)@),
            outcome(final(self)@, r) == old(self)@.set_loop(Some((start, end))).stmts(
                body@,
                0,
            ).set_loop(old(self)@.ctx.loop_data).emit(Instruction::Jump { target: start }),
        decreases body@, 0nat, body@.len() + 2,
    {
        let was_in_loop = self.ctx.loop_data;
        self.ctx.loop_data = Some((start, end));
        self.compile_statements(body, 0)?;
        self.ctx.loop_data = was_in_loop;
        self.emit(Instruction::Jump { target: start });
        Ok(())
    }

    #[verifier::spinoff_prover]
    fn compile_while(&mut self, x: &StmtWhile) -> (r: Result<(), Halt>)
        requires
            old(self).wf(),
            old(self)@.loop_ok(),
        ensures
            located(r, old(self)@),
            final(self)@.path == old(self)@.path,
            final(self).wf(),
            r is Ok ==> kept(old(self)@, final(self)@),
            outcome(final(self)@, r) == old(self)@.while_loop(*x),
        decreases x, 0nat, 0nat,
    {
        reveal(State::while_loop);
        reveal(State::stmts);
        let while_block = self.new_block()?;
        let else_block = self.new_block()?;
        let after_block = self.new_block()?;
        self.emit(Instruction::SetupLoop);
        self.switch_to_block(while_block);
        self.compile_jump_if(&x.test, false, else_block)?;
        self.compile_loop_body(&x.body, while_block, after_block)?;
        self.switch_to_block(else_block);
        self.emit(Instruction::PopBlock);
        self.compile_statements(&x.orelse, 0)?;
        self.switch_to_block(after_block);
        Ok(())
    }

    #[verifier::spinoff_prover]
    fn compile_with(&mut self, x: &StmtWith, i: usize) -> (r: Result<(), Halt>)
        requires
            old(self).wf(),
            old(self)@.loop_ok(),
            i <= x.items@.len(),
        ensures
            located(r, old(self)@),
            final(self)@.path == old(self)@.path,
            final(self).wf(),
            r is Ok ==> kept(old(self)@, final(self)@),
            outcome(final(self)@, r) == old(self)@.with_item(*x, i as nat),
        decreases x, 0nat, x.items@.len() - i,
    {
        reveal(State::with_item);
        reveal(State::stmts);
        let with_range = self.current_source_range;
        if i >= x.items.len() {
            return Err(Halt::Error(self.error(CodegenErrorType::EmptyWithItems)));
        }
        let final_block = self.new_block()?;
        self.enter_with(x, i, final_block)?;
        if i + 1 == x.items.len() {
            if x.body.len() == 0 {
                return Err(Halt::Error(self.error(CodegenErrorType::EmptyWithBody)));
            }
            self.compile_statements(&x.body, 0)?;
        } else {
            self.set_source_range(with_range);
            self.compile_with(x, i + 1)?;
        }
        // sort of "stack up" the layers of with blocks:
        // with a, b: body -> start_with(a) start_with(b) body() end_with(b) end_with(a)
        self.set_source_range(with_range);
        self.leave_with(x.is_async, final_block)
    }

    #[verifier::spinoff_prover]
    fn enter_with(&mut self, x: &StmtWith, i: usize, end: BlockIdx) -> (r: Result<(), Halt>)
        requires
            old(self).wf(),
            end.0 < old(self)@.top().blocks.len(),
            i < x.items@.len(),
        ensures
            located(r, old(self)@),
            final(self)@.path == old(self)@.path,
            final(self).wf(),
            r is Ok ==> kept(old(self)@, final(self)@),
            outcome(final(self)@, r) == old(self)@.enter_with(*x, i as nat, end),
    {
        reveal(State::enter_with);
        let with_range = self.current_source_range;
        let item = &x.items[i];
        self.compile_expression(&item.context_expr)?;
        self.set_source_range(with_range);
        if x.is_async {
            self.emit(Instruction::BeforeAsyncWith);
            self.emit(Instruction::GetAwaitable);
            self.emit_load_const(ConstantData::NoneValue)?;
            self.emit(Instruction::YieldFrom);
            self.emit(Instruction::SetupAsyncWith { end });
        } else {
            self.emit(Instruction::SetupWith { end });
        }
        match &item.optional_vars {
            Some(var) => {
                self.set_source_range(var.range());
                self.compile_store(var)
            },
            None => {
                self.emit(Instruction::Pop);
                Ok(())
            },
        }
    }

    #[verifier::spinoff_prover]
    fn leave_with(&mut self, is_async: bool, end: BlockIdx) -> (r: Result<(), Halt>)
        requires
            old(self).wf(),
            pending(old(self)@.top(), end),
        ensures
            located(r, old(self)@),
            final(self)@.path == old(self)@.path,
            final(self).wf(),
            r is Ok ==> moved(old(self)@, final(self)@, one_block(end)),
            r is Ok ==> more_ends(old(self)@.top(), final(self)@.top(), -1),
            outcome(final(self)@, r) == old(self)@.leave_with(is_async, end),
    {
        broadcast use group_own_layout;

        reveal(State::leave_with);
        self.emit(Instruction::PopBlock);
        self.emit(Instruction::EnterFinally);
        self.switch_to_block(end);
        self.emit(Instruction::WithCleanupStart);
        if is_async {
            self.emit(Instruction::GetAwaitable);
            self.emit_load_const(ConstantData::NoneValue)?;
            self.emit(Instruction::YieldFrom);
        }
        self.emit(Instruction::WithCleanupFinish);
        Ok(())
    }

    #[verifier::spinoff_prover]
    fn for_turn(
        &mut self,
        target: &Expr,
        is_async: bool,
        for_block: BlockIdx,
        else_block: BlockIdx,
    ) -> (r: Result<(), Halt>)
        requires
            old(self).wf(),
            pending(old(self)@.top(), for_block),
            else_block.0 < old(self)@.top().blocks.len(),
        ensures
            located(r, old(self)@),
            final(self)@.path == old(self)@.path,
            final(self).wf(),
            r is Ok ==> moved(old(self)@, final(self)@, one_block(for_block)),
            r is Ok ==> more_ends(old(self)@.top(), final(self)@.top(), -1),
            outcome(final(self)@, r) == old(self)@.for_turn(
                *target,
                is_async,
                for_block,
                else_block,
            ),
    {
        broadcast use group_own_layout;

        reveal(State::for_turn);
        if is_async {
            self.emit(Instruction::GetAIter);
            self.switch_to_block(for_block);
            self.emit(Instruction::SetupExcept { handler: else_block });
            self.emit(Instruction::GetANext);
            self.emit_load_const(ConstantData::NoneValue)?;
            self.emit(Instruction::YieldFrom);
            self.compile_store(target)?;
            self.emit(Instruction::PopBlock);
            Ok(())
        } else {
            // Retrieve Iterator
            self.emit(Instruction::GetIter);
            self.switch_to_block(for_block);
            self.emit(Instruction::ForIter { target: else_block });
            // Start of loop iteration, set targets:
            self.compile_store(target)
        }
    }

    #[verifier::spinoff_prover]
    fn compile_for(&mut self, x: &StmtFor) -> (r: Result<(), Halt>)
        requires
            old(self).wf(),
            old(self)@.loop_ok(),
        ensures
            located(r, old(self)@),
            final(self)@.path == old(self)@.path,
            final(self).wf(),
            r is Ok ==> kept(old(self)@, final(self)@),
            outcome(final(self)@, r) == old(self)@.for_loop(*x),
        decreases x, 0nat, 0nat,
    {
        reveal(State::for_loop);
        reveal(State::stmts);
        // Start loop
        let for_block = self.new_block()?;
        let else_block = self.new_block()?;
        let after_block = self.new_block()?;
        self.emit(Instruction::SetupLoop);
        // The thing iterated:
        self.compile_expression(&x.iter)?;
        self.for_turn(&x.target, x.is_async, for_block, else_block)?;
        self.compile_loop_body(&x.body, for_block, after_block)?;
        self.switch_to_block(else_block);
        if x.is_async {
            self.emit(Instruction::EndAsyncFor);
        }
        self.emit(Instruction::PopBlock);
        self.compile_statements(&x.orelse, 0)?;
        self.switch_to_block(after_block);
        Ok(())
    }

    /// Allocates a block and `n` more, and gives the number of the first.
    #[verifier::spinoff_prover]
    fn new_blocks(&mut self, n: usize) -> (r: Result<u32, Halt>)
        requires
            old(self).wf(),
        ensures
            located(r, old(self)@),
            final(self)@.path == old(self)@.path,
            final(self).wf(),
            r is Ok ==> moved(old(self)@, final(self)@, no_blocks()),
            r is Ok ==> more_ends(old(self)@.top(), final(self)@.top(), n + 1),
            outcome(final(self)@, r) == old(self)@.new_blocks(n as nat + 1),
            r matches Ok(base) ==> {
                &&& base == old(self)@.top().blocks.len()
                &&& base + n <= u32::MAX
                &&& base + n < final(self)@.top().blocks.len()
                &&& all_pending(final(self)@.top(), base as int, base + n + 1)
            },
    {
        reveal(State::new_blocks);
        reveal(State::new_block);
        let first = self.new_block()?;
        let mut i: usize = 0;
        reveal(all_pending);
        while i < n
            invariant
                self.wf(),
                moved(old(self)@, self@, no_blocks()),
                more_ends(old(self)@.top(), self@.top(), i + 1),
                i <= n,
                self@.top().blocks.len() == first.0 + i + 1,
                first.0 == old(self)@.top().blocks.len(),
                first.0 + i <= u32::MAX,
                all_pending(self@.top(), first.0 as int, first.0 + i + 1),
                old(self)@.new_blocks(n as nat + 1) == self@.new_blocks((n - i) as nat),
            decreases n - i,
        {
            reveal(State::new_blocks);
            reveal(State::new_block);
            let ghost before = self@.top();
            let _ = self.new_block()?;
            proof {
                lemma_all_pending(
                    before,
                    self@.top(),
                    no_blocks(),
                    first.0 as int,
                    first.0 as int,
                    first.0 + i + 1,
                );
                reveal(all_pending);
            }
            i += 1;
        }
        reveal(State::new_blocks);
        Ok(first.0)
    }

    #[verifier::spinoff_prover]
    fn compile_pattern_inner(
        &mut self,
        pattern: &Pattern,
        allow_irrefutable: bool,
    ) -> (r: Result<(), Halt>)
        requires
            old(self).wf(),
        ensures
            located(r, old(self)@),
            final(self)@.path == old(self)@.path,
            final(self).wf(),
            r is Ok ==> kept(old(self)@, final(self)@),
            outcome(final(self)@, r) == old(self)@.pattern(*pattern, allow_irrefutable),
        decreases pattern,
    {
        reveal(State::pattern);
        match pattern {
            Pattern::MatchValue(x) => {
                self.compile_expression(&x.value)?;
                self.emit(Instruction::CompareOperation { op: ComparisonOperator::Equal });
                Ok(())
            },
            Pattern::MatchAs(x) => {
                if x.pattern.is_none() && !allow_irrefutable {
                    return Err(
                        Halt::Error(
                            self.error_ranged(CodegenErrorType::InvalidMatchCase, x.range),
                        ),
                    );
                }
                // Need to make a copy for (possibly) storing later:
                self.emit(Instruction::Duplicate);
                if let Some(inner) = &x.pattern {
                    self.compile_pattern_inner(inner, allow_irrefutable)?;
                }
                match &x.name {
                    Some(name) => self.store_name(name.as_str()),
                    None => {
                        self.emit(Instruction::Pop);
                        Ok(())
                    },
                }
            },
            Pattern::Other(_) => Err(Halt::Error(self.error(CodegenErrorType::NotImplementedYet))),
        }
    }

    #[verifier::spinoff_prover]
    fn compile_cases(&mut self, s: &Vec<MatchCase>, base: u32) -> (r: Result<(), Halt>)
        requires
            old(self).wf(),
            old(self)@.loop_ok(),
            base + s@.len() < old(self)@.top().blocks.len(),
            base + s@.len() <= u32::MAX,
            all_pending(old(self)@.top(), base as int, base + s@.len() + 1),
        ensures
            located(r, old(self)@),
            final(self)@.path == old(self)@.path,
            final(self).wf(),
            r is Ok ==> {
                &&& moved(old(self)@, final(self)@, block_range(base as nat, s@.len()))
                &&& more_ends(old(self)@.top(), final(self)@.top(), -s@.len())
                &&& all_left(final(self)@.top(), base as int, base + s@.len())
                &&& pending(final(self)@.top(), BlockIdx((base + s@.len()) as u32))
            },
            outcome(final(self)@, r) == old(self)@.cases(s@, 0, base as nat),
        decreases s@, 0nat, s@.len() + 1,
    {
        let n: usize = s.len();
        let mut i: usize = 0;
        let end_block = BlockIdx(base + n as u32);
        assert(all_left(self@.top(), base as int, base as int)) by {
            reveal(all_left);
        }
        while i < n
            invariant
                self.wf(),
                moved(old(self)@, self@, block_range(base as nat, n as nat)),
                more_ends(old(self)@.top(), self@.top(), -i),
                all_left(self@.top(), base as int, base + i),
                all_pending(self@.top(), base + i, base + n + 1),
                old(self)@.loop_ok(),
                base + s@.len() < old(self)@.top().blocks.len(),
                i <= n,
                n == s@.len(),
                base + n <= u32::MAX,
                end_block == BlockIdx((base + n) as u32),
                old(self)@.cases(s@, 0, base as nat) == self@.cases(s@, i as nat, base as nat),
            decreases n - i,
        {
            broadcast use group_own_layout;

            reveal(State::cases);
            reveal(State::stmts);
            let last = i + 1 == n;
            let ghost before = self@.top();
            let ghost block = BlockIdx((base + i) as u32);
            proof {
                reveal(all_pending);
                assert(pending(before, block));
            }
            self.switch_to_block(BlockIdx(base + i as u32));
            let ghost entered = self@.top();
            proof {
                lemma_laid_out(
                    old(self)@.top(),
                    before,
                    entered,
                    block_range(base as nat, n as nat),
                    one_block(block),
                    block_range(base as nat, n as nat),
                );
                lemma_all_pending(
                    before,
                    entered,
                    one_block(block),
                    base + i,
                    base + i + 1,
                    base + n + 1,
                );
                lemma_all_left(before, entered, one_block(block), base as int, base + i);
                assert(all_left(entered, base as int, base + i + 1)) by {
                    reveal(all_left);
                    reveal(State::switch_to);
                    assert(left(entered, base + i));
                }
            }
            // Only copy the subject if we're *not* on the last case:
            if !last {
                self.emit(Instruction::Duplicate);
            }
            self.compile_pattern_inner(&s[i].pattern, s[i].guard.is_some() || last)?;
            self.emit(Instruction::JumpIfFalse { target: BlockIdx(base + i as u32 + 1) });
            self.compile_statements(&s[i].body, 0)?;
            self.emit(Instruction::Jump { target: end_block });
            proof {
                lemma_all_pending(
                    entered,
                    self@.top(),
                    no_blocks(),
                    base + i + 1,
                    base + i + 1,
                    base + n + 1,
                );
                lemma_all_left(entered, self@.top(), no_blocks(), base as int, base + i + 1);
            }
            i += 1;
        }
        reveal(all_pending);
        assert(pending(self@.top(), BlockIdx((base + n) as u32)));
        reveal(State::cases);
        reveal(State::stmts);
        Ok(())
    }

    /// Makes each of `n` blocks from `base` on fall through to the next one.
    #[verifier::spinoff_prover]
    fn relink(&mut self, base: u32, n: usize)
        requires
            old(self).wf(),
            base + n <= u32::MAX,
            base + n < old(self)@.top().blocks.len(),
            !(base <= old(self)@.top().current_block.0 < base + n),
            all_left(old(self)@.top(), base as int, base + n),
        ensures
            final(self).wf(),
            moved(old(self)@, final(self)@, block_range(base as nat, n as nat)),
            more_ends(old(self)@.top(), final(self)@.top(), 0),
            final(self)@ == old(self)@.relink(base as nat, n as nat),
    {
        proof {
            lemma_relink(self@, base as nat, n as nat);
        }
        reveal(State::relink);
        reveal(code_model);
        let k: usize = self.code_stack.len();
        assert(self@.codes[k - 1] == self.code_stack@[k - 1]@);
        let start: usize = base as usize;
        let mut i: usize = 0;
        let ghost blocks = self@.top().blocks;
        assert(relinked(blocks, base as nat, 0) =~= blocks);
        assert(old(self)@.with_top(old(self)@.top()).codes =~= old(self)@.codes);
        while i < n
            invariant
                i <= n,
                start == base,
                base + n <= u32::MAX,
                base + n <= blocks.len(),
                k == self.code_stack@.len(),
                k > 0,
                blocks == old(self)@.top().blocks,
                k == old(self)@.codes.len(),
                self@ == old(self)@.with_top(
                    CodeModel {
                        blocks: relinked(blocks, base as nat, i as nat),
                        ..old(self)@.top()
                    },
                ),
            decreases n - i,
        {
            reveal(code_model);
            assert(self@.codes[k - 1] == self.code_stack@[k - 1]@);
            let ghost prev = self@.codes;
            let ghost before = self@.codes[k - 1].blocks;
            assert(before == relinked(blocks, base as nat, i as nat));
            let code = &mut self.code_stack[k - 1];
            let block = &mut code.blocks[start + i];
            block.next = BlockIdx(base + i as u32 + 1);
            proof {
                assert(self.code_stack@[k - 1]@.blocks =~= before.update(
                    start + i,
                    BlockModel { next: BlockIdx((base + i + 1) as u32), ..before[start + i] },
                ));
                assert(self.code_stack@[k - 1]@.blocks =~= relinked(
                    blocks,
                    base as nat,
                    (i + 1) as nat,
                ));
                assert(self.code_stack@[k - 1]@ == CodeModel {
                    blocks: relinked(blocks, base as nat, (i + 1) as nat),
                    ..prev[k - 1]
                });
                assert(self@.codes =~= prev.update(k - 1, self.code_stack@[k - 1]@));
                assert(self@.codes =~= old(self)@.with_top(
                    CodeModel {
                        blocks: relinked(blocks, base as nat, (i + 1) as nat),
                        ..old(self)@.top()
                    },
                ).codes);
            }
            i += 1;
        }
    }

    #[verifier::spinoff_prover]
    fn compile_match(&mut self, x: &StmtMatch) -> (r: Result<(), Halt>)
        requires
            old(self).wf(),
            old(self)@.loop_ok(),
        ensures
            located(r, old(self)@),
            final(self)@.path == old(self)@.path,
            final(self).wf(),
            r is Ok ==> kept(old(self)@, final(self)@),
            outcome(final(self)@, r) == old(self)@.match_statement(*x),
        decreases x, 0nat, 0nat,
    {
        reveal(State::match_statement);
        reveal(State::cases);
        self.compile_expression(&x.subject)?;
        let n: usize = x.cases.len();
        let base: u32 = self.new_blocks(n)?;
        if n == 0 {
            return Err(Halt::Panic);
        }
        let ghost own = block_range(base as nat, n as nat);
        let ghost before = self@.top();
        self.compile_cases(&x.cases, base)?;
        proof {
            lemma_laid_out(old(self)@.top(), before, self@.top(), no_blocks(), own, no_blocks());
        }
        let ghost cased = self@.top();
        self.switch_to_block(BlockIdx(base + n as u32));
        let ghost before = self@.top();
        proof {
            let end = one_block(BlockIdx((base + n) as u32));
            lemma_all_left(cased, before, end, base as int, base + n);
        }
        self.relink(base, n);
        proof {
            lemma_laid_out(old(self)@.top(), before, self@.top(), no_blocks(), own, no_blocks());
        }
        Ok(())
    }

    #[verifier::spinoff_prover]
    fn compile_try_star_statement(&mut self, x: &StmtTry) -> (r: Result<(), Halt>)
        requires
            old(self).wf(),
            x.is_star,
        ensures
            located(r, old(self)@),
            final(self)@.path == old(self)@.path,
            final(self).wf(),
            r is Ok ==> kept(old(self)@, final(self)@),
            outcome(final(self)@, r) == old(self)@.try_statement(*x),
    {
        reveal(State::try_statement);
        reveal(State::stmts);
        reveal(State::handlers);
        Err(Halt::Error(self.error(CodegenErrorType::NotImplementedYet)))
    }

    #[verifier::spinoff_prover]
    fn compile_try_statement(&mut self, x: &StmtTry) -> (r: Result<(), Halt>)
        requires
            old(self).wf(),
            old(self)@.loop_ok(),
            !x.is_star,
        ensures
            located(r, old(self)@),
            final(self)@.path == old(self)@.path,
            final(self).wf(),
            r is Ok ==> kept(old(self)@, final(self)@),
            outcome(final(self)@, r) == old(self)@.try_statement(*x),
        decreases x, 0nat, 0nat,
    {
        reveal(State::try_statement);
        reveal(State::stmts);
        reveal(State::handlers);
        let has_final = x.finalbody.len() > 0;
        let handler_block = self.new_block()?;
        let finally_block = self.new_block()?;
        // Setup a finally block if we have a finally statement.
        if has_final {
            self.emit(Instruction::SetupFinally { handler: finally_block });
        }
        let else_block = self.new_block()?;
        // try:
        self.emit(Instruction::SetupExcept { handler: handler_block });
        self.compile_statements(&x.body, 0)?;
        self.emit(Instruction::PopBlock);
        self.emit(Instruction::Jump { target: else_block });
        // except handlers:
        self.switch_to_block(handler_block);
        // Exception is on top of stack now
        self.compile_handlers(&x.handlers, finally_block, has_final)?;
        // If code flows here, we have an unhandled exception,
        // raise the exception again!
        self.emit(Instruction::Raise { kind: RaiseKind::Reraise });
        // We successfully ran the try block:
        // else:
        self.switch_to_block(else_block);
        self.compile_statements(&x.orelse, 0)?;
        self.leave_try(has_final);
        // finally:
        self.switch_to_block(finally_block);
        if has_final {
            self.compile_statements(&x.finalbody, 0)?;
            self.emit(Instruction::EndFinally);
        }
        Ok(())
    }

    #[verifier::spinoff_prover]
    fn leave_try(&mut self, has_final: bool)
        requires
            old(self).wf(),
        ensures
            final(self).wf(),
            kept(old(self)@, final(self)@),
            final(self)@ == old(self)@.leave_try(has_final),
    {
        reveal(State::leave_try);
        if has_final {
            self.emit(Instruction::PopBlock);
            // We enter the finally block, without exception.
            self.emit(Instruction::EnterFinally);
        }
    }

    #[verifier::spinoff_prover]
    fn compile_catch(
        &mut self,
        handler: &ExceptHandler,
        next_handler: BlockIdx,
    ) -> (r: Result<(), Halt>)
        requires
            old(self).wf(),
            next_handler.0 < old(self)@.top().blocks.len(),
        ensures
            located(r, old(self)@),
            final(self)@.path == old(self)@.path,
            final(self).wf(),
            r is Ok ==> kept(old(self)@, final(self)@),
            outcome(final(self)@, r) == old(self)@.catch(*handler, next_handler),
    {
        reveal(State::catch);
        match &handler.type_ {
            // If we gave a typ,
            // check if this handler can handle the exception:
            Some(exc_type) => {
                // Duplicate exception for test:
                self.emit(Instruction::Duplicate);
                // Check exception type:
                self.compile_expression(exc_type)?;
                self.emit(Instruction::TestOperation { op: TestOperator::ExceptionMatch });
                // We cannot handle this exception type:
                self.emit(Instruction::JumpIfFalse { target: next_handler });
                // We have a match, store in name (except x as y)
                match &handler.name {
                    Some(alias) => self.store_name(alias.as_str()),
                    None => {
                        // Drop exception from top of stack:
                        self.emit(Instruction::Pop);
                        Ok(())
                    },
                }
            },
            None => {
                // Catch all!
                // Drop exception from top of stack:
                self.emit(Instruction::Pop);
                Ok(())
            },
        }
    }

    #[verifier::spinoff_prover]
    fn compile_handlers(
        &mut self,
        s: &Vec<ExceptHandler>,
        finally_block: BlockIdx,
        has_final: bool,
    ) -> (r: Result<(), Halt>)
        requires
            old(self).wf(),
            old(self)@.loop_ok(),
            finally_block.0 < old(self)@.top().blocks.len(),
        ensures
            located(r, old(self)@),
            final(self)@.path == old(self)@.path,
            final(self).wf(),
            r is Ok ==> kept(old(self)@, final(self)@),
            outcome(final(self)@, r) == old(self)@.handlers(s@, 0, finally_block, has_final),
        decreases s@, 0nat, s@.len() + 1,
    {
        let n: usize = s.len();
        let mut i: usize = 0;
        while i < n
            invariant
                self.wf(),
                kept(old(self)@, self@),
                old(self)@.loop_ok(),
                finally_block.0 < old(self)@.top().blocks.len(),
                i <= n,
                n == s@.len(),
                old(self)@.handlers(s@, 0, finally_block, has_final) == self@.handlers(
                    s@,
                    i as nat,
                    finally_block,
                    has_final,
                ),
            decreases n - i,
        {
            reveal(State::handlers);
            reveal(State::stmts);
            let next_handler = self.new_block()?;
            self.compile_catch(&s[i], next_handler)?;
            // Handler code:
            self.compile_statements(&s[i].body, 0)?;
            self.emit(Instruction::PopException);
            self.leave_try(has_final);
            self.emit(Instruction::Jump { target: finally_block });
            // Emit a new label for the next handler
            self.switch_to_block(next_handler);
            i += 1;
        }
        reveal(State::handlers);
        reveal(State::stmts);
        Ok(())
    }
}

} // verus!
