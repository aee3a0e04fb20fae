//! Compiles comprehensions.
use vstd::prelude::*;

use crate::ast::{Comprehension, Expr};
use crate::bytecode::{BlockIdx, CodeFlags, ConstantData, Instruction, MakeFunctionFlags};
use crate::compiler::{to_u32, Compiler};
use crate::error::CodegenErrorType;
use crate::expr_code::{
    async_generator, comprehension_generators, comprehension_name, comprehension_type,
    element_awaits, group_halted_parts, ComprehensionType,
};
use crate::state::{
    group_halted_steps, located, outcome, CompileContext, FunctionContext, Halt, State,
};
use crate::validity::{
    group_layout, group_own_layout, kept, more_ends, moved, one_block, opened, pending,
};

verus! {

broadcast use {group_halted_steps, group_halted_parts, group_layout};

/// Whether one of the generators is asynchronous.
pub(crate) fn has_async_generator(s: &Vec<Comprehension>) -> (r: bool)
    ensures
        r == async_generator(s@, 0),
{
    let n: usize = s.len();
    let mut i: usize = 0;
    while i < n
        invariant
            i <= n,
            n == s@.len(),
            async_generator(s@, 0) == async_generator(s@, i as nat),
        decreases n - i,
    {
        if s[i].is_async {
            return true;
        }
        i += 1;
    }
    false
}

/// The generators of a comprehension.
pub(crate) fn generators_of(e: &Expr) -> (r: Option<&Vec<Comprehension>>)
    ensures
        match r {
            Some(g) => g@ == comprehension_generators(*e),
            None => comprehension_generators(*e).len() == 0,
        },
{
    match e {
        Expr::ListComp(x) => Some(&x.generators),
        Expr::SetComp(x) => Some(&x.generators),
        Expr::DictComp(x) => Some(&x.generators),
        Expr::Generator(x) => Some(&x.generators),
        _ => None,
    }
}

/// The kind of a comprehension.
fn comprehension_kind(e: &Expr) -> (r: ComprehensionType)
    ensures
        r == comprehension_type(*e),
{
    match e {
        Expr::ListComp(_) => ComprehensionType::List,
        Expr::SetComp(_) => ComprehensionType::SetDisplay,
        Expr::DictComp(_) => ComprehensionType::Dict,
        _ => ComprehensionType::Generator,
    }
}

/// Whether what a comprehension gives for each turn contains an await expression.
fn element_contains_await(e: &Expr) -> (r: bool)
    ensures
        r == element_awaits(*e),
{
    reveal(element_awaits);
    match e {
        Expr::ListComp(x) => Compiler::contains_await(&x.elt),
        Expr::SetComp(x) => Compiler::contains_await(&x.elt),
        Expr::DictComp(x) => Compiler::contains_await(&x.key) || Compiler::contains_await(&x.value),
        Expr::Generator(x) => Compiler::contains_await(&x.elt),
        _ => false,
    }
}

impl<'a> Compiler<'a> {
    #[verifier::spinoff_prover]
    pub(crate) fn compile_comprehension_element(&mut self, element: &Expr) -> (r: Result<(), Halt>)
        requires
            old(self).wf(),
        ensures
            located(r, old(self)@),
            final(self)@.path == old(self)@.path,
            final(self).wf(),
            r is Ok ==> kept(old(self)@, final(self)@),
            outcome(final(self)@, r) == old(self)@.comprehension_element(*element),
        decreases element, 4nat, 0nat,
    {
        reveal(State::comprehension_element);
        reveal(State::expr);
        match self.compile_expression(element) {
            Ok(()) => Ok(()),
            Err(Halt::Panic) => Err(Halt::Panic),
            Err(Halt::Error(e)) => match e.error {
                CodegenErrorType::InvalidStarExpr => Err(
                    Halt::Error(
                        self.error(
                            CodegenErrorType::SyntaxError(
                                "iterable unpacking cannot be used in comprehension".to_owned(),
                            ),
                        ),
                    ),
                ),
                _ => Err(Halt::Error(e)),
            },
        }
    }

    #[verifier::spinoff_prover]
    fn compile_comprehension_value(&mut self, e: &Expr) -> (r: Result<(), Halt>)
        requires
            old(self).wf(),
        ensures
            located(r, old(self)@),
            final(self)@.path == old(self)@.path,
            final(self).wf(),
            r is Ok ==> kept(old(self)@, final(self)@),
            outcome(final(self)@, r) == old(self)@.comprehension_value(*e),
        decreases e, 0nat, 0nat,
    {
        reveal(State::comprehension_value);
        reveal(State::comprehension_element);
        reveal(State::expr);
        match e {
            Expr::ListComp(x) => self.compile_comprehension_element(&x.elt),
            Expr::SetComp(x) => self.compile_comprehension_element(&x.elt),
            Expr::DictComp(x) => {
                // changed evaluation order for Py38 named expression PEP 572
                self.compile_expression(&x.key)?;
                self.compile_expression(&x.value)
            },
            Expr::Generator(x) => self.compile_comprehension_element(&x.elt),
            _ => Ok(()),
        }
    }

    #[verifier::spinoff_prover]
    fn comprehension_collect(&mut self, ty: ComprehensionType, n: usize) -> (r: Result<(), Halt>)
        requires
            old(self).wf(),
        ensures
            located(r, old(self)@),
            final(self)@.path == old(self)@.path,
            final(self).wf(),
            r is Ok ==> kept(old(self)@, final(self)@),
            outcome(final(self)@, r) == old(self)@.comprehension_collect(ty, n as nat),
    {
        reveal(State::comprehension_collect);
        if ty == ComprehensionType::Generator {
            self.mark_generator();
            self.emit(Instruction::YieldValue);
            self.emit(Instruction::Pop);
            return Ok(());
        }
        let i: u32 = to_u32(n)?;
        match ty {
            ComprehensionType::List => self.emit(Instruction::ListAppend { i }),
            ComprehensionType::SetDisplay => self.emit(Instruction::SetAdd { i }),
            _ => self.emit(Instruction::MapAdd { i }),
        }
        Ok(())
    }

    /// Calls the function of a comprehension, and awaits its result if need be.
    #[verifier::spinoff_prover]
    fn call_comprehension(&mut self, async_iter: bool, awaited: bool) -> (r: Result<(), Halt>)
        requires
            old(self).wf(),
        ensures
            located(r, old(self)@),
            final(self)@.path == old(self)@.path,
            final(self).wf(),
            r is Ok ==> kept(old(self)@, final(self)@),
            outcome(final(self)@, r) == old(self)@.call_comprehension(async_iter, awaited),
    {
        reveal(State::call_comprehension);
        // Get iterator / turn item into an iterator
        if async_iter {
            self.emit(Instruction::GetAIter);
        } else {
            self.emit(Instruction::GetIter);
        }
        // Call just created <listcomp> function:
        self.emit(Instruction::CallFunctionPositional { nargs: 1 });
        if awaited {
            // async, but not a generator and not an async for
            // in this case, we end up with an awaitable
            // that evaluates to the list/set/dict, so here we add an await
            self.emit(Instruction::GetAwaitable);
            self.emit_load_const(ConstantData::NoneValue)?;
            self.emit(Instruction::YieldFrom);
        }
        Ok(())
    }

    /// The start of the loop of a generator. The first one's iterator is passed as the first
    /// argument.
    #[verifier::spinoff_prover]
    pub(crate) fn compile_comprehension_loop(
        &mut self,
        generator: &Comprehension,
        first: Option<u32>,
        loop_block: BlockIdx,
        after_block: BlockIdx,
    ) -> (r: Result<(), Halt>)
        requires
            old(self).wf(),
            first matches Some(arg0) ==> arg0 < old(self)@.top().varnames.len(),
            pending(old(self)@.top(), loop_block),
            after_block.0 < old(self)@.top().blocks.len(),
        ensures
            located(r, old(self)@),
            final(self)@.path == old(self)@.path,
            final(self).wf(),
            r is Ok ==> moved(old(self)@, final(self)@, one_block(loop_block)),
            r is Ok ==> more_ends(old(self)@.top(), final(self)@.top(), -1),
            outcome(final(self)@, r) == old(self)@.comprehension_loop(
                *generator,
                first,
                loop_block,
                after_block,
            ),
        decreases generator, 0nat, 0nat,
    {
        broadcast use group_own_layout;

        reveal(State::comprehension_loop);
        reveal(State::expr);
        reveal(State::store);
        reveal(State::jump_ifs);
        match first {
            Some(arg0) => {
                // Load iterator onto stack (passed as first argument):
                self.emit(Instruction::LoadFast(arg0));
            },
            None => {
                // Evaluate iterated item:
                self.compile_expression(&generator.iter)?;
                // Get iterator / turn item into an iterator
                if generator.is_async {
                    self.emit(Instruction::GetAIter);
                } else {
                    self.emit(Instruction::GetIter);
                }
            },
        }
        self.switch_to_block(loop_block);
        if generator.is_async {
            self.emit(Instruction::SetupExcept { handler: after_block });
            self.emit(Instruction::GetANext);
            self.emit_load_const(ConstantData::NoneValue)?;
            self.emit(Instruction::YieldFrom);
            self.compile_store(&generator.target)?;
            self.emit(Instruction::PopBlock);
        } else {
            self.emit(Instruction::ForIter { target: after_block });
            self.compile_store(&generator.target)?;
        }
        // Now evaluate the ifs:
        self.compile_jump_ifs(&generator.ifs, generator.ifs.len(), false, loop_block)
    }

    #[verifier::spinoff_prover]
    pub(crate) fn compile_comprehension_loops(
        &mut self,
        e: &Expr,
        generators: &Vec<Comprehension>,
        i: usize,
        arg0: u32,
    ) -> (r: Result<(), Halt>)
        requires
            old(self).wf(),
            arg0 < old(self)@.top().varnames.len(),
            generators@ == comprehension_generators(*e),
            i <= generators@.len(),
            generators@.len() > 0,
        ensures
            located(r, old(self)@),
            final(self)@.path == old(self)@.path,
            final(self).wf(),
            r is Ok ==> kept(old(self)@, final(self)@),
            outcome(final(self)@, r) == old(self)@.comprehension_loops(
                *e,
                generators@,
                i as nat,
                arg0,
            ),
        decreases e, 1nat, generators@.len() - i,
    {
        reveal(State::comprehension_loops);
        reveal(State::comprehension_value);
        reveal(State::comprehension_loop);
        if i == generators.len() {
            self.compile_comprehension_value(e)?;
            let ty = comprehension_kind(e);
            return self.comprehension_collect(ty, generators.len());
        }
        let loop_block = self.new_block()?;
        let after_block = self.new_block()?;
        let first = if i == 0 {
            Some(arg0)
        } else {
            None
        };
        self.compile_comprehension_loop(&generators[i], first, loop_block, after_block)?;
        self.compile_comprehension_loops(e, generators, i + 1, arg0)?;
        // Repeat:
        self.emit(Instruction::Jump { target: loop_block });
        // End of for loop:
        self.switch_to_block(after_block);
        if has_async_generator(generators) {
            self.emit(Instruction::EndAsyncFor);
        }
        Ok(())
    }

    #[verifier::spinoff_prover]
    pub(crate) fn compile_comprehension_function(
        &mut self,
        e: &Expr,
        generators: &Vec<Comprehension>,
        name: &str,
        ty: ComprehensionType,
        is_async: bool,
    ) -> (r: Result<(), Halt>)
        requires
            old(self).wf(),
            generators@ == comprehension_generators(*e),
            generators@.len() > 0,
            ty == comprehension_type(*e),
            name@ == comprehension_name(ty),
        ensures
            located(r, old(self)@),
            final(self)@.path == old(self)@.path,
            final(self).wf(),
            outcome(final(self)@, r) == old(self)@.comprehension_function(*e, is_async),
            r is Ok ==> {
                &&& opened(old(self)@, final(self)@)
                &&& final(self)@.ctx == old(self)@.ctx
                &&& final(self)@.class_name == old(self)@.class_name
                &&& final(self)@.qualified == old(self)@.qualified
            },
        decreases e, 2nat, 0nat,
    {
        reveal(State::comprehension_function);
        reveal(State::comprehension_loops);
        // Create magnificent function <listcomp>:
        self.push_output(
            CodeFlags {
                new_locals: true,
                is_generator: false,
                is_coroutine: is_async,
                has_varargs: false,
                has_varkeywords: false,
                is_optimized: true,
            },
            1,
            1,
            0,
            name,
        )?;
        let arg0: u32 = self.varname(".0")?;
        // Create empty object of proper type:
        match ty {
            ComprehensionType::List => self.emit(Instruction::BuildList { size: 0 }),
            ComprehensionType::SetDisplay => self.emit(Instruction::BuildSet { size: 0 }),
            ComprehensionType::Dict => self.emit(Instruction::BuildMap { size: 0 }),
            ComprehensionType::Generator => {},
        }
        self.compile_comprehension_loops(e, generators, 0, arg0)?;
        if ty == ComprehensionType::Generator {
            self.emit_load_const(ConstantData::NoneValue)?;
        }
        // Return freshly filled list:
        self.emit_return_value();
        Ok(())
    }

    #[verifier::spinoff_prover]
    pub(crate) fn compile_comprehension(&mut self, e: &Expr) -> (r: Result<(), Halt>)
        requires
            old(self).wf(),
        ensures
            located(r, old(self)@),
            final(self)@.path == old(self)@.path,
            final(self).wf(),
            r is Ok ==> kept(old(self)@, final(self)@),
            outcome(final(self)@, r) == old(self)@.comprehension(*e),
        decreases e, 2nat, 1nat,
    {
        reveal(State::comprehension);
        reveal(State::comprehension_function);
        reveal(State::expr);
        let prev_ctx = self.ctx;
        let ty = comprehension_kind(e);
        let name = match ty {
            ComprehensionType::List => "<listcomp>",
            ComprehensionType::SetDisplay => "<setcomp>",
            ComprehensionType::Dict => "<dictcomp>",
            ComprehensionType::Generator => "<genexpr>",
        };
        let is_generator = ty == ComprehensionType::Generator;
        let generators = generators_of(e);
        let has_an_async_gen = match generators {
            Some(generators) => has_async_generator(generators),
            None => false,
        };
        // async comprehensions are allowed in various contexts:
        // - list/set/dict comprehensions in async functions
        // - always for generator expressions
        // Note: generators have to be treated specially since their async version is a
        // fundamentally different type (aiter vs iter) instead of just an awaitable.
        let is_async = (has_an_async_gen || element_contains_await(e)) && (is_generator
            || prev_ctx.func == FunctionContext::AsyncFunction);
        self.ctx = CompileContext {
            loop_data: None,
            in_class: prev_ctx.in_class,
            func: if is_async {
                FunctionContext::AsyncFunction
            } else {
                FunctionContext::Function
            },
        };
        // We must have at least one generator:
        let generators = match generators {
            Some(generators) => generators,
            None => {
                return Err(Halt::Panic);
            },
        };
        if generators.len() == 0 {
            return Err(Halt::Panic);
        }
        self.compile_comprehension_function(e, generators, name, ty, is_async)?;
        // Fetch code for listcomp function, and turn it into a function object:
        self.close_function(
            prev_ctx,
            name,
            MakeFunctionFlags {
                closure: false,
                annotations: false,
                kw_only_defaults: false,
                defaults: false,
                type_params: false,
            },
        )?;
        // Evaluate iterated item:
        self.compile_expression(&generators[0].iter)?;
        self.call_comprehension(has_an_async_gen, is_async && !is_generator)
    }
}

} // verus!
