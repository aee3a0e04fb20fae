//! Compiles functions: their defaults, parameters and closures.
use vstd::prelude::*;

use crate::ast::{ExprLambda, Parameter, ParameterWithDefault, Parameters};
use crate::bytecode::{
    code_model, CodeFlags, CodeObject, ConstantData, Instruction, MakeFunctionFlags,
};
use crate::compiler::{to_u32, Compiler};
use crate::expr_code::{default_count, group_halted_parts, parameter_flags};
use crate::state::{
    group_halted_steps, located, outcome, CompileContext, FunctionContext, Halt, State,
};
use crate::text::texts;
use crate::validity::{
    closed_within, code_ok, complete, group_layout, kept, lemma_set_flags, opened,
};

verus! {

broadcast use {group_halted_steps, group_halted_parts, group_layout};

/// The number of parameters that have a default.
pub(crate) fn count_defaults(s: &Vec<ParameterWithDefault>) -> (r: usize)
    ensures
        r == default_count(s@, 0),
{
    let n: usize = s.len();
    let mut i: usize = 0;
    let mut count: usize = 0;
    while i < n
        invariant
            i <= n,
            n == s@.len(),
            count <= i,
            count + default_count(s@, i as nat) == default_count(s@, 0),
        decreases n - i,
    {
        if s[i].default.is_some() {
            count += 1;
        }
        i += 1;
    }
    count
}

/// The sum of two counts as an argument, if it fits.
pub(crate) fn sum_to_u32(a: usize, b: usize) -> (r: Result<u32, Halt>)
    ensures
        a + b <= u32::MAX ==> r == Ok::<u32, Halt>((a + b) as u32),
        a + b > u32::MAX ==> r == Err::<u32, Halt>(Halt::Panic),
{
    if a > u32::MAX as usize || b > u32::MAX as usize - a {
        Err(Halt::Panic)
    } else {
        Ok((a + b) as u32)
    }
}

impl<'a> Compiler<'a> {
    /// Sets the flags of the current code unit.
    #[verifier::spinoff_prover]
    pub fn set_flags(&mut self, flags: CodeFlags)
        requires
            old(self).wf(),
        ensures
            final(self).wf(),
            kept(old(self)@, final(self)@),
            final(self)@ == old(self)@.set_flags(flags),
    {
        proof {
            lemma_set_flags(self@, flags);
        }
        reveal(State::set_flags);
        let n: usize = self.code_stack.len();
        reveal(code_model);
        assert(self@.codes[n - 1] == self.code_stack@[n - 1]@);
        self.code_stack[n - 1].flags = flags;
        assert(self@.codes =~= old(self)@.set_flags(flags).codes);
    }

    /// The flags of the current code unit.
    pub fn current_flags(&self) -> (r: CodeFlags)
        requires
            self.wf(),
        ensures
            r == self@.top().flags,
    {
        let n: usize = self.code_stack.len();
        reveal(code_model);
        assert(self@.codes[n - 1] == self.code_stack@[n - 1]@);
        self.code_stack[n - 1].flags
    }

    #[verifier::spinoff_prover]
    pub fn mark_generator(&mut self)
        requires
            old(self).wf(),
        ensures
            final(self).wf(),
            kept(old(self)@, final(self)@),
            final(self)@ == old(self)@.mark_generator(),
    {
        reveal(State::mark_generator);
        let flags = self.current_flags();
        self.set_flags(CodeFlags { is_generator: true, ..flags })
    }

    pub(crate) fn mark_coroutine(&mut self, is_coroutine: bool)
        requires
            old(self).wf(),
        ensures
            final(self).wf(),
            kept(old(self)@, final(self)@),
            final(self)@ == old(self)@.mark_coroutine(is_coroutine),
    {
        reveal(State::mark_coroutine);
        let flags = self.current_flags();
        self.set_flags(CodeFlags { is_coroutine, ..flags })
    }

    pub(crate) fn mark_varargs(&mut self)
        requires
            old(self).wf(),
        ensures
            final(self).wf(),
            kept(old(self)@, final(self)@),
            final(self)@ == old(self)@.mark_varargs(),
    {
        reveal(State::mark_varargs);
        let flags = self.current_flags();
        self.set_flags(CodeFlags { has_varargs: true, ..flags })
    }

    pub(crate) fn mark_varkeywords(&mut self)
        requires
            old(self).wf(),
        ensures
            final(self).wf(),
            kept(old(self)@, final(self)@),
            final(self)@ == old(self)@.mark_varkeywords(),
    {
        reveal(State::mark_varkeywords);
        let flags = self.current_flags();
        self.set_flags(CodeFlags { has_varkeywords: true, ..flags })
    }

    #[verifier::spinoff_prover]
    pub(crate) fn load_closure(&mut self, var: &str) -> (r: Result<(), Halt>)
        requires
            old(self).wf(),
        ensures
            located(r, old(self)@),
            final(self)@.path == old(self)@.path,
            final(self).wf(),
            r is Ok ==> kept(old(self)@, final(self)@),
            outcome(final(self)@, r) == old(self)@.load_closure(var@),
    {
        reveal(State::load_closure);
        let n: usize = self.symbol_table_stack.len();
        if n == 0 {
            return Err(Halt::Panic);
        }
        assert(self@.tables.last() == self.symbol_table_stack@[n - 1]@);
        let symbol = match self.symbol_table_stack[n - 1].table.lookup(var) {
            Some(symbol) => symbol,
            None => {
                return Err(Halt::Panic);
            },
        };
        let k: usize = self.code_stack.len();
        reveal(code_model);
        assert(self@.codes[k - 1] == self.code_stack@[k - 1]@);
        let parent = &self.code_stack[k - 1];
        let free = symbol.scope == crate::symboltable::SymbolScope::Free;
        let cell = symbol.scope == crate::symboltable::SymbolScope::Cell;
        if !free && !cell && !symbol.free_class {
            return Err(Halt::Panic);
        }
        let slot = if cell {
            crate::pool::find_text(&parent.cellvar_cache, var)
        } else {
            crate::pool::find_text(&parent.freevar_cache, var)
        };
        let idx: usize = match slot {
            Some(idx) => idx,
            None => {
                return Err(Halt::Panic);
            },
        };
        let base: usize = if free {
            parent.cellvar_cache.len()
        } else {
            0
        };
        if idx > u32::MAX as usize || base > u32::MAX as usize - idx {
            return Err(Halt::Panic);
        }
        self.emit(Instruction::LoadClosure((idx + base) as u32));
        Ok(())
    }

    /// Builds the closure of an inner code unit, and tells whether it needs one.
    #[verifier::spinoff_prover]
    pub fn build_closure(&mut self, code: &CodeObject) -> (r: Result<bool, Halt>)
        requires
            old(self).wf(),
        ensures
            located(r, old(self)@),
            final(self)@.path == old(self)@.path,
            final(self).wf(),
            r is Ok ==> kept(old(self)@, final(self)@),
            outcome(final(self)@, r) == old(self)@.closure(code.code@.freevars),
            r matches Ok(b) ==> b == (code.code@.freevars.len() > 0),
    {
        reveal(State::closure);
        reveal(code_model);
        let vars = &code.code.freevar_cache;
        let n: usize = vars.len();
        let ghost all = texts(vars@);
        if n == 0 {
            return Ok(false);
        }
        let mut i: usize = 0;
        let ghost start = self@;
        while i < n
            invariant
                self.wf(),
                kept(old(self)@, self@),
                i <= n,
                n == vars@.len(),
                all == texts(vars@),
                start.load_closures(all, 0) == self@.load_closures(all, i as nat),
                start == old(self)@,
                all == code.code@.freevars,
                n > 0,
            decreases n - i,
        {
            proof {
                reveal(State::load_closures);
                reveal(State::closure);
            }
            self.load_closure(vars[i].as_str())?;
            i += 1;
        }
        proof {
            reveal(State::load_closures);
        }
        let size: u32 = to_u32(n)?;
        self.emit(Instruction::BuildTuple { size });
        Ok(true)
    }

    /// Turns an inner code unit that is complete into a function object.
    #[verifier::spinoff_prover]
    pub fn make_function(
        &mut self,
        code: CodeObject,
        name: &str,
        flags: MakeFunctionFlags,
    ) -> (r: Result<(), Halt>)
        requires
            old(self).wf(),
            code_ok(code.code@),
            complete(code.code@),
        ensures
            located(r, old(self)@),
            final(self)@.path == old(self)@.path,
            final(self).wf(),
            r is Ok ==> kept(old(self)@, final(self)@),
            outcome(final(self)@, r) == old(self)@.make_function(
                code.code@,
                code.optimize,
                name@,
                flags,
            ),
    {
        reveal(State::make_function);
        reveal(code_model);
        self.emit_load_const(ConstantData::Code { code: Box::new(code) })?;
        self.emit_load_const(ConstantData::Str { value: name.to_owned() })?;
        self.emit(Instruction::MakeFunction(flags));
        Ok(())
    }

    #[verifier::spinoff_prover]
    pub(crate) fn compile_defaults(
        &mut self,
        s: &Vec<ParameterWithDefault>,
    ) -> (r: Result<(), Halt>)
        requires
            old(self).wf(),
        ensures
            located(r, old(self)@),
            final(self)@.path == old(self)@.path,
            final(self).wf(),
            r is Ok ==> kept(old(self)@, final(self)@),
            outcome(final(self)@, r) == old(self)@.defaults(s@, 0),
        decreases s@, 0nat, s@.len() + 1,
    {
        let n: usize = s.len();
        let mut i: usize = 0;
        while i < n
            invariant
                self.wf(),
                kept(old(self)@, self@),
                i <= n,
                n == s@.len(),
                old(self)@.defaults(s@, 0) == self@.defaults(s@, i as nat),
            decreases n - i,
        {
            reveal(State::defaults);
            reveal(State::expr);
            if let Some(e) = &s[i].default {
                self.compile_expression(e)?;
            }
            i += 1;
        }
        reveal(State::defaults);
        reveal(State::expr);
        Ok(())
    }

    #[verifier::spinoff_prover]
    pub(crate) fn compile_keyword_defaults(
        &mut self,
        s: &Vec<ParameterWithDefault>,
    ) -> (r: Result<(), Halt>)
        requires
            old(self).wf(),
        ensures
            located(r, old(self)@),
            final(self)@.path == old(self)@.path,
            final(self).wf(),
            r is Ok ==> kept(old(self)@, final(self)@),
            outcome(final(self)@, r) == old(self)@.keyword_defaults(s@, 0),
        decreases s@, 0nat, s@.len() + 1,
    {
        let n: usize = s.len();
        let mut i: usize = 0;
        while i < n
            invariant
                self.wf(),
                kept(old(self)@, self@),
                i <= n,
                n == s@.len(),
                old(self)@.keyword_defaults(s@, 0) == self@.keyword_defaults(s@, i as nat),
            decreases n - i,
        {
            reveal(State::keyword_defaults);
            reveal(State::expr);
            if let Some(e) = &s[i].default {
                self.emit_load_const(ConstantData::Str { value: s[i].parameter.name.clone() })?;
                self.compile_expression(e)?;
            }
            i += 1;
        }
        reveal(State::keyword_defaults);
        reveal(State::expr);
        Ok(())
    }

    #[verifier::spinoff_prover]
    pub(crate) fn add_varnames(
        &mut self,
        s: &Vec<ParameterWithDefault>,
        without: bool,
        with: bool,
    ) -> (r: Result<(), Halt>)
        requires
            old(self).wf(),
        ensures
            located(r, old(self)@),
            final(self)@.path == old(self)@.path,
            final(self).wf(),
            r is Ok ==> kept(old(self)@, final(self)@),
            outcome(final(self)@, r) == old(self)@.varnames(s@, 0, without, with),
    {
        let n: usize = s.len();
        let mut i: usize = 0;
        while i < n
            invariant
                self.wf(),
                kept(old(self)@, self@),
                i <= n,
                n == s@.len(),
                old(self)@.varnames(s@, 0, without, with) == self@.varnames(
                    s@,
                    i as nat,
                    without,
                    with,
                ),
            decreases n - i,
        {
            reveal(State::varnames);
            let has_default = s[i].default.is_some();
            if (has_default && with) || (!has_default && without) {
                let _: u32 = self.varname(s[i].parameter.name.as_str())?;
            }
            i += 1;
        }
        reveal(State::varnames);
        Ok(())
    }

    #[verifier::spinoff_prover]
    fn add_positional(&mut self, parameters: &Parameters) -> (r: Result<(), Halt>)
        requires
            old(self).wf(),
        ensures
            located(r, old(self)@),
            final(self)@.path == old(self)@.path,
            final(self).wf(),
            r is Ok ==> kept(old(self)@, final(self)@),
            outcome(final(self)@, r) == old(self)@.positional(*parameters),
    {
        reveal(State::positional);
        self.add_varnames(&parameters.posonlyargs, true, true)?;
        self.add_varnames(&parameters.args, true, true)
    }

    #[verifier::spinoff_prover]
    fn add_keyword_only(&mut self, parameters: &Parameters) -> (r: Result<(), Halt>)
        requires
            old(self).wf(),
        ensures
            located(r, old(self)@),
            final(self)@.path == old(self)@.path,
            final(self).wf(),
            r is Ok ==> kept(old(self)@, final(self)@),
            outcome(final(self)@, r) == old(self)@.keyword_only(*parameters),
    {
        reveal(State::keyword_only);
        self.add_varnames(&parameters.kwonlyargs, true, false)?;
        self.add_varnames(&parameters.kwonlyargs, false, true)
    }

    #[verifier::spinoff_prover]
    pub(crate) fn add_parameters(&mut self, parameters: &Parameters) -> (r: Result<(), Halt>)
        requires
            old(self).wf(),
        ensures
            located(r, old(self)@),
            final(self)@.path == old(self)@.path,
            final(self).wf(),
            r is Ok ==> kept(old(self)@, final(self)@),
            outcome(final(self)@, r) == old(self)@.parameters(*parameters),
    {
        reveal(State::parameters);
        self.add_positional(parameters)?;
        self.add_keyword_only(parameters)?;
        self.add_vararg(&parameters.vararg)?;
        self.add_kwarg(&parameters.kwarg)
    }

    #[verifier::spinoff_prover]
    fn add_vararg(&mut self, parameter: &Option<Box<Parameter>>) -> (r: Result<(), Halt>)
        requires
            old(self).wf(),
        ensures
            located(r, old(self)@),
            final(self)@.path == old(self)@.path,
            final(self).wf(),
            r is Ok ==> kept(old(self)@, final(self)@),
            outcome(final(self)@, r) == old(self)@.vararg(*parameter),
    {
        reveal(State::vararg);
        if let Some(parameter) = parameter {
            self.mark_varargs();
            let _: u32 = self.varname(parameter.name.as_str())?;
        }
        Ok(())
    }

    #[verifier::spinoff_prover]
    fn add_kwarg(&mut self, parameter: &Option<Box<Parameter>>) -> (r: Result<(), Halt>)
        requires
            old(self).wf(),
        ensures
            located(r, old(self)@),
            final(self)@.path == old(self)@.path,
            final(self).wf(),
            r is Ok ==> kept(old(self)@, final(self)@),
            outcome(final(self)@, r) == old(self)@.kwarg(*parameter),
    {
        reveal(State::kwarg);
        if let Some(parameter) = parameter {
            self.mark_varkeywords();
            let _: u32 = self.varname(parameter.name.as_str())?;
        }
        Ok(())
    }

    #[verifier::spinoff_prover]
    pub fn enter_function(&mut self, name: &str, parameters: &Parameters) -> (r: Result<
        MakeFunctionFlags,
        Halt,
    >)
        requires
            old(self).wf(),
        ensures
            located(r, old(self)@),
            final(self)@.path == old(self)@.path,
            final(self).wf(),
            outcome(final(self)@, r) == old(self)@.enter_function(name@, *parameters),
            r is Ok ==> {
                &&& opened(old(self)@, final(self)@)
                &&& final(self)@.ctx == old(self)@.ctx
                &&& final(self)@.class_name == old(self)@.class_name
                &&& final(self)@.qualified == old(self)@.qualified
            },
            r matches Ok(flags) ==> flags == parameter_flags(*parameters),
        decreases parameters, 0nat, 0nat,
    {
        reveal(State::enter_function);
        reveal(State::defaults);
        reveal(State::keyword_defaults);
        let pos_defaults: usize = count_defaults(&parameters.posonlyargs);
        let arg_defaults: usize = count_defaults(&parameters.args);
        let kw_defaults: usize = count_defaults(&parameters.kwonlyargs);
        self.compile_defaults(&parameters.posonlyargs)?;
        self.compile_defaults(&parameters.args)?;
        let have_defaults = pos_defaults > 0 || arg_defaults > 0;
        if have_defaults {
            // Construct a tuple:
            let size: u32 = sum_to_u32(pos_defaults, arg_defaults)?;
            self.emit(Instruction::BuildTuple { size });
        }
        self.compile_keyword_defaults(&parameters.kwonlyargs)?;
        if kw_defaults > 0 {
            let size: u32 = to_u32(kw_defaults)?;
            self.emit(Instruction::BuildMap { size });
        }
        let arg_count: u32 = sum_to_u32(parameters.posonlyargs.len(), parameters.args.len())?;
        let posonlyarg_count: u32 = to_u32(parameters.posonlyargs.len())?;
        let kwonlyarg_count: u32 = to_u32(parameters.kwonlyargs.len())?;
        self.push_output(
            CodeFlags {
                new_locals: true,
                is_generator: false,
                is_coroutine: false,
                has_varargs: false,
                has_varkeywords: false,
                is_optimized: true,
            },
            posonlyarg_count,
            arg_count,
            kwonlyarg_count,
            name,
        )?;
        self.add_parameters(parameters)?;
        Ok(
            MakeFunctionFlags {
                closure: false,
                annotations: false,
                kw_only_defaults: kw_defaults > 0,
                defaults: have_defaults,
                type_params: false,
            },
        )
    }

    #[verifier::spinoff_prover]
    pub(crate) fn compile_lambda(&mut self, x: &ExprLambda) -> (r: Result<(), Halt>)
        requires
            old(self).wf(),
        ensures
            located(r, old(self)@),
            final(self)@.path == old(self)@.path,
            final(self).wf(),
            r is Ok ==> kept(old(self)@, final(self)@),
            outcome(final(self)@, r) == old(self)@.lambda(*x),
        decreases x, 0nat, 0nat,
    {
        reveal(State::lambda);
        reveal(State::enter_function);
        reveal(State::expr);
        let prev_ctx = self.ctx;
        let name = "<lambda>";
        let func_flags = match &x.parameters {
            Some(parameters) => self.enter_function(name, parameters)?,
            None => {
                self.push_output(
                    CodeFlags {
                        new_locals: true,
                        is_generator: false,
                        is_coroutine: false,
                        has_varargs: false,
                        has_varkeywords: false,
                        is_optimized: true,
                    },
                    0,
                    0,
                    0,
                    name,
                )?;
                MakeFunctionFlags {
                    closure: false,
                    annotations: false,
                    kw_only_defaults: false,
                    defaults: false,
                    type_params: false,
                }
            },
        };
        self.ctx = CompileContext {
            loop_data: None,
            in_class: prev_ctx.in_class,
            func: FunctionContext::Function,
        };
        let _: usize = self.insert_const(ConstantData::NoneValue);
        self.compile_expression(&x.body)?;
        self.emit_return_value();
        self.close_function(prev_ctx, name, func_flags)
    }

    /// Closes the current code unit, goes back to a context, and makes a function of the unit.
    #[verifier::spinoff_prover]
    pub(crate) fn close_function(
        &mut self,
        ctx: CompileContext,
        name: &str,
        flags: MakeFunctionFlags,
    ) -> (r: Result<(), Halt>)
        requires
            old(self).wf(),
            complete(old(self)@.top()),
        ensures
            located(r, old(self)@),
            final(self)@.path == old(self)@.path,
            final(self).wf(),
            outcome(final(self)@, r) == old(self)@.close_function(ctx, name@, flags),
            r is Ok ==> {
                &&& closed_within(old(self)@, final(self)@, false)
                &&& final(self)@.ctx == ctx
                &&& final(self)@.class_name == old(self)@.class_name
                &&& final(self)@.qualified == old(self)@.qualified
            },
    {
        reveal(State::close_function);
        let code = self.pop_code_object()?;
        self.ctx = ctx;
        let closure = self.build_closure(&code)?;
        // Turn code object into function object:
        self.make_function(code, name, MakeFunctionFlags { closure, ..flags })
    }
}

} // verus!
