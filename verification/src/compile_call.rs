//! Compiles calls and their arguments.
use vstd::prelude::*;

use crate::ast::{Arguments, Expr, ExprCall, Keyword};
use crate::bytecode::{constant_models, ConstantData, ConstantModel, Instruction};
use crate::compile_store::find_star;
use crate::compiler::{to_u32, Compiler};
use crate::expr_code::{
    call_code, call_type, double_star, first_star, gathered, group_halted_parts, keyword_names,
    keyword_run_count, run_count, CallType,
};
use crate::state::{group_halted_steps, located, outcome, Halt, NameUsage, State};
use crate::validity::{constant_ok, group_layout, kept};

verus! {

broadcast use {group_halted_steps, group_halted_parts, group_layout};

/// Whether one of the keywords is a `**` argument.
pub(crate) fn has_double_star(s: &Vec<Keyword>) -> (r: bool)
    ensures
        r == double_star(s@, 0),
{
    let n: usize = s.len();
    let mut i: usize = 0;
    while i < n
        invariant
            i <= n,
            n == s@.len(),
            double_star(s@, 0) == double_star(s@, i as nat),
        decreases n - i,
    {
        if s[i].arg.is_none() {
            return true;
        }
        i += 1;
    }
    false
}

/// The names of keywords that all have one, as a tuple.
fn names_of_keywords(s: &Vec<Keyword>) -> (r: ConstantData)
    requires
        !double_star(s@, 0),
    ensures
        r@ == ConstantModel::Tuple(keyword_names(s@)),
        constant_ok(r@),
{
    let n: usize = s.len();
    let mut i: usize = 0;
    let mut names: Vec<ConstantData> = Vec::new();
    while i < n
        invariant
            i <= n,
            n == s@.len(),
            !double_star(s@, i as nat),
            names@.len() == i,
            forall|j: int| 0 <= j < i ==> (#[trigger] names@[j])@ == keyword_names(s@)[j],
        decreases n - i,
    {
        match &s[i].arg {
            Some(name) => names.push(ConstantData::Str { value: name.clone() }),
            None => {},
        }
        i += 1;
    }
    assert(constant_models(names@) =~= keyword_names(s@));
    assert forall|j: int| 0 <= j < n implies constant_ok(#[trigger] keyword_names(s@)[j]) by {}
    ConstantData::Tuple { elements: names }
}

impl<'a> Compiler<'a> {
    pub fn compile_normal_call(&mut self, ty: CallType)
        requires
            old(self).wf(),
        ensures
            final(self).wf(),
            kept(old(self)@, final(self)@),
            final(self)@ == old(self)@.emit(call_code(ty, false)),
    {
        match ty {
            CallType::Positional { nargs } => self.emit(
                Instruction::CallFunctionPositional { nargs },
            ),
            CallType::Keyword { nargs } => self.emit(Instruction::CallFunctionKeyword { nargs }),
            CallType::Ex { has_kwargs } => self.emit(Instruction::CallFunctionEx { has_kwargs }),
        }
    }

    pub(crate) fn compile_method_call(&mut self, ty: CallType)
        requires
            old(self).wf(),
        ensures
            final(self).wf(),
            kept(old(self)@, final(self)@),
            final(self)@ == old(self)@.emit(call_code(ty, true)),
    {
        match ty {
            CallType::Positional { nargs } => self.emit(
                Instruction::CallMethodPositional { nargs },
            ),
            CallType::Keyword { nargs } => self.emit(Instruction::CallMethodKeyword { nargs }),
            CallType::Ex { has_kwargs } => self.emit(Instruction::CallMethodEx { has_kwargs }),
        }
    }

    /// Given a list of expr / star expr, generates code which gives either a list of expressions
    /// on the stack, or a list of tuples; gives their number, and whether they are tuples.
    #[verifier::spinoff_prover]
    pub fn gather_elements(&mut self, before: u32, elements: &Vec<Expr>) -> (r: Result<
        (u32, bool),
        Halt,
    >)
        requires
            old(self).wf(),
        ensures
            located(r, old(self)@),
            final(self)@.path == old(self)@.path,
            final(self).wf(),
            r is Ok ==> kept(old(self)@, final(self)@),
            outcome(final(self)@, r) == old(self)@.gather(before, elements@),
            r matches Ok((size, unpack)) ==> size == gathered(before, elements@) && unpack == (
            first_star(elements@, 0) is Some),
        decreases elements@, 1nat, 0nat,
    {
        reveal(State::gather);
        reveal(State::gather_runs);
        reveal(State::exprs);
        let n: usize = elements.len();
        // First determine if we have starred elements:
        if find_star(elements, 0).is_some() {
            if before > 0 {
                self.emit(Instruction::BuildTuple { size: before });
            }
            let count: usize = self.gather_runs(elements)?;
            let size: u32 = to_u32(count)?;
            if before == 0 {
                return Ok((size, true));
            }
            if size == u32::MAX {
                return Err(Halt::Panic);
            }
            Ok((size + 1, true))
        } else {
            self.compile_expressions(elements)?;
            let size: u32 = to_u32(n)?;
            if before > u32::MAX - size {
                return Err(Halt::Panic);
            }
            Ok((before + size, false))
        }
    }

    /// Gathers starred elements and tuples of the plain ones between them, and gives their
    /// number.
    #[verifier::spinoff_prover]
    pub(crate) fn gather_runs(&mut self, s: &Vec<Expr>) -> (r: Result<usize, Halt>)
        requires
            old(self).wf(),
        ensures
            located(r, old(self)@),
            final(self)@.path == old(self)@.path,
            final(self).wf(),
            r is Ok ==> kept(old(self)@, final(self)@),
            outcome(final(self)@, r) == old(self)@.gather_runs(s@, 0, 0),
            r matches Ok(count) ==> count == run_count(s@, 0),
        decreases s@, 0nat, s@.len() + 1,
    {
        let n: usize = s.len();
        let mut i: usize = 0;
        let mut run: usize = 0;
        let mut count: usize = 0;
        while i < n
            invariant
                self.wf(),
                kept(old(self)@, self@),
                i <= n,
                n == s@.len(),
                count <= i,
                run <= i,
                count + run_count(s@, i as nat) == run_count(s@, 0),
                old(self)@.gather_runs(s@, 0, 0) == self@.gather_runs(s@, i as nat, run as nat),
            decreases n - i,
        {
            reveal(State::gather_runs);
            reveal(State::expr);
            match &s[i] {
                Expr::Starred(x) => {
                    self.compile_expression(&x.value)?;
                    run = 0;
                    count += 1;
                },
                e => {
                    self.compile_expression(e)?;
                    run += 1;
                    let more = i + 1 < n && match &s[i + 1] {
                        Expr::Starred(_) => false,
                        _ => true,
                    };
                    if !more {
                        let size: u32 = to_u32(run)?;
                        self.emit(Instruction::BuildTuple { size });
                        run = 0;
                        count += 1;
                    }
                },
            }
            i += 1;
        }
        reveal(State::gather_runs);
        reveal(State::expr);
        Ok(count)
    }

    #[verifier::spinoff_prover]
    pub(crate) fn compile_call(&mut self, x: &ExprCall) -> (r: Result<(), Halt>)
        requires
            old(self).wf(),
        ensures
            located(r, old(self)@),
            final(self)@.path == old(self)@.path,
            final(self).wf(),
            r is Ok ==> kept(old(self)@, final(self)@),
            outcome(final(self)@, r) == old(self)@.call(*x),
        decreases x, 0nat, 0nat,
    {
        reveal(State::call);
        reveal(State::expr);
        reveal(State::call_arguments);
        match &*x.func {
            Expr::Attribute(f) => {
                self.compile_expression(&f.value)?;
                let idx: u32 = self.name(f.attr.as_str())?;
                self.emit(Instruction::LoadMethod { idx });
                let call = self.compile_call_inner(0, &x.arguments)?;
                self.compile_method_call(call);
            },
            _ => {
                self.compile_expression(&x.func)?;
                let call = self.compile_call_inner(0, &x.arguments)?;
                self.compile_normal_call(call);
            },
        }
        Ok(())
    }

    #[verifier::spinoff_prover]
    pub fn compile_call_inner(&mut self, additional_positional: u32, arguments: &Arguments) -> (r:
        Result<CallType, Halt>)
        requires
            old(self).wf(),
        ensures
            located(r, old(self)@),
            final(self)@.path == old(self)@.path,
            final(self).wf(),
            r is Ok ==> kept(old(self)@, final(self)@),
            outcome(final(self)@, r) == old(self)@.call_arguments(
                additional_positional,
                *arguments,
            ),
            r matches Ok(call) ==> call == call_type(additional_positional, *arguments),
        decreases arguments, 0nat, 0nat,
    {
        reveal(State::call_arguments);
        reveal(State::gather);
        reveal(State::pass_keywords);
        let args: u32 = to_u32(arguments.args.len())?;
        let keywords: u32 = to_u32(arguments.keywords.len())?;
        if keywords > u32::MAX - args || additional_positional > u32::MAX - args - keywords {
            return Err(Halt::Panic);
        }
        let count: u32 = args + keywords + additional_positional;
        // Normal arguments:
        let (size, unpack) = self.gather_elements(additional_positional, &arguments.args)?;
        self.check_keywords(&arguments.keywords)?;
        let has_kwargs = keywords > 0;
        let ex = unpack || has_double_star(&arguments.keywords);
        self.pass_keywords(unpack, size, &arguments.keywords)?;
        if ex {
            Ok(CallType::Ex { has_kwargs })
        } else if has_kwargs {
            Ok(CallType::Keyword { nargs: count })
        } else {
            Ok(CallType::Positional { nargs: count })
        }
    }

    #[verifier::spinoff_prover]
    fn pass_keywords(&mut self, unpack: bool, size: u32, keywords: &Vec<Keyword>) -> (r: Result<
        (),
        Halt,
    >)
        requires
            old(self).wf(),
        ensures
            located(r, old(self)@),
            final(self)@.path == old(self)@.path,
            final(self).wf(),
            r is Ok ==> kept(old(self)@, final(self)@),
            outcome(final(self)@, r) == old(self)@.pass_keywords(unpack, size, keywords@),
        decreases keywords@, 2nat, 0nat,
    {
        reveal(State::pass_keywords);
        reveal(State::keywords);
        reveal(State::keyword_values);
        if unpack || has_double_star(keywords) {
            // Create a tuple with positional args:
            if unpack {
                self.emit(Instruction::BuildTupleUnpack { size });
            } else {
                self.emit(Instruction::BuildTuple { size });
            }
            // Create an optional map with kw-args:
            if keywords.len() > 0 {
                self.compile_keywords(keywords)?;
            }
        } else if keywords.len() > 0 {
            self.compile_keyword_values(keywords)?;
            self.emit_load_const(names_of_keywords(keywords))?;
        }
        Ok(())
    }

    #[verifier::spinoff_prover]
    pub(crate) fn check_keywords(&mut self, s: &Vec<Keyword>) -> (r: Result<(), Halt>)
        requires
            old(self).wf(),
        ensures
            located(r, old(self)@),
            final(self)@.path == old(self)@.path,
            final(self).wf(),
            r is Ok ==> kept(old(self)@, final(self)@),
            outcome(final(self)@, r) == old(self)@.check_keywords(s@, 0),
    {
        let n: usize = s.len();
        let mut i: usize = 0;
        while i < n
            invariant
                self.wf(),
                kept(old(self)@, self@),
                i <= n,
                n == s@.len(),
                old(self)@.check_keywords(s@, 0) == self@.check_keywords(s@, i as nat),
            decreases n - i,
        {
            reveal(State::check_keywords);
            if let Some(name) = &s[i].arg {
                self.check_forbidden_name(name.as_str(), NameUsage::Store)?;
            }
            i += 1;
        }
        reveal(State::check_keywords);
        Ok(())
    }

    /// Evaluates the values of keywords.
    #[verifier::spinoff_prover]
    fn compile_keyword_values(&mut self, s: &Vec<Keyword>) -> (r: Result<(), Halt>)
        requires
            old(self).wf(),
        ensures
            located(r, old(self)@),
            final(self)@.path == old(self)@.path,
            final(self).wf(),
            r is Ok ==> kept(old(self)@, final(self)@),
            outcome(final(self)@, r) == old(self)@.keyword_values(s@, 0),
        decreases s@, 0nat, s@.len() + 1,
    {
        let n: usize = s.len();
        let mut i: usize = 0;
        while i < n
            invariant
                self.wf(),
                kept(old(self)@, self@),
                i <= n,
                n == s@.len(),
                old(self)@.keyword_values(s@, 0) == self@.keyword_values(s@, i as nat),
            decreases n - i,
        {
            reveal(State::keyword_values);
            reveal(State::expr);
            self.compile_expression(&s[i].value)?;
            i += 1;
        }
        reveal(State::keyword_values);
        reveal(State::expr);
        Ok(())
    }

    #[verifier::spinoff_prover]
    pub(crate) fn compile_keywords(&mut self, s: &Vec<Keyword>) -> (r: Result<(), Halt>)
        requires
            old(self).wf(),
        ensures
            located(r, old(self)@),
            final(self)@.path == old(self)@.path,
            final(self).wf(),
            r is Ok ==> kept(old(self)@, final(self)@),
            outcome(final(self)@, r) == old(self)@.keywords(s@),
        decreases s@, 1nat, 0nat,
    {
        reveal(State::keywords);
        reveal(State::keyword_runs);
        let count: usize = self.compile_keyword_runs(s)?;
        let size: u32 = to_u32(count)?;
        if size > 1 {
            self.emit(Instruction::BuildMapForCall { size });
        }
        Ok(())
    }

    /// Evaluates `**` arguments and maps of the named ones between them, and gives their number.
    #[verifier::spinoff_prover]
    pub(crate) fn compile_keyword_runs(&mut self, s: &Vec<Keyword>) -> (r: Result<usize, Halt>)
        requires
            old(self).wf(),
        ensures
            located(r, old(self)@),
            final(self)@.path == old(self)@.path,
            final(self).wf(),
            r is Ok ==> kept(old(self)@, final(self)@),
            outcome(final(self)@, r) == old(self)@.keyword_runs(s@, 0, 0),
            r matches Ok(count) ==> count == keyword_run_count(s@, 0),
        decreases s@, 0nat, s@.len() + 1,
    {
        let n: usize = s.len();
        let mut i: usize = 0;
        let mut run: usize = 0;
        let mut count: usize = 0;
        while i < n
            invariant
                self.wf(),
                kept(old(self)@, self@),
                i <= n,
                n == s@.len(),
                count <= i,
                run <= i,
                count + keyword_run_count(s@, i as nat) == keyword_run_count(s@, 0),
                old(self)@.keyword_runs(s@, 0, 0) == self@.keyword_runs(s@, i as nat, run as nat),
            decreases n - i,
        {
            reveal(State::keyword_runs);
            reveal(State::expr);
            match &s[i].arg {
                None => {
                    self.compile_expression(&s[i].value)?;
                    run = 0;
                    count += 1;
                },
                Some(name) => {
                    self.emit_load_const(ConstantData::Str { value: name.clone() })?;
                    self.compile_expression(&s[i].value)?;
                    run += 1;
                    if i + 1 == n || s[i + 1].arg.is_none() {
                        let size: u32 = to_u32(run)?;
                        self.emit(Instruction::BuildMap { size });
                        run = 0;
                        count += 1;
                    }
                },
            }
            i += 1;
        }
        reveal(State::keyword_runs);
        reveal(State::expr);
        Ok(count)
    }
}

} // verus!
