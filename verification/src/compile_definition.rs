//! Compiles definitions: functions, classes and type parameters.
use vstd::prelude::*;

use crate::ast::{
    Decorator, ElifElseClause, Parameter, ParameterWithDefault, Stmt, StmtClassDef, StmtFunctionDef,
    TypeParam, TypeParams,
};
use crate::bytecode::{
    code_model, CodeFlags, ConstantData, ConstantModel, Instruction, MakeFunctionFlags,
};
use crate::compiler::{to_u32, Compiler};
use crate::doc::{body_start, doc_of, split_doc};
use crate::expr_code::{group_halted_parts, parameter_flags, CallType};
use crate::pool::find_text;
use crate::state::{
    group_halted_steps, located, outcome, CompileContext, FunctionContext, Halt, State,
};
use crate::stmt_code::{
    annotation_count, clause_annotation, function_annotations, group_halted_statements,
    has_annotation, qualified_name, variadic_annotation_count,
};
use crate::symboltable::{text_of_option, SymbolScope};
use crate::text::{join, texts};
use crate::validity::{closed_within, complete, group_layout, kept, opened_within, scoped};

verus! {

broadcast use {group_halted_steps, group_halted_parts, group_halted_statements, group_layout};

/// The number of parameters that are annotated.
fn count_annotations(s: &Vec<ParameterWithDefault>) -> (r: usize)
    ensures
        r == annotation_count(s@, 0),
{
    let n: usize = s.len();
    let mut i: usize = 0;
    let mut count: usize = 0;
    while i < n
        invariant
            i <= n,
            n == s@.len(),
            count <= i,
            count + annotation_count(s@, i as nat) == annotation_count(s@, 0),
        decreases n - i,
    {
        if s[i].parameter.annotation.is_some() {
            count += 1;
        }
        i += 1;
    }
    count
}

/// 1 for a parameter that is there and annotated, else 0.
fn count_variadic_annotation(p: &Option<Box<Parameter>>) -> (r: usize)
    ensures
        r == variadic_annotation_count(*p),
{
    match p {
        Some(p) => if p.annotation.is_some() {
            1
        } else {
            0
        },
        None => 0,
    }
}

/// The number of annotations of a function, if it fits.
fn count_function_annotations(x: &StmtFunctionDef) -> (r: Result<u32, Halt>)
    ensures
        function_annotations(*x) <= u32::MAX ==> r == Ok::<u32, Halt>(
            function_annotations(*x) as u32,
        ),
        function_annotations(*x) > u32::MAX ==> r == Err::<u32, Halt>(Halt::Panic),
{
    let a: u32 = to_u32(count_annotations(&x.parameters.posonlyargs))?;
    let b: u32 = to_u32(count_annotations(&x.parameters.args))?;
    let c: u32 = to_u32(count_annotations(&x.parameters.kwonlyargs))?;
    let d: usize = count_variadic_annotation(&x.parameters.vararg);
    let e: usize = count_variadic_annotation(&x.parameters.kwarg);
    let f: u64 = if x.returns.is_some() {
        1
    } else {
        0
    };
    let sum: u64 = a as u64 + b as u64 + c as u64 + d as u64 + e as u64 + f;
    if sum <= u32::MAX as u64 {
        Ok(sum as u32)
    } else {
        Err(Halt::Panic)
    }
}

impl<'a> Compiler<'a> {
    /// Whether an annotated assignment occurs in the statements from `from` on, or in what they
    /// do in turn.
    pub fn find_ann(body: &Vec<Stmt>, from: usize) -> (r: bool)
        requires
            from <= body@.len(),
        ensures
            r == has_annotation(body@, from as nat),
        decreases body@, body@.len() + 1,
    {
        let n: usize = body.len();
        let mut i: usize = from;
        while i < n
            invariant
                from <= i <= n,
                n == body@.len(),
                has_annotation(body@, from as nat) == has_annotation(body@, i as nat),
            decreases n - i,
        {
            let found = match &body[i] {
                Stmt::AnnAssign(_) => true,
                Stmt::For(x) => Self::find_ann(&x.body, 0) || Self::find_ann(&x.orelse, 0),
                Stmt::If(x) => Self::find_ann(&x.body, 0) || Self::find_clause_ann(
                    &x.elif_else_clauses,
                ),
                Stmt::While(x) => Self::find_ann(&x.body, 0) || Self::find_ann(&x.orelse, 0),
                Stmt::With(x) => Self::find_ann(&x.body, 0),
                Stmt::Try(x) => Self::find_ann(&x.body, 0) || Self::find_ann(&x.orelse, 0)
                    || Self::find_ann(&x.finalbody, 0),
                _ => false,
            };
            if found {
                return true;
            }
            i += 1;
        }
        false
    }

    fn find_clause_ann(s: &Vec<ElifElseClause>) -> (r: bool)
        ensures
            r == clause_annotation(s@, 0),
        decreases s@, s@.len() + 1,
    {
        let n: usize = s.len();
        let mut i: usize = 0;
        while i < n
            invariant
                i <= n,
                n == s@.len(),
                clause_annotation(s@, 0) == clause_annotation(s@, i as nat),
            decreases n - i,
        {
            if Self::find_ann(&s[i].body, 0) {
                return true;
            }
            i += 1;
        }
        false
    }

    pub(crate) fn push_qualified_path(&mut self, name: &str)
        requires
            old(self).wf(),
        ensures
            final(self).wf(),
            final(self)@ == old(self)@.push_path(name@),
    {
        self.qualified_path.push(name.to_owned());
        assert(self@.qualified =~= old(self)@.qualified.push(name@));
    }

    fn pop_qualified_path(&mut self)
        requires
            old(self).wf(),
        ensures
            final(self).wf(),
            final(self)@ == old(self)@.pop_path(),
    {
        let _ = self.qualified_path.pop();
        assert(self@.qualified =~= old(self)@.pop_path().qualified);
    }

    #[verifier::spinoff_prover]
    fn type_param(&mut self, type_param: &TypeParam) -> (r: Result<(), Halt>)
        requires
            old(self).wf(),
        ensures
            located(r, old(self)@),
            final(self)@.path == old(self)@.path,
            final(self).wf(),
            r is Ok ==> kept(old(self)@, final(self)@),
            outcome(final(self)@, r) == old(self)@.type_param(*type_param),
    {
        reveal(State::type_param);
        match type_param {
            TypeParam::TypeVar(x) => {
                if let Some(expr) = &x.bound {
                    self.compile_expression(expr)?;
                    self.emit_load_const(ConstantData::Str { value: x.name.clone() })?;
                    self.emit(Instruction::TypeVarWithBound);
                } else {
                    self.emit_load_const(ConstantData::Str { value: x.name.clone() })?;
                    self.emit(Instruction::TypeVar);
                }
                self.emit(Instruction::Duplicate);
                self.store_name(x.name.as_str())
            },
            TypeParam::ParamSpec(x) => {
                self.emit_load_const(ConstantData::Str { value: x.name.clone() })?;
                self.emit(Instruction::ParamSpec);
                self.emit(Instruction::Duplicate);
                self.store_name(x.name.as_str())
            },
            TypeParam::TypeVarTuple(x) => {
                self.emit_load_const(ConstantData::Str { value: x.name.clone() })?;
                self.emit(Instruction::TypeVarTuple);
                self.emit(Instruction::Duplicate);
                self.store_name(x.name.as_str())
            },
        }
    }

    #[verifier::spinoff_prover]
    fn type_param_values(&mut self, s: &Vec<TypeParam>) -> (r: Result<(), Halt>)
        requires
            old(self).wf(),
        ensures
            located(r, old(self)@),
            final(self)@.path == old(self)@.path,
            final(self).wf(),
            r is Ok ==> kept(old(self)@, final(self)@),
            outcome(final(self)@, r) == old(self)@.type_param_values(s@, 0),
    {
        let n: usize = s.len();
        let mut i: usize = 0;
        while i < n
            invariant
                self.wf(),
                kept(old(self)@, self@),
                i <= n,
                n == s@.len(),
                old(self)@.type_param_values(s@, 0) == self@.type_param_values(s@, i as nat),
            decreases n - i,
        {
            reveal(State::type_param_values);
            self.type_param(&s[i])?;
            i += 1;
        }
        reveal(State::type_param_values);
        Ok(())
    }

    /// Store each type parameter so it is accessible to the current scope, and leave a tuple of all
    /// the type parameters on the stack.
    #[verifier::spinoff_prover]
    pub(crate) fn compile_type_params(
        &mut self,
        type_params: &Option<Box<TypeParams>>,
    ) -> (r: Result<(), Halt>)
        requires
            old(self).wf(),
        ensures
            located(r, old(self)@),
            final(self)@.path == old(self)@.path,
            final(self).wf(),
            r is Ok ==> kept(old(self)@, final(self)@),
            outcome(final(self)@, r) == old(self)@.type_params(*type_params),
    {
        reveal(State::type_params);
        if let Some(type_params) = type_params {
            self.type_param_values(&type_params.type_params)?;
            let size: u32 = to_u32(type_params.type_params.len())?;
            self.emit(Instruction::BuildTuple { size });
        }
        Ok(())
    }

    /// If there are type params, we need to push a special symbol table just for them
    #[verifier::spinoff_prover]
    pub(crate) fn enter_type_params(
        &mut self,
        type_params: &Option<Box<TypeParams>>,
    ) -> (r: Result<(), Halt>)
        requires
            old(self).wf(),
        ensures
            located(r, old(self)@),
            final(self)@.path == old(self)@.path,
            final(self).wf(),
            outcome(final(self)@, r) == old(self)@.enter_type_params(*type_params),
            r is Ok ==> {
                &&& final(self)@ == (State { tables: final(self)@.tables, ..old(self)@ })
                &&& scoped(old(self)@.tables, final(self)@.tables, type_params is Some)
            },
    {
        reveal(State::enter_type_params);
        if type_params.is_some() {
            self.push_symbol_table()?;
        }
        Ok(())
    }

    /// Pop the special type params symbol table
    #[verifier::spinoff_prover]
    pub(crate) fn leave_type_params(
        &mut self,
        type_params: &Option<Box<TypeParams>>,
    ) -> (r: Result<(), Halt>)
        requires
            old(self).wf(),
        ensures
            located(r, old(self)@),
            final(self)@.path == old(self)@.path,
            final(self).wf(),
            outcome(final(self)@, r) == old(self)@.leave_type_params(*type_params),
            r is Ok ==> final(self)@ == (State {
                tables: if type_params is Some {
                    old(self)@.tables.drop_last()
                } else {
                    old(self)@.tables
                },
                ..old(self)@
            }),
    {
        reveal(State::leave_type_params);
        if type_params.is_some() {
            self.pop_symbol_table()?;
        }
        Ok(())
    }

    #[verifier::spinoff_prover]
    fn prepare_decorators(&mut self, s: &Vec<Decorator>) -> (r: Result<(), Halt>)
        requires
            old(self).wf(),
        ensures
            located(r, old(self)@),
            final(self)@.path == old(self)@.path,
            final(self).wf(),
            r is Ok ==> kept(old(self)@, final(self)@),
            outcome(final(self)@, r) == old(self)@.decorators(s@, 0),
    {
        let n: usize = s.len();
        let mut i: usize = 0;
        while i < n
            invariant
                self.wf(),
                kept(old(self)@, self@),
                i <= n,
                n == s@.len(),
                old(self)@.decorators(s@, 0) == self@.decorators(s@, i as nat),
            decreases n - i,
        {
            reveal(State::decorators);
            self.compile_expression(&s[i].expression)?;
            i += 1;
        }
        reveal(State::decorators);
        Ok(())
    }

    #[verifier::spinoff_prover]
    fn apply_decorators(&mut self, decorator_list: &Vec<Decorator>)
        requires
            old(self).wf(),
        ensures
            final(self).wf(),
            kept(old(self)@, final(self)@),
            final(self)@ == old(self)@.decorated(decorator_list@.len()),
    {
        let n: usize = decorator_list.len();
        let mut i: usize = 0;
        while i < n
            invariant
                self.wf(),
                kept(old(self)@, self@),
                i <= n,
                n == decorator_list@.len(),
                old(self)@.decorated(n as nat) == self@.decorated((n - i) as nat),
            decreases n - i,
        {
            reveal(State::decorated);
            self.emit(Instruction::CallFunctionPositional { nargs: 1 });
            i += 1;
        }
        reveal(State::decorated);
    }

    #[verifier::spinoff_prover]
    fn parameter_annotation(&mut self, parameter: &Parameter) -> (r: Result<(), Halt>)
        requires
            old(self).wf(),
        ensures
            located(r, old(self)@),
            final(self)@.path == old(self)@.path,
            final(self).wf(),
            r is Ok ==> kept(old(self)@, final(self)@),
            outcome(final(self)@, r) == old(self)@.parameter_annotation(*parameter),
    {
        reveal(State::parameter_annotation);
        if let Some(annotation) = &parameter.annotation {
            let value = self.mangle(parameter.name.as_str());
            self.emit_load_const(ConstantData::Str { value })?;
            self.compile_annotation(annotation)?;
        }
        Ok(())
    }

    #[verifier::spinoff_prover]
    fn parameter_annotations(&mut self, s: &Vec<ParameterWithDefault>) -> (r: Result<(), Halt>)
        requires
            old(self).wf(),
        ensures
            located(r, old(self)@),
            final(self)@.path == old(self)@.path,
            final(self).wf(),
            r is Ok ==> kept(old(self)@, final(self)@),
            outcome(final(self)@, r) == old(self)@.parameter_annotations(s@, 0),
    {
        let n: usize = s.len();
        let mut i: usize = 0;
        while i < n
            invariant
                self.wf(),
                kept(old(self)@, self@),
                i <= n,
                n == s@.len(),
                old(self)@.parameter_annotations(s@, 0) == self@.parameter_annotations(s@, i as nat),
            decreases n - i,
        {
            reveal(State::parameter_annotations);
            self.parameter_annotation(&s[i].parameter)?;
            i += 1;
        }
        reveal(State::parameter_annotations);
        Ok(())
    }

    #[verifier::spinoff_prover]
    fn variadic_annotation(&mut self, parameter: &Option<Box<Parameter>>) -> (r: Result<(), Halt>)
        requires
            old(self).wf(),
        ensures
            located(r, old(self)@),
            final(self)@.path == old(self)@.path,
            final(self).wf(),
            r is Ok ==> kept(old(self)@, final(self)@),
            outcome(final(self)@, r) == old(self)@.variadic_annotation(*parameter),
    {
        reveal(State::variadic_annotation);
        if let Some(parameter) = parameter {
            self.parameter_annotation(parameter)?;
        }
        Ok(())
    }

    /// Prepares type annotations, and tells whether there are any.
    #[verifier::spinoff_prover]
    fn compile_annotations(&mut self, x: &StmtFunctionDef) -> (r: Result<bool, Halt>)
        requires
            old(self).wf(),
        ensures
            located(r, old(self)@),
            final(self)@.path == old(self)@.path,
            final(self).wf(),
            r is Ok ==> kept(old(self)@, final(self)@),
            outcome(final(self)@, r) == old(self)@.annotations(*x),
            r matches Ok(b) ==> b == (function_annotations(*x) > 0),
    {
        reveal(State::annotations);
        // Return annotation:
        if let Some(annotation) = &x.returns {
            // key:
            self.emit_load_const(ConstantData::Str { value: "return".to_owned() })?;
            // value:
            self.compile_annotation(annotation)?;
        }
        self.parameter_annotations(&x.parameters.posonlyargs)?;
        self.parameter_annotations(&x.parameters.args)?;
        self.parameter_annotations(&x.parameters.kwonlyargs)?;
        self.variadic_annotation(&x.parameters.vararg)?;
        self.variadic_annotation(&x.parameters.kwarg)?;
        let num_annotations: u32 = count_function_annotations(x)?;
        if num_annotations > 0 {
            self.emit(Instruction::BuildMap { size: num_annotations });
        }
        Ok(num_annotations > 0)
    }

    #[verifier::spinoff_prover]
    fn store_docstring(&mut self, doc: Option<String>) -> (r: Result<(), Halt>)
        requires
            old(self).wf(),
        ensures
            located(r, old(self)@),
            final(self)@.path == old(self)@.path,
            final(self).wf(),
            r is Ok ==> kept(old(self)@, final(self)@),
            outcome(final(self)@, r) == old(self)@.function_doc(text_of_option(doc)),
    {
        reveal(State::function_doc);
        if let Some(value) = doc {
            self.emit(Instruction::Duplicate);
            self.emit_load_const(ConstantData::Str { value })?;
            self.emit(Instruction::Rotate2);
            let idx: u32 = self.name("__doc__")?;
            self.emit(Instruction::StoreAttr { idx });
        }
        Ok(())
    }

    #[verifier::spinoff_prover]
    fn compile_function_body(&mut self, body: &Vec<Stmt>, from: usize) -> (r: Result<(), Halt>)
        requires
            old(self).wf(),
            old(self)@.loop_ok(),
            from == body_start(body@),
            from <= body@.len(),
        ensures
            located(r, old(self)@),
            final(self)@.path == old(self)@.path,
            final(self).wf(),
            r is Ok ==> kept(old(self)@, final(self)@),
            outcome(final(self)@, r) == old(self)@.function_body(body@),
        decreases body@, 1nat, 0nat,
    {
        reveal(State::function_body);
        reveal(State::stmts);
        let _: usize = self.insert_const(ConstantData::NoneValue);
        self.compile_statements(body, from)?;
        // Emit None at end:
        let n: usize = body.len();
        if from < n {
            if let Stmt::Return(_) = &body[n - 1] {
                // the last instruction is a ReturnValue already, we don't need to emit it
                return Ok(());
            }
        }
        self.emit_return_const(ConstantData::NoneValue)
    }

    #[verifier::spinoff_prover]
    fn compile_function_unit(&mut self, x: &StmtFunctionDef, from: usize) -> (r: Result<
        (MakeFunctionFlags, String),
        Halt,
    >)
        requires
            old(self).wf(),
            from == body_start(x.body@),
            from <= x.body@.len(),
        ensures
            located(r, old(self)@),
            final(self)@.path == old(self)@.path,
            final(self).wf(),
            outcome(final(self)@, r) == old(self)@.function_unit(*x),
            r matches Ok((flags, name)) ==> {
                &&& flags == parameter_flags(*x.parameters)
                &&& name@ == qualified_name(old(self)@.qualified.push(x.name@))
                &&& opened_within(old(self)@, final(self)@, x.type_params is Some)
                &&& final(self)@.qualified == old(self)@.qualified.push(x.name@).push("<locals>"@)
                &&& final(self)@.class_name == old(self)@.class_name
            },
        decreases x, 0nat, 0nat,
    {
        reveal(State::function_unit);
        reveal(State::function_body);
        self.prepare_decorators(&x.decorator_list)?;
        self.enter_type_params(&x.type_params)?;
        let func_flags = self.enter_function(x.name.as_str(), &x.parameters)?;
        let ctx = self.ctx;
        self.mark_coroutine(x.is_async);
        let qualified_name = self.enter_function_scope(x.name.as_str(), x.is_async, ctx);
        self.compile_function_body(&x.body, from)?;
        Ok((func_flags, qualified_name))
    }

    #[verifier::spinoff_prover]
    fn finish_function(
        &mut self,
        x: &StmtFunctionDef,
        prev_ctx: CompileContext,
        qualified_name: String,
        func_flags: MakeFunctionFlags,
        doc_str: Option<String>,
    ) -> (r: Result<(), Halt>)
        requires
            old(self).wf(),
            complete(old(self)@.top()),
            func_flags == parameter_flags(*x.parameters),
            text_of_option(doc_str) == doc_of(x.body@, old(self)@.optimize),
        ensures
            located(r, old(self)@),
            final(self)@.path == old(self)@.path,
            final(self).wf(),
            outcome(final(self)@, r) == old(self)@.function_end(*x, prev_ctx, qualified_name@),
            r is Ok ==> {
                &&& closed_within(old(self)@, final(self)@, x.type_params is Some)
                &&& final(self)@.qualified == old(self)@.pop_path().pop_path().qualified
                &&& final(self)@.ctx == prev_ctx
                &&& final(self)@.class_name == old(self)@.class_name
            },
    {
        reveal(State::function_end);
        let code = self.pop_code_object()?;
        self.pop_qualified_path();
        self.pop_qualified_path();
        self.ctx = prev_ctx;
        // Prepare generic type parameters:
        self.compile_type_params(&x.type_params)?;
        let annotations = self.compile_annotations(x)?;
        let closure = self.build_closure(&code)?;
        self.leave_type_params(&x.type_params)?;
        // Turn code object into function object:
        self.make_function(
            code,
            qualified_name.as_str(),
            MakeFunctionFlags {
                closure,
                annotations,
                type_params: x.type_params.is_some(),
                ..func_flags
            },
        )?;
        self.store_docstring(doc_str)?;
        self.apply_decorators(&x.decorator_list);
        self.store_name(x.name.as_str())
    }

    #[verifier::spinoff_prover]
    pub(crate) fn compile_function_def(&mut self, x: &StmtFunctionDef) -> (r: Result<(), Halt>)
        requires
            old(self).wf(),
            old(self)@.loop_ok(),
        ensures
            located(r, old(self)@),
            final(self)@.path == old(self)@.path,
            final(self).wf(),
            r is Ok ==> kept(old(self)@, final(self)@),
            outcome(final(self)@, r) == old(self)@.function_def(*x),
        decreases x, 1nat, 0nat,
    {
        reveal(State::function_def);
        reveal(State::function_unit);
        // remember to restore self.ctx.in_loop to the original after the function is compiled
        let prev_ctx = self.ctx;
        let (doc_str, from) = split_doc(&x.body, &self.opts);
        let (func_flags, qualified_name) = self.compile_function_unit(x, from)?;
        let ghost path = old(self)@.qualified;
        assert(path.push(x.name@).push("<locals>"@).drop_last().drop_last() =~= path);
        self.finish_function(x, prev_ctx, qualified_name, func_flags, doc_str)
    }

    /// Sets the context and the path of the body of a function, and gives its qualified name.
    fn enter_function_scope(&mut self, name: &str, is_async: bool, prev_ctx: CompileContext) -> (r:
        String)
        requires
            old(self).wf(),
        ensures
            final(self).wf(),
            final(self)@ == old(self)@.set_ctx(
                CompileContext {
                    loop_data: None,
                    in_class: prev_ctx.in_class,
                    func: if is_async {
                        FunctionContext::AsyncFunction
                    } else {
                        FunctionContext::Function
                    },
                },
            ).push_path(name@).push_path("<locals>"@),
            r@ == qualified_name(old(self)@.qualified.push(name@)),
    {
        self.ctx = CompileContext {
            loop_data: None,
            in_class: prev_ctx.in_class,
            func: if is_async {
                FunctionContext::AsyncFunction
            } else {
                FunctionContext::Function
            },
        };
        self.push_qualified_path(name);
        let qualified_name = join(&self.qualified_path, ".");
        self.push_qualified_path("<locals>");
        qualified_name
    }

    fn load_docstring(&mut self, doc_str: Option<String>) -> (r: Result<(), Halt>)
        requires
            old(self).wf(),
        ensures
            located(r, old(self)@),
            final(self)@.path == old(self)@.path,
            final(self).wf(),
            r is Ok ==> kept(old(self)@, final(self)@),
            outcome(final(self)@, r) == old(self)@.load_const(
                match text_of_option(doc_str) {
                    Some(doc) => ConstantModel::Str(doc),
                    None => ConstantModel::NoneValue,
                },
            ),
    {
        // set docstring None if not declared
        match doc_str {
            Some(value) => self.emit_load_const(ConstantData::Str { value }),
            None => self.emit_load_const(ConstantData::NoneValue),
        }
    }

    #[verifier::spinoff_prover]
    fn compile_class_start(&mut self, qualname: String, doc: Option<String>) -> (r: Result<
        (),
        Halt,
    >)
        requires
            old(self).wf(),
        ensures
            located(r, old(self)@),
            final(self)@.path == old(self)@.path,
            final(self).wf(),
            r is Ok ==> kept(old(self)@, final(self)@),
            outcome(final(self)@, r) == old(self)@.class_start(qualname@, text_of_option(doc)),
    {
        reveal(State::class_start);
        let dunder_name: u32 = self.name("__name__")?;
        self.emit(Instruction::LoadGlobal(dunder_name));
        let dunder_module: u32 = self.name("__module__")?;
        self.emit(Instruction::StoreLocal(dunder_module));
        self.emit_load_const(ConstantData::Str { value: qualname })?;
        let qualname: u32 = self.name("__qualname__")?;
        self.emit(Instruction::StoreLocal(qualname));
        self.load_docstring(doc)?;
        let doc: u32 = self.name("__doc__")?;
        self.emit(Instruction::StoreLocal(doc));
        Ok(())
    }

    #[verifier::spinoff_prover]
    fn compile_class_end(&mut self) -> (r: Result<(), Halt>)
        requires
            old(self).wf(),
        ensures
            located(r, old(self)@),
            final(self)@.path == old(self)@.path,
            final(self).wf(),
            r is Ok ==> kept(old(self)@, final(self)@),
            outcome(final(self)@, r) == old(self)@.class_end(),
    {
        reveal(State::class_end);
        reveal(code_model);
        let n: usize = self.code_stack.len();
        assert(self@.codes[n - 1] == self.code_stack@[n - 1]@);
        match find_text(&self.code_stack[n - 1].cellvar_cache, "__class__") {
            Some(slot) => {
                let idx: u32 = to_u32(slot)?;
                self.emit(Instruction::LoadClosure(idx));
                self.emit(Instruction::Duplicate);
                let classcell: u32 = self.name("__classcell__")?;
                self.emit(Instruction::StoreLocal(classcell));
            },
            None => {
                self.emit_load_const(ConstantData::NoneValue)?;
            },
        }
        self.emit_return_value();
        Ok(())
    }

    #[verifier::spinoff_prover]
    fn compile_class_body(&mut self, body: &Vec<Stmt>, qualname: String) -> (r: Result<(), Halt>)
        requires
            old(self).wf(),
            old(self)@.loop_ok(),
        ensures
            located(r, old(self)@),
            final(self)@.path == old(self)@.path,
            final(self).wf(),
            r is Ok ==> kept(old(self)@, final(self)@),
            outcome(final(self)@, r) == old(self)@.class_body(body@, qualname@),
        decreases body@, 1nat, 0nat,
    {
        reveal(State::class_body);
        reveal(State::stmts);
        let (doc_str, from) = split_doc(body, &self.opts);
        self.compile_class_start(qualname, doc_str)?;
        // setup annotations
        if Self::find_ann(body, from) {
            self.emit(Instruction::SetupAnnotation);
        }
        self.compile_statements(body, from)?;
        self.compile_class_end()
    }

    /// Calls the __build_class__ builtin
    #[verifier::spinoff_prover]
    fn build_class(&mut self, x: &StmtClassDef) -> (r: Result<(), Halt>)
        requires
            old(self).wf(),
        ensures
            located(r, old(self)@),
            final(self)@.path == old(self)@.path,
            final(self).wf(),
            r is Ok ==> kept(old(self)@, final(self)@),
            outcome(final(self)@, r) == old(self)@.build_class(*x),
    {
        reveal(State::build_class);
        self.emit_load_const(ConstantData::Str { value: x.name.clone() })?;
        let call = match &x.arguments {
            Some(arguments) => self.compile_call_inner(2, arguments)?,
            None => CallType::Positional { nargs: 2 },
        };
        self.compile_normal_call(call);
        self.apply_decorators(&x.decorator_list);
        self.store_name(x.name.as_str())
    }

    /// Starts the path of a class that is declared global anew, and puts the name of the class
    /// into it.
    fn enter_class_path(&mut self, name: &str, global: bool) -> (r: String)
        requires
            old(self).wf(),
        ensures
            final(self).wf(),
            final(self)@ == old(self)@.set_qualified(
                if global {
                    seq![name@]
                } else {
                    old(self)@.qualified.push(name@)
                },
            ),
            r@ == qualified_name(final(self)@.qualified),
    {
        if global {
            self.qualified_path = Vec::new();
        }
        self.push_qualified_path(name);
        proof {
            if global {
                assert(self@.qualified =~= seq![name@]);
            }
        }
        join(&self.qualified_path, ".")
    }

    #[verifier::spinoff_prover]
    fn compile_class_unit(&mut self, x: &StmtClassDef) -> (r: Result<(), Halt>)
        requires
            old(self).wf(),
        ensures
            located(r, old(self)@),
            final(self)@.path == old(self)@.path,
            final(self).wf(),
            outcome(final(self)@, r) == old(self)@.class_unit(*x),
            r is Ok ==> opened_within(old(self)@, final(self)@, x.type_params is Some),
        decreases x, 0nat, 0nat,
    {
        reveal(State::class_unit);
        reveal(State::class_body);
        self.prepare_decorators(&x.decorator_list)?;
        self.ctx = CompileContext {
            func: FunctionContext::NoFunction,
            in_class: true,
            loop_data: None,
        };
        self.class_name = Some(x.name.clone());
        // Check if the class is declared global
        let n: usize = self.symbol_table_stack.len();
        if n == 0 {
            return Err(Halt::Panic);
        }
        assert(self@.tables.last() == self.symbol_table_stack@[n - 1]@);
        let symbol = match self.symbol_table_stack[n - 1].table.lookup(x.name.as_str()) {
            Some(symbol) => symbol,
            None => {
                return Err(Halt::Panic);
            },
        };
        let global = symbol.scope == SymbolScope::GlobalExplicit;
        let qualified_name = self.enter_class_path(x.name.as_str(), global);
        self.enter_type_params(&x.type_params)?;
        self.push_output(
            CodeFlags {
                new_locals: false,
                is_generator: false,
                is_coroutine: false,
                has_varargs: false,
                has_varkeywords: false,
                is_optimized: false,
            },
            0,
            0,
            0,
            x.name.as_str(),
        )?;
        self.compile_class_body(&x.body, qualified_name)
    }

    #[verifier::spinoff_prover]
    fn finish_class(
        &mut self,
        x: &StmtClassDef,
        prev_ctx: CompileContext,
        prev_class_name: Option<String>,
        prev_path: Vec<String>,
    ) -> (r: Result<(), Halt>)
        requires
            old(self).wf(),
            complete(old(self)@.top()),
        ensures
            located(r, old(self)@),
            final(self)@.path == old(self)@.path,
            final(self).wf(),
            outcome(final(self)@, r) == old(self)@.class_end_of(
                *x,
                prev_ctx,
                text_of_option(prev_class_name),
                texts(prev_path@),
            ),
            r is Ok ==> {
                &&& closed_within(old(self)@, final(self)@, x.type_params is Some)
                &&& final(self)@.qualified == texts(prev_path@)
                &&& final(self)@.ctx == prev_ctx
                &&& final(self)@.class_name == text_of_option(prev_class_name)
            },
    {
        reveal(State::class_end_of);
        let code = self.pop_code_object()?;
        self.class_name = prev_class_name;
        self.qualified_path = prev_path;
        self.ctx = prev_ctx;
        self.emit(Instruction::LoadBuildClass);
        // Prepare generic type parameters:
        self.compile_type_params(&x.type_params)?;
        let closure = self.build_closure(&code)?;
        self.leave_type_params(&x.type_params)?;
        // Turn code object into function object:
        self.make_function(
            code,
            x.name.as_str(),
            MakeFunctionFlags {
                closure,
                annotations: false,
                kw_only_defaults: false,
                defaults: false,
                type_params: x.type_params.is_some(),
            },
        )?;
        self.build_class(x)
    }

    #[verifier::spinoff_prover]
    pub(crate) fn compile_class_def(&mut self, x: &StmtClassDef) -> (r: Result<(), Halt>)
        requires
            old(self).wf(),
            old(self)@.loop_ok(),
        ensures
            located(r, old(self)@),
            final(self)@.path == old(self)@.path,
            final(self).wf(),
            r is Ok ==> kept(old(self)@, final(self)@),
            outcome(final(self)@, r) == old(self)@.class_def(*x),
        decreases x, 1nat, 0nat,
    {
        reveal(State::class_def);
        reveal(State::class_unit);
        let prev_ctx = self.ctx;
        let prev_class_name = self.class_name.clone();
        let prev_path = copied(&self.qualified_path);
        self.compile_class_unit(x)?;
        self.finish_class(x, prev_ctx, prev_class_name, prev_path)
    }
}

/// A copy of some texts.
fn copied(s: &Vec<String>) -> (r: Vec<String>)
    ensures
        texts(r@) == texts(s@),
{
    let mut r: Vec<String> = Vec::new();
    let n: usize = s.len();
    let mut i: usize = 0;
    while i < n
        invariant
            i <= n,
            n == s@.len(),
            r@.len() == i,
            forall|j: int| 0 <= j < i ==> (#[trigger] r@[j])@ == s@[j]@,
        decreases n - i,
    {
        r.push(s[i].clone());
        i += 1;
    }
    assert(texts(r@) =~= texts(s@));
    r
}

} // verus!
