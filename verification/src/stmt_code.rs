//! The code of statements, as chains of steps on the state of a compilation.
use vstd::prelude::*;

use crate::ast::{
    expr_python_name, expr_range, stmt_range, Alias, Annotation, Decorator, ElifElseClause,
    ExceptHandler, Expr, MatchCase, Parameter, ParameterWithDefault, Pattern, Stmt, StmtAnnAssign,
    StmtAssert, StmtAssign, StmtAugAssign, StmtClassDef, StmtFor, StmtFunctionDef, StmtIf,
    StmtImportFrom, StmtMatch, StmtRaise, StmtReturn, StmtTry, StmtTypeAlias, StmtWhile, StmtWith,
    TypeParam, TypeParams,
};
use crate::bytecode::{
    BlockIdx, BlockModel, CodeModel, ComparisonOperator, ConstantModel, Instruction,
    MakeFunctionFlags, RaiseKind, TestOperator,
};
use crate::doc::{body_start, doc_of};
use crate::error::ErrorKind;
use crate::expr_code::{
    call_code, call_type, group_halted_parts, no_flags, operator_code, parameter_flags,
    plain_function,
};
use crate::state::{
    group_halted_steps, CompileContext, DoneWithFuture, FunctionContext, NameUsage, State,
};
use crate::symboltable::{found_symbol, mangled, SymbolScope};
use crate::text::{joined, position, split_on};

verus! {

broadcast use {group_halted_steps, group_halted_parts};

/// The features that a `from __future__` import may name without any effect.
pub open spec fn settled_feature(name: Seq<char>) -> bool {
    ||| name == "nested_scopes"@
    ||| name == "generators"@
    ||| name == "division"@
    ||| name == "absolute_import"@
    ||| name == "with_statement"@
    ||| name == "print_function"@
    ||| name == "unicode_literals"@
    ||| name == "generator_stop"@
}

/// Whether one of the names `s[i..]` is `*`.
pub open spec fn import_star(s: Seq<Alias>, i: nat) -> bool
    decreases s.len() - i,
{
    i < s.len() && (s[i as int].name@ == "*"@ || import_star(s, i + 1))
}

/// The names of an import, as constants.
pub open spec fn from_list(s: Seq<Alias>) -> Seq<ConstantModel> {
    if import_star(s, 0) {
        seq![ConstantModel::Str("*"@)]
    } else {
        s.map_values(|a: Alias| ConstantModel::Str(a.name@))
    }
}

/// The name that an import binds.
pub open spec fn bound_name(a: Alias) -> Seq<char> {
    match a.asname {
        Some(alias) => alias@,
        None => a.name@,
    }
}

/// Whether an annotated assignment occurs in `s[i..]`, or in what these statements do in turn.
pub open spec fn has_annotation(s: Seq<Stmt>, i: nat) -> bool
    decreases s, s.len() - i,
{
    i < s.len() && ((match s[i as int] {
        Stmt::AnnAssign(_) => true,
        Stmt::For(x) => has_annotation(x.body@, 0) || has_annotation(x.orelse@, 0),
        Stmt::If(x) => has_annotation(x.body@, 0) || clause_annotation(x.elif_else_clauses@, 0),
        Stmt::While(x) => has_annotation(x.body@, 0) || has_annotation(x.orelse@, 0),
        Stmt::With(x) => has_annotation(x.body@, 0),
        Stmt::Try(x) => has_annotation(x.body@, 0) || has_annotation(x.orelse@, 0)
            || has_annotation(x.finalbody@, 0),
        _ => false,
    }) || has_annotation(s, i + 1))
}

pub open spec fn clause_annotation(s: Seq<ElifElseClause>, i: nat) -> bool
    decreases s, s.len() - i,
{
    i < s.len() && (has_annotation(s[i as int].body@, 0) || clause_annotation(s, i + 1))
}

/// The number of parameters among `s[i..]` that are annotated.
pub open spec fn annotation_count(s: Seq<ParameterWithDefault>, i: nat) -> nat
    decreases s.len() - i,
{
    if i >= s.len() {
        0
    } else if s[i as int].parameter.annotation is Some {
        1 + annotation_count(s, i + 1)
    } else {
        annotation_count(s, i + 1)
    }
}

pub open spec fn variadic_annotation_count(p: Option<Box<Parameter>>) -> nat {
    match p {
        Some(p) => if p.annotation is Some {
            1
        } else {
            0
        },
        None => 0,
    }
}

/// The number of annotations of a function.
pub open spec fn function_annotations(x: StmtFunctionDef) -> nat {
    annotation_count(x.parameters.posonlyargs@, 0) + annotation_count(x.parameters.args@, 0)
        + annotation_count(x.parameters.kwonlyargs@, 0) + variadic_annotation_count(
        x.parameters.vararg,
    ) + variadic_annotation_count(x.parameters.kwarg) + if x.returns is Some {
        1nat
    } else {
        0
    }
}

/// What a function definition makes its function with.
pub open spec fn definition_flags(x: StmtFunctionDef, closure: bool) -> MakeFunctionFlags {
    MakeFunctionFlags {
        closure,
        annotations: function_annotations(x) > 0,
        type_params: x.type_params is Some,
        ..parameter_flags(*x.parameters)
    }
}

/// The blocks `base..base + n`, each with the one after it as its successor.
pub open spec fn relinked(blocks: Seq<BlockModel>, base: nat, n: nat) -> Seq<BlockModel> {
    Seq::new(
        blocks.len(),
        |k: int|
            if base <= k < base + n {
                BlockModel { next: BlockIdx((k + 1) as u32), ..blocks[k] }
            } else {
                blocks[k]
            },
    )
}

/// The path of a scope as a dotted name.
pub open spec fn qualified_name(path: Seq<Seq<char>>) -> Seq<char> {
    joined(path, "."@)
}

impl State {
    /// Drops the last name of the path, if it has one.
    pub open spec fn pop_path(self) -> State {
        if self.qualified.len() > 0 {
            self.set_qualified(self.qualified.drop_last())
        } else {
            self
        }
    }

    /// Takes the features `s[i..]` of a `from __future__` import.
    #[verifier::opaque]
    pub open spec fn features(self, s: Seq<Alias>, i: nat) -> State
        decreases s.len() - i,
    {
        if i >= s.len() {
            self
        } else {
            let name = s[i as int].name@;
            if settled_feature(name) {
                self.features(s, i + 1)
            } else if name == "annotations"@ {
                (State { future_annotations: true, ..self }).features(s, i + 1)
            } else {
                self.fail(ErrorKind::InvalidFutureFeature(name))
            }
        }
    }

    /// A `from __future__` import, which may only come after a docstring and others of its kind.
    #[verifier::opaque]
    pub open spec fn future_features(self, s: Seq<Alias>) -> State {
        if self.future == DoneWithFuture::Yes {
            self.fail(ErrorKind::InvalidFuturePlacement)
        } else {
            self.set_future(DoneWithFuture::DoneWithDoc).features(s, 0)
        }
    }

    /// What a statement means for the `from __future__` imports that may come.
    #[verifier::opaque]
    pub open spec fn note_future(self, x: Stmt) -> State {
        match x {
            Stmt::ImportFrom(x) => match x.module {
                Some(module) => if module@ == "__future__"@ {
                    self.future_features(x.names@)
                } else {
                    self.set_future(DoneWithFuture::Yes)
                },
                None => self.set_future(DoneWithFuture::Yes),
            },
            Stmt::Expr(x) => if *x.value is StringLiteral && self.future == DoneWithFuture::No {
                self.set_future(DoneWithFuture::DoneWithDoc)
            } else {
                self.set_future(DoneWithFuture::Yes)
            },
            _ => self.set_future(DoneWithFuture::Yes),
        }
    }

    /// Loads the attributes `parts[i..]`, each of the one before.
    #[verifier::opaque]
    pub open spec fn attributes(self, parts: Seq<Seq<char>>, i: nat) -> State
        decreases parts.len() - i,
    {
        if i >= parts.len() {
            self
        } else {
            let part = parts[i as int];
            let one = self.intern_name(part).emit(
                Instruction::LoadAttr { idx: self.name_index(part) },
            );
            one.to(one.attributes(parts, i + 1))
        }
    }

    /// Imports a module, and binds the innermost one to the alias or the outermost to its name.
    #[verifier::opaque]
    pub open spec fn import_module(self, a: Alias) -> State {
        let s = self.load_const(ConstantModel::Integer(0)).load_const(ConstantModel::NoneValue);
        let t = s.intern_name(a.name@).emit(
            Instruction::ImportName { idx: s.name_index(a.name@) },
        );
        let parts = split_on(a.name@, '.');
        match a.asname {
            Some(alias) => t.to(t.attributes(parts, 1)).store_name(alias@),
            None => t.store_name(parts[0]),
        }
    }

    #[verifier::opaque]
    pub open spec fn imports(self, s: Seq<Alias>, i: nat) -> State
        decreases s.len() - i,
    {
        if i >= s.len() {
            self
        } else {
            let one = self.import_module(s[i as int]);
            one.to(one.imports(s, i + 1))
        }
    }

    /// Takes the names `s[i..]` from the module on the stack.
    #[verifier::opaque]
    pub open spec fn import_names(self, s: Seq<Alias>, i: nat) -> State
        decreases s.len() - i,
    {
        if i >= s.len() {
            self
        } else {
            let name = s[i as int].name@;
            let one = self.intern_name(name).emit(
                Instruction::ImportFrom { idx: self.name_index(name) },
            ).store_name(bound_name(s[i as int]));
            one.to(one.import_names(s, i + 1))
        }
    }

    /// Loads the module of a `from` import.
    #[verifier::opaque]
    pub open spec fn import_source(self, x: StmtImportFrom) -> State {
        let s = match x.module {
            Some(module) => self.intern_name(module@),
            None => self,
        };
        s.load_const(ConstantModel::Integer(x.level as int)).load_const(
            ConstantModel::Tuple(from_list(x.names@)),
        ).emit(
            match x.module {
                Some(module) => Instruction::ImportName { idx: self.name_index(module@) },
                None => Instruction::ImportNameless,
            },
        )
    }

    #[verifier::opaque]
    pub open spec fn import_from(self, x: StmtImportFrom) -> State {
        if import_star(x.names@, 0) {
            if self.ctx.within_func() {
                self.fail_at(ErrorKind::FunctionImportStar, x.range)
            } else {
                self.import_source(x).emit(Instruction::ImportStar)
            }
        } else {
            let s = self.import_source(x);
            s.to(s.import_names(x.names@, 0).emit(Instruction::Pop))
        }
    }

    #[verifier::opaque]
    pub open spec fn raise(self, x: StmtRaise) -> State {
        match x.exc {
            None => self.emit(Instruction::Raise { kind: RaiseKind::Reraise }),
            Some(exc) => {
                let s = self.expr(*exc);
                match x.cause {
                    None => s.emit(Instruction::Raise { kind: RaiseKind::Raise }),
                    Some(cause) => s.to(
                        s.expr(*cause).emit(Instruction::Raise { kind: RaiseKind::RaiseCause }),
                    ),
                }
            },
        }
    }

    /// An assert statement, which optimised code leaves out.
    #[verifier::opaque]
    pub open spec fn assertion(self, x: StmtAssert) -> State {
        if self.optimize > 0 {
            self
        } else {
            let after = self.fresh();
            let s = self.new_block();
            let t = s.jump_if(*x.test, true, after);
            let u = t.intern_name("AssertionError"@).emit(
                Instruction::LoadGlobal(t.name_index("AssertionError"@)),
            );
            let v = match x.msg {
                Some(msg) => u.to(
                    u.expr(*msg).emit(Instruction::CallFunctionPositional { nargs: 1 }),
                ),
                None => u.emit(Instruction::CallFunctionPositional { nargs: 0 }),
            };
            s.to(v.emit(Instruction::Raise { kind: RaiseKind::Raise }).switch_to(after))
        }
    }

    #[verifier::opaque]
    pub open spec fn return_statement(self, x: StmtReturn) -> State {
        if !self.ctx.within_func() {
            self.fail_at(ErrorKind::InvalidReturn, x.range)
        } else {
            match x.value {
                Some(value) => if self.ctx.func == FunctionContext::AsyncFunction
                    && self.top().flags.is_generator {
                    self.fail_at(ErrorKind::AsyncReturnValue, x.range)
                } else {
                    self.expr(*value).return_value()
                },
                None => self.return_const(ConstantModel::NoneValue),
            }
        }
    }

    /// Stores the value on the stack in each of the targets `s[i..]`.
    #[verifier::opaque]
    pub open spec fn assign_targets(self, s: Seq<Expr>, i: nat) -> State
        decreases s.len() - i,
    {
        if i >= s.len() {
            self
        } else {
            let one = (if i + 1 != s.len() {
                self.emit(Instruction::Duplicate)
            } else {
                self
            }).store(s[i as int]);
            one.to(one.assign_targets(s, i + 1))
        }
    }

    #[verifier::opaque]
    pub open spec fn assign(self, x: StmtAssign) -> State {
        let s = self.expr(*x.value);
        s.to(s.assign_targets(x.targets@, 0))
    }

    #[verifier::opaque]
    pub open spec fn augmented(self, x: StmtAugAssign) -> State {
        let op = operator_code(x.op, true);
        match *x.target {
            Expr::Name(t) => {
                let s = self.load_name(t.id@);
                let u = s.expr(*x.value).emit(op);
                s.to(u.store_name(t.id@))
            },
            Expr::Subscript(t) => {
                let container = self.expr(*t.value);
                let s = container.expr(*t.slice).emit(Instruction::Duplicate2).emit(
                    Instruction::Subscript,
                );
                let u = s.expr(*x.value).emit(op).emit(Instruction::Rotate3).emit(
                    Instruction::StoreSubscript,
                );
                container.to(s).to(u)
            },
            Expr::Attribute(t) => {
                let checked = self.check_name(t.attr@, NameUsage::Store);
                let container = checked.expr(*t.value).emit(Instruction::Duplicate);
                let idx = container.name_index(t.attr@);
                let s = container.intern_name(t.attr@).emit(Instruction::LoadAttr { idx });
                let u = s.expr(*x.value).emit(op).emit(Instruction::Rotate2).emit(
                    Instruction::StoreAttr { idx },
                );
                checked.to(s).to(u)
            },
            _ => self.fail(ErrorKind::Assign(expr_python_name(*x.target))),
        }
    }

    /// Evaluates an annotation, or loads its source where that has been asked for.
    #[verifier::opaque]
    pub open spec fn annotation(self, a: Annotation) -> State {
        if self.future_annotations {
            self.load_const(ConstantModel::Str(a.source@))
        } else {
            self.expr(a.expr)
        }
    }

    /// An annotated assignment, whose annotation is only evaluated in a module or class.
    #[verifier::opaque]
    pub open spec fn annotated(self, x: StmtAnnAssign) -> State {
        let s = match x.value {
            Some(value) => {
                let s = self.expr(*value);
                s.to(s.store(*x.target))
            },
            None => self,
        };
        if s.ctx.within_func() {
            s
        } else {
            let t = s.annotation(*x.annotation);
            s.to(
                match *x.target {
                    Expr::Name(name) => t.intern_name("__annotations__"@).emit(
                        Instruction::LoadNameAny(t.name_index("__annotations__"@)),
                    ).load_const(ConstantModel::Str(mangled(t.class_name, name.id@))).emit(
                        Instruction::StoreSubscript,
                    ),
                    _ => t.emit(Instruction::Pop),
                },
            )
        }
    }

    /// Deletes a target.
    #[verifier::opaque]
    pub open spec fn delete(self, e: Expr) -> State
        decreases e, 0nat, 0nat,
    {
        match e {
            Expr::Name(x) => self.name(x.id@, NameUsage::Delete),
            Expr::Attribute(x) => {
                let s = self.check_name(x.attr@, NameUsage::Delete);
                let value = s.expr(*x.value);
                s.to(
                    value.intern_name(x.attr@).emit(
                        Instruction::DeleteAttr { idx: value.name_index(x.attr@) },
                    ),
                )
            },
            Expr::Subscript(x) => {
                let value = self.expr(*x.value);
                value.to(value.expr(*x.slice).emit(Instruction::DeleteSubscript))
            },
            Expr::Tuple(x) => self.deletes(x.elts@, 0),
            Expr::List(x) => self.deletes(x.elts@, 0),
            Expr::BinOp(_) | Expr::UnaryOp(_) => self.fail(ErrorKind::Delete("expression"@)),
            _ => self.fail(ErrorKind::Delete(expr_python_name(e))),
        }
    }

    /// Deletes the targets `s[i..]`.
    #[verifier::opaque]
    pub open spec fn deletes(self, s: Seq<Expr>, i: nat) -> State
        decreases s, 0nat, s.len() - i,
    {
        if i >= s.len() {
            self
        } else {
            let one = self.delete(s[i as int]);
            one.to(one.deletes(s, i + 1))
        }
    }

    /// Makes a type parameter, and keeps it on the stack besides storing it.
    #[verifier::opaque]
    pub open spec fn type_param(self, x: TypeParam) -> State {
        match x {
            TypeParam::TypeVar(x) => match x.bound {
                Some(bound) => self.expr(*bound).load_const(ConstantModel::Str(x.name@)).emit(
                    Instruction::TypeVarWithBound,
                ).emit(Instruction::Duplicate).store_name(x.name@),
                None => self.load_const(ConstantModel::Str(x.name@)).emit(
                    Instruction::TypeVar,
                ).emit(Instruction::Duplicate).store_name(x.name@),
            },
            TypeParam::ParamSpec(x) => self.load_const(ConstantModel::Str(x.name@)).emit(
                Instruction::ParamSpec,
            ).emit(Instruction::Duplicate).store_name(x.name@),
            TypeParam::TypeVarTuple(x) => self.load_const(ConstantModel::Str(x.name@)).emit(
                Instruction::TypeVarTuple,
            ).emit(Instruction::Duplicate).store_name(x.name@),
        }
    }

    /// Makes the type parameters `s[i..]`.
    #[verifier::opaque]
    pub open spec fn type_param_values(self, s: Seq<TypeParam>, i: nat) -> State
        decreases s.len() - i,
    {
        if i >= s.len() {
            self
        } else {
            let one = self.type_param(s[i as int]);
            one.to(one.type_param_values(s, i + 1))
        }
    }

    /// Makes type parameters, if there are any, and leaves a tuple of them on the stack.
    #[verifier::opaque]
    pub open spec fn type_params(self, x: Option<Box<TypeParams>>) -> State {
        match x {
            None => self,
            Some(x) => {
                let s = self.type_param_values(x.type_params@, 0);
                if !self.running() {
                    self
                } else if x.type_params@.len() > u32::MAX {
                    s.stuck()
                } else {
                    s.emit(Instruction::BuildTuple { size: x.type_params@.len() as u32 })
                }
            },
        }
    }

    /// Enters the scope of type parameters, if there are any.
    #[verifier::opaque]
    pub open spec fn enter_type_params(self, x: Option<Box<TypeParams>>) -> State {
        if x is Some {
            self.push_table()
        } else {
            self
        }
    }

    /// Leaves the scope of type parameters, if there are any.
    #[verifier::opaque]
    pub open spec fn leave_type_params(self, x: Option<Box<TypeParams>>) -> State {
        if x is Some {
            self.pop_table()
        } else {
            self
        }
    }

    #[verifier::opaque]
    pub open spec fn type_alias(self, x: StmtTypeAlias) -> State {
        match *x.name {
            Expr::Name(name) => {
                let s = self.enter_type_params(x.type_params);
                let t = s.expr(*x.value);
                s.to(
                    t.type_params(x.type_params).leave_type_params(x.type_params).load_const(
                        ConstantModel::Str(name.id@),
                    ).emit(Instruction::TypeAlias).store_name(name.id@),
                )
            },
            _ => self.fail(ErrorKind::SyntaxError("type alias expect name"@)),
        }
    }

    /// Evaluates the decorators `s[i..]`.
    #[verifier::opaque]
    pub open spec fn decorators(self, s: Seq<Decorator>, i: nat) -> State
        decreases s.len() - i,
    {
        if i >= s.len() {
            self
        } else {
            let one = self.expr(s[i as int].expression);
            one.to(one.decorators(s, i + 1))
        }
    }

    /// Calls `n` decorators.
    #[verifier::opaque]
    pub open spec fn decorated(self, n: nat) -> State
        decreases n,
    {
        if n == 0 || !self.running() {
            self
        } else {
            self.emit(Instruction::CallFunctionPositional { nargs: 1 }).decorated((n - 1) as nat)
        }
    }

    /// Evaluates the annotation of a parameter under its name, if it has one.
    #[verifier::opaque]
    pub open spec fn parameter_annotation(self, p: Parameter) -> State {
        match p.annotation {
            Some(a) => {
                let s = self.load_const(ConstantModel::Str(mangled(self.class_name, p.name@)));
                s.to(s.annotation(*a))
            },
            None => self,
        }
    }

    /// Evaluates the annotations of the parameters `s[i..]`.
    #[verifier::opaque]
    pub open spec fn parameter_annotations(self, s: Seq<ParameterWithDefault>, i: nat) -> State
        decreases s.len() - i,
    {
        if i >= s.len() || !self.running() {
            self
        } else {
            let one = self.parameter_annotation(s[i as int].parameter);
            one.to(one.parameter_annotations(s, i + 1))
        }
    }

    #[verifier::opaque]
    pub open spec fn variadic_annotation(self, p: Option<Box<Parameter>>) -> State {
        match p {
            Some(p) if self.running() => self.parameter_annotation(*p),
            _ => self,
        }
    }

    /// Builds a map of the annotations of a function, if it has any.
    #[verifier::opaque]
    pub open spec fn annotations(self, x: StmtFunctionDef) -> State {
        let s = match x.returns {
            Some(a) => {
                let s = self.load_const(ConstantModel::Str("return"@));
                s.to(s.annotation(*a))
            },
            None => self,
        };
        let t = s.parameter_annotations(x.parameters.posonlyargs@, 0).parameter_annotations(
            x.parameters.args@,
            0,
        ).parameter_annotations(x.parameters.kwonlyargs@, 0).variadic_annotation(
            x.parameters.vararg,
        ).variadic_annotation(x.parameters.kwarg);
        let n = function_annotations(x);
        if n == 0 || !self.running() {
            self.to(t)
        } else if n > u32::MAX {
            t.stuck()
        } else {
            t.emit(Instruction::BuildMap { size: n as u32 })
        }
    }

    /// Gives the function on the stack its docstring, if it has one.
    #[verifier::opaque]
    pub open spec fn function_doc(self, doc: Option<Seq<char>>) -> State {
        match doc {
            Some(doc) => {
                let s = self.emit(Instruction::Duplicate).load_const(ConstantModel::Str(doc)).emit(
                    Instruction::Rotate2,
                );
                s.intern_name("__doc__"@).emit(
                    Instruction::StoreAttr { idx: s.name_index("__doc__"@) },
                )
            },
            None => self,
        }
    }

    /// A new block for each of `n` cases and for what follows them.
    #[verifier::opaque]
    pub open spec fn new_blocks(self, n: nat) -> State
        decreases n,
    {
        if n == 0 || !self.running() {
            self
        } else {
            let one = self.new_block();
            one.to(one.new_blocks((n - 1) as nat))
        }
    }

    /// Tests the subject on the stack against a pattern.
    #[verifier::opaque]
    pub open spec fn pattern(self, p: Pattern, allow_irrefutable: bool) -> State
        decreases p,
    {
        match p {
            Pattern::MatchValue(x) => self.expr(*x.value).emit(
                Instruction::CompareOperation { op: ComparisonOperator::Equal },
            ),
            Pattern::MatchAs(x) => if x.pattern is None && !allow_irrefutable {
                self.fail_at(ErrorKind::InvalidMatchCase, x.range)
            } else {
                let s = self.emit(Instruction::Duplicate);
                let t = match x.pattern {
                    Some(inner) => s.pattern(*inner, allow_irrefutable),
                    None => s,
                };
                match x.name {
                    Some(name) => t.store_name(name@),
                    None => t.emit(Instruction::Pop),
                }
            },
            Pattern::Other(_) => self.fail(ErrorKind::NotImplementedYet),
        }
    }

    /// Makes each of `n` blocks from `base` on fall through to the next one.
    #[verifier::opaque]
    pub open spec fn relink(self, base: nat, n: nat) -> State {
        if !self.running() {
            self
        } else {
            self.with_top(
                CodeModel { blocks: relinked(self.top().blocks, base, n), ..self.top() },
            )
        }
    }

    /// Runs the statements `s[i..]`.
    #[verifier::opaque]
    pub open spec fn stmts(self, s: Seq<Stmt>, i: nat) -> State
        decreases s, 0nat, s.len() - i,
    {
        if i >= s.len() {
            self
        } else {
            let one = self.stmt(s[i as int]);
            one.to(one.stmts(s, i + 1))
        }
    }

    /// Runs a statement.
    #[verifier::opaque]
    pub open spec fn stmt(self, x: Stmt) -> State
        decreases x, 1nat, 0nat,
    {
        let s = self.set_range(stmt_range(x)).note_future(x);
        s.to(s.stmt_body(x))
    }

    #[verifier::opaque]
    pub open spec fn stmt_body(self, x: Stmt) -> State
        decreases x, 0nat, 0nat,
    {
        match x {
            Stmt::If(x) => self.if_statement(x),
            Stmt::While(x) => self.while_loop(x),
            Stmt::With(x) => self.with_item(x, 0),
            Stmt::For(x) => self.for_loop(x),
            Stmt::Match(x) => self.match_statement(x),
            Stmt::Try(x) => self.try_statement(x),
            Stmt::FunctionDef(x) => self.function_def(x),
            Stmt::ClassDef(x) => self.class_def(x),
            _ => self.simple(x),
        }
    }

    /// Runs a statement that holds no other one.
    #[verifier::opaque]
    pub open spec fn simple(self, x: Stmt) -> State {
        match x {
            Stmt::Import(x) => self.imports(x.names@, 0),
            Stmt::ImportFrom(x) => self.import_from(x),
            Stmt::Expr(x) => self.expr(*x.value).emit(Instruction::Pop),
            Stmt::Global(_) | Stmt::Nonlocal(_) | Stmt::Pass(_) => self,
            Stmt::Raise(x) => self.raise(x),
            Stmt::Assert(x) => self.assertion(x),
            Stmt::Break(range) => match self.ctx.loop_data {
                Some((_, end)) => self.emit(Instruction::Break { target: end }),
                None => self.fail_at(ErrorKind::InvalidBreak, range),
            },
            Stmt::Continue(range) => match self.ctx.loop_data {
                Some((start, _)) => self.emit(Instruction::Continue { target: start }),
                None => self.fail_at(ErrorKind::InvalidContinue, range),
            },
            Stmt::Return(x) => self.return_statement(x),
            Stmt::Assign(x) => self.assign(x),
            Stmt::AugAssign(x) => self.augmented(x),
            Stmt::AnnAssign(x) => self.annotated(x),
            Stmt::Delete(x) => self.deletes(x.targets@, 0),
            Stmt::TypeAlias(x) => self.type_alias(x),
            _ => self.stuck(),
        }
    }

    #[verifier::opaque]
    pub open spec fn if_statement(self, x: StmtIf) -> State
        decreases x, 0nat, 0nat,
    {
        let after = self.fresh();
        let s = self.new_block();
        if x.elif_else_clauses@.len() == 0 {
            let tested = s.jump_if(*x.test, false, after);
            let done = tested.stmts(x.body@, 0).switch_to(after);
            s.to(tested).to(done)
        } else {
            let next = s.fresh();
            let t = s.new_block();
            let tested = t.jump_if(*x.test, false, next);
            let done = tested.stmts(x.body@, 0).emit(Instruction::Jump { target: after });
            t.to(tested).to(done).to(done.clauses(x.elif_else_clauses@, 0, next, after))
        }
    }

    /// The clauses `s[i..]` of an if statement, the first of which starts at `next`.
    #[verifier::opaque]
    pub open spec fn clauses(
        self,
        s: Seq<ElifElseClause>,
        i: nat,
        next: BlockIdx,
        after: BlockIdx,
    ) -> State
        decreases s, 0nat, s.len() - i,
    {
        if i >= s.len() {
            self
        } else {
            let entered = self.switch_to(next);
            if i + 1 == s.len() {
                let tested = match s[i as int].test {
                    Some(test) => entered.jump_if(test, false, after),
                    None => entered,
                };
                let done = tested.stmts(s[i as int].body@, 0).switch_to(after);
                entered.to(tested).to(done)
            } else {
                let later = entered.fresh();
                let t = entered.new_block();
                match s[i as int].test {
                    Some(test) => {
                        let tested = t.jump_if(test, false, later);
                        let done = tested.stmts(s[i as int].body@, 0).emit(
                            Instruction::Jump { target: after },
                        );
                        t.to(tested).to(done).to(done.clauses(s, i + 1, later, after))
                    },
                    None => t.stuck(),
                }
            }
        }
    }

    #[verifier::opaque]
    pub open spec fn while_loop(self, x: StmtWhile) -> State
        decreases x, 0nat, 0nat,
    {
        let while_block = self.fresh();
        let s = self.new_block();
        let else_block = s.fresh();
        let t = s.new_block();
        let after = t.fresh();
        let u = t.new_block().emit(Instruction::SetupLoop).switch_to(while_block);
        let tested = u.jump_if(*x.test, false, else_block);
        let body = tested.set_loop(Some((while_block, after))).stmts(x.body@, 0).set_loop(
            tested.ctx.loop_data,
        ).emit(Instruction::Jump { target: while_block }).switch_to(else_block).emit(
            Instruction::PopBlock,
        );
        u.to(tested).to(body).to(body.stmts(x.orelse@, 0).switch_to(after))
    }

    /// The items `x.items[i..]` of a with statement, each within the one before.
    #[verifier::opaque]
    pub open spec fn with_item(self, x: StmtWith, i: nat) -> State
        decreases x, 0nat, x.items@.len() - i,
    {
        if i >= x.items@.len() {
            self.fail(ErrorKind::EmptyWithItems)
        } else {
            let range = self.range;
            let end = self.fresh();
            let s = self.new_block();
            let t = s.enter_with(x, i, end);
            let body = if i + 1 < x.items@.len() {
                t.set_range(range).with_item(x, i + 1)
            } else if x.body@.len() == 0 {
                t.fail(ErrorKind::EmptyWithBody)
            } else {
                t.stmts(x.body@, 0)
            };
            s.to(t).to(body.set_range(range).leave_with(x.is_async, end))
        }
    }

    /// Evaluates a context manager, enters it, and binds what it gives.
    #[verifier::opaque]
    pub open spec fn enter_with(self, x: StmtWith, i: nat, end: BlockIdx) -> State {
        let item = x.items@[i as int];
        let s = self.expr(item.context_expr).set_range(self.range);
        let t = if x.is_async {
            s.emit(Instruction::BeforeAsyncWith).emit(Instruction::GetAwaitable).load_const(
                ConstantModel::NoneValue,
            ).emit(Instruction::YieldFrom).emit(Instruction::SetupAsyncWith { end })
        } else {
            s.emit(Instruction::SetupWith { end })
        };
        match item.optional_vars {
            Some(var) => t.to(t.set_range(expr_range(*var)).store(*var)),
            None => t.emit(Instruction::Pop),
        }
    }

    /// Leaves a context manager.
    #[verifier::opaque]
    pub open spec fn leave_with(self, is_async: bool, end: BlockIdx) -> State {
        let s = self.emit(Instruction::PopBlock).emit(Instruction::EnterFinally).switch_to(
            end,
        ).emit(Instruction::WithCleanupStart);
        (if is_async {
            s.emit(Instruction::GetAwaitable).load_const(ConstantModel::NoneValue).emit(
                Instruction::YieldFrom,
            )
        } else {
            s
        }).emit(Instruction::WithCleanupFinish)
    }

    /// Starts a turn of a for loop, from the iterated value on.
    #[verifier::opaque]
    pub open spec fn for_turn(
        self,
        target: Expr,
        is_async: bool,
        for_block: BlockIdx,
        else_block: BlockIdx,
    ) -> State {
        if is_async {
            let s = self.emit(Instruction::GetAIter).switch_to(for_block).emit(
                Instruction::SetupExcept { handler: else_block },
            ).emit(Instruction::GetANext).load_const(ConstantModel::NoneValue).emit(
                Instruction::YieldFrom,
            );
            s.to(s.store(target).emit(Instruction::PopBlock))
        } else {
            let s = self.emit(Instruction::GetIter).switch_to(for_block).emit(
                Instruction::ForIter { target: else_block },
            );
            s.to(s.store(target))
        }
    }

    #[verifier::opaque]
    pub open spec fn for_loop(self, x: StmtFor) -> State
        decreases x, 0nat, 0nat,
    {
        let for_block = self.fresh();
        let s = self.new_block();
        let else_block = s.fresh();
        let t = s.new_block();
        let after = t.fresh();
        let u = t.new_block().emit(Instruction::SetupLoop);
        let turn = u.expr(*x.iter).for_turn(*x.target, x.is_async, for_block, else_block);
        let v = turn.set_loop(Some((for_block, after))).stmts(x.body@, 0).set_loop(
            turn.ctx.loop_data,
        ).emit(Instruction::Jump { target: for_block }).switch_to(else_block);
        let body = (if x.is_async {
            v.emit(Instruction::EndAsyncFor)
        } else {
            v
        }).emit(Instruction::PopBlock);
        u.to(turn).to(body).to(body.stmts(x.orelse@, 0).switch_to(after))
    }

    #[verifier::opaque]
    pub open spec fn match_statement(self, x: StmtMatch) -> State
        decreases x, 0nat, 0nat,
    {
        let s = self.expr(*x.subject);
        let n = x.cases@.len();
        let base = s.top().blocks.len();
        let t = s.new_blocks(n + 1);
        if n == 0 {
            s.to(t).stuck()
        } else {
            let u = t.cases(x.cases@, 0, base);
            s.to(t).to(u.switch_to(BlockIdx((base + n) as u32)).relink(base, n))
        }
    }

    /// The cases `s[i..]` of a match statement, each in the block after that of the one before.
    #[verifier::opaque]
    pub open spec fn cases(self, s: Seq<MatchCase>, i: nat, base: nat) -> State
        decreases s, 0nat, s.len() - i,
    {
        if i >= s.len() {
            self
        } else {
            let case = s[i as int];
            let last = i + 1 == s.len();
            let entered = self.switch_to(BlockIdx((base + i) as u32));
            let t = if last {
                entered
            } else {
                entered.emit(Instruction::Duplicate)
            };
            let tested = t.pattern(case.pattern, case.guard is Some || last).emit(
                Instruction::JumpIfFalse { target: BlockIdx((base + i + 1) as u32) },
            );
            let done = tested.stmts(case.body@, 0).emit(
                Instruction::Jump { target: BlockIdx((base + s.len()) as u32) },
            );
            t.to(tested).to(done).to(done.cases(s, i + 1, base))
        }
    }

    #[verifier::opaque]
    pub open spec fn try_statement(self, x: StmtTry) -> State
        decreases x, 0nat, 0nat,
    {
        if x.is_star {
            self.fail(ErrorKind::NotImplementedYet)
        } else {
            let has_final = x.finalbody@.len() > 0;
            let handler_block = self.fresh();
            let s = self.new_block();
            let finally_block = s.fresh();
            let made = s.new_block();
            let t = if has_final {
                made.emit(Instruction::SetupFinally { handler: finally_block })
            } else {
                made
            };
            let else_block = t.fresh();
            let u = t.new_block().emit(Instruction::SetupExcept { handler: handler_block });
            let body = u.stmts(x.body@, 0).emit(Instruction::PopBlock).emit(
                Instruction::Jump { target: else_block },
            ).switch_to(handler_block);
            let handled = body.handlers(x.handlers@, 0, finally_block, has_final).emit(
                Instruction::Raise { kind: RaiseKind::Reraise },
            ).switch_to(else_block);
            let orelse = handled.stmts(x.orelse@, 0).leave_try(has_final).switch_to(finally_block);
            let finished = if has_final {
                orelse.stmts(x.finalbody@, 0).emit(Instruction::EndFinally)
            } else {
                orelse
            };
            u.to(body).to(handled).to(orelse).to(finished)
        }
    }

    /// Goes over to the finally block without an exception, if there is one.
    #[verifier::opaque]
    pub open spec fn leave_try(self, has_final: bool) -> State {
        if has_final {
            self.emit(Instruction::PopBlock).emit(Instruction::EnterFinally)
        } else {
            self
        }
    }

    /// Tests whether a handler takes the exception on the stack, and binds it.
    #[verifier::opaque]
    pub open spec fn catch(self, h: ExceptHandler, next: BlockIdx) -> State {
        match h.type_ {
            Some(t) => {
                let s = self.emit(Instruction::Duplicate);
                let tested = s.expr(*t).emit(
                    Instruction::TestOperation { op: TestOperator::ExceptionMatch },
                ).emit(Instruction::JumpIfFalse { target: next });
                s.to(
                    match h.name {
                        Some(name) => tested.store_name(name@),
                        None => tested.emit(Instruction::Pop),
                    },
                )
            },
            None => self.emit(Instruction::Pop),
        }
    }

    /// The handlers `s[i..]` of a try statement.
    #[verifier::opaque]
    pub open spec fn handlers(
        self,
        s: Seq<ExceptHandler>,
        i: nat,
        finally_block: BlockIdx,
        has_final: bool,
    ) -> State
        decreases s, 0nat, s.len() - i,
    {
        if i >= s.len() {
            self
        } else {
            let next = self.fresh();
            let t = self.new_block();
            let caught = t.catch(s[i as int], next);
            let done = caught.stmts(s[i as int].body@, 0).emit(
                Instruction::PopException,
            ).leave_try(has_final).emit(Instruction::Jump { target: finally_block }).switch_to(
                next,
            );
            t.to(caught).to(done).to(done.handlers(s, i + 1, finally_block, has_final))
        }
    }

    /// The body of a function, after its code has been opened.
    #[verifier::opaque]
    pub open spec fn function_body(self, body: Seq<Stmt>) -> State
        decreases body, 1nat, 0nat,
    {
        let from = body_start(body);
        let s = self.insert_const(ConstantModel::NoneValue).stmts(body, from);
        if from < body.len() && body[body.len() - 1] is Return {
            s
        } else {
            s.return_const(ConstantModel::NoneValue)
        }
    }

    /// The decorators and the code of a function, which is left open.
    #[verifier::opaque]
    pub open spec fn function_unit(self, x: StmtFunctionDef) -> State
        decreases x, 0nat, 0nat,
    {
        let scoped = self.decorators(x.decorator_list@, 0).enter_type_params(x.type_params);
        let entered = scoped.enter_function(x.name@, *x.parameters);
        let within = entered.mark_coroutine(x.is_async).set_ctx(
            entered.function_ctx(x.is_async),
        ).push_path(x.name@).push_path("<locals>"@);
        scoped.to(entered).to(within.function_body(x.body@))
    }

    /// Closes the code of a function, makes the function, and stores it.
    #[verifier::opaque]
    pub open spec fn function_end(
        self,
        x: StmtFunctionDef,
        ctx: CompileContext,
        name: Seq<char>,
    ) -> State {
        let code = self.top();
        self.pop_code().pop_path().pop_path().set_ctx(ctx).type_params(x.type_params).annotations(
            x,
        ).closure(code.freevars).leave_type_params(x.type_params).make_function(
            code,
            self.optimize,
            name,
            definition_flags(x, code.freevars.len() > 0),
        ).function_doc(doc_of(x.body@, self.optimize)).decorated(
            x.decorator_list@.len(),
        ).store_name(x.name@)
    }

    #[verifier::opaque]
    pub open spec fn function_def(self, x: StmtFunctionDef) -> State
        decreases x, 1nat, 0nat,
    {
        let s = self.function_unit(x);
        s.to(s.function_end(x, self.ctx, qualified_name(self.qualified.push(x.name@))))
    }

    /// The body of a class, after its code has been opened.
    #[verifier::opaque]
    pub open spec fn class_body(self, body: Seq<Stmt>, qualname: Seq<char>) -> State
        decreases body, 1nat, 0nat,
    {
        let from = body_start(body);
        let s = self.class_start(qualname, doc_of(body, self.optimize));
        let t = if has_annotation(body, from) {
            s.emit(Instruction::SetupAnnotation)
        } else {
            s
        };
        t.to(t.stmts(body, from).class_end())
    }

    /// Sets the module, the qualified name and the docstring of a class.
    #[verifier::opaque]
    pub open spec fn class_start(self, qualname: Seq<char>, doc: Option<Seq<char>>) -> State {
        let s = self.intern_name("__name__"@).emit(
            Instruction::LoadGlobal(self.name_index("__name__"@)),
        );
        let t = s.intern_name("__module__"@).emit(
            Instruction::StoreLocal(s.name_index("__module__"@)),
        ).load_const(ConstantModel::Str(qualname));
        let u = t.intern_name("__qualname__"@).emit(
            Instruction::StoreLocal(t.name_index("__qualname__"@)),
        ).load_const(
            match doc {
                Some(doc) => ConstantModel::Str(doc),
                None => ConstantModel::NoneValue,
            },
        );
        u.intern_name("__doc__"@).emit(Instruction::StoreLocal(u.name_index("__doc__"@)))
    }

    /// Returns the cell of `__class__`, if the class has one, and leaves it in the class too.
    #[verifier::opaque]
    pub open spec fn class_end(self) -> State {
        (match position(self.top().cellvars, "__class__"@) {
            Some(idx) => if idx > u32::MAX {
                self.stuck()
            } else {
                let s = self.emit(Instruction::LoadClosure(idx as u32)).emit(
                    Instruction::Duplicate,
                );
                s.intern_name("__classcell__"@).emit(
                    Instruction::StoreLocal(s.name_index("__classcell__"@)),
                )
            },
            None => self.load_const(ConstantModel::NoneValue),
        }).return_value()
    }

    /// Calls the builtin that makes a class of its function, its name and its arguments.
    #[verifier::opaque]
    pub open spec fn build_class(self, x: StmtClassDef) -> State {
        let s = self.load_const(ConstantModel::Str(x.name@));
        (match x.arguments {
            Some(a) => s.to(s.call_arguments(2, *a).emit(call_code(call_type(2, *a), false))),
            None => s.emit(Instruction::CallFunctionPositional { nargs: 2 }),
        }).decorated(x.decorator_list@.len()).store_name(x.name@)
    }

    /// The path of a class: one that is declared global starts a new one.
    pub open spec fn class_path(self, x: StmtClassDef) -> Seq<Seq<char>> {
        let symbol = found_symbol(self.tables.last().table, x.name@);
        if symbol is Some && symbol->0.scope == SymbolScope::GlobalExplicit {
            seq![x.name@]
        } else {
            self.qualified.push(x.name@)
        }
    }

    /// The decorators and the code of a class, which is left open.
    #[verifier::opaque]
    pub open spec fn class_unit(self, x: StmtClassDef) -> State
        decreases x, 0nat, 0nat,
    {
        let decorated = self.decorators(x.decorator_list@, 0);
        let within = decorated.set_ctx(
            CompileContext {
                func: FunctionContext::NoFunction,
                in_class: true,
                loop_data: None,
            },
        ).set_class(Some(x.name@));
        let path = within.class_path(x);
        if !decorated.running() {
            decorated
        } else if within.tables.len() == 0 || found_symbol(within.tables.last().table, x.name@)
            is None {
            within.stuck()
        } else {
            let s = within.set_qualified(path).enter_type_params(x.type_params).push_code(
                no_flags(),
                0,
                0,
                0,
                x.name@,
            );
            s.to(s.class_body(x.body@, qualified_name(path)))
        }
    }

    /// Closes the code of a class, makes the class, and stores it. What surrounds it is as before.
    #[verifier::opaque]
    pub open spec fn class_end_of(
        self,
        x: StmtClassDef,
        ctx: CompileContext,
        class_name: Option<Seq<char>>,
        path: Seq<Seq<char>>,
    ) -> State {
        let code = self.top();
        self.pop_code().set_class(class_name).set_qualified(path).set_ctx(ctx).emit(
            Instruction::LoadBuildClass,
        ).type_params(x.type_params).closure(code.freevars).leave_type_params(
            x.type_params,
        ).make_function(
            code,
            self.optimize,
            x.name@,
            MakeFunctionFlags {
                closure: code.freevars.len() > 0,
                type_params: x.type_params is Some,
                ..plain_function()
            },
        ).build_class(x)
    }

    #[verifier::opaque]
    pub open spec fn class_def(self, x: StmtClassDef) -> State
        decreases x, 1nat, 0nat,
    {
        let s = self.class_unit(x);
        s.to(s.class_end_of(x, self.ctx, self.class_name, self.qualified))
    }
}

/// A step leaves a halted state as it is.
pub broadcast proof fn halted_decorated(s: State, n: nat)
    requires
        !s.running(),
    ensures
        #[trigger] s.decorated(n) == s,
{
    reveal(State::decorated);
}

pub broadcast proof fn halted_enter_type_params(s: State, x: Option<Box<TypeParams>>)
    requires
        !s.running(),
    ensures
        #[trigger] s.enter_type_params(x) == s,
{
    reveal(State::enter_type_params);
}

pub broadcast proof fn halted_leave_type_params(s: State, x: Option<Box<TypeParams>>)
    requires
        !s.running(),
    ensures
        #[trigger] s.leave_type_params(x) == s,
{
    reveal(State::leave_type_params);
}

pub broadcast proof fn halted_type_params(s: State, x: Option<Box<TypeParams>>)
    requires
        !s.running(),
    ensures
        #[trigger] s.type_params(x) == s,
{
    reveal(State::type_params);
}

pub broadcast proof fn halted_parameter_annotations(
    s: State,
    p: Seq<ParameterWithDefault>,
    i: nat,
)
    requires
        !s.running(),
    ensures
        #[trigger] s.parameter_annotations(p, i) == s,
{
    reveal(State::parameter_annotations);
}

pub broadcast proof fn halted_variadic_annotation(s: State, p: Option<Box<Parameter>>)
    requires
        !s.running(),
    ensures
        #[trigger] s.variadic_annotation(p) == s,
{
    reveal(State::variadic_annotation);
}

pub broadcast proof fn halted_annotations(s: State, x: StmtFunctionDef)
    requires
        !s.running(),
    ensures
        #[trigger] s.annotations(x) == s,
{
    reveal(State::annotations);
}

pub broadcast proof fn halted_function_doc(s: State, doc: Option<Seq<char>>)
    requires
        !s.running(),
    ensures
        #[trigger] s.function_doc(doc) == s,
{
    reveal(State::function_doc);
}

pub broadcast proof fn halted_new_blocks(s: State, n: nat)
    requires
        !s.running(),
    ensures
        #[trigger] s.new_blocks(n) == s,
{
    reveal(State::new_blocks);
}

pub broadcast proof fn halted_relink(s: State, base: nat, n: nat)
    requires
        !s.running(),
    ensures
        #[trigger] s.relink(base, n) == s,
{
    reveal(State::relink);
}

pub broadcast proof fn halted_leave_with(s: State, is_async: bool, end: BlockIdx)
    requires
        !s.running(),
    ensures
        #[trigger] s.leave_with(is_async, end) == s,
{
    reveal(State::leave_with);
}

pub broadcast proof fn halted_for_turn(
    s: State,
    target: Expr,
    is_async: bool,
    for_block: BlockIdx,
    else_block: BlockIdx,
)
    requires
        !s.running(),
    ensures
        #[trigger] s.for_turn(target, is_async, for_block, else_block) == s,
{
    reveal(State::for_turn);
}

pub broadcast proof fn halted_leave_try(s: State, has_final: bool)
    requires
        !s.running(),
    ensures
        #[trigger] s.leave_try(has_final) == s,
{
    reveal(State::leave_try);
}

pub broadcast proof fn halted_class_end(s: State)
    requires
        !s.running(),
    ensures
        #[trigger] s.class_end() == s,
{
    reveal(State::class_end);
}

pub broadcast proof fn halted_build_class(s: State, x: StmtClassDef)
    requires
        !s.running(),
    ensures
        #[trigger] s.build_class(x) == s,
{
    broadcast use halted_decorated;

    reveal(State::build_class);
}

pub broadcast group group_halted_statements {
    halted_decorated,
    halted_enter_type_params,
    halted_leave_type_params,
    halted_type_params,
    halted_parameter_annotations,
    halted_variadic_annotation,
    halted_annotations,
    halted_function_doc,
    halted_new_blocks,
    halted_relink,
    halted_leave_with,
    halted_for_turn,
    halted_leave_try,
    halted_class_end,
    halted_build_class,
}

} // verus!
