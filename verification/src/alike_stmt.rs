//! Statements make no difference between states that are the same but for source locations.
use vstd::prelude::*;

use crate::alike::{alike, group_alike_steps, lemma_make_alike, lemma_top_alike};
use crate::alike_expr::{
    alike_call_arguments, alike_enter_function, alike_expr, alike_jump_if, alike_store,
};
use crate::ast::{
    expr_range, stmt_range, Alias, Annotation, Decorator, ElifElseClause, ExceptHandler, Expr,
    MatchCase, Parameter, ParameterWithDefault, Pattern, Stmt, StmtAnnAssign, StmtAssert,
    StmtAssign, StmtAugAssign, StmtClassDef, StmtFor, StmtFunctionDef, StmtIf, StmtImportFrom,
    StmtMatch, StmtRaise, StmtReturn, StmtTry, StmtTypeAlias, StmtWhile, StmtWith, TypeParam,
    TypeParams,
};
use crate::bytecode::{BlockIdx, ConstantModel, Instruction, MakeFunctionFlags, RaiseKind};
use crate::doc::{body_start, doc_of};
use crate::error::ErrorKind;
use crate::expr_code::{call_code, call_type, no_flags, plain_function};
use crate::state::{CompileContext, DoneWithFuture, FunctionContext, NameUsage, State};
use crate::stmt_code::{bound_name, definition_flags, has_annotation, qualified_name};
use crate::symboltable::mangled;
use crate::text::split_on;

verus! {

#[verifier::spinoff_prover]
proof fn alike_features(s: State, s2: State, names: Seq<Alias>, i: nat)
    requires
        alike(s, s2),
    ensures
        alike(s.features(names, i), s2.features(names, i)),
    decreases names.len() - i,
{
    broadcast use group_alike_steps;

    reveal(State::features);
    if i < names.len() {
        let t = State { future_annotations: true, ..s };
        let t2 = State { future_annotations: true, ..s2 };
        alike_features(s, s2, names, i + 1);
        alike_features(t, t2, names, i + 1);
    }
}

#[verifier::spinoff_prover]
proof fn alike_note_future(s: State, s2: State, x: Stmt)
    requires
        alike(s, s2),
    ensures
        alike(s.note_future(x), s2.note_future(x)),
{
    broadcast use group_alike_steps;

    reveal(State::note_future);
    reveal(State::future_features);
    if let Stmt::ImportFrom(x) = x {
        alike_features(
            s.set_future(DoneWithFuture::DoneWithDoc),
            s2.set_future(DoneWithFuture::DoneWithDoc),
            x.names@,
            0,
        );
    }
}

#[verifier::spinoff_prover]
proof fn alike_attributes(s: State, s2: State, parts: Seq<Seq<char>>, i: nat)
    requires
        alike(s, s2),
    ensures
        alike(s.attributes(parts, i), s2.attributes(parts, i)),
    decreases parts.len() - i,
{
    broadcast use group_alike_steps;

    reveal(State::attributes);
    if i < parts.len() {
        let part = parts[i as int];
        let one = s.intern_name(part).emit(Instruction::LoadAttr { idx: s.name_index(part) });
        let one2 = s2.intern_name(part).emit(Instruction::LoadAttr { idx: s2.name_index(part) });
        alike_attributes(one, one2, parts, i + 1);
    }
}

#[verifier::spinoff_prover]
proof fn alike_import_module(s: State, s2: State, a: Alias)
    requires
        alike(s, s2),
    ensures
        alike(s.import_module(a), s2.import_module(a)),
{
    broadcast use group_alike_steps;

    reveal(State::import_module);
    let t = s.load_const(ConstantModel::Integer(0)).load_const(ConstantModel::NoneValue);
    let t2 = s2.load_const(ConstantModel::Integer(0)).load_const(ConstantModel::NoneValue);
    let u = t.intern_name(a.name@).emit(Instruction::ImportName { idx: t.name_index(a.name@) });
    let u2 = t2.intern_name(a.name@).emit(Instruction::ImportName { idx: t2.name_index(a.name@) });
    alike_attributes(u, u2, split_on(a.name@, '.'), 1);
}

#[verifier::spinoff_prover]
proof fn alike_imports(s: State, s2: State, names: Seq<Alias>, i: nat)
    requires
        alike(s, s2),
    ensures
        alike(s.imports(names, i), s2.imports(names, i)),
    decreases names.len() - i,
{
    broadcast use group_alike_steps;

    reveal(State::imports);
    if i < names.len() {
        alike_import_module(s, s2, names[i as int]);
        alike_imports(
            s.import_module(names[i as int]),
            s2.import_module(names[i as int]),
            names,
            i + 1,
        );
    }
}

#[verifier::spinoff_prover]
proof fn alike_import_names(s: State, s2: State, names: Seq<Alias>, i: nat)
    requires
        alike(s, s2),
    ensures
        alike(s.import_names(names, i), s2.import_names(names, i)),
    decreases names.len() - i,
{
    broadcast use group_alike_steps;

    reveal(State::import_names);
    if i < names.len() {
        let name = names[i as int].name@;
        let one = s.intern_name(name).emit(
            Instruction::ImportFrom { idx: s.name_index(name) },
        ).store_name(bound_name(names[i as int]));
        let one2 = s2.intern_name(name).emit(
            Instruction::ImportFrom { idx: s2.name_index(name) },
        ).store_name(bound_name(names[i as int]));
        alike_import_names(one, one2, names, i + 1);
    }
}

#[verifier::spinoff_prover]
proof fn alike_import_source(s: State, s2: State, x: StmtImportFrom)
    requires
        alike(s, s2),
    ensures
        alike(s.import_source(x), s2.import_source(x)),
{
    broadcast use group_alike_steps;

    reveal(State::import_source);
}

#[verifier::spinoff_prover]
proof fn alike_import_from(s: State, s2: State, x: StmtImportFrom)
    requires
        alike(s, s2),
    ensures
        alike(s.import_from(x), s2.import_from(x)),
{
    broadcast use group_alike_steps;

    reveal(State::import_from);
    alike_import_source(s, s2, x);
    alike_import_names(s.import_source(x), s2.import_source(x), x.names@, 0);
}

#[verifier::spinoff_prover]
proof fn alike_raise(s: State, s2: State, x: StmtRaise)
    requires
        alike(s, s2),
    ensures
        alike(s.raise(x), s2.raise(x)),
{
    broadcast use group_alike_steps;

    reveal(State::raise);
    if let Some(exc) = x.exc {
        alike_expr(s, s2, *exc);
        if let Some(cause) = x.cause {
            alike_expr(s.expr(*exc), s2.expr(*exc), *cause);
        }
    }
}

#[verifier::spinoff_prover]
proof fn alike_assertion(s: State, s2: State, x: StmtAssert)
    requires
        alike(s, s2),
    ensures
        alike(s.assertion(x), s2.assertion(x)),
{
    broadcast use group_alike_steps;

    reveal(State::assertion);
    let after = s.fresh();
    let after2 = s2.fresh();
    let t = s.new_block();
    let t2 = s2.new_block();
    let u = t.jump_if(*x.test, true, after);
    let u2 = t2.jump_if(*x.test, true, after2);
    let v = u.intern_name("AssertionError"@).emit(
        Instruction::LoadGlobal(u.name_index("AssertionError"@)),
    );
    let v2 = u2.intern_name("AssertionError"@).emit(
        Instruction::LoadGlobal(u2.name_index("AssertionError"@)),
    );
    alike_jump_if(t, t2, *x.test, true, after);
    if let Some(msg) = x.msg {
        alike_expr(v, v2, *msg);
    }
}

#[verifier::spinoff_prover]
proof fn alike_return_statement(s: State, s2: State, x: StmtReturn)
    requires
        alike(s, s2),
    ensures
        alike(s.return_statement(x), s2.return_statement(x)),
{
    broadcast use group_alike_steps;

    reveal(State::return_statement);
    if let Some(value) = x.value {
        alike_expr(s, s2, *value);
    }
}

#[verifier::spinoff_prover]
proof fn alike_assign_targets(s: State, s2: State, v: Seq<Expr>, i: nat)
    requires
        alike(s, s2),
    ensures
        alike(s.assign_targets(v, i), s2.assign_targets(v, i)),
    decreases v.len() - i,
{
    broadcast use group_alike_steps;

    reveal(State::assign_targets);
    if i < v.len() {
        let t = if i + 1 != v.len() {
            s.emit(Instruction::Duplicate)
        } else {
            s
        };
        let t2 = if i + 1 != v.len() {
            s2.emit(Instruction::Duplicate)
        } else {
            s2
        };
        alike_store(t, t2, v[i as int]);
        alike_assign_targets(t.store(v[i as int]), t2.store(v[i as int]), v, i + 1);
    }
}

#[verifier::spinoff_prover]
proof fn alike_assign(s: State, s2: State, x: StmtAssign)
    requires
        alike(s, s2),
    ensures
        alike(s.assign(x), s2.assign(x)),
{
    broadcast use group_alike_steps;

    reveal(State::assign);
    alike_expr(s, s2, *x.value);
    alike_assign_targets(s.expr(*x.value), s2.expr(*x.value), x.targets@, 0);
}

#[verifier::spinoff_prover]
proof fn alike_augmented(s: State, s2: State, x: StmtAugAssign)
    requires
        alike(s, s2),
    ensures
        alike(s.augmented(x), s2.augmented(x)),
{
    broadcast use group_alike_steps;

    reveal(State::augmented);
    match *x.target {
        Expr::Name(name) => alike_expr(s.load_name(name.id@), s2.load_name(name.id@), *x.value),
        Expr::Subscript(y) => {
            let container = s.expr(*y.value);
            let container2 = s2.expr(*y.value);
            let t = container.expr(*y.slice).emit(Instruction::Duplicate2).emit(
                Instruction::Subscript,
            );
            let t2 = container2.expr(*y.slice).emit(Instruction::Duplicate2).emit(
                Instruction::Subscript,
            );
            alike_expr(s, s2, *y.value);
            alike_expr(container, container2, *y.slice);
            alike_expr(t, t2, *x.value);
        },
        Expr::Attribute(y) => {
            let checked = s.check_name(y.attr@, NameUsage::Store);
            let checked2 = s2.check_name(y.attr@, NameUsage::Store);
            let container = checked.expr(*y.value).emit(Instruction::Duplicate);
            let container2 = checked2.expr(*y.value).emit(Instruction::Duplicate);
            let t = container.intern_name(y.attr@).emit(
                Instruction::LoadAttr { idx: container.name_index(y.attr@) },
            );
            let t2 = container2.intern_name(y.attr@).emit(
                Instruction::LoadAttr { idx: container2.name_index(y.attr@) },
            );
            alike_expr(checked, checked2, *y.value);
            alike_expr(t, t2, *x.value);
        },
        _ => {},
    }
}

#[verifier::spinoff_prover]
proof fn alike_annotation(s: State, s2: State, a: Annotation)
    requires
        alike(s, s2),
    ensures
        alike(s.annotation(a), s2.annotation(a)),
{
    broadcast use group_alike_steps;

    reveal(State::annotation);
    alike_expr(s, s2, a.expr);
}

#[verifier::spinoff_prover]
proof fn alike_annotated(s: State, s2: State, x: StmtAnnAssign)
    requires
        alike(s, s2),
    ensures
        alike(s.annotated(x), s2.annotated(x)),
{
    broadcast use group_alike_steps;

    reveal(State::annotated);
    match x.value {
        Some(value) => {
            let t = s.expr(*value);
            let t2 = s2.expr(*value);
            alike_expr(s, s2, *value);
            alike_store(t, t2, *x.target);
            alike_annotation(t.to(t.store(*x.target)), t2.to(t2.store(*x.target)), *x.annotation);
        },
        None => alike_annotation(s, s2, *x.annotation),
    }
}

#[verifier::spinoff_prover]
proof fn alike_delete(s: State, s2: State, e: Expr)
    requires
        alike(s, s2),
    ensures
        alike(s.delete(e), s2.delete(e)),
    decreases e, 0nat, 0nat,
{
    broadcast use group_alike_steps;

    reveal(State::delete);
    reveal(State::deletes);
    match e {
        Expr::Attribute(x) => alike_expr(
            s.check_name(x.attr@, NameUsage::Delete),
            s2.check_name(x.attr@, NameUsage::Delete),
            *x.value,
        ),
        Expr::Subscript(x) => {
            alike_expr(s, s2, *x.value);
            alike_expr(s.expr(*x.value), s2.expr(*x.value), *x.slice);
        },
        Expr::Tuple(x) => alike_deletes(s, s2, x.elts@, 0),
        Expr::List(x) => alike_deletes(s, s2, x.elts@, 0),
        _ => {},
    }
}

#[verifier::spinoff_prover]
proof fn alike_deletes(s: State, s2: State, v: Seq<Expr>, i: nat)
    requires
        alike(s, s2),
    ensures
        alike(s.deletes(v, i), s2.deletes(v, i)),
    decreases v, 0nat, v.len() - i,
{
    broadcast use group_alike_steps;

    reveal(State::deletes);
    reveal(State::delete);
    if i < v.len() {
        alike_delete(s, s2, v[i as int]);
        alike_deletes(s.delete(v[i as int]), s2.delete(v[i as int]), v, i + 1);
    }
}

#[verifier::spinoff_prover]
proof fn alike_type_param(s: State, s2: State, x: TypeParam)
    requires
        alike(s, s2),
    ensures
        alike(s.type_param(x), s2.type_param(x)),
{
    broadcast use group_alike_steps;

    reveal(State::type_param);
    if let TypeParam::TypeVar(y) = x {
        if let Some(bound) = y.bound {
            alike_expr(s, s2, *bound);
        }
    }
}

#[verifier::spinoff_prover]
proof fn alike_type_param_values(s: State, s2: State, v: Seq<TypeParam>, i: nat)
    requires
        alike(s, s2),
    ensures
        alike(s.type_param_values(v, i), s2.type_param_values(v, i)),
    decreases v.len() - i,
{
    broadcast use group_alike_steps;

    reveal(State::type_param_values);
    if i < v.len() {
        alike_type_param(s, s2, v[i as int]);
        alike_type_param_values(s.type_param(v[i as int]), s2.type_param(v[i as int]), v, i + 1);
    }
}

#[verifier::spinoff_prover]
proof fn alike_type_params(s: State, s2: State, x: Option<Box<TypeParams>>)
    requires
        alike(s, s2),
    ensures
        alike(s.type_params(x), s2.type_params(x)),
{
    broadcast use group_alike_steps;

    reveal(State::type_params);
    if let Some(x) = x {
        alike_type_param_values(s, s2, x.type_params@, 0);
    }
}

#[verifier::spinoff_prover]
proof fn alike_type_alias(s: State, s2: State, x: StmtTypeAlias)
    requires
        alike(s, s2),
    ensures
        alike(s.type_alias(x), s2.type_alias(x)),
{
    broadcast use group_alike_steps;

    reveal(State::type_alias);
    reveal(State::enter_type_params);
    reveal(State::leave_type_params);
    let t = s.enter_type_params(x.type_params);
    let t2 = s2.enter_type_params(x.type_params);
    alike_expr(t, t2, *x.value);
    alike_type_params(t.expr(*x.value), t2.expr(*x.value), x.type_params);
}

#[verifier::spinoff_prover]
proof fn alike_decorators(s: State, s2: State, v: Seq<Decorator>, i: nat)
    requires
        alike(s, s2),
    ensures
        alike(s.decorators(v, i), s2.decorators(v, i)),
    decreases v.len() - i,
{
    broadcast use group_alike_steps;

    reveal(State::decorators);
    if i < v.len() {
        alike_expr(s, s2, v[i as int].expression);
        alike_decorators(s.expr(v[i as int].expression), s2.expr(v[i as int].expression), v, i + 1);
    }
}

#[verifier::spinoff_prover]
proof fn alike_decorated(s: State, s2: State, n: nat)
    requires
        alike(s, s2),
    ensures
        alike(s.decorated(n), s2.decorated(n)),
    decreases n,
{
    broadcast use group_alike_steps;

    reveal(State::decorated);
    if n > 0 {
        alike_decorated(
            s.emit(Instruction::CallFunctionPositional { nargs: 1 }),
            s2.emit(Instruction::CallFunctionPositional { nargs: 1 }),
            (n - 1) as nat,
        );
    }
}

#[verifier::spinoff_prover]
proof fn alike_parameter_annotation(s: State, s2: State, p: Parameter)
    requires
        alike(s, s2),
    ensures
        alike(s.parameter_annotation(p), s2.parameter_annotation(p)),
{
    broadcast use group_alike_steps;

    reveal(State::parameter_annotation);
    if let Some(a) = p.annotation {
        alike_annotation(
            s.load_const(ConstantModel::Str(mangled(s.class_name, p.name@))),
            s2.load_const(ConstantModel::Str(mangled(s2.class_name, p.name@))),
            *a,
        );
    }
}

#[verifier::spinoff_prover]
proof fn alike_parameter_annotations(s: State, s2: State, p: Seq<ParameterWithDefault>, i: nat)
    requires
        alike(s, s2),
    ensures
        alike(s.parameter_annotations(p, i), s2.parameter_annotations(p, i)),
    decreases p.len() - i,
{
    broadcast use group_alike_steps;

    reveal(State::parameter_annotations);
    if i < p.len() {
        let parameter = p[i as int].parameter;
        alike_parameter_annotation(s, s2, parameter);
        alike_parameter_annotations(
            s.parameter_annotation(parameter),
            s2.parameter_annotation(parameter),
            p,
            i + 1,
        );
    }
}

#[verifier::spinoff_prover]
proof fn alike_variadic_annotation(s: State, s2: State, p: Option<Box<Parameter>>)
    requires
        alike(s, s2),
    ensures
        alike(s.variadic_annotation(p), s2.variadic_annotation(p)),
{
    broadcast use group_alike_steps;

    reveal(State::variadic_annotation);
    if let Some(p) = p {
        alike_parameter_annotation(s, s2, *p);
    }
}

#[verifier::spinoff_prover]
proof fn alike_annotations(s: State, s2: State, x: StmtFunctionDef)
    requires
        alike(s, s2),
    ensures
        alike(s.annotations(x), s2.annotations(x)),
{
    broadcast use group_alike_steps;

    reveal(State::annotations);
    let start = s.load_const(ConstantModel::Str("return"@));
    let start2 = s2.load_const(ConstantModel::Str("return"@));
    if let Some(a) = x.returns {
        alike_annotation(start, start2, *a);
    }
    let t = match x.returns {
        Some(a) => start.to(start.annotation(*a)),
        None => s,
    };
    let t2 = match x.returns {
        Some(a) => start2.to(start2.annotation(*a)),
        None => s2,
    };
    let u = t.parameter_annotations(x.parameters.posonlyargs@, 0);
    let u2 = t2.parameter_annotations(x.parameters.posonlyargs@, 0);
    let v = u.parameter_annotations(x.parameters.args@, 0);
    let v2 = u2.parameter_annotations(x.parameters.args@, 0);
    let w = v.parameter_annotations(x.parameters.kwonlyargs@, 0);
    let w2 = v2.parameter_annotations(x.parameters.kwonlyargs@, 0);
    alike_parameter_annotations(t, t2, x.parameters.posonlyargs@, 0);
    alike_parameter_annotations(u, u2, x.parameters.args@, 0);
    alike_parameter_annotations(v, v2, x.parameters.kwonlyargs@, 0);
    alike_variadic_annotation(w, w2, x.parameters.vararg);
    alike_variadic_annotation(
        w.variadic_annotation(x.parameters.vararg),
        w2.variadic_annotation(x.parameters.vararg),
        x.parameters.kwarg,
    );
}

#[verifier::spinoff_prover]
proof fn alike_new_blocks(s: State, s2: State, n: nat)
    requires
        alike(s, s2),
    ensures
        alike(s.new_blocks(n), s2.new_blocks(n)),
    decreases n,
{
    broadcast use group_alike_steps;

    reveal(State::new_blocks);
    if n > 0 {
        alike_new_blocks(s.new_block(), s2.new_block(), (n - 1) as nat);
    }
}

#[verifier::spinoff_prover]
proof fn alike_pattern(s: State, s2: State, p: Pattern, allow_irrefutable: bool)
    requires
        alike(s, s2),
    ensures
        alike(s.pattern(p, allow_irrefutable), s2.pattern(p, allow_irrefutable)),
    decreases p,
{
    broadcast use group_alike_steps;

    reveal(State::pattern);
    match p {
        Pattern::MatchValue(x) => alike_expr(s, s2, *x.value),
        Pattern::MatchAs(x) => if let Some(inner) = x.pattern {
            alike_pattern(
                s.emit(Instruction::Duplicate),
                s2.emit(Instruction::Duplicate),
                *inner,
                allow_irrefutable,
            );
        },
        _ => {},
    }
}

#[verifier::spinoff_prover]
proof fn alike_simple(s: State, s2: State, x: Stmt)
    requires
        alike(s, s2),
    ensures
        alike(s.simple(x), s2.simple(x)),
{
    broadcast use group_alike_steps;

    reveal(State::simple);
    match x {
        Stmt::Import(x) => alike_imports(s, s2, x.names@, 0),
        Stmt::ImportFrom(x) => alike_import_from(s, s2, x),
        Stmt::Expr(x) => alike_expr(s, s2, *x.value),
        Stmt::Raise(x) => alike_raise(s, s2, x),
        Stmt::Assert(x) => alike_assertion(s, s2, x),
        Stmt::Return(x) => alike_return_statement(s, s2, x),
        Stmt::Assign(x) => alike_assign(s, s2, x),
        Stmt::AugAssign(x) => alike_augmented(s, s2, x),
        Stmt::AnnAssign(x) => alike_annotated(s, s2, x),
        Stmt::Delete(x) => alike_deletes(s, s2, x.targets@, 0),
        Stmt::TypeAlias(x) => alike_type_alias(s, s2, x),
        _ => {},
    }
}

#[verifier::spinoff_prover]
proof fn alike_stmts(s: State, s2: State, v: Seq<Stmt>, i: nat)
    requires
        alike(s, s2),
    ensures
        alike(s.stmts(v, i), s2.stmts(v, i)),
    decreases v, 0nat, v.len() - i,
{
    broadcast use group_alike_steps;

    reveal(State::stmts);
    reveal(State::stmt);
    if i < v.len() {
        alike_stmt(s, s2, v[i as int]);
        alike_stmts(s.stmt(v[i as int]), s2.stmt(v[i as int]), v, i + 1);
    }
}

/// A statement makes no difference between states that are alike.
#[verifier::spinoff_prover]
pub proof fn alike_stmt(s: State, s2: State, x: Stmt)
    requires
        alike(s, s2),
    ensures
        alike(s.stmt(x), s2.stmt(x)),
    decreases x, 1nat, 0nat,
{
    broadcast use group_alike_steps;

    reveal(State::stmt);
    reveal(State::stmt_body);
    let t = s.set_range(stmt_range(x));
    let t2 = s2.set_range(stmt_range(x));
    alike_note_future(t, t2, x);
    alike_stmt_body(t.note_future(x), t2.note_future(x), x);
}

#[verifier::spinoff_prover]
proof fn alike_stmt_body(s: State, s2: State, x: Stmt)
    requires
        alike(s, s2),
    ensures
        alike(s.stmt_body(x), s2.stmt_body(x)),
    decreases x, 0nat, 0nat,
{
    broadcast use group_alike_steps;

    reveal(State::stmt_body);
    reveal(State::if_statement);
    reveal(State::while_loop);
    reveal(State::with_item);
    reveal(State::for_loop);
    reveal(State::match_statement);
    reveal(State::try_statement);
    reveal(State::function_def);
    reveal(State::class_def);
    match x {
        Stmt::If(x) => alike_if_statement(s, s2, x),
        Stmt::While(x) => alike_while_loop(s, s2, x),
        Stmt::With(x) => alike_with_item(s, s2, x, 0),
        Stmt::For(x) => alike_for_loop(s, s2, x),
        Stmt::Match(x) => alike_match_statement(s, s2, x),
        Stmt::Try(x) => alike_try_statement(s, s2, x),
        Stmt::FunctionDef(x) => alike_function_def(s, s2, x),
        Stmt::ClassDef(x) => alike_class_def(s, s2, x),
        _ => alike_simple(s, s2, x),
    }
}

#[verifier::spinoff_prover]
proof fn alike_if_statement(s: State, s2: State, x: StmtIf)
    requires
        alike(s, s2),
    ensures
        alike(s.if_statement(x), s2.if_statement(x)),
    decreases x, 0nat, 0nat,
{
    broadcast use group_alike_steps;

    reveal(State::if_statement);
    reveal(State::stmts);
    reveal(State::clauses);
    let after = s.fresh();
    let after2 = s2.fresh();
    let t = s.new_block();
    let t2 = s2.new_block();
    if x.elif_else_clauses@.len() == 0 {
        alike_jump_if(t, t2, *x.test, false, after);
        alike_stmts(
            t.jump_if(*x.test, false, after),
            t2.jump_if(*x.test, false, after2),
            x.body@,
            0,
        );
    } else {
        let next = t.fresh();
        let next2 = t2.fresh();
        let u = t.new_block();
        let u2 = t2.new_block();
        let tested = u.jump_if(*x.test, false, next);
        let tested2 = u2.jump_if(*x.test, false, next2);
        let done = tested.stmts(x.body@, 0).emit(Instruction::Jump { target: after });
        let done2 = tested2.stmts(x.body@, 0).emit(Instruction::Jump { target: after2 });
        alike_jump_if(u, u2, *x.test, false, next);
        alike_stmts(tested, tested2, x.body@, 0);
        alike_clauses(done, done2, x.elif_else_clauses@, 0, next, after);
    }
}

#[verifier::spinoff_prover]
proof fn alike_clauses(
    s: State,
    s2: State,
    v: Seq<ElifElseClause>,
    i: nat,
    next: BlockIdx,
    after: BlockIdx,
)
    requires
        alike(s, s2),
    ensures
        alike(s.clauses(v, i, next, after), s2.clauses(v, i, next, after)),
    decreases v, 0nat, v.len() - i,
{
    broadcast use group_alike_steps;

    reveal(State::clauses);
    reveal(State::stmts);
    if i < v.len() {
        let clause = v[i as int];
        let entered = s.switch_to(next);
        let entered2 = s2.switch_to(next);
        if i + 1 == v.len() {
            let tested = match clause.test {
                Some(test) => entered.jump_if(test, false, after),
                None => entered,
            };
            let tested2 = match clause.test {
                Some(test) => entered2.jump_if(test, false, after),
                None => entered2,
            };
            if let Some(test) = clause.test {
                alike_jump_if(entered, entered2, test, false, after);
            }
            alike_stmts(tested, tested2, clause.body@, 0);
        } else {
            let later = entered.fresh();
            let later2 = entered2.fresh();
            let t = entered.new_block();
            let t2 = entered2.new_block();
            if let Some(test) = clause.test {
                let tested = t.jump_if(test, false, later);
                let tested2 = t2.jump_if(test, false, later2);
                let done = tested.stmts(clause.body@, 0).emit(Instruction::Jump { target: after });
                let done2 = tested2.stmts(clause.body@, 0).emit(
                    Instruction::Jump { target: after },
                );
                alike_jump_if(t, t2, test, false, later);
                alike_stmts(tested, tested2, clause.body@, 0);
                alike_clauses(done, done2, v, i + 1, later, after);
            }
        }
    }
}

#[verifier::spinoff_prover]
proof fn alike_while_loop(s: State, s2: State, x: StmtWhile)
    requires
        alike(s, s2),
    ensures
        alike(s.while_loop(x), s2.while_loop(x)),
    decreases x, 0nat, 0nat,
{
    broadcast use group_alike_steps;

    reveal(State::while_loop);
    reveal(State::stmts);
    let while_block = s.fresh();
    let while_block2 = s2.fresh();
    let t = s.new_block();
    let t2 = s2.new_block();
    let else_block = t.fresh();
    let else_block2 = t2.fresh();
    let u = t.new_block();
    let u2 = t2.new_block();
    let after = u.fresh();
    let after2 = u2.fresh();
    let v = u.new_block().emit(Instruction::SetupLoop).switch_to(while_block);
    let v2 = u2.new_block().emit(Instruction::SetupLoop).switch_to(while_block2);
    let tested = v.jump_if(*x.test, false, else_block);
    let tested2 = v2.jump_if(*x.test, false, else_block2);
    let looped = tested.set_loop(Some((while_block, after)));
    let looped2 = tested2.set_loop(Some((while_block2, after2)));
    let body = looped.stmts(x.body@, 0).set_loop(tested.ctx.loop_data).emit(
        Instruction::Jump { target: while_block },
    ).switch_to(else_block).emit(Instruction::PopBlock);
    let body2 = looped2.stmts(x.body@, 0).set_loop(tested2.ctx.loop_data).emit(
        Instruction::Jump { target: while_block2 },
    ).switch_to(else_block2).emit(Instruction::PopBlock);
    alike_jump_if(v, v2, *x.test, false, else_block);
    alike_stmts(looped, looped2, x.body@, 0);
    alike_stmts(body, body2, x.orelse@, 0);
}

#[verifier::spinoff_prover]
pub proof fn alike_with_item(s: State, s2: State, x: StmtWith, i: nat)
    requires
        alike(s, s2),
    ensures
        alike(s.with_item(x, i), s2.with_item(x, i)),
    decreases x, 0nat, x.items@.len() - i,
{
    broadcast use group_alike_steps;

    reveal(State::with_item);
    reveal(State::stmts);
    if i < x.items@.len() {
        let end = s.fresh();
        let end2 = s2.fresh();
        let t = s.new_block();
        let t2 = s2.new_block();
        let u = t.enter_with(x, i, end);
        let u2 = t2.enter_with(x, i, end2);
        let body = if i + 1 < x.items@.len() {
            u.set_range(s.range).with_item(x, i + 1)
        } else if x.body@.len() == 0 {
            u.fail(ErrorKind::EmptyWithBody)
        } else {
            u.stmts(x.body@, 0)
        };
        let body2 = if i + 1 < x.items@.len() {
            u2.set_range(s2.range).with_item(x, i + 1)
        } else if x.body@.len() == 0 {
            u2.fail(ErrorKind::EmptyWithBody)
        } else {
            u2.stmts(x.body@, 0)
        };
        alike_enter_with(t, t2, x, i, end);
        alike_with_item(u.set_range(s.range), u2.set_range(s2.range), x, i + 1);
        alike_stmts(u, u2, x.body@, 0);
        alike_leave_with(body.set_range(s.range), body2.set_range(s2.range), x.is_async, end);
    }
}

#[verifier::spinoff_prover]
pub proof fn alike_enter_with(s: State, s2: State, x: StmtWith, i: nat, end: BlockIdx)
    requires
        alike(s, s2),
    ensures
        alike(s.enter_with(x, i, end), s2.enter_with(x, i, end)),
{
    broadcast use group_alike_steps;

    reveal(State::enter_with);
    let item = x.items@[i as int];
    let t = s.expr(item.context_expr).set_range(s.range);
    let t2 = s2.expr(item.context_expr).set_range(s2.range);
    let u = if x.is_async {
        t.emit(Instruction::BeforeAsyncWith).emit(Instruction::GetAwaitable).load_const(
            ConstantModel::NoneValue,
        ).emit(Instruction::YieldFrom).emit(Instruction::SetupAsyncWith { end })
    } else {
        t.emit(Instruction::SetupWith { end })
    };
    let u2 = if x.is_async {
        t2.emit(Instruction::BeforeAsyncWith).emit(Instruction::GetAwaitable).load_const(
            ConstantModel::NoneValue,
        ).emit(Instruction::YieldFrom).emit(Instruction::SetupAsyncWith { end })
    } else {
        t2.emit(Instruction::SetupWith { end })
    };
    alike_expr(s, s2, item.context_expr);
    if let Some(var) = item.optional_vars {
        alike_store(u.set_range(expr_range(*var)), u2.set_range(expr_range(*var)), *var);
    }
}

#[verifier::spinoff_prover]
pub proof fn alike_leave_with(s: State, s2: State, is_async: bool, end: BlockIdx)
    requires
        alike(s, s2),
    ensures
        alike(s.leave_with(is_async, end), s2.leave_with(is_async, end)),
{
    broadcast use group_alike_steps;

    reveal(State::leave_with);
}

#[verifier::spinoff_prover]
proof fn alike_for_turn(
    s: State,
    s2: State,
    target: Expr,
    is_async: bool,
    for_block: BlockIdx,
    else_block: BlockIdx,
)
    requires
        alike(s, s2),
    ensures
        alike(
            s.for_turn(target, is_async, for_block, else_block),
            s2.for_turn(target, is_async, for_block, else_block),
        ),
{
    broadcast use group_alike_steps;

    reveal(State::for_turn);
    let t = if is_async {
        s.emit(Instruction::GetAIter).switch_to(for_block).emit(
            Instruction::SetupExcept { handler: else_block },
        ).emit(Instruction::GetANext).load_const(ConstantModel::NoneValue).emit(
            Instruction::YieldFrom,
        )
    } else {
        s.emit(Instruction::GetIter).switch_to(for_block).emit(
            Instruction::ForIter { target: else_block },
        )
    };
    let t2 = if is_async {
        s2.emit(Instruction::GetAIter).switch_to(for_block).emit(
            Instruction::SetupExcept { handler: else_block },
        ).emit(Instruction::GetANext).load_const(ConstantModel::NoneValue).emit(
            Instruction::YieldFrom,
        )
    } else {
        s2.emit(Instruction::GetIter).switch_to(for_block).emit(
            Instruction::ForIter { target: else_block },
        )
    };
    alike_store(t, t2, target);
}

#[verifier::spinoff_prover]
proof fn alike_for_loop(s: State, s2: State, x: StmtFor)
    requires
        alike(s, s2),
    ensures
        alike(s.for_loop(x), s2.for_loop(x)),
    decreases x, 0nat, 0nat,
{
    broadcast use group_alike_steps;

    reveal(State::for_loop);
    reveal(State::stmts);
    let for_block = s.fresh();
    let for_block2 = s2.fresh();
    let t = s.new_block();
    let t2 = s2.new_block();
    let else_block = t.fresh();
    let else_block2 = t2.fresh();
    let u = t.new_block();
    let u2 = t2.new_block();
    let after = u.fresh();
    let after2 = u2.fresh();
    let v = u.new_block().emit(Instruction::SetupLoop);
    let v2 = u2.new_block().emit(Instruction::SetupLoop);
    let iterated = v.expr(*x.iter);
    let iterated2 = v2.expr(*x.iter);
    let turn = iterated.for_turn(*x.target, x.is_async, for_block, else_block);
    let turn2 = iterated2.for_turn(*x.target, x.is_async, for_block2, else_block2);
    let looped = turn.set_loop(Some((for_block, after)));
    let looped2 = turn2.set_loop(Some((for_block2, after2)));
    let w = looped.stmts(x.body@, 0).set_loop(turn.ctx.loop_data).emit(
        Instruction::Jump { target: for_block },
    ).switch_to(else_block);
    let w2 = looped2.stmts(x.body@, 0).set_loop(turn2.ctx.loop_data).emit(
        Instruction::Jump { target: for_block2 },
    ).switch_to(else_block2);
    let body = (if x.is_async {
        w.emit(Instruction::EndAsyncFor)
    } else {
        w
    }).emit(Instruction::PopBlock);
    let body2 = (if x.is_async {
        w2.emit(Instruction::EndAsyncFor)
    } else {
        w2
    }).emit(Instruction::PopBlock);
    alike_expr(v, v2, *x.iter);
    alike_for_turn(iterated, iterated2, *x.target, x.is_async, for_block, else_block);
    alike_stmts(looped, looped2, x.body@, 0);
    alike_stmts(body, body2, x.orelse@, 0);
}

#[verifier::spinoff_prover]
proof fn alike_match_statement(s: State, s2: State, x: StmtMatch)
    requires
        alike(s, s2),
    ensures
        alike(s.match_statement(x), s2.match_statement(x)),
    decreases x, 0nat, 0nat,
{
    broadcast use group_alike_steps;

    reveal(State::match_statement);
    reveal(State::cases);
    let t = s.expr(*x.subject);
    let t2 = s2.expr(*x.subject);
    let n = x.cases@.len();
    let base = t.top().blocks.len();
    alike_expr(s, s2, *x.subject);
    alike_new_blocks(t, t2, n + 1);
    alike_cases(t.new_blocks(n + 1), t2.new_blocks(n + 1), x.cases@, 0, base);
}

#[verifier::spinoff_prover]
proof fn alike_cases(s: State, s2: State, v: Seq<MatchCase>, i: nat, base: nat)
    requires
        alike(s, s2),
    ensures
        alike(s.cases(v, i, base), s2.cases(v, i, base)),
    decreases v, 0nat, v.len() - i,
{
    broadcast use group_alike_steps;

    reveal(State::cases);
    reveal(State::stmts);
    if i < v.len() {
        let case = v[i as int];
        let last = i + 1 == v.len();
        let entered = s.switch_to(BlockIdx((base + i) as u32));
        let entered2 = s2.switch_to(BlockIdx((base + i) as u32));
        let t = if last {
            entered
        } else {
            entered.emit(Instruction::Duplicate)
        };
        let t2 = if last {
            entered2
        } else {
            entered2.emit(Instruction::Duplicate)
        };
        let tested = t.pattern(case.pattern, case.guard is Some || last).emit(
            Instruction::JumpIfFalse { target: BlockIdx((base + i + 1) as u32) },
        );
        let tested2 = t2.pattern(case.pattern, case.guard is Some || last).emit(
            Instruction::JumpIfFalse { target: BlockIdx((base + i + 1) as u32) },
        );
        let done = tested.stmts(case.body@, 0).emit(
            Instruction::Jump { target: BlockIdx((base + v.len()) as u32) },
        );
        let done2 = tested2.stmts(case.body@, 0).emit(
            Instruction::Jump { target: BlockIdx((base + v.len()) as u32) },
        );
        alike_pattern(t, t2, case.pattern, case.guard is Some || last);
        alike_stmts(tested, tested2, case.body@, 0);
        alike_cases(done, done2, v, i + 1, base);
    }
}

#[verifier::spinoff_prover]
proof fn alike_try_statement(s: State, s2: State, x: StmtTry)
    requires
        alike(s, s2),
    ensures
        alike(s.try_statement(x), s2.try_statement(x)),
    decreases x, 0nat, 0nat,
{
    broadcast use group_alike_steps;

    reveal(State::try_statement);
    reveal(State::stmts);
    reveal(State::handlers);
    reveal(State::leave_try);
    if !x.is_star {
        let has_final = x.finalbody@.len() > 0;
        let handler_block = s.fresh();
        let handler_block2 = s2.fresh();
        let t = s.new_block();
        let t2 = s2.new_block();
        let finally_block = t.fresh();
        let finally_block2 = t2.fresh();
        let made = t.new_block();
        let made2 = t2.new_block();
        let u = if has_final {
            made.emit(Instruction::SetupFinally { handler: finally_block })
        } else {
            made
        };
        let u2 = if has_final {
            made2.emit(Instruction::SetupFinally { handler: finally_block2 })
        } else {
            made2
        };
        let else_block = u.fresh();
        let else_block2 = u2.fresh();
        let v = u.new_block().emit(Instruction::SetupExcept { handler: handler_block });
        let v2 = u2.new_block().emit(Instruction::SetupExcept { handler: handler_block2 });
        let body = v.stmts(x.body@, 0).emit(Instruction::PopBlock).emit(
            Instruction::Jump { target: else_block },
        ).switch_to(handler_block);
        let body2 = v2.stmts(x.body@, 0).emit(Instruction::PopBlock).emit(
            Instruction::Jump { target: else_block2 },
        ).switch_to(handler_block2);
        let handled = body.handlers(x.handlers@, 0, finally_block, has_final).emit(
            Instruction::Raise { kind: RaiseKind::Reraise },
        ).switch_to(else_block);
        let handled2 = body2.handlers(x.handlers@, 0, finally_block2, has_final).emit(
            Instruction::Raise { kind: RaiseKind::Reraise },
        ).switch_to(else_block2);
        let orelse = handled.stmts(x.orelse@, 0).leave_try(has_final).switch_to(finally_block);
        let orelse2 = handled2.stmts(x.orelse@, 0).leave_try(has_final).switch_to(finally_block2);
        alike_stmts(v, v2, x.body@, 0);
        alike_handlers(body, body2, x.handlers@, 0, finally_block, has_final);
        alike_stmts(handled, handled2, x.orelse@, 0);
        alike_stmts(orelse, orelse2, x.finalbody@, 0);
    }
}

#[verifier::spinoff_prover]
proof fn alike_catch(s: State, s2: State, h: ExceptHandler, next: BlockIdx)
    requires
        alike(s, s2),
    ensures
        alike(s.catch(h, next), s2.catch(h, next)),
{
    broadcast use group_alike_steps;

    reveal(State::catch);
    if let Some(ty) = h.type_ {
        alike_expr(s.emit(Instruction::Duplicate), s2.emit(Instruction::Duplicate), *ty);
    }
}

#[verifier::spinoff_prover]
proof fn alike_handlers(
    s: State,
    s2: State,
    v: Seq<ExceptHandler>,
    i: nat,
    finally_block: BlockIdx,
    has_final: bool,
)
    requires
        alike(s, s2),
    ensures
        alike(
            s.handlers(v, i, finally_block, has_final),
            s2.handlers(v, i, finally_block, has_final),
        ),
    decreases v, 0nat, v.len() - i,
{
    broadcast use group_alike_steps;

    reveal(State::handlers);
    reveal(State::stmts);
    reveal(State::leave_try);
    if i < v.len() {
        let handler = v[i as int];
        let next = s.fresh();
        let next2 = s2.fresh();
        let t = s.new_block();
        let t2 = s2.new_block();
        let caught = t.catch(handler, next);
        let caught2 = t2.catch(handler, next2);
        let done = caught.stmts(handler.body@, 0).emit(Instruction::PopException).leave_try(
            has_final,
        ).emit(Instruction::Jump { target: finally_block }).switch_to(next);
        let done2 = caught2.stmts(handler.body@, 0).emit(Instruction::PopException).leave_try(
            has_final,
        ).emit(Instruction::Jump { target: finally_block }).switch_to(next2);
        alike_catch(t, t2, handler, next);
        alike_stmts(caught, caught2, handler.body@, 0);
        alike_handlers(done, done2, v, i + 1, finally_block, has_final);
    }
}

#[verifier::spinoff_prover]
proof fn alike_function_body(s: State, s2: State, body: Seq<Stmt>)
    requires
        alike(s, s2),
    ensures
        alike(s.function_body(body), s2.function_body(body)),
    decreases body, 1nat, 0nat,
{
    broadcast use group_alike_steps;

    reveal(State::function_body);
    reveal(State::stmts);
    alike_stmts(
        s.insert_const(ConstantModel::NoneValue),
        s2.insert_const(ConstantModel::NoneValue),
        body,
        body_start(body),
    );
}

#[verifier::spinoff_prover]
proof fn alike_function_unit(s: State, s2: State, x: StmtFunctionDef)
    requires
        alike(s, s2),
    ensures
        alike(s.function_unit(x), s2.function_unit(x)),
    decreases x, 0nat, 0nat,
{
    broadcast use group_alike_steps;

    reveal(State::function_unit);
    reveal(State::function_body);
    reveal(State::enter_type_params);
    let decorated = s.decorators(x.decorator_list@, 0);
    let decorated2 = s2.decorators(x.decorator_list@, 0);
    let scoped = decorated.enter_type_params(x.type_params);
    let scoped2 = decorated2.enter_type_params(x.type_params);
    let entered = scoped.enter_function(x.name@, *x.parameters);
    let entered2 = scoped2.enter_function(x.name@, *x.parameters);
    let within = entered.mark_coroutine(x.is_async).set_ctx(
        entered.function_ctx(x.is_async),
    ).push_path(x.name@).push_path("<locals>"@);
    let within2 = entered2.mark_coroutine(x.is_async).set_ctx(
        entered2.function_ctx(x.is_async),
    ).push_path(x.name@).push_path("<locals>"@);
    alike_decorators(s, s2, x.decorator_list@, 0);
    alike_enter_function(scoped, scoped2, x.name@, *x.parameters);
    alike_function_body(within, within2, x.body@);
}

#[verifier::spinoff_prover]
proof fn alike_function_end(
    s: State,
    s2: State,
    x: StmtFunctionDef,
    ctx: CompileContext,
    name: Seq<char>,
)
    requires
        alike(s, s2),
    ensures
        alike(s.function_end(x, ctx, name), s2.function_end(x, ctx, name)),
{
    broadcast use group_alike_steps;

    reveal(State::function_end);
    reveal(State::leave_type_params);
    reveal(State::function_doc);
    let code = s.top();
    let code2 = s2.top();
    let t = s.pop_code().pop_path().pop_path().set_ctx(ctx);
    let t2 = s2.pop_code().pop_path().pop_path().set_ctx(ctx);
    let u = t.type_params(x.type_params);
    let u2 = t2.type_params(x.type_params);
    let v = u.annotations(x).closure(code.freevars).leave_type_params(x.type_params);
    let v2 = u2.annotations(x).closure(code2.freevars).leave_type_params(x.type_params);
    let flags = definition_flags(x, s.top().freevars.len() > 0);
    let flags2 = definition_flags(x, s2.top().freevars.len() > 0);
    let made = v.make_function(code, s.optimize, name, flags);
    let made2 = v2.make_function(code2, s2.optimize, name, flags2);
    lemma_top_alike(s, s2);
    alike_type_params(t, t2, x.type_params);
    alike_annotations(u, u2, x);
    lemma_make_alike(v, v2, code, code2, s.optimize, name, flags);
    alike_decorated(
        made.function_doc(doc_of(x.body@, s.optimize)),
        made2.function_doc(doc_of(x.body@, s2.optimize)),
        x.decorator_list@.len(),
    );
}

#[verifier::spinoff_prover]
proof fn alike_function_def(s: State, s2: State, x: StmtFunctionDef)
    requires
        alike(s, s2),
    ensures
        alike(s.function_def(x), s2.function_def(x)),
    decreases x, 1nat, 0nat,
{
    broadcast use group_alike_steps;

    reveal(State::function_def);
    reveal(State::function_unit);
    let name = qualified_name(s.qualified.push(x.name@));
    alike_function_unit(s, s2, x);
    alike_function_end(s.function_unit(x), s2.function_unit(x), x, s.ctx, name);
}

#[verifier::spinoff_prover]
proof fn alike_class_body(s: State, s2: State, body: Seq<Stmt>, qualname: Seq<char>)
    requires
        alike(s, s2),
    ensures
        alike(s.class_body(body, qualname), s2.class_body(body, qualname)),
    decreases body, 1nat, 0nat,
{
    broadcast use group_alike_steps;

    reveal(State::class_body);
    reveal(State::stmts);
    reveal(State::class_start);
    reveal(State::class_end);
    let from = body_start(body);
    let t = s.class_start(qualname, doc_of(body, s.optimize));
    let t2 = s2.class_start(qualname, doc_of(body, s2.optimize));
    let u = if has_annotation(body, from) {
        t.emit(Instruction::SetupAnnotation)
    } else {
        t
    };
    let u2 = if has_annotation(body, from) {
        t2.emit(Instruction::SetupAnnotation)
    } else {
        t2
    };
    alike_stmts(u, u2, body, from);
}

#[verifier::spinoff_prover]
proof fn alike_build_class(s: State, s2: State, x: StmtClassDef)
    requires
        alike(s, s2),
    ensures
        alike(s.build_class(x), s2.build_class(x)),
{
    broadcast use group_alike_steps;

    reveal(State::build_class);
    let t = s.load_const(ConstantModel::Str(x.name@));
    let t2 = s2.load_const(ConstantModel::Str(x.name@));
    if let Some(a) = x.arguments {
        alike_call_arguments(t, t2, 2, *a);
    }
    let u = match x.arguments {
        Some(a) => t.to(t.call_arguments(2, *a).emit(call_code(call_type(2, *a), false))),
        None => t.emit(Instruction::CallFunctionPositional { nargs: 2 }),
    };
    let u2 = match x.arguments {
        Some(a) => t2.to(t2.call_arguments(2, *a).emit(call_code(call_type(2, *a), false))),
        None => t2.emit(Instruction::CallFunctionPositional { nargs: 2 }),
    };
    alike_decorated(u, u2, x.decorator_list@.len());
}

#[verifier::spinoff_prover]
proof fn alike_class_unit(s: State, s2: State, x: StmtClassDef)
    requires
        alike(s, s2),
    ensures
        alike(s.class_unit(x), s2.class_unit(x)),
    decreases x, 0nat, 0nat,
{
    broadcast use group_alike_steps;

    reveal(State::class_unit);
    reveal(State::class_body);
    reveal(State::enter_type_params);
    let decorated = s.decorators(x.decorator_list@, 0);
    let decorated2 = s2.decorators(x.decorator_list@, 0);
    let within = decorated.set_ctx(
        CompileContext { func: FunctionContext::NoFunction, in_class: true, loop_data: None },
    ).set_class(Some(x.name@));
    let within2 = decorated2.set_ctx(
        CompileContext { func: FunctionContext::NoFunction, in_class: true, loop_data: None },
    ).set_class(Some(x.name@));
    let path = within.class_path(x);
    let path2 = within2.class_path(x);
    let t = within.set_qualified(path).enter_type_params(x.type_params).push_code(
        no_flags(),
        0,
        0,
        0,
        x.name@,
    );
    let t2 = within2.set_qualified(path2).enter_type_params(x.type_params).push_code(
        no_flags(),
        0,
        0,
        0,
        x.name@,
    );
    alike_decorators(s, s2, x.decorator_list@, 0);
    alike_class_body(t, t2, x.body@, qualified_name(path));
}

#[verifier::spinoff_prover]
proof fn alike_class_end_of(
    s: State,
    s2: State,
    x: StmtClassDef,
    ctx: CompileContext,
    class_name: Option<Seq<char>>,
    path: Seq<Seq<char>>,
)
    requires
        alike(s, s2),
    ensures
        alike(s.class_end_of(x, ctx, class_name, path), s2.class_end_of(x, ctx, class_name, path)),
{
    broadcast use group_alike_steps;

    reveal(State::class_end_of);
    reveal(State::leave_type_params);
    let code = s.top();
    let code2 = s2.top();
    let t = s.pop_code().set_class(class_name).set_qualified(path).set_ctx(ctx).emit(
        Instruction::LoadBuildClass,
    );
    let t2 = s2.pop_code().set_class(class_name).set_qualified(path).set_ctx(ctx).emit(
        Instruction::LoadBuildClass,
    );
    let u = t.type_params(x.type_params).closure(code.freevars).leave_type_params(x.type_params);
    let u2 = t2.type_params(x.type_params).closure(code2.freevars).leave_type_params(x.type_params);
    let flags = MakeFunctionFlags {
        closure: s.top().freevars.len() > 0,
        type_params: x.type_params is Some,
        ..plain_function()
    };
    let flags2 = MakeFunctionFlags {
        closure: s2.top().freevars.len() > 0,
        type_params: x.type_params is Some,
        ..plain_function()
    };
    lemma_top_alike(s, s2);
    alike_type_params(t, t2, x.type_params);
    lemma_make_alike(u, u2, code, code2, s.optimize, x.name@, flags);
    alike_build_class(
        u.make_function(code, s.optimize, x.name@, flags),
        u2.make_function(code2, s2.optimize, x.name@, flags2),
        x,
    );
}

#[verifier::spinoff_prover]
proof fn alike_class_def(s: State, s2: State, x: StmtClassDef)
    requires
        alike(s, s2),
    ensures
        alike(s.class_def(x), s2.class_def(x)),
    decreases x, 1nat, 0nat,
{
    broadcast use group_alike_steps;

    reveal(State::class_def);
    reveal(State::class_unit);
    alike_class_unit(s, s2, x);
    alike_class_end_of(s.class_unit(x), s2.class_unit(x), x, s.ctx, s.class_name, s.qualified);
}

} // verus!
