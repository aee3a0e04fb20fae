//! What an expression leaves alone: where the module is with its `from __future__` imports and
//! what they switched on, the path of its source, and the level of optimisation.
use vstd::prelude::*;

use crate::ast::{
    expr_range, Arguments, BoolOp, CmpOp, Comprehension, DictItem, Expr, ExprAttribute, ExprAwait,
    ExprBinOp, ExprBoolOp, ExprCall, ExprCompare, ExprDict, ExprIf, ExprLambda, ExprNamed,
    ExprSlice, ExprSubscript, ExprUnaryOp, ExprYield, ExprYieldFrom, FStringElement,
    FStringExpressionElement, FStringPart, FStringValue, Keyword, ParameterWithDefault, Parameters,
    TextRange, UnaryOp,
};
use crate::bytecode::{
    BlockIdx, CodeFlags, CodeModel, ConstantModel, Instruction, MakeFunctionFlags,
};
use crate::error::ErrorKind;
use crate::expr_code::{
    comparison_code, comprehension_awaits, comprehension_generators, comprehension_name,
    comprehension_type, first_star, function_flags, gathered, plain_function, positional_defaults,
    short_circuit, ComprehensionType, Display,
};
use crate::state::{CompileContext, NameUsage, Pool, State};

verus! {

/// Whether what belongs to the whole module is the same in two states.
pub open spec fn steady(s: State, t: State) -> bool {
    &&& t.future == s.future
    &&& t.future_annotations == s.future_annotations
    &&& t.path == s.path
    &&& t.optimize == s.optimize
}

/// A step leaves alone what belongs to the whole module.
pub broadcast proof fn steady_fail_at(s: State, error: ErrorKind, range: TextRange)
    ensures
        steady(s, #[trigger] s.fail_at(error, range)),
{
}

pub broadcast proof fn steady_fail(s: State, error: ErrorKind)
    ensures
        steady(s, #[trigger] s.fail(error)),
{
}

pub broadcast proof fn steady_stuck(s: State)
    ensures
        steady(s, #[trigger] s.stuck()),
{
}

pub broadcast proof fn steady_set_range(s: State, range: TextRange)
    ensures
        steady(s, #[trigger] s.set_range(range)),
{
}

pub broadcast proof fn steady_set_ctx(s: State, ctx: CompileContext)
    ensures
        steady(s, #[trigger] s.set_ctx(ctx)),
{
}

pub broadcast proof fn steady_mark_generator(s: State)
    ensures
        steady(s, #[trigger] s.mark_generator()),
{
    reveal(State::mark_generator);
    reveal(State::set_flags);
}

pub broadcast proof fn steady_mark_varargs(s: State)
    ensures
        steady(s, #[trigger] s.mark_varargs()),
{
    reveal(State::mark_varargs);
    reveal(State::set_flags);
}

pub broadcast proof fn steady_mark_varkeywords(s: State)
    ensures
        steady(s, #[trigger] s.mark_varkeywords()),
{
    reveal(State::mark_varkeywords);
    reveal(State::set_flags);
}

pub broadcast proof fn steady_emit(s: State, instr: Instruction)
    ensures
        steady(s, #[trigger] s.emit(instr)),
{
    reveal(State::emit);
}

pub broadcast proof fn steady_new_block(s: State)
    ensures
        steady(s, #[trigger] s.new_block()),
{
    reveal(State::new_block);
}

pub broadcast proof fn steady_switch_to(s: State, block: BlockIdx)
    ensures
        steady(s, #[trigger] s.switch_to(block)),
{
    reveal(State::switch_to);
}

pub broadcast proof fn steady_insert_const(s: State, c: ConstantModel)
    ensures
        steady(s, #[trigger] s.insert_const(c)),
{
    reveal(State::insert_const);
}

pub broadcast proof fn steady_load_const(s: State, c: ConstantModel)
    ensures
        steady(s, #[trigger] s.load_const(c)),
{
    broadcast use {steady_insert_const, steady_emit, steady_stuck};

    reveal(State::load_const);
    reveal(State::intern_const);
}

pub broadcast proof fn steady_return_value(s: State)
    ensures
        steady(s, #[trigger] s.return_value()),
{
    broadcast use steady_emit;

    reveal(State::return_value);
}

pub broadcast proof fn steady_insert_text(s: State, p: Pool, text: Seq<char>)
    ensures
        steady(s, #[trigger] s.insert_text(p, text)),
{
    reveal(State::insert_text);
}

pub broadcast proof fn steady_intern(s: State, p: Pool, name: Seq<char>)
    ensures
        steady(s, #[trigger] s.intern(p, name)),
{
    broadcast use {steady_insert_text, steady_stuck};

    reveal(State::intern);
}

pub broadcast proof fn steady_intern_varname(s: State, name: Seq<char>)
    ensures
        steady(s, #[trigger] s.intern_varname(name)),
{
    broadcast use {steady_fail, steady_intern};

    reveal(State::intern_varname);
}

pub broadcast proof fn steady_check_name(s: State, name: Seq<char>, usage: NameUsage)
    ensures
        steady(s, #[trigger] s.check_name(name, usage)),
{
    broadcast use steady_fail;

    reveal(State::check_name);
}

pub broadcast proof fn steady_name(s: State, name: Seq<char>, usage: NameUsage)
    ensures
        steady(s, #[trigger] s.name(name, usage)),
{
    broadcast use {
        steady_check_name,
        steady_stuck,
        steady_load_const,
        steady_insert_text,
        steady_emit,
    };

    reveal(State::name);
    reveal(State::symbol_access);
}

pub broadcast proof fn steady_push_code(
    s: State,
    flags: CodeFlags,
    posonlyarg_count: u32,
    arg_count: u32,
    kwonlyarg_count: u32,
    obj_name: Seq<char>,
)
    ensures
        steady(
            s,
            #[trigger] s.push_code(flags, posonlyarg_count, arg_count, kwonlyarg_count, obj_name),
        ),
{
    broadcast use steady_stuck;

    reveal(State::push_code);
    reveal(State::push_table);
}

pub broadcast proof fn steady_pop_code(s: State)
    ensures
        steady(s, #[trigger] s.pop_code()),
{
    broadcast use steady_stuck;

    reveal(State::pop_code);
}

pub broadcast proof fn steady_load_closure(s: State, var: Seq<char>)
    ensures
        steady(s, #[trigger] s.load_closure(var)),
{
    broadcast use {steady_emit, steady_stuck};

    reveal(State::load_closure);
}

pub broadcast proof fn steady_load_closures(s: State, vars: Seq<Seq<char>>, i: nat)
    ensures
        steady(s, #[trigger] s.load_closures(vars, i)),
    decreases vars.len() - i,
{
    reveal(State::load_closures);
    if s.running() && i < vars.len() {
        steady_load_closure(s, vars[i as int]);
        steady_load_closures(s.load_closure(vars[i as int]), vars, i + 1);
    }
}

pub broadcast proof fn steady_closure(s: State, vars: Seq<Seq<char>>)
    ensures
        steady(s, #[trigger] s.closure(vars)),
{
    broadcast use {steady_load_closures, steady_emit, steady_stuck};

    reveal(State::closure);
}

pub broadcast proof fn steady_make_function(
    s: State,
    code: CodeModel,
    optimize: u8,
    name: Seq<char>,
    flags: MakeFunctionFlags,
)
    ensures
        steady(s, #[trigger] s.make_function(code, optimize, name, flags)),
{
    broadcast use {steady_load_const, steady_emit};

    reveal(State::make_function);
}

pub broadcast proof fn steady_close_function(
    s: State,
    ctx: CompileContext,
    name: Seq<char>,
    flags: MakeFunctionFlags,
)
    ensures
        steady(s, #[trigger] s.close_function(ctx, name, flags)),
{
    broadcast use {steady_pop_code, steady_set_ctx, steady_closure, steady_make_function};

    reveal(State::close_function);
}

pub broadcast proof fn steady_check_keywords(s: State, keywords: Seq<Keyword>, i: nat)
    ensures
        steady(s, #[trigger] s.check_keywords(keywords, i)),
    decreases keywords.len() - i,
{
    reveal(State::check_keywords);
    if s.running() && i < keywords.len() {
        match keywords[i as int].arg {
            Some(name) => {
                steady_check_name(s, name@, NameUsage::Store);
                steady_check_keywords(s.check_name(name@, NameUsage::Store), keywords, i + 1);
            },
            None => {
                steady_check_keywords(s, keywords, i + 1);
            },
        }
    }
}

pub broadcast proof fn steady_varnames(
    s: State,
    p: Seq<ParameterWithDefault>,
    i: nat,
    without: bool,
    with: bool,
)
    ensures
        steady(s, #[trigger] s.varnames(p, i, without, with)),
    decreases p.len() - i,
{
    reveal(State::varnames);
    if s.running() && i < p.len() {
        let name = p[i as int].parameter.name@;
        steady_intern_varname(s, name);
        steady_varnames(s.intern_varname(name), p, i + 1, without, with);
        steady_varnames(s, p, i + 1, without, with);
    }
}

pub broadcast proof fn steady_parameters(s: State, p: Parameters)
    ensures
        steady(s, #[trigger] s.parameters(p)),
{
    broadcast use {
        steady_varnames,
        steady_mark_varargs,
        steady_mark_varkeywords,
        steady_intern_varname,
    };

    reveal(State::parameters);
    reveal(State::positional);
    reveal(State::keyword_only);
    reveal(State::vararg);
    reveal(State::kwarg);
}

pub broadcast group group_steady_steps {
    steady_fail_at,
    steady_fail,
    steady_stuck,
    steady_set_range,
    steady_set_ctx,
    steady_mark_generator,
    steady_emit,
    steady_new_block,
    steady_switch_to,
    steady_insert_const,
    steady_load_const,
    steady_return_value,
    steady_intern,
    steady_intern_varname,
    steady_check_name,
    steady_name,
    steady_push_code,
    steady_close_function,
    steady_check_keywords,
    steady_parameters,
}

/// An expression leaves alone what belongs to the whole module.
#[verifier::spinoff_prover]
pub proof fn steady_expr(s: State, e: Expr)
    ensures
        steady(s, s.expr(e)),
    decreases e, 3nat, 0nat,
{
    broadcast use group_steady_steps;

    reveal(State::expr);
    reveal(State::call);
    reveal(State::bool_op);
    reveal(State::bin_op);
    reveal(State::subscript);
    reveal(State::unary_op);
    reveal(State::attribute);
    reveal(State::compare);
    reveal(State::display);
    reveal(State::dict);
    reveal(State::slice);
    reveal(State::yield_value);
    reveal(State::await_value);
    reveal(State::yield_from);
    reveal(State::lambda);
    reveal(State::comprehension);
    reveal(State::conditional);
    reveal(State::named);
    reveal(State::fstring);
    reveal(State::literal);
    let t = s.set_range(expr_range(e));
    match e {
        Expr::Call(x) => steady_call(t, x),
        Expr::BoolOp(x) => steady_bool_op(t, x),
        Expr::BinOp(x) => steady_bin_op(t, x),
        Expr::Subscript(x) => steady_subscript(t, x),
        Expr::UnaryOp(x) => steady_unary_op(t, x),
        Expr::Attribute(x) => steady_attribute(t, x),
        Expr::Compare(x) => steady_compare(t, x),
        Expr::List(x) => steady_display(t, x.elts@, Display::List),
        Expr::Tuple(x) => steady_display(t, x.elts@, Display::Tuple),
        Expr::SetDisplay(x) => steady_display(t, x.elts@, Display::SetDisplay),
        Expr::Dict(x) => steady_dict(t, x),
        Expr::Slice(x) => steady_slice(t, x),
        Expr::Yield(x) => steady_yield_value(t, x),
        Expr::Await(x) => steady_await_value(t, x),
        Expr::YieldFrom(x) => steady_yield_from(t, x),
        Expr::Lambda(x) => steady_lambda(t, x),
        Expr::ListComp(_) | Expr::SetComp(_) | Expr::DictComp(_) | Expr::Generator(
            _,
        ) => steady_comprehension(t, e),
        Expr::If(x) => steady_conditional(t, x),
        Expr::Named(x) => steady_named(t, x),
        Expr::FString(x) => steady_fstring(t, x.value),
        _ => {},
    }
}

#[verifier::spinoff_prover]
proof fn steady_bin_op(s: State, x: ExprBinOp)
    ensures
        steady(s, s.bin_op(x)),
    decreases x, 0nat, 0nat,
{
    broadcast use group_steady_steps;

    reveal(State::bin_op);
    reveal(State::expr);
    steady_expr(s, *x.left);
    steady_expr(s.expr(*x.left), *x.right);
}

#[verifier::spinoff_prover]
proof fn steady_subscript(s: State, x: ExprSubscript)
    ensures
        steady(s, s.subscript(x)),
    decreases x, 0nat, 0nat,
{
    broadcast use group_steady_steps;

    reveal(State::subscript);
    reveal(State::expr);
    steady_expr(s, *x.value);
    steady_expr(s.expr(*x.value), *x.slice);
}

#[verifier::spinoff_prover]
proof fn steady_unary_op(s: State, x: ExprUnaryOp)
    ensures
        steady(s, s.unary_op(x)),
    decreases x, 0nat, 0nat,
{
    broadcast use group_steady_steps;

    reveal(State::unary_op);
    reveal(State::expr);
    steady_expr(s, *x.operand);
}

#[verifier::spinoff_prover]
proof fn steady_attribute(s: State, x: ExprAttribute)
    ensures
        steady(s, s.attribute(x)),
    decreases x, 0nat, 0nat,
{
    broadcast use group_steady_steps;

    reveal(State::attribute);
    reveal(State::expr);
    steady_expr(s, *x.value);
}

#[verifier::spinoff_prover]
proof fn steady_display(s: State, elements: Seq<Expr>, ty: Display)
    ensures
        steady(s, s.display(elements, ty)),
    decreases elements, 2nat, 0nat,
{
    broadcast use group_steady_steps;

    reveal(State::display);
    reveal(State::gather);
    steady_gather(s, 0, elements);
}

#[verifier::spinoff_prover]
proof fn steady_yield_value(s: State, x: ExprYield)
    ensures
        steady(s, s.yield_value(x)),
    decreases x, 0nat, 0nat,
{
    broadcast use group_steady_steps;

    reveal(State::yield_value);
    reveal(State::bound);
    steady_bound(s.mark_generator(), x.value);
}

#[verifier::spinoff_prover]
proof fn steady_await_value(s: State, x: ExprAwait)
    ensures
        steady(s, s.await_value(x)),
    decreases x, 0nat, 0nat,
{
    broadcast use group_steady_steps;

    reveal(State::await_value);
    reveal(State::expr);
    steady_expr(s, *x.value);
}

#[verifier::spinoff_prover]
proof fn steady_yield_from(s: State, x: ExprYieldFrom)
    ensures
        steady(s, s.yield_from(x)),
    decreases x, 0nat, 0nat,
{
    broadcast use group_steady_steps;

    reveal(State::yield_from);
    reveal(State::expr);
    steady_expr(s.mark_generator(), *x.value);
}

#[verifier::spinoff_prover]
proof fn steady_named(s: State, x: ExprNamed)
    ensures
        steady(s, s.named(x)),
    decreases x, 0nat, 0nat,
{
    broadcast use group_steady_steps;

    reveal(State::named);
    reveal(State::expr);
    reveal(State::store);
    let value = s.expr(*x.value);
    steady_expr(s, *x.value);
    steady_store(value.emit(Instruction::Duplicate), *x.target);
}

#[verifier::spinoff_prover]
proof fn steady_exprs(s: State, v: Seq<Expr>, i: nat)
    ensures
        steady(s, s.exprs(v, i)),
    decreases v, 0nat, v.len() - i,
{
    broadcast use group_steady_steps;

    reveal(State::exprs);
    reveal(State::expr);
    if i < v.len() {
        steady_expr(s, v[i as int]);
        steady_exprs(s.expr(v[i as int]), v, i + 1);
    }
}

#[verifier::spinoff_prover]
proof fn steady_bound(s: State, e: Option<Box<Expr>>)
    ensures
        steady(s, s.bound(e)),
    decreases e, 0nat, 0nat,
{
    broadcast use group_steady_steps;

    reveal(State::bound);
    reveal(State::expr);
    if let Some(e) = e {
        steady_expr(s, *e);
    }
}

#[verifier::spinoff_prover]
proof fn steady_slice(s: State, x: ExprSlice)
    ensures
        steady(s, s.slice(x)),
    decreases x, 0nat, 0nat,
{
    broadcast use group_steady_steps;

    reveal(State::slice);
    reveal(State::bound);
    reveal(State::expr);
    let lower = s.bound(x.lower);
    steady_bound(s, x.lower);
    steady_bound(lower, x.upper);
    if let Some(step) = x.step {
        steady_expr(lower.bound(x.upper), *step);
    }
}

#[verifier::spinoff_prover]
proof fn steady_conditional(s: State, x: ExprIf)
    ensures
        steady(s, s.conditional(x)),
    decreases x, 0nat, 0nat,
{
    broadcast use group_steady_steps;

    reveal(State::conditional);
    reveal(State::jump_if);
    reveal(State::expr);
    let else_block = s.fresh();
    let t = s.new_block();
    let after = t.fresh();
    let u = t.new_block();
    let tested = u.jump_if(*x.test, false, else_block);
    let first = tested.expr(*x.body).emit(Instruction::Jump { target: after }).switch_to(
        else_block,
    );
    steady_jump_if(u, *x.test, false, else_block);
    steady_expr(tested, *x.body);
    steady_expr(first, *x.orelse);
}

#[verifier::spinoff_prover]
proof fn steady_bool_op(s: State, x: ExprBoolOp)
    ensures
        steady(s, s.bool_op(x)),
    decreases x, 0nat, 0nat,
{
    broadcast use group_steady_steps;

    reveal(State::bool_op);
    reveal(State::bool_values);
    reveal(State::expr);
    let after = s.fresh();
    let t = s.new_block();
    if x.values@.len() > 0 {
        steady_bool_values(t, x.values@, 0, x.op, after);
        steady_expr(t.bool_values(x.values@, 0, x.op, after), x.values@[x.values@.len() - 1]);
    }
}

#[verifier::spinoff_prover]
proof fn steady_bool_values(s: State, v: Seq<Expr>, i: nat, op: BoolOp, after: BlockIdx)
    ensures
        steady(s, s.bool_values(v, i, op, after)),
    decreases v, 0nat, v.len() - i,
{
    broadcast use group_steady_steps;

    reveal(State::bool_values);
    reveal(State::expr);
    if i + 1 < v.len() {
        let one = s.expr(v[i as int]).emit(short_circuit(op, after));
        steady_expr(s, v[i as int]);
        steady_bool_values(one, v, i + 1, op, after);
    }
}

#[verifier::spinoff_prover]
proof fn steady_jump_if(s: State, e: Expr, condition: bool, target: BlockIdx)
    ensures
        steady(s, s.jump_if(e, condition, target)),
    decreases e, 4nat, 0nat,
{
    broadcast use group_steady_steps;

    reveal(State::jump_if);
    reveal(State::jump_ifs);
    reveal(State::expr);
    match e {
        Expr::BoolOp(x) => if (x.op == BoolOp::And) == condition {
            let end = s.fresh();
            let t = s.new_block();
            if x.values@.len() > 0 {
                let last = x.values@.len() - 1;
                let u = t.jump_ifs(x.values@, 0, last as nat, !condition, end);
                steady_jump_ifs(t, x.values@, 0, last as nat, !condition, end);
                steady_jump_if(u, x.values@[last], condition, target);
            }
        } else {
            steady_jump_ifs(s, x.values@, 0, x.values@.len(), condition, target);
        },
        Expr::UnaryOp(x) => if x.op == UnaryOp::Not {
            steady_jump_if(s, *x.operand, !condition, target);
        } else {
            steady_expr(s, e);
        },
        _ => steady_expr(s, e),
    }
}

#[verifier::spinoff_prover]
proof fn steady_jump_ifs(s: State, v: Seq<Expr>, i: nat, n: nat, condition: bool, target: BlockIdx)
    ensures
        steady(s, s.jump_ifs(v, i, n, condition, target)),
    decreases v, 0nat, n - i,
{
    broadcast use group_steady_steps;

    reveal(State::jump_ifs);
    reveal(State::jump_if);
    if i < n && n <= v.len() {
        steady_jump_if(s, v[i as int], condition, target);
        steady_jump_ifs(s.jump_if(v[i as int], condition, target), v, i + 1, n, condition, target);
    }
}

#[verifier::spinoff_prover]
proof fn steady_compare(s: State, x: ExprCompare)
    ensures
        steady(s, s.compare(x)),
    decreases x, 0nat, 0nat,
{
    broadcast use group_steady_steps;

    reveal(State::compare);
    reveal(State::compare_middle);
    reveal(State::expr);
    let n = x.ops@.len();
    if n > 0 && x.comparators@.len() == n {
        let t = s.expr(*x.left);
        steady_expr(s, *x.left);
        if n == 1 {
            steady_expr(t, x.comparators@[0]);
        } else {
            let break_block = t.fresh();
            let u = t.new_block().new_block();
            let v = u.compare_middle(x.ops@, x.comparators@, 0, break_block);
            steady_compare_middle(u, x.ops@, x.comparators@, 0, break_block);
            steady_expr(v, x.comparators@[n - 1]);
        }
    }
}

#[verifier::spinoff_prover]
proof fn steady_compare_middle(
    s: State,
    ops: Seq<CmpOp>,
    v: Seq<Expr>,
    i: nat,
    break_block: BlockIdx,
)
    ensures
        steady(s, s.compare_middle(ops, v, i, break_block)),
    decreases v, 0nat, v.len() - i,
{
    broadcast use group_steady_steps;

    reveal(State::compare_middle);
    reveal(State::expr);
    if i + 1 < v.len() {
        let one = s.expr(v[i as int]).emit(Instruction::Duplicate).emit(Instruction::Rotate3).emit(
            comparison_code(ops[i as int]),
        ).emit(Instruction::JumpIfFalseOrPop { target: break_block });
        steady_expr(s, v[i as int]);
        steady_compare_middle(one, ops, v, i + 1, break_block);
    }
}

#[verifier::spinoff_prover]
proof fn steady_dict(s: State, x: ExprDict)
    ensures
        steady(s, s.dict(x)),
    decreases x, 0nat, 0nat,
{
    broadcast use group_steady_steps;

    reveal(State::dict);
    reveal(State::dict_items);
    steady_dict_items(s, x.items@, 0, 0, false);
}

#[verifier::spinoff_prover]
proof fn steady_dict_items(s: State, items: Seq<DictItem>, i: nat, run: nat, made: bool)
    ensures
        steady(s, s.dict_items(items, i, run, made)),
    decreases items, 0nat, items.len() - i,
{
    broadcast use group_steady_steps;

    reveal(State::dict_items);
    reveal(State::expr);
    if i < items.len() {
        let value = items[i as int].value;
        match items[i as int].key {
            Some(key) => {
                let k = s.expr(key);
                let v = k.to(k.expr(value));
                steady_expr(s, key);
                steady_expr(k, value);
                steady_dict_items(v, items, i + 1, run + 1, made);
            },
            None => {
                let t = s.dict_run(run, made);
                let u = t.to(t.expr(value).emit(Instruction::DictUpdate));
                steady_expr(t, value);
                steady_dict_items(u, items, i + 1, 0, true);
            },
        }
    }
}

#[verifier::spinoff_prover]
proof fn steady_gather(s: State, before: u32, v: Seq<Expr>)
    ensures
        steady(s, s.gather(before, v)),
    decreases v, 1nat, 0nat,
{
    broadcast use group_steady_steps;

    reveal(State::gather);
    reveal(State::gather_runs);
    reveal(State::exprs);
    steady_gather_runs(s.emit(Instruction::BuildTuple { size: before }), v, 0, 0);
    steady_gather_runs(s, v, 0, 0);
    steady_exprs(s, v, 0);
}

#[verifier::spinoff_prover]
proof fn steady_gather_runs(s: State, v: Seq<Expr>, i: nat, run: nat)
    ensures
        steady(s, s.gather_runs(v, i, run)),
    decreases v, 0nat, v.len() - i,
{
    broadcast use group_steady_steps;

    reveal(State::gather_runs);
    reveal(State::expr);
    if i < v.len() {
        match v[i as int] {
            Expr::Starred(x) => {
                steady_expr(s, *x.value);
                steady_gather_runs(s.expr(*x.value), v, i + 1, 0);
            },
            _ => {
                let one = s.expr(v[i as int]);
                let built = one.emit(Instruction::BuildTuple { size: (run + 1) as u32 });
                steady_expr(s, v[i as int]);
                steady_gather_runs(one, v, i + 1, run + 1);
                steady_gather_runs(built, v, i + 1, 0);
            },
        }
    }
}

#[verifier::spinoff_prover]
proof fn steady_call(s: State, x: ExprCall)
    ensures
        steady(s, s.call(x)),
    decreases x, 0nat, 0nat,
{
    broadcast use group_steady_steps;

    reveal(State::call);
    reveal(State::expr);
    reveal(State::call_arguments);
    match *x.func {
        Expr::Attribute(f) => {
            let t = s.expr(*f.value);
            let u = t.intern_name(f.attr@).emit(
                Instruction::LoadMethod { idx: t.name_index(f.attr@) },
            );
            steady_expr(s, *f.value);
            steady_call_arguments(u, 0, x.arguments);
        },
        _ => {
            steady_expr(s, *x.func);
            steady_call_arguments(s.expr(*x.func), 0, x.arguments);
        },
    }
}

#[verifier::spinoff_prover]
proof fn steady_call_arguments(s: State, before: u32, a: Arguments)
    ensures
        steady(s, s.call_arguments(before, a)),
    decreases a, 0nat, 0nat,
{
    broadcast use group_steady_steps;

    reveal(State::call_arguments);
    reveal(State::gather);
    reveal(State::pass_keywords);
    let t = s.gather(before, a.args@).check_keywords(a.keywords@, 0);
    steady_gather(s, before, a.args@);
    steady_pass_keywords(
        t,
        first_star(a.args@, 0) is Some,
        gathered(before, a.args@) as u32,
        a.keywords@,
    );
}

#[verifier::spinoff_prover]
proof fn steady_pass_keywords(s: State, unpack: bool, size: u32, keywords: Seq<Keyword>)
    ensures
        steady(s, s.pass_keywords(unpack, size, keywords)),
    decreases keywords, 2nat, 0nat,
{
    broadcast use group_steady_steps;

    reveal(State::pass_keywords);
    reveal(State::keywords);
    reveal(State::keyword_values);
    let t = s.emit(
        if unpack {
            Instruction::BuildTupleUnpack { size }
        } else {
            Instruction::BuildTuple { size }
        },
    );
    steady_keywords(t, keywords);
    steady_keyword_values(s, keywords, 0);
}

#[verifier::spinoff_prover]
proof fn steady_keyword_values(s: State, keywords: Seq<Keyword>, i: nat)
    ensures
        steady(s, s.keyword_values(keywords, i)),
    decreases keywords, 0nat, keywords.len() - i,
{
    broadcast use group_steady_steps;

    reveal(State::keyword_values);
    reveal(State::expr);
    if i < keywords.len() {
        steady_expr(s, keywords[i as int].value);
        steady_keyword_values(s.expr(keywords[i as int].value), keywords, i + 1);
    }
}

#[verifier::spinoff_prover]
proof fn steady_keywords(s: State, keywords: Seq<Keyword>)
    ensures
        steady(s, s.keywords(keywords)),
    decreases keywords, 1nat, 0nat,
{
    broadcast use group_steady_steps;

    reveal(State::keywords);
    reveal(State::keyword_runs);
    steady_keyword_runs(s, keywords, 0, 0);
}

#[verifier::spinoff_prover]
proof fn steady_keyword_runs(s: State, keywords: Seq<Keyword>, i: nat, run: nat)
    ensures
        steady(s, s.keyword_runs(keywords, i, run)),
    decreases keywords, 0nat, keywords.len() - i,
{
    broadcast use group_steady_steps;

    reveal(State::keyword_runs);
    reveal(State::expr);
    if i < keywords.len() {
        let value = keywords[i as int].value;
        match keywords[i as int].arg {
            None => {
                steady_expr(s, value);
                steady_keyword_runs(s.expr(value), keywords, i + 1, 0);
            },
            Some(name) => {
                let named = s.load_const(ConstantModel::Str(name@));
                let one = named.to(named.expr(value));
                let built = one.emit(Instruction::BuildMap { size: (run + 1) as u32 });
                steady_expr(named, value);
                steady_keyword_runs(one, keywords, i + 1, run + 1);
                steady_keyword_runs(built, keywords, i + 1, 0);
            },
        }
    }
}

/// To store a value in a target leaves alone what belongs to the whole module.
#[verifier::spinoff_prover]
pub proof fn steady_store(s: State, e: Expr)
    ensures
        steady(s, s.store(e)),
    decreases e, 2nat, 0nat,
{
    broadcast use group_steady_steps;

    reveal(State::store);
    reveal(State::expr);
    reveal(State::store_elements);
    reveal(State::unpack);
    match e {
        Expr::Subscript(x) => {
            steady_expr(s, *x.value);
            steady_expr(s.expr(*x.value), *x.slice);
        },
        Expr::Attribute(x) => {
            steady_expr(s.check_name(x.attr@, NameUsage::Store), *x.value);
        },
        Expr::List(x) => {
            steady_store_elements(s.unpack(x.elts@, x.range), x.elts@, 0);
        },
        Expr::Tuple(x) => {
            steady_store_elements(s.unpack(x.elts@, x.range), x.elts@, 0);
        },
        _ => {},
    }
}

#[verifier::spinoff_prover]
proof fn steady_store_elements(s: State, v: Seq<Expr>, i: nat)
    ensures
        steady(s, s.store_elements(v, i)),
    decreases v, 0nat, v.len() - i,
{
    broadcast use group_steady_steps;

    reveal(State::store_elements);
    reveal(State::store);
    if i < v.len() {
        let target = match v[i as int] {
            Expr::Starred(x) => *x.value,
            e => e,
        };
        steady_store(s, target);
        steady_store_elements(s.store(target), v, i + 1);
    }
}

#[verifier::spinoff_prover]
proof fn steady_defaults(s: State, p: Seq<ParameterWithDefault>, i: nat)
    ensures
        steady(s, s.defaults(p, i)),
    decreases p, 0nat, p.len() - i,
{
    broadcast use group_steady_steps;

    reveal(State::defaults);
    reveal(State::expr);
    if i < p.len() {
        match p[i as int].default {
            Some(e) => {
                steady_expr(s, *e);
                steady_defaults(s.expr(*e), p, i + 1);
            },
            None => steady_defaults(s, p, i + 1),
        }
    }
}

#[verifier::spinoff_prover]
proof fn steady_keyword_defaults(s: State, p: Seq<ParameterWithDefault>, i: nat)
    ensures
        steady(s, s.keyword_defaults(p, i)),
    decreases p, 0nat, p.len() - i,
{
    broadcast use group_steady_steps;

    reveal(State::keyword_defaults);
    reveal(State::expr);
    if i < p.len() {
        match p[i as int].default {
            Some(e) => {
                let named = s.load_const(ConstantModel::Str(p[i as int].parameter.name@));
                steady_expr(named, *e);
                steady_keyword_defaults(named.expr(*e), p, i + 1);
            },
            None => steady_keyword_defaults(s, p, i + 1),
        }
    }
}

#[verifier::spinoff_prover]
proof fn steady_enter_function(s: State, name: Seq<char>, p: Parameters)
    ensures
        steady(s, s.enter_function(name, p)),
    decreases p, 0nat, 0nat,
{
    broadcast use group_steady_steps;

    reveal(State::enter_function);
    reveal(State::defaults);
    reveal(State::keyword_defaults);
    let n = positional_defaults(p);
    let t = s.defaults(p.posonlyargs@, 0);
    let u = t.to(t.defaults(p.args@, 0));
    let v = if n == 0 {
        u
    } else if n > u32::MAX {
        u.stuck()
    } else {
        u.emit(Instruction::BuildTuple { size: n as u32 })
    };
    steady_defaults(s, p.posonlyargs@, 0);
    steady_defaults(t, p.args@, 0);
    steady_keyword_defaults(v, p.kwonlyargs@, 0);
}

#[verifier::spinoff_prover]
proof fn steady_lambda(s: State, x: ExprLambda)
    ensures
        steady(s, s.lambda(x)),
    decreases x, 0nat, 0nat,
{
    broadcast use group_steady_steps;

    reveal(State::lambda);
    reveal(State::enter_function);
    reveal(State::expr);
    let name = "<lambda>"@;
    if let Some(p) = x.parameters {
        steady_enter_function(s, name, *p);
    }
    let entered = (match x.parameters {
        Some(p) => s.enter_function(name, *p),
        None => s.push_code(function_flags(), 0, 0, 0, name),
    }).set_ctx(s.function_ctx(false)).insert_const(ConstantModel::NoneValue);
    steady_expr(entered, *x.body);
}

#[verifier::spinoff_prover]
proof fn steady_comprehension_element(s: State, e: Expr)
    ensures
        steady(s, s.comprehension_element(e)),
    decreases e, 4nat, 0nat,
{
    broadcast use group_steady_steps;

    reveal(State::comprehension_element);
    reveal(State::expr);
    steady_expr(s, e);
}

#[verifier::spinoff_prover]
proof fn steady_comprehension_value(s: State, e: Expr)
    ensures
        steady(s, s.comprehension_value(e)),
    decreases e, 0nat, 0nat,
{
    broadcast use group_steady_steps;

    reveal(State::comprehension_value);
    reveal(State::comprehension_element);
    reveal(State::expr);
    match e {
        Expr::ListComp(x) => steady_comprehension_element(s, *x.elt),
        Expr::SetComp(x) => steady_comprehension_element(s, *x.elt),
        Expr::DictComp(x) => {
            steady_expr(s, *x.key);
            steady_expr(s.expr(*x.key), *x.value);
        },
        Expr::Generator(x) => steady_comprehension_element(s, *x.elt),
        _ => {},
    }
}

#[verifier::spinoff_prover]
proof fn steady_comprehension_loop(
    s: State,
    x: Comprehension,
    first: Option<u32>,
    loop_block: BlockIdx,
    after: BlockIdx,
)
    ensures
        steady(s, s.comprehension_loop(x, first, loop_block, after)),
    decreases x, 0nat, 0nat,
{
    broadcast use group_steady_steps;

    reveal(State::comprehension_loop);
    reveal(State::expr);
    reveal(State::store);
    reveal(State::jump_ifs);
    steady_expr(s, x.iter);
    let t = (match first {
        Some(arg0) => s.emit(Instruction::LoadFast(arg0)),
        None => s.expr(x.iter).emit(
            if x.is_async {
                Instruction::GetAIter
            } else {
                Instruction::GetIter
            },
        ),
    }).switch_to(loop_block);
    let u = if x.is_async {
        t.emit(Instruction::SetupExcept { handler: after }).emit(Instruction::GetANext).load_const(
            ConstantModel::NoneValue,
        ).emit(Instruction::YieldFrom)
    } else {
        t.emit(Instruction::ForIter { target: after })
    };
    steady_store(u, x.target);
    let v = if x.is_async {
        u.store(x.target).emit(Instruction::PopBlock)
    } else {
        u.store(x.target)
    };
    steady_jump_ifs(v, x.ifs@, 0, x.ifs@.len(), false, loop_block);
}

#[verifier::spinoff_prover]
proof fn steady_comprehension_loops(s: State, e: Expr, g: Seq<Comprehension>, i: nat, arg0: u32)
    ensures
        steady(s, s.comprehension_loops(e, g, i, arg0)),
    decreases e, 1nat, g.len() - i,
{
    broadcast use group_steady_steps;

    reveal(State::comprehension_loops);
    reveal(State::comprehension_value);
    reveal(State::comprehension_loop);
    reveal(State::comprehension_collect);
    if g == comprehension_generators(e) {
        if i >= g.len() {
            steady_comprehension_value(s, e);
        } else {
            let loop_block = s.fresh();
            let t = s.new_block();
            let after = t.fresh();
            let u = t.new_block();
            let first = if i == 0 {
                Some(arg0)
            } else {
                None
            };
            steady_comprehension_loop(u, g[i as int], first, loop_block, after);
            let v = u.comprehension_loop(g[i as int], first, loop_block, after);
            steady_comprehension_loops(v, e, g, i + 1, arg0);
        }
    }
}

#[verifier::spinoff_prover]
proof fn steady_comprehension_function(s: State, e: Expr, is_async: bool)
    ensures
        steady(s, s.comprehension_function(e, is_async)),
    decreases e, 2nat, 0nat,
{
    broadcast use group_steady_steps;

    reveal(State::comprehension_function);
    reveal(State::comprehension_loops);
    let ty = comprehension_type(e);
    let t = s.push_code(
        CodeFlags { is_coroutine: is_async, ..function_flags() },
        1,
        1,
        0,
        comprehension_name(ty),
    );
    let named = t.intern_varname(".0"@);
    let u = match ty {
        ComprehensionType::List => named.emit(Instruction::BuildList { size: 0 }),
        ComprehensionType::SetDisplay => named.emit(Instruction::BuildSet { size: 0 }),
        ComprehensionType::Dict => named.emit(Instruction::BuildMap { size: 0 }),
        ComprehensionType::Generator => named,
    };
    steady_comprehension_loops(u, e, comprehension_generators(e), 0, t.varname_index(".0"@));
}

#[verifier::spinoff_prover]
proof fn steady_comprehension(s: State, e: Expr)
    ensures
        steady(s, s.comprehension(e)),
    decreases e, 2nat, 1nat,
{
    broadcast use group_steady_steps;

    reveal(State::comprehension);
    reveal(State::comprehension_function);
    reveal(State::expr);
    reveal(State::call_comprehension);
    let g = comprehension_generators(e);
    let ty = comprehension_type(e);
    let is_async = comprehension_awaits(e, s.ctx.func);
    let within = s.set_ctx(s.function_ctx(is_async));
    if g.len() > 0 {
        let t = within.comprehension_function(e, is_async).close_function(
            s.ctx,
            comprehension_name(ty),
            plain_function(),
        );
        steady_comprehension_function(within, e, is_async);
        steady_expr(t, g[0].iter);
    }
}

#[verifier::spinoff_prover]
proof fn steady_fstring(s: State, x: FStringValue)
    ensures
        steady(s, s.fstring(x)),
    decreases x, 0nat, 0nat,
{
    broadcast use group_steady_steps;

    reveal(State::fstring);
    reveal(State::fstring_parts);
    steady_fstring_parts(s, x.parts@, 0);
}

#[verifier::spinoff_prover]
proof fn steady_fstring_parts(s: State, v: Seq<FStringPart>, i: nat)
    ensures
        steady(s, s.fstring_parts(v, i)),
    decreases v, 0nat, v.len() - i,
{
    broadcast use group_steady_steps;

    reveal(State::fstring_parts);
    reveal(State::fstring_elements);
    if i < v.len() {
        match v[i as int] {
            FStringPart::Literal(text) => {
                steady_fstring_parts(s.load_const(ConstantModel::Str(text@)), v, i + 1);
            },
            FStringPart::FString(f) => {
                steady_fstring_elements(s, f.elements@);
                steady_fstring_parts(s.fstring_elements(f.elements@), v, i + 1);
            },
        }
    }
}

#[verifier::spinoff_prover]
proof fn steady_fstring_elements(s: State, v: Seq<FStringElement>)
    ensures
        steady(s, s.fstring_elements(v)),
    decreases v, 1nat, 0nat,
{
    broadcast use group_steady_steps;

    reveal(State::fstring_elements);
    reveal(State::fstring_element_values);
    steady_fstring_element_values(s, v, 0);
}

#[verifier::spinoff_prover]
proof fn steady_fstring_element_values(s: State, v: Seq<FStringElement>, i: nat)
    ensures
        steady(s, s.fstring_element_values(v, i)),
    decreases v, 0nat, v.len() - i,
{
    broadcast use group_steady_steps;

    reveal(State::fstring_element_values);
    reveal(State::fstring_expression);
    if i < v.len() {
        match v[i as int] {
            FStringElement::Literal(text) => {
                steady_fstring_element_values(s.load_const(ConstantModel::Str(text@)), v, i + 1);
            },
            FStringElement::Expression(x) => {
                steady_fstring_expression(s, x);
                steady_fstring_element_values(s.fstring_expression(x), v, i + 1);
            },
        }
    }
}

#[verifier::spinoff_prover]
proof fn steady_fstring_expression(s: State, x: FStringExpressionElement)
    ensures
        steady(s, s.fstring_expression(x)),
    decreases x, 0nat, 0nat,
{
    broadcast use group_steady_steps;

    reveal(State::fstring_expression);
    reveal(State::fstring_elements);
    reveal(State::expr);
    reveal(State::debug_text);
    let t = s.debug_text(x.debug_text);
    match x.format_spec {
        Some(spec) => {
            steady_fstring_elements(t, spec.elements@);
            steady_expr(t.fstring_elements(spec.elements@), *x.expression);
        },
        None => {
            steady_expr(t.load_const(ConstantModel::Str(""@)), *x.expression);
        },
    }
}

} // verus!
