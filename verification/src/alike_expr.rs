//! Expressions make no difference between states that are the same but for source locations.
use vstd::prelude::*;

use crate::alike::{alike, group_alike_steps};
use crate::ast::{
    expr_range, Arguments, BoolOp, CmpOp, Comprehension, DictItem, Expr, ExprAttribute, ExprAwait,
    ExprBinOp, ExprBoolOp, ExprCall, ExprCompare, ExprDict, ExprIf, ExprLambda, ExprNamed,
    ExprSlice, ExprSubscript, ExprUnaryOp, ExprYield, ExprYieldFrom, FStringElement,
    FStringExpressionElement, FStringPart, FStringValue, Keyword, ParameterWithDefault, Parameters,
    UnaryOp,
};
use crate::bytecode::{BlockIdx, CodeFlags, ConstantModel, Instruction};
use crate::expr_code::{
    comparison_code, comprehension_awaits, comprehension_generators, comprehension_name,
    comprehension_type, first_star, function_flags, gathered, plain_function, positional_defaults,
    short_circuit, ComprehensionType, Display,
};
use crate::state::{NameUsage, State};

verus! {

/// An expression makes no difference between states that are alike.
#[verifier::spinoff_prover]
pub proof fn alike_expr(s: State, s2: State, e: Expr)
    requires
        alike(s, s2),
    ensures
        alike(s.expr(e), s2.expr(e)),
    decreases e, 3nat, 0nat,
{
    broadcast use group_alike_steps;

    reveal(State::expr);
    reveal(State::call);
    reveal(State::bool_op);
    reveal(State::bin_op);
    reveal(State::subscript);
    reveal(State::unary_op);
    reveal(State::attribute);
    reveal(State::compare);
    reveal(State::display);
    reveal(State::dict);
    reveal(State::slice);
    reveal(State::yield_value);
    reveal(State::await_value);
    reveal(State::yield_from);
    reveal(State::lambda);
    reveal(State::comprehension);
    reveal(State::conditional);
    reveal(State::named);
    reveal(State::fstring);
    reveal(State::literal);
    let t = s.set_range(expr_range(e));
    let t2 = s2.set_range(expr_range(e));
    match e {
        Expr::Call(x) => alike_call(t, t2, x),
        Expr::BoolOp(x) => alike_bool_op(t, t2, x),
        Expr::BinOp(x) => alike_bin_op(t, t2, x),
        Expr::Subscript(x) => alike_subscript(t, t2, x),
        Expr::UnaryOp(x) => alike_unary_op(t, t2, x),
        Expr::Attribute(x) => alike_attribute(t, t2, x),
        Expr::Compare(x) => alike_compare(t, t2, x),
        Expr::List(x) => alike_display(t, t2, x.elts@, Display::List),
        Expr::Tuple(x) => alike_display(t, t2, x.elts@, Display::Tuple),
        Expr::SetDisplay(x) => alike_display(t, t2, x.elts@, Display::SetDisplay),
        Expr::Dict(x) => alike_dict(t, t2, x),
        Expr::Slice(x) => alike_slice(t, t2, x),
        Expr::Yield(x) => alike_yield_value(t, t2, x),
        Expr::Await(x) => alike_await_value(t, t2, x),
        Expr::YieldFrom(x) => alike_yield_from(t, t2, x),
        Expr::Lambda(x) => alike_lambda(t, t2, x),
        Expr::ListComp(_) | Expr::SetComp(_) | Expr::DictComp(_) | Expr::Generator(
            _,
        ) => alike_comprehension(t, t2, e),
        Expr::If(x) => alike_conditional(t, t2, x),
        Expr::Named(x) => alike_named(t, t2, x),
        Expr::FString(x) => alike_fstring(t, t2, x.value),
        _ => {},
    }
}

#[verifier::spinoff_prover]
proof fn alike_bin_op(s: State, s2: State, x: ExprBinOp)
    requires
        alike(s, s2),
    ensures
        alike(s.bin_op(x), s2.bin_op(x)),
    decreases x, 0nat, 0nat,
{
    broadcast use group_alike_steps;

    reveal(State::bin_op);
    reveal(State::expr);
    alike_expr(s, s2, *x.left);
    alike_expr(s.expr(*x.left), s2.expr(*x.left), *x.right);
}

#[verifier::spinoff_prover]
proof fn alike_subscript(s: State, s2: State, x: ExprSubscript)
    requires
        alike(s, s2),
    ensures
        alike(s.subscript(x), s2.subscript(x)),
    decreases x, 0nat, 0nat,
{
    broadcast use group_alike_steps;

    reveal(State::subscript);
    reveal(State::expr);
    alike_expr(s, s2, *x.value);
    alike_expr(s.expr(*x.value), s2.expr(*x.value), *x.slice);
}

#[verifier::spinoff_prover]
proof fn alike_unary_op(s: State, s2: State, x: ExprUnaryOp)
    requires
        alike(s, s2),
    ensures
        alike(s.unary_op(x), s2.unary_op(x)),
    decreases x, 0nat, 0nat,
{
    broadcast use group_alike_steps;

    reveal(State::unary_op);
    reveal(State::expr);
    alike_expr(s, s2, *x.operand);
}

#[verifier::spinoff_prover]
proof fn alike_attribute(s: State, s2: State, x: ExprAttribute)
    requires
        alike(s, s2),
    ensures
        alike(s.attribute(x), s2.attribute(x)),
    decreases x, 0nat, 0nat,
{
    broadcast use group_alike_steps;

    reveal(State::attribute);
    reveal(State::expr);
    alike_expr(s, s2, *x.value);
}

#[verifier::spinoff_prover]
proof fn alike_display(s: State, s2: State, elements: Seq<Expr>, ty: Display)
    requires
        alike(s, s2),
    ensures
        alike(s.display(elements, ty), s2.display(elements, ty)),
    decreases elements, 2nat, 0nat,
{
    broadcast use group_alike_steps;

    reveal(State::display);
    reveal(State::gather);
    alike_gather(s, s2, 0, elements);
}

#[verifier::spinoff_prover]
proof fn alike_yield_value(s: State, s2: State, x: ExprYield)
    requires
        alike(s, s2),
    ensures
        alike(s.yield_value(x), s2.yield_value(x)),
    decreases x, 0nat, 0nat,
{
    broadcast use group_alike_steps;

    reveal(State::yield_value);
    reveal(State::bound);
    alike_bound(s.mark_generator(), s2.mark_generator(), x.value);
}

#[verifier::spinoff_prover]
proof fn alike_await_value(s: State, s2: State, x: ExprAwait)
    requires
        alike(s, s2),
    ensures
        alike(s.await_value(x), s2.await_value(x)),
    decreases x, 0nat, 0nat,
{
    broadcast use group_alike_steps;

    reveal(State::await_value);
    reveal(State::expr);
    alike_expr(s, s2, *x.value);
}

#[verifier::spinoff_prover]
proof fn alike_yield_from(s: State, s2: State, x: ExprYieldFrom)
    requires
        alike(s, s2),
    ensures
        alike(s.yield_from(x), s2.yield_from(x)),
    decreases x, 0nat, 0nat,
{
    broadcast use group_alike_steps;

    reveal(State::yield_from);
    reveal(State::expr);
    alike_expr(s.mark_generator(), s2.mark_generator(), *x.value);
}

#[verifier::spinoff_prover]
proof fn alike_named(s: State, s2: State, x: ExprNamed)
    requires
        alike(s, s2),
    ensures
        alike(s.named(x), s2.named(x)),
    decreases x, 0nat, 0nat,
{
    broadcast use group_alike_steps;

    reveal(State::named);
    reveal(State::expr);
    reveal(State::store);
    let value = s.expr(*x.value);
    let value2 = s2.expr(*x.value);
    alike_expr(s, s2, *x.value);
    alike_store(value.emit(Instruction::Duplicate), value2.emit(Instruction::Duplicate), *x.target);
}

#[verifier::spinoff_prover]
proof fn alike_exprs(s: State, s2: State, v: Seq<Expr>, i: nat)
    requires
        alike(s, s2),
    ensures
        alike(s.exprs(v, i), s2.exprs(v, i)),
    decreases v, 0nat, v.len() - i,
{
    broadcast use group_alike_steps;

    reveal(State::exprs);
    reveal(State::expr);
    if i < v.len() {
        alike_expr(s, s2, v[i as int]);
        alike_exprs(s.expr(v[i as int]), s2.expr(v[i as int]), v, i + 1);
    }
}

#[verifier::spinoff_prover]
proof fn alike_bound(s: State, s2: State, e: Option<Box<Expr>>)
    requires
        alike(s, s2),
    ensures
        alike(s.bound(e), s2.bound(e)),
    decreases e, 0nat, 0nat,
{
    broadcast use group_alike_steps;

    reveal(State::bound);
    reveal(State::expr);
    if let Some(e) = e {
        alike_expr(s, s2, *e);
    }
}

#[verifier::spinoff_prover]
proof fn alike_slice(s: State, s2: State, x: ExprSlice)
    requires
        alike(s, s2),
    ensures
        alike(s.slice(x), s2.slice(x)),
    decreases x, 0nat, 0nat,
{
    broadcast use group_alike_steps;

    reveal(State::slice);
    reveal(State::bound);
    reveal(State::expr);
    let lower = s.bound(x.lower);
    let lower2 = s2.bound(x.lower);
    alike_bound(s, s2, x.lower);
    alike_bound(lower, lower2, x.upper);
    if let Some(step) = x.step {
        alike_expr(lower.bound(x.upper), lower2.bound(x.upper), *step);
    }
}

#[verifier::spinoff_prover]
proof fn alike_conditional(s: State, s2: State, x: ExprIf)
    requires
        alike(s, s2),
    ensures
        alike(s.conditional(x), s2.conditional(x)),
    decreases x, 0nat, 0nat,
{
    broadcast use group_alike_steps;

    reveal(State::conditional);
    reveal(State::jump_if);
    reveal(State::expr);
    let else_block = s.fresh();
    let else_block2 = s2.fresh();
    let t = s.new_block();
    let t2 = s2.new_block();
    let after = t.fresh();
    let after2 = t2.fresh();
    let u = t.new_block();
    let u2 = t2.new_block();
    let tested = u.jump_if(*x.test, false, else_block);
    let tested2 = u2.jump_if(*x.test, false, else_block2);
    let first = tested.expr(*x.body).emit(Instruction::Jump { target: after }).switch_to(
        else_block,
    );
    let first2 = tested2.expr(*x.body).emit(Instruction::Jump { target: after2 }).switch_to(
        else_block2,
    );
    alike_jump_if(u, u2, *x.test, false, else_block);
    alike_expr(tested, tested2, *x.body);
    alike_expr(first, first2, *x.orelse);
}

#[verifier::spinoff_prover]
proof fn alike_bool_op(s: State, s2: State, x: ExprBoolOp)
    requires
        alike(s, s2),
    ensures
        alike(s.bool_op(x), s2.bool_op(x)),
    decreases x, 0nat, 0nat,
{
    broadcast use group_alike_steps;

    reveal(State::bool_op);
    reveal(State::bool_values);
    reveal(State::expr);
    let after = s.fresh();
    let after2 = s2.fresh();
    let t = s.new_block();
    let t2 = s2.new_block();
    if x.values@.len() > 0 {
        alike_bool_values(t, t2, x.values@, 0, x.op, after);
        alike_expr(
            t.bool_values(x.values@, 0, x.op, after),
            t2.bool_values(x.values@, 0, x.op, after2),
            x.values@[x.values@.len() - 1],
        );
    }
}

#[verifier::spinoff_prover]
proof fn alike_bool_values(s: State, s2: State, v: Seq<Expr>, i: nat, op: BoolOp, after: BlockIdx)
    requires
        alike(s, s2),
    ensures
        alike(s.bool_values(v, i, op, after), s2.bool_values(v, i, op, after)),
    decreases v, 0nat, v.len() - i,
{
    broadcast use group_alike_steps;

    reveal(State::bool_values);
    reveal(State::expr);
    if i + 1 < v.len() {
        let one = s.expr(v[i as int]).emit(short_circuit(op, after));
        let one2 = s2.expr(v[i as int]).emit(short_circuit(op, after));
        alike_expr(s, s2, v[i as int]);
        alike_bool_values(one, one2, v, i + 1, op, after);
    }
}

#[verifier::spinoff_prover]
pub proof fn alike_jump_if(s: State, s2: State, e: Expr, condition: bool, target: BlockIdx)
    requires
        alike(s, s2),
    ensures
        alike(s.jump_if(e, condition, target), s2.jump_if(e, condition, target)),
    decreases e, 4nat, 0nat,
{
    broadcast use group_alike_steps;

    reveal(State::jump_if);
    reveal(State::jump_ifs);
    reveal(State::expr);
    match e {
        Expr::BoolOp(x) => if (x.op == BoolOp::And) == condition {
            let end = s.fresh();
            let end2 = s2.fresh();
            let t = s.new_block();
            let t2 = s2.new_block();
            if x.values@.len() > 0 {
                let last = x.values@.len() - 1;
                let u = t.jump_ifs(x.values@, 0, last as nat, !condition, end);
                let u2 = t2.jump_ifs(x.values@, 0, last as nat, !condition, end2);
                alike_jump_ifs(t, t2, x.values@, 0, last as nat, !condition, end);
                alike_jump_if(u, u2, x.values@[last], condition, target);
            }
        } else {
            alike_jump_ifs(s, s2, x.values@, 0, x.values@.len(), condition, target);
        },
        Expr::UnaryOp(x) => if x.op == UnaryOp::Not {
            alike_jump_if(s, s2, *x.operand, !condition, target);
        } else {
            alike_expr(s, s2, e);
        },
        _ => alike_expr(s, s2, e),
    }
}

#[verifier::spinoff_prover]
proof fn alike_jump_ifs(
    s: State,
    s2: State,
    v: Seq<Expr>,
    i: nat,
    n: nat,
    condition: bool,
    target: BlockIdx,
)
    requires
        alike(s, s2),
    ensures
        alike(s.jump_ifs(v, i, n, condition, target), s2.jump_ifs(v, i, n, condition, target)),
    decreases v, 0nat, n - i,
{
    broadcast use group_alike_steps;

    reveal(State::jump_ifs);
    reveal(State::jump_if);
    if i < n && n <= v.len() {
        alike_jump_if(s, s2, v[i as int], condition, target);
        alike_jump_ifs(
            s.jump_if(v[i as int], condition, target),
            s2.jump_if(v[i as int], condition, target),
            v,
            i + 1,
            n,
            condition,
            target,
        );
    }
}

#[verifier::spinoff_prover]
proof fn alike_compare(s: State, s2: State, x: ExprCompare)
    requires
        alike(s, s2),
    ensures
        alike(s.compare(x), s2.compare(x)),
    decreases x, 0nat, 0nat,
{
    broadcast use group_alike_steps;

    reveal(State::compare);
    reveal(State::compare_middle);
    reveal(State::expr);
    let n = x.ops@.len();
    if n > 0 && x.comparators@.len() == n {
        let t = s.expr(*x.left);
        let t2 = s2.expr(*x.left);
        alike_expr(s, s2, *x.left);
        if n == 1 {
            alike_expr(t, t2, x.comparators@[0]);
        } else {
            let break_block = t.fresh();
            let break_block2 = t2.fresh();
            let u = t.new_block().new_block();
            let u2 = t2.new_block().new_block();
            let v = u.compare_middle(x.ops@, x.comparators@, 0, break_block);
            let v2 = u2.compare_middle(x.ops@, x.comparators@, 0, break_block2);
            alike_compare_middle(u, u2, x.ops@, x.comparators@, 0, break_block);
            alike_expr(v, v2, x.comparators@[n - 1]);
        }
    }
}

#[verifier::spinoff_prover]
proof fn alike_compare_middle(
    s: State,
    s2: State,
    ops: Seq<CmpOp>,
    v: Seq<Expr>,
    i: nat,
    break_block: BlockIdx,
)
    requires
        alike(s, s2),
    ensures
        alike(s.compare_middle(ops, v, i, break_block), s2.compare_middle(ops, v, i, break_block)),
    decreases v, 0nat, v.len() - i,
{
    broadcast use group_alike_steps;

    reveal(State::compare_middle);
    reveal(State::expr);
    if i + 1 < v.len() {
        let one = s.expr(v[i as int]).emit(Instruction::Duplicate).emit(
            Instruction::Rotate3,
        ).emit(
            comparison_code(ops[i as int]),
        ).emit(Instruction::JumpIfFalseOrPop { target: break_block });
        let one2 = s2.expr(v[i as int]).emit(Instruction::Duplicate).emit(
            Instruction::Rotate3,
        ).emit(
            comparison_code(ops[i as int]),
        ).emit(Instruction::JumpIfFalseOrPop { target: break_block });
        alike_expr(s, s2, v[i as int]);
        alike_compare_middle(one, one2, ops, v, i + 1, break_block);
    }
}

#[verifier::spinoff_prover]
proof fn alike_dict(s: State, s2: State, x: ExprDict)
    requires
        alike(s, s2),
    ensures
        alike(s.dict(x), s2.dict(x)),
    decreases x, 0nat, 0nat,
{
    broadcast use group_alike_steps;

    reveal(State::dict);
    reveal(State::dict_items);
    alike_dict_items(s, s2, x.items@, 0, 0, false);
}

#[verifier::spinoff_prover]
proof fn alike_dict_items(s: State, s2: State, items: Seq<DictItem>, i: nat, run: nat, made: bool)
    requires
        alike(s, s2),
    ensures
        alike(s.dict_items(items, i, run, made), s2.dict_items(items, i, run, made)),
    decreases items, 0nat, items.len() - i,
{
    broadcast use group_alike_steps;

    reveal(State::dict_items);
    reveal(State::expr);
    if i < items.len() {
        let value = items[i as int].value;
        match items[i as int].key {
            Some(key) => {
                let k = s.expr(key);
                let k2 = s2.expr(key);
                let v = k.to(k.expr(value));
                let v2 = k2.to(k2.expr(value));
                alike_expr(s, s2, key);
                alike_expr(k, k2, value);
                alike_dict_items(v, v2, items, i + 1, run + 1, made);
            },
            None => {
                let t = s.dict_run(run, made);
                let t2 = s2.dict_run(run, made);
                let u = t.to(t.expr(value).emit(Instruction::DictUpdate));
                let u2 = t2.to(t2.expr(value).emit(Instruction::DictUpdate));
                alike_expr(t, t2, value);
                alike_dict_items(u, u2, items, i + 1, 0, true);
            },
        }
    }
}

#[verifier::spinoff_prover]
proof fn alike_gather(s: State, s2: State, before: u32, v: Seq<Expr>)
    requires
        alike(s, s2),
    ensures
        alike(s.gather(before, v), s2.gather(before, v)),
    decreases v, 1nat, 0nat,
{
    broadcast use group_alike_steps;

    reveal(State::gather);
    reveal(State::gather_runs);
    reveal(State::exprs);
    alike_gather_runs(
        s.emit(Instruction::BuildTuple { size: before }),
        s2.emit(Instruction::BuildTuple { size: before }),
        v,
        0,
        0,
    );
    alike_gather_runs(s, s2, v, 0, 0);
    alike_exprs(s, s2, v, 0);
}

#[verifier::spinoff_prover]
proof fn alike_gather_runs(s: State, s2: State, v: Seq<Expr>, i: nat, run: nat)
    requires
        alike(s, s2),
    ensures
        alike(s.gather_runs(v, i, run), s2.gather_runs(v, i, run)),
    decreases v, 0nat, v.len() - i,
{
    broadcast use group_alike_steps;

    reveal(State::gather_runs);
    reveal(State::expr);
    if i < v.len() {
        match v[i as int] {
            Expr::Starred(x) => {
                alike_expr(s, s2, *x.value);
                alike_gather_runs(s.expr(*x.value), s2.expr(*x.value), v, i + 1, 0);
            },
            _ => {
                let one = s.expr(v[i as int]);
                let one2 = s2.expr(v[i as int]);
                let built = one.emit(Instruction::BuildTuple { size: (run + 1) as u32 });
                let built2 = one2.emit(Instruction::BuildTuple { size: (run + 1) as u32 });
                alike_expr(s, s2, v[i as int]);
                alike_gather_runs(one, one2, v, i + 1, run + 1);
                alike_gather_runs(built, built2, v, i + 1, 0);
            },
        }
    }
}

#[verifier::spinoff_prover]
proof fn alike_call(s: State, s2: State, x: ExprCall)
    requires
        alike(s, s2),
    ensures
        alike(s.call(x), s2.call(x)),
    decreases x, 0nat, 0nat,
{
    broadcast use group_alike_steps;

    reveal(State::call);
    reveal(State::expr);
    reveal(State::call_arguments);
    match *x.func {
        Expr::Attribute(f) => {
            let t = s.expr(*f.value);
            let t2 = s2.expr(*f.value);
            let u = t.intern_name(f.attr@).emit(
                Instruction::LoadMethod { idx: t.name_index(f.attr@) },
            );
            let u2 = t2.intern_name(f.attr@).emit(
                Instruction::LoadMethod { idx: t2.name_index(f.attr@) },
            );
            alike_expr(s, s2, *f.value);
            alike_call_arguments(u, u2, 0, x.arguments);
        },
        _ => {
            alike_expr(s, s2, *x.func);
            alike_call_arguments(s.expr(*x.func), s2.expr(*x.func), 0, x.arguments);
        },
    }
}

#[verifier::spinoff_prover]
pub proof fn alike_call_arguments(s: State, s2: State, before: u32, a: Arguments)
    requires
        alike(s, s2),
    ensures
        alike(s.call_arguments(before, a), s2.call_arguments(before, a)),
    decreases a, 0nat, 0nat,
{
    broadcast use group_alike_steps;

    reveal(State::call_arguments);
    reveal(State::gather);
    reveal(State::pass_keywords);
    let t = s.gather(before, a.args@).check_keywords(a.keywords@, 0);
    let t2 = s2.gather(before, a.args@).check_keywords(a.keywords@, 0);
    alike_gather(s, s2, before, a.args@);
    alike_pass_keywords(
        t,
        t2,
        first_star(a.args@, 0) is Some,
        gathered(before, a.args@) as u32,
        a.keywords@,
    );
}

#[verifier::spinoff_prover]
proof fn alike_pass_keywords(s: State, s2: State, unpack: bool, size: u32, keywords: Seq<Keyword>)
    requires
        alike(s, s2),
    ensures
        alike(s.pass_keywords(unpack, size, keywords), s2.pass_keywords(unpack, size, keywords)),
    decreases keywords, 2nat, 0nat,
{
    broadcast use group_alike_steps;

    reveal(State::pass_keywords);
    reveal(State::keywords);
    reveal(State::keyword_values);
    let t = s.emit(
        if unpack {
            Instruction::BuildTupleUnpack { size }
        } else {
            Instruction::BuildTuple { size }
        },
    );
    let t2 = s2.emit(
        if unpack {
            Instruction::BuildTupleUnpack { size }
        } else {
            Instruction::BuildTuple { size }
        },
    );
    alike_keywords(t, t2, keywords);
    alike_keyword_values(s, s2, keywords, 0);
}

#[verifier::spinoff_prover]
proof fn alike_keyword_values(s: State, s2: State, keywords: Seq<Keyword>, i: nat)
    requires
        alike(s, s2),
    ensures
        alike(s.keyword_values(keywords, i), s2.keyword_values(keywords, i)),
    decreases keywords, 0nat, keywords.len() - i,
{
    broadcast use group_alike_steps;

    reveal(State::keyword_values);
    reveal(State::expr);
    if i < keywords.len() {
        alike_expr(s, s2, keywords[i as int].value);
        alike_keyword_values(
            s.expr(keywords[i as int].value),
            s2.expr(keywords[i as int].value),
            keywords,
            i + 1,
        );
    }
}

#[verifier::spinoff_prover]
proof fn alike_keywords(s: State, s2: State, keywords: Seq<Keyword>)
    requires
        alike(s, s2),
    ensures
        alike(s.keywords(keywords), s2.keywords(keywords)),
    decreases keywords, 1nat, 0nat,
{
    broadcast use group_alike_steps;

    reveal(State::keywords);
    reveal(State::keyword_runs);
    alike_keyword_runs(s, s2, keywords, 0, 0);
}

#[verifier::spinoff_prover]
proof fn alike_keyword_runs(s: State, s2: State, keywords: Seq<Keyword>, i: nat, run: nat)
    requires
        alike(s, s2),
    ensures
        alike(s.keyword_runs(keywords, i, run), s2.keyword_runs(keywords, i, run)),
    decreases keywords, 0nat, keywords.len() - i,
{
    broadcast use group_alike_steps;

    reveal(State::keyword_runs);
    reveal(State::expr);
    if i < keywords.len() {
        let value = keywords[i as int].value;
        match keywords[i as int].arg {
            None => {
                alike_expr(s, s2, value);
                alike_keyword_runs(s.expr(value), s2.expr(value), keywords, i + 1, 0);
            },
            Some(name) => {
                let named = s.load_const(ConstantModel::Str(name@));
                let named2 = s2.load_const(ConstantModel::Str(name@));
                let one = named.to(named.expr(value));
                let one2 = named2.to(named2.expr(value));
                let built = one.emit(Instruction::BuildMap { size: (run + 1) as u32 });
                let built2 = one2.emit(Instruction::BuildMap { size: (run + 1) as u32 });
                alike_expr(named, named2, value);
                alike_keyword_runs(one, one2, keywords, i + 1, run + 1);
                alike_keyword_runs(built, built2, keywords, i + 1, 0);
            },
        }
    }
}

/// A target makes no difference between states that are alike.
#[verifier::spinoff_prover]
pub proof fn alike_store(s: State, s2: State, e: Expr)
    requires
        alike(s, s2),
    ensures
        alike(s.store(e), s2.store(e)),
    decreases e, 2nat, 0nat,
{
    broadcast use group_alike_steps;

    reveal(State::store);
    reveal(State::expr);
    reveal(State::store_elements);
    reveal(State::unpack);
    match e {
        Expr::Subscript(x) => {
            alike_expr(s, s2, *x.value);
            alike_expr(s.expr(*x.value), s2.expr(*x.value), *x.slice);
        },
        Expr::Attribute(x) => {
            alike_expr(
                s.check_name(x.attr@, NameUsage::Store),
                s2.check_name(x.attr@, NameUsage::Store),
                *x.value,
            );
        },
        Expr::List(x) => {
            alike_store_elements(
                s.unpack(x.elts@, x.range),
                s2.unpack(x.elts@, x.range),
                x.elts@,
                0,
            );
        },
        Expr::Tuple(x) => {
            alike_store_elements(
                s.unpack(x.elts@, x.range),
                s2.unpack(x.elts@, x.range),
                x.elts@,
                0,
            );
        },
        _ => {},
    }
}

#[verifier::spinoff_prover]
proof fn alike_store_elements(s: State, s2: State, v: Seq<Expr>, i: nat)
    requires
        alike(s, s2),
    ensures
        alike(s.store_elements(v, i), s2.store_elements(v, i)),
    decreases v, 0nat, v.len() - i,
{
    broadcast use group_alike_steps;

    reveal(State::store_elements);
    reveal(State::store);
    if i < v.len() {
        let target = match v[i as int] {
            Expr::Starred(x) => *x.value,
            e => e,
        };
        alike_store(s, s2, target);
        alike_store_elements(s.store(target), s2.store(target), v, i + 1);
    }
}

#[verifier::spinoff_prover]
proof fn alike_defaults(s: State, s2: State, p: Seq<ParameterWithDefault>, i: nat)
    requires
        alike(s, s2),
    ensures
        alike(s.defaults(p, i), s2.defaults(p, i)),
    decreases p, 0nat, p.len() - i,
{
    broadcast use group_alike_steps;

    reveal(State::defaults);
    reveal(State::expr);
    if i < p.len() {
        match p[i as int].default {
            Some(e) => {
                alike_expr(s, s2, *e);
                alike_defaults(s.expr(*e), s2.expr(*e), p, i + 1);
            },
            None => alike_defaults(s, s2, p, i + 1),
        }
    }
}

#[verifier::spinoff_prover]
proof fn alike_keyword_defaults(s: State, s2: State, p: Seq<ParameterWithDefault>, i: nat)
    requires
        alike(s, s2),
    ensures
        alike(s.keyword_defaults(p, i), s2.keyword_defaults(p, i)),
    decreases p, 0nat, p.len() - i,
{
    broadcast use group_alike_steps;

    reveal(State::keyword_defaults);
    reveal(State::expr);
    if i < p.len() {
        match p[i as int].default {
            Some(e) => {
                let named = s.load_const(ConstantModel::Str(p[i as int].parameter.name@));
                let named2 = s2.load_const(ConstantModel::Str(p[i as int].parameter.name@));
                alike_expr(named, named2, *e);
                alike_keyword_defaults(named.expr(*e), named2.expr(*e), p, i + 1);
            },
            None => alike_keyword_defaults(s, s2, p, i + 1),
        }
    }
}

#[verifier::spinoff_prover]
pub proof fn alike_enter_function(s: State, s2: State, name: Seq<char>, p: Parameters)
    requires
        alike(s, s2),
    ensures
        alike(s.enter_function(name, p), s2.enter_function(name, p)),
    decreases p, 0nat, 0nat,
{
    broadcast use group_alike_steps;

    reveal(State::enter_function);
    reveal(State::defaults);
    reveal(State::keyword_defaults);
    let n = positional_defaults(p);
    let t = s.defaults(p.posonlyargs@, 0);
    let t2 = s2.defaults(p.posonlyargs@, 0);
    let u = t.to(t.defaults(p.args@, 0));
    let u2 = t2.to(t2.defaults(p.args@, 0));
    let v = if n == 0 {
        u
    } else if n > u32::MAX {
        u.stuck()
    } else {
        u.emit(Instruction::BuildTuple { size: n as u32 })
    };
    let v2 = if n == 0 {
        u2
    } else if n > u32::MAX {
        u2.stuck()
    } else {
        u2.emit(Instruction::BuildTuple { size: n as u32 })
    };
    alike_defaults(s, s2, p.posonlyargs@, 0);
    alike_defaults(t, t2, p.args@, 0);
    alike_keyword_defaults(v, v2, p.kwonlyargs@, 0);
}

#[verifier::spinoff_prover]
proof fn alike_lambda(s: State, s2: State, x: ExprLambda)
    requires
        alike(s, s2),
    ensures
        alike(s.lambda(x), s2.lambda(x)),
    decreases x, 0nat, 0nat,
{
    broadcast use group_alike_steps;

    reveal(State::lambda);
    reveal(State::enter_function);
    reveal(State::expr);
    let name = "<lambda>"@;
    if let Some(p) = x.parameters {
        alike_enter_function(s, s2, name, *p);
    }
    let entered = (match x.parameters {
        Some(p) => s.enter_function(name, *p),
        None => s.push_code(function_flags(), 0, 0, 0, name),
    }).set_ctx(s.function_ctx(false)).insert_const(ConstantModel::NoneValue);
    let entered2 = (match x.parameters {
        Some(p) => s2.enter_function(name, *p),
        None => s2.push_code(function_flags(), 0, 0, 0, name),
    }).set_ctx(s2.function_ctx(false)).insert_const(ConstantModel::NoneValue);
    alike_expr(entered, entered2, *x.body);
}

#[verifier::spinoff_prover]
proof fn alike_comprehension_element(s: State, s2: State, e: Expr)
    requires
        alike(s, s2),
    ensures
        alike(s.comprehension_element(e), s2.comprehension_element(e)),
    decreases e, 4nat, 0nat,
{
    broadcast use group_alike_steps;

    reveal(State::comprehension_element);
    reveal(State::expr);
    alike_expr(s, s2, e);
}

#[verifier::spinoff_prover]
proof fn alike_comprehension_value(s: State, s2: State, e: Expr)
    requires
        alike(s, s2),
    ensures
        alike(s.comprehension_value(e), s2.comprehension_value(e)),
    decreases e, 0nat, 0nat,
{
    broadcast use group_alike_steps;

    reveal(State::comprehension_value);
    reveal(State::comprehension_element);
    reveal(State::expr);
    match e {
        Expr::ListComp(x) => alike_comprehension_element(s, s2, *x.elt),
        Expr::SetComp(x) => alike_comprehension_element(s, s2, *x.elt),
        Expr::DictComp(x) => {
            alike_expr(s, s2, *x.key);
            alike_expr(s.expr(*x.key), s2.expr(*x.key), *x.value);
        },
        Expr::Generator(x) => alike_comprehension_element(s, s2, *x.elt),
        _ => {},
    }
}

#[verifier::spinoff_prover]
proof fn alike_comprehension_loop(
    s: State,
    s2: State,
    x: Comprehension,
    first: Option<u32>,
    loop_block: BlockIdx,
    after: BlockIdx,
)
    requires
        alike(s, s2),
    ensures
        alike(
            s.comprehension_loop(x, first, loop_block, after),
            s2.comprehension_loop(x, first, loop_block, after),
        ),
    decreases x, 0nat, 0nat,
{
    broadcast use group_alike_steps;

    reveal(State::comprehension_loop);
    reveal(State::expr);
    reveal(State::store);
    reveal(State::jump_ifs);
    alike_expr(s, s2, x.iter);
    let t = (match first {
        Some(arg0) => s.emit(Instruction::LoadFast(arg0)),
        None => s.expr(x.iter).emit(
            if x.is_async {
                Instruction::GetAIter
            } else {
                Instruction::GetIter
            },
        ),
    }).switch_to(loop_block);
    let t2 = (match first {
        Some(arg0) => s2.emit(Instruction::LoadFast(arg0)),
        None => s2.expr(x.iter).emit(
            if x.is_async {
                Instruction::GetAIter
            } else {
                Instruction::GetIter
            },
        ),
    }).switch_to(loop_block);
    let u = if x.is_async {
        t.emit(Instruction::SetupExcept { handler: after }).emit(Instruction::GetANext).load_const(
            ConstantModel::NoneValue,
        ).emit(Instruction::YieldFrom)
    } else {
        t.emit(Instruction::ForIter { target: after })
    };
    let u2 = if x.is_async {
        t2.emit(Instruction::SetupExcept { handler: after }).emit(Instruction::GetANext).load_const(
            ConstantModel::NoneValue,
        ).emit(Instruction::YieldFrom)
    } else {
        t2.emit(Instruction::ForIter { target: after })
    };
    alike_store(u, u2, x.target);
    let v = if x.is_async {
        u.store(x.target).emit(Instruction::PopBlock)
    } else {
        u.store(x.target)
    };
    let v2 = if x.is_async {
        u2.store(x.target).emit(Instruction::PopBlock)
    } else {
        u2.store(x.target)
    };
    alike_jump_ifs(v, v2, x.ifs@, 0, x.ifs@.len(), false, loop_block);
}

#[verifier::spinoff_prover]
proof fn alike_comprehension_loops(
    s: State,
    s2: State,
    e: Expr,
    g: Seq<Comprehension>,
    i: nat,
    arg0: u32,
)
    requires
        alike(s, s2),
    ensures
        alike(s.comprehension_loops(e, g, i, arg0), s2.comprehension_loops(e, g, i, arg0)),
    decreases e, 1nat, g.len() - i,
{
    broadcast use group_alike_steps;

    reveal(State::comprehension_loops);
    reveal(State::comprehension_value);
    reveal(State::comprehension_loop);
    reveal(State::comprehension_collect);
    if g == comprehension_generators(e) {
        if i >= g.len() {
            alike_comprehension_value(s, s2, e);
        } else {
            let loop_block = s.fresh();
            let loop_block2 = s2.fresh();
            let t = s.new_block();
            let t2 = s2.new_block();
            let after = t.fresh();
            let after2 = t2.fresh();
            let u = t.new_block();
            let u2 = t2.new_block();
            let first = if i == 0 {
                Some(arg0)
            } else {
                None
            };
            alike_comprehension_loop(u, u2, g[i as int], first, loop_block, after);
            let v = u.comprehension_loop(g[i as int], first, loop_block, after);
            let v2 = u2.comprehension_loop(g[i as int], first, loop_block2, after2);
            alike_comprehension_loops(v, v2, e, g, i + 1, arg0);
        }
    }
}

#[verifier::spinoff_prover]
proof fn alike_comprehension_function(s: State, s2: State, e: Expr, is_async: bool)
    requires
        alike(s, s2),
    ensures
        alike(s.comprehension_function(e, is_async), s2.comprehension_function(e, is_async)),
    decreases e, 2nat, 0nat,
{
    broadcast use group_alike_steps;

    reveal(State::comprehension_function);
    reveal(State::comprehension_loops);
    let ty = comprehension_type(e);
    let t = s.push_code(
        CodeFlags { is_coroutine: is_async, ..function_flags() },
        1,
        1,
        0,
        comprehension_name(ty),
    );
    let t2 = s2.push_code(
        CodeFlags { is_coroutine: is_async, ..function_flags() },
        1,
        1,
        0,
        comprehension_name(ty),
    );
    let named = t.intern_varname(".0"@);
    let named2 = t2.intern_varname(".0"@);
    let u = match ty {
        ComprehensionType::List => named.emit(Instruction::BuildList { size: 0 }),
        ComprehensionType::SetDisplay => named.emit(Instruction::BuildSet { size: 0 }),
        ComprehensionType::Dict => named.emit(Instruction::BuildMap { size: 0 }),
        ComprehensionType::Generator => named,
    };
    let u2 = match ty {
        ComprehensionType::List => named2.emit(Instruction::BuildList { size: 0 }),
        ComprehensionType::SetDisplay => named2.emit(Instruction::BuildSet { size: 0 }),
        ComprehensionType::Dict => named2.emit(Instruction::BuildMap { size: 0 }),
        ComprehensionType::Generator => named2,
    };
    alike_comprehension_loops(u, u2, e, comprehension_generators(e), 0, t.varname_index(".0"@));
}

#[verifier::spinoff_prover]
proof fn alike_comprehension(s: State, s2: State, e: Expr)
    requires
        alike(s, s2),
    ensures
        alike(s.comprehension(e), s2.comprehension(e)),
    decreases e, 2nat, 1nat,
{
    broadcast use group_alike_steps;

    reveal(State::comprehension);
    reveal(State::comprehension_function);
    reveal(State::expr);
    reveal(State::call_comprehension);
    let g = comprehension_generators(e);
    let ty = comprehension_type(e);
    let is_async = comprehension_awaits(e, s.ctx.func);
    let is_async2 = comprehension_awaits(e, s2.ctx.func);
    let within = s.set_ctx(s.function_ctx(is_async));
    let within2 = s2.set_ctx(s2.function_ctx(is_async2));
    if g.len() > 0 {
        let t = within.comprehension_function(e, is_async).close_function(
            s.ctx,
            comprehension_name(ty),
            plain_function(),
        );
        let t2 = within2.comprehension_function(e, is_async2).close_function(
            s2.ctx,
            comprehension_name(ty),
            plain_function(),
        );
        alike_comprehension_function(within, within2, e, is_async);
        alike_expr(t, t2, g[0].iter);
    }
}

#[verifier::spinoff_prover]
proof fn alike_fstring(s: State, s2: State, x: FStringValue)
    requires
        alike(s, s2),
    ensures
        alike(s.fstring(x), s2.fstring(x)),
    decreases x, 0nat, 0nat,
{
    broadcast use group_alike_steps;

    reveal(State::fstring);
    reveal(State::fstring_parts);
    alike_fstring_parts(s, s2, x.parts@, 0);
}

#[verifier::spinoff_prover]
proof fn alike_fstring_parts(s: State, s2: State, v: Seq<FStringPart>, i: nat)
    requires
        alike(s, s2),
    ensures
        alike(s.fstring_parts(v, i), s2.fstring_parts(v, i)),
    decreases v, 0nat, v.len() - i,
{
    broadcast use group_alike_steps;

    reveal(State::fstring_parts);
    reveal(State::fstring_elements);
    if i < v.len() {
        match v[i as int] {
            FStringPart::Literal(text) => {
                alike_fstring_parts(
                    s.load_const(ConstantModel::Str(text@)),
                    s2.load_const(ConstantModel::Str(text@)),
                    v,
                    i + 1,
                );
            },
            FStringPart::FString(f) => {
                alike_fstring_elements(s, s2, f.elements@);
                alike_fstring_parts(
                    s.fstring_elements(f.elements@),
                    s2.fstring_elements(f.elements@),
                    v,
                    i + 1,
                );
            },
        }
    }
}

#[verifier::spinoff_prover]
proof fn alike_fstring_elements(s: State, s2: State, v: Seq<FStringElement>)
    requires
        alike(s, s2),
    ensures
        alike(s.fstring_elements(v), s2.fstring_elements(v)),
    decreases v, 1nat, 0nat,
{
    broadcast use group_alike_steps;

    reveal(State::fstring_elements);
    reveal(State::fstring_element_values);
    alike_fstring_element_values(s, s2, v, 0);
}

#[verifier::spinoff_prover]
proof fn alike_fstring_element_values(s: State, s2: State, v: Seq<FStringElement>, i: nat)
    requires
        alike(s, s2),
    ensures
        alike(s.fstring_element_values(v, i), s2.fstring_element_values(v, i)),
    decreases v, 0nat, v.len() - i,
{
    broadcast use group_alike_steps;

    reveal(State::fstring_element_values);
    reveal(State::fstring_expression);
    if i < v.len() {
        match v[i as int] {
            FStringElement::Literal(text) => {
                alike_fstring_element_values(
                    s.load_const(ConstantModel::Str(text@)),
                    s2.load_const(ConstantModel::Str(text@)),
                    v,
                    i + 1,
                );
            },
            FStringElement::Expression(x) => {
                alike_fstring_expression(s, s2, x);
                alike_fstring_element_values(
                    s.fstring_expression(x),
                    s2.fstring_expression(x),
                    v,
                    i + 1,
                );
            },
        }
    }
}

#[verifier::spinoff_prover]
proof fn alike_fstring_expression(s: State, s2: State, x: FStringExpressionElement)
    requires
        alike(s, s2),
    ensures
        alike(s.fstring_expression(x), s2.fstring_expression(x)),
    decreases x, 0nat, 0nat,
{
    broadcast use group_alike_steps;

    reveal(State::fstring_expression);
    reveal(State::fstring_elements);
    reveal(State::expr);
    reveal(State::debug_text);
    let t = s.debug_text(x.debug_text);
    let t2 = s2.debug_text(x.debug_text);
    match x.format_spec {
        Some(spec) => {
            alike_fstring_elements(t, t2, spec.elements@);
            alike_expr(
                t.fstring_elements(spec.elements@),
                t2.fstring_elements(spec.elements@),
                *x.expression,
            );
        },
        None => {
            alike_expr(
                t.load_const(ConstantModel::Str(""@)),
                t2.load_const(ConstantModel::Str(""@)),
                *x.expression,
            );
        },
    }
}

} // verus!
