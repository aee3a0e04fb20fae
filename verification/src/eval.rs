//! The code of an expression leaves the value of the expression on the stack.
use vstd::prelude::*;

use crate::ast::{
    expr_range, BoolOp, Expr, ExprAttribute, ExprAwait, ExprBinOp, ExprBoolOp, ExprIf, ExprNamed,
    ExprSlice, ExprSubscript, ExprUnaryOp, ExprYield, ExprYieldFrom, UnaryOp,
};
use crate::bytecode::{ConstantModel, Instruction};
use crate::expr_code::{
    display_code, first_star, gathered, operator_code, run_count, unary_code, Display,
};
use crate::machine::{leap, make, noted, plain_step, step, Flow, Machine, Made, Notes, Term};
use crate::noting::{
    goes_on, group_pushed, lemma_pushed_more, lemma_pushed_on, note_block, note_const, note_flow,
    note_label, note_on, ready, Run,
};
use crate::onward::{
    group_onward_steps, onward_bool_values, onward_bound, onward_expr, onward_exprs, onward_gather,
    onward_gather_runs, onward_jump_if, onward_store,
};
use crate::state::State;
use crate::symboltable::mangled;
use crate::validity::{group_layout, group_lefts, left, lefts_kept};


use crate::whole::{all_whole, maybe_whole, whole};

use crate::values::{
    all_mean, bound_means, display_means, means, operator_symbol, unary_operator_symbol,
};
use crate::handling::{
    base_of, jumped, lemma_decides, named, note_intern, note_literal, note_load_name, note_make,
    note_marked, note_one, note_received, note_two,
};
use crate::eval_logic::{eval_bool_values, eval_compare, eval_dict, eval_jump_if};
use crate::eval_call::{eval_call, eval_comprehension, eval_fstring, eval_lambda, eval_store};
verus! {

broadcast use {group_layout, group_lefts, group_pushed};

/// The code of an expression leaves its value on the stack, and nothing else changed.
#[verifier::spinoff_prover]
#[verifier::rlimit(80)]
pub proof fn eval_expr(z: Run, s: State, n: Notes, e: Expr) -> (r: (Notes, Term))
    requires
        whole(e),
        ready(z, s, s.expr(e), n),
    ensures
        noted(z.w, z.p, s.expr(e).top(), r.0),
        goes_on(n, r.0, s.top().blocks.len()),
        n.cur is None ==> r.0.cur is None,
        n.cur matches Some(k) ==> r.0.cur == Some(k.push(r.1)),
        means(z.w, s.class_name, r.1, e),
    decreases e, 3nat, 0nat,
{
    broadcast use group_onward_steps;

    reveal(State::expr);
    reveal(State::call);
    reveal(State::bool_op);
    reveal(State::bin_op);
    reveal(State::subscript);
    reveal(State::unary_op);
    reveal(State::attribute);
    reveal(State::compare);
    reveal(State::display);
    reveal(State::dict);
    reveal(State::slice);
    reveal(State::yield_value);
    reveal(State::await_value);
    reveal(State::yield_from);
    reveal(State::lambda);
    reveal(State::comprehension);
    reveal(State::conditional);
    reveal(State::named);
    reveal(State::fstring);
    reveal(State::literal);
    let t = s.set_range(expr_range(e));
    match e {
        Expr::Call(x) => eval_call(z, t, n, x),
        Expr::BoolOp(x) => eval_bool_op(z, t, n, x),
        Expr::BinOp(x) => eval_bin_op(z, t, n, x),
        Expr::Subscript(x) => eval_subscript(z, t, n, x),
        Expr::UnaryOp(x) => eval_unary_op(z, t, n, x),
        Expr::Attribute(x) => eval_attribute(z, t, n, x),
        Expr::Compare(x) => eval_compare(z, t, n, x),
        Expr::List(x) => eval_display(z, t, n, x.elts@, Display::List),
        Expr::Tuple(x) => eval_display(z, t, n, x.elts@, Display::Tuple),
        Expr::SetDisplay(x) => eval_display(z, t, n, x.elts@, Display::SetDisplay),
        Expr::Dict(x) => eval_dict(z, t, n, x),
        Expr::Slice(x) => eval_slice(z, t, n, x),
        Expr::Yield(x) => eval_yield_value(z, t, n, x),
        Expr::Await(x) => eval_await_value(z, t, n, x),
        Expr::YieldFrom(x) => eval_yield_from(z, t, n, x),
        Expr::Name(x) => note_load_name(z, t, n, x.id@),
        Expr::Lambda(x) => eval_lambda(z, t, n, x),
        Expr::ListComp(_) | Expr::SetComp(_) | Expr::DictComp(_) | Expr::Generator(
            _,
        ) => eval_comprehension(z, t, n, e),
        Expr::If(x) => eval_conditional(z, t, n, x),
        Expr::Named(x) => eval_named(z, t, n, x),
        Expr::FString(x) => eval_fstring(z, t, n, x.value),
        _ => note_literal(z, t, n, e),
    }
}

#[verifier::spinoff_prover]
pub proof fn eval_bin_op(z: Run, s: State, n: Notes, x: ExprBinOp) -> (r: (Notes, Term))
    requires
        whole(Expr::BinOp(x)),
        ready(z, s, s.bin_op(x), n),
    ensures
        noted(z.w, z.p, s.bin_op(x).top(), r.0),
        goes_on(n, r.0, s.top().blocks.len()),
        n.cur is None ==> r.0.cur is None,
        n.cur matches Some(k) ==> r.0.cur == Some(k.push(r.1)),
        means(z.w, s.class_name, r.1, Expr::BinOp(x)),
    decreases x, 0nat, 0nat,
{
    broadcast use group_onward_steps;

    reveal(State::bin_op);
    reveal(State::expr);
    reveal(plain_step);
    let u = s.expr(*x.left);
    let v = u.expr(*x.right);
    onward_expr(s, *x.left);
    onward_expr(u, *x.right);
    let (n1, a) = eval_expr(z, s, n, *x.left);
    let (n2, b) = eval_expr(z, u, n1, *x.right);
    let how = Made::Binary(operator_symbol(x.op));
    let m = note_two(z, v, n2, operator_code(x.op, false), n.cur, a, b, how);
    (m, Term::Of(how, seq![a, b]))
}

#[verifier::spinoff_prover]
pub proof fn eval_subscript(z: Run, s: State, n: Notes, x: ExprSubscript) -> (r: (Notes, Term))
    requires
        whole(Expr::Subscript(x)),
        ready(z, s, s.subscript(x), n),
    ensures
        noted(z.w, z.p, s.subscript(x).top(), r.0),
        goes_on(n, r.0, s.top().blocks.len()),
        n.cur is None ==> r.0.cur is None,
        n.cur matches Some(k) ==> r.0.cur == Some(k.push(r.1)),
        means(z.w, s.class_name, r.1, Expr::Subscript(x)),
    decreases x, 0nat, 0nat,
{
    broadcast use group_onward_steps;

    reveal(State::subscript);
    reveal(State::expr);
    reveal(plain_step);
    let u = s.expr(*x.value);
    let v = u.expr(*x.slice);
    onward_expr(s, *x.value);
    onward_expr(u, *x.slice);
    let (n1, a) = eval_expr(z, s, n, *x.value);
    let (n2, b) = eval_expr(z, u, n1, *x.slice);
    let m = note_two(z, v, n2, Instruction::Subscript, n.cur, a, b, Made::Item);
    (m, Term::Of(Made::Item, seq![a, b]))
}

#[verifier::spinoff_prover]
pub proof fn eval_unary_op(z: Run, s: State, n: Notes, x: ExprUnaryOp) -> (r: (Notes, Term))
    requires
        whole(Expr::UnaryOp(x)),
        ready(z, s, s.unary_op(x), n),
    ensures
        noted(z.w, z.p, s.unary_op(x).top(), r.0),
        goes_on(n, r.0, s.top().blocks.len()),
        n.cur is None ==> r.0.cur is None,
        n.cur matches Some(k) ==> r.0.cur == Some(k.push(r.1)),
        means(z.w, s.class_name, r.1, Expr::UnaryOp(x)),
    decreases x, 0nat, 0nat,
{
    broadcast use group_onward_steps;

    reveal(State::unary_op);
    reveal(State::expr);
    reveal(plain_step);
    onward_expr(s, *x.operand);
    let (n1, a) = eval_expr(z, s, n, *x.operand);
    let how = Made::Unary(unary_operator_symbol(x.op));
    let m = note_one(z, s.expr(*x.operand), n1, unary_code(x.op), a, how);
    (m, Term::Of(how, seq![a]))
}

#[verifier::spinoff_prover]
pub proof fn eval_attribute(z: Run, s: State, n: Notes, x: ExprAttribute) -> (r: (Notes, Term))
    requires
        whole(Expr::Attribute(x)),
        ready(z, s, s.attribute(x), n),
    ensures
        noted(z.w, z.p, s.attribute(x).top(), r.0),
        goes_on(n, r.0, s.top().blocks.len()),
        n.cur is None ==> r.0.cur is None,
        n.cur matches Some(k) ==> r.0.cur == Some(k.push(r.1)),
        means(z.w, s.class_name, r.1, Expr::Attribute(x)),
    decreases x, 0nat, 0nat,
{
    broadcast use group_onward_steps;

    reveal(State::attribute);
    reveal(State::expr);
    onward_expr(s, *x.value);
    let (n1, a) = eval_expr(z, s, n, *x.value);
    let u = s.expr(*x.value);
    let idx = u.name_index(x.attr@);
    let how = Made::Attribute(mangled(s.class_name, x.attr@));
    let v = u.intern_name(x.attr@);
    note_intern(z, u, n1, x.attr@);
    reveal(plain_step);
    let m = note_one(z, v, n1, Instruction::LoadAttr { idx }, a, how);
    (m, Term::Of(how, seq![a]))
}

#[verifier::spinoff_prover]
pub proof fn eval_display(
    z: Run,
    s: State,
    n: Notes,
    elements: Seq<Expr>,
    ty: Display,
) -> (r: (Notes, Term))
    requires
        all_whole(elements),
        ready(z, s, s.display(elements, ty), n),
    ensures
        noted(z.w, z.p, s.display(elements, ty).top(), r.0),
        goes_on(n, r.0, s.top().blocks.len()),
        n.cur is None ==> r.0.cur is None,
        n.cur matches Some(k) ==> r.0.cur == Some(k.push(r.1)),
        display_means(z.w, s.class_name, r.1, elements, display_made(ty), display_chained(ty)),
    decreases elements, 2nat, 0nat,
{
    broadcast use group_onward_steps;

    reveal(State::display);
    reveal(State::gather);
    reveal(plain_step);
    onward_gather(s, 0, elements);
    assert(base_of(n).push_all(Seq::empty()).stack =~= base_of(n).stack);
    let (n1, vs) = eval_gather(z, s, n, 0, elements, base_of(n), Seq::empty());
    let how = if first_star(elements, 0) is Some {
        display_chained(ty)
    } else {
        display_made(ty)
    };
    let i = display_code(ty, gathered(0, elements) as u32, first_star(elements, 0) is Some);
    let (m, v) = note_make(z, s.gather(0, elements), n1, i, vs.len() as int, how);
    assert(vs.skip(0) =~= vs);
    (m, Term::Of(how, vs))
}

/// The collection that a display makes.
pub open spec fn display_made(ty: Display) -> Made {
    match ty {
        Display::List => Made::List,
        Display::Tuple => Made::Tuple,
        Display::SetDisplay => Made::SetOf,
    }
}

/// The collection that a display makes which unpacks.
pub open spec fn display_chained(ty: Display) -> Made {
    match ty {
        Display::List => Made::ChainedList,
        Display::Tuple => Made::ChainedTuple,
        Display::SetDisplay => Made::ChainedSet,
    }
}

#[verifier::spinoff_prover]
pub proof fn eval_yield_value(z: Run, s: State, n: Notes, x: ExprYield) -> (r: (Notes, Term))
    requires
        whole(Expr::Yield(x)),
        ready(z, s, s.yield_value(x), n),
    ensures
        noted(z.w, z.p, s.yield_value(x).top(), r.0),
        goes_on(n, r.0, s.top().blocks.len()),
        n.cur is None ==> r.0.cur is None,
        n.cur matches Some(k) ==> r.0.cur == Some(k.push(r.1)),
        means(z.w, s.class_name, r.1, Expr::Yield(x)),
    decreases x, 0nat, 0nat,
{
    broadcast use group_onward_steps;

    reveal(State::yield_value);
    reveal(State::bound);
    let t = s.mark_generator();
    note_marked(z, s, n);
    onward_bound(t, x.value);
    let (n1, a) = eval_bound(z, t, n, x.value);
    reveal(plain_step);
    let m = note_one(z, t.bound(x.value), n1, Instruction::YieldValue, a, Made::Sent);
    (m, Term::Of(Made::Sent, seq![a]))
}

#[verifier::spinoff_prover]
pub proof fn eval_await_value(z: Run, s: State, n: Notes, x: ExprAwait) -> (r: (Notes, Term))
    requires
        whole(Expr::Await(x)),
        ready(z, s, s.await_value(x), n),
    ensures
        noted(z.w, z.p, s.await_value(x).top(), r.0),
        goes_on(n, r.0, s.top().blocks.len()),
        n.cur is None ==> r.0.cur is None,
        n.cur matches Some(k) ==> r.0.cur == Some(k.push(r.1)),
        means(z.w, s.class_name, r.1, Expr::Await(x)),
    decreases x, 0nat, 0nat,
{
    broadcast use group_onward_steps;

    reveal(State::await_value);
    reveal(State::expr);
    onward_expr(s, *x.value);
    let (n1, a) = eval_expr(z, s, n, *x.value);
    let t = s.expr(*x.value);
    reveal(plain_step);
    let n2 = note_one(z, t, n1, Instruction::GetAwaitable, a, Made::Awaitable);
    let g = Term::Of(Made::Awaitable, seq![a]);
    let m = note_received(z, t.emit(Instruction::GetAwaitable), n2, n.cur, g);
    (m, Term::Of(Made::Received, seq![g]))
}

#[verifier::spinoff_prover]
pub proof fn eval_yield_from(z: Run, s: State, n: Notes, x: ExprYieldFrom) -> (r: (Notes, Term))
    requires
        whole(Expr::YieldFrom(x)),
        ready(z, s, s.yield_from(x), n),
    ensures
        noted(z.w, z.p, s.yield_from(x).top(), r.0),
        goes_on(n, r.0, s.top().blocks.len()),
        n.cur is None ==> r.0.cur is None,
        n.cur matches Some(k) ==> r.0.cur == Some(k.push(r.1)),
        means(z.w, s.class_name, r.1, Expr::YieldFrom(x)),
    decreases x, 0nat, 0nat,
{
    broadcast use group_onward_steps;

    reveal(State::yield_from);
    reveal(State::expr);
    let t0 = s.mark_generator();
    note_marked(z, s, n);
    onward_expr(t0, *x.value);
    let (n1, a) = eval_expr(z, t0, n, *x.value);
    let t = t0.expr(*x.value);
    reveal(plain_step);
    let n2 = note_one(z, t, n1, Instruction::GetIter, a, Made::Iterator);
    let g = Term::Of(Made::Iterator, seq![a]);
    let m = note_received(z, t.emit(Instruction::GetIter), n2, n.cur, g);
    (m, Term::Of(Made::Received, seq![g]))
}

#[verifier::spinoff_prover]
pub proof fn eval_named(z: Run, s: State, n: Notes, x: ExprNamed) -> (r: (Notes, Term))
    requires
        whole(Expr::Named(x)),
        ready(z, s, s.named(x), n),
    ensures
        noted(z.w, z.p, s.named(x).top(), r.0),
        goes_on(n, r.0, s.top().blocks.len()),
        n.cur is None ==> r.0.cur is None,
        n.cur matches Some(k) ==> r.0.cur == Some(k.push(r.1)),
        means(z.w, s.class_name, r.1, Expr::Named(x)),
    decreases x, 0nat, 0nat,
{
    broadcast use group_onward_steps;

    reveal(State::named);
    reveal(State::expr);
    reveal(State::store);
    let u = s.expr(*x.value);
    let v = u.emit(Instruction::Duplicate);
    onward_expr(s, *x.value);
    onward_store(v, *x.target);
    let (n1, a) = eval_expr(z, s, n, *x.value);
    reveal(plain_step);
    let k = match n.cur {
        Some(k) => k.push(a).push(a),
        None => arbitrary(),
    };
    let n2 = note_on(z, u, n1, Instruction::Duplicate, k);
    let m = eval_store(z, v, n2, *x.target, base_of(n).push(a), a);
    (m, a)
}

#[verifier::spinoff_prover]
pub proof fn eval_bound(z: Run, s: State, n: Notes, e: Option<Box<Expr>>) -> (r: (Notes, Term))
    requires
        maybe_whole(e),
        ready(z, s, s.bound(e), n),
    ensures
        noted(z.w, z.p, s.bound(e).top(), r.0),
        goes_on(n, r.0, s.top().blocks.len()),
        n.cur is None ==> r.0.cur is None,
        n.cur matches Some(k) ==> r.0.cur == Some(k.push(r.1)),
        bound_means(z.w, s.class_name, r.1, e),
    decreases e, 0nat, 0nat,
{
    broadcast use group_onward_steps;

    reveal(State::bound);
    reveal(State::expr);
    match e {
        Some(e) => eval_expr(z, s, n, *e),
        None => note_const(z, s, n, ConstantModel::NoneValue),
    }
}

#[verifier::spinoff_prover]
pub proof fn eval_slice(z: Run, s: State, n: Notes, x: ExprSlice) -> (r: (Notes, Term))
    requires
        whole(Expr::Slice(x)),
        ready(z, s, s.slice(x), n),
    ensures
        noted(z.w, z.p, s.slice(x).top(), r.0),
        goes_on(n, r.0, s.top().blocks.len()),
        n.cur is None ==> r.0.cur is None,
        n.cur matches Some(k) ==> r.0.cur == Some(k.push(r.1)),
        means(z.w, s.class_name, r.1, Expr::Slice(x)),
    decreases x, 0nat, 0nat,
{
    broadcast use group_onward_steps;

    reveal(State::slice);
    reveal(State::bound);
    reveal(State::expr);
    let u = s.bound(x.lower);
    let v = u.bound(x.upper);
    onward_bound(s, x.lower);
    onward_bound(u, x.upper);
    if let Some(step) = x.step {
        onward_expr(v, *step);
    }
    let (n1, a) = eval_bound(z, s, n, x.lower);
    let (n2, b) = eval_bound(z, u, n1, x.upper);
    reveal(plain_step);
    match x.step {
        Some(step) => {
            let (n3, c) = eval_expr(z, v, n2, *step);
            let i = Instruction::BuildSlice { step: true };
            let (m, r) = note_make(z, v.expr(*step), n3, i, 3, Made::Slice);
            assert(bound_means(z.w, s.class_name, c, x.step));
            (m, Term::Of(Made::Slice, seq![a, b, c]))
        },
        None => {
            let i = Instruction::BuildSlice { step: false };
            let m = note_two(z, v, n2, i, n.cur, a, b, Made::Slice);
            (m, Term::Of(Made::Slice, seq![a, b]))
        },
    }
}

#[verifier::spinoff_prover]
pub proof fn eval_conditional(z: Run, s: State, n: Notes, x: ExprIf) -> (r: (Notes, Term))
    requires
        whole(Expr::If(x)),
        ready(z, s, s.conditional(x), n),
    ensures
        noted(z.w, z.p, s.conditional(x).top(), r.0),
        goes_on(n, r.0, s.top().blocks.len()),
        n.cur is None ==> r.0.cur is None,
        n.cur matches Some(k) ==> r.0.cur == Some(k.push(r.1)),
        means(z.w, s.class_name, r.1, Expr::If(x)),
    decreases x, 0nat, 0nat,
{
    broadcast use group_onward_steps;

    reveal(State::conditional);
    reveal(State::jump_if);
    reveal(State::expr);
    reveal(leap);
    reveal(State::switch_to);
    reveal(lefts_kept);
    let else_block = s.fresh();
    let t = s.new_block();
    let after = t.fresh();
    let u = t.new_block();
    let tested = u.jump_if(*x.test, false, else_block);
    let body = tested.expr(*x.body);
    let jumped = body.emit(Instruction::Jump { target: after });
    let first = jumped.switch_to(else_block);
    let second = first.expr(*x.orelse);
    onward_jump_if(u, *x.test, false, else_block);
    onward_expr(tested, *x.body);
    onward_expr(first, *x.orelse);
    assert(!left(jumped.top(), else_block.0 as int));
    assert(!left(second.top(), after.0 as int));
    note_block(z, s, n);
    note_block(z, t, n);
    let (n1, b) = eval_jump_if(z, u, n, *x.test, false, else_block);
    let (n2, v1) = eval_expr(z, tested, n1, *x.body);
    let k1 = match n2.cur {
        Some(k) => k,
        None => arbitrary(),
    };
    let n3 = note_flow(
        z,
        body,
        n2,
        Instruction::Jump { target: after },
        Flow { next: None, jump: Some((after, k1)) },
    );
    let n4 = note_label(z, jumped, n3, else_block);
    let (n5, v2) = eval_expr(z, first, n4, *x.orelse);
    let m = note_label(z, second, n5, after);
    (m, if b { v1 } else { v2 })
}

#[verifier::spinoff_prover]
pub proof fn eval_bool_op(z: Run, s: State, n: Notes, x: ExprBoolOp) -> (r: (Notes, Term))
    requires
        whole(Expr::BoolOp(x)),
        ready(z, s, s.bool_op(x), n),
    ensures
        noted(z.w, z.p, s.bool_op(x).top(), r.0),
        goes_on(n, r.0, s.top().blocks.len()),
        n.cur is None ==> r.0.cur is None,
        n.cur matches Some(k) ==> r.0.cur == Some(k.push(r.1)),
        means(z.w, s.class_name, r.1, Expr::BoolOp(x)),
    decreases x, 0nat, 0nat,
{
    broadcast use group_onward_steps;

    reveal(State::bool_op);
    reveal(State::bool_values);
    reveal(State::expr);
    reveal(State::switch_to);
    reveal(lefts_kept);
    let after = s.fresh();
    let t = s.new_block();
    let last = x.values@.len() - 1;
    let u = t.bool_values(x.values@, 0, x.op, after);
    let v = u.expr(x.values@[last]);
    onward_bool_values(t, x.values@, 0, x.op, after);
    onward_expr(u, x.values@[last]);
    assert(!left(v.top(), after.0 as int));
    note_block(z, s, n);
    let (n1, d) = eval_bool_values(z, t, n, x.values@, 0, x.op, after);
    let (n2, a) = eval_expr(z, u, n1, x.values@[last]);
    assert(means(z.w, s.class_name, a, x.values@[last]));
    assert(goes_on(n, n1, s.top().blocks.len()));
    assert(goes_on(n, n2, s.top().blocks.len()));
    let m = note_label(z, v, n2, after);
    let r = match d {
        Some(d) => d,
        None => a,
    };
    lemma_decides(z.w, s.class_name, x.values@, x.op == BoolOp::Or, d, a);
    (m, r)
}

#[verifier::spinoff_prover]
pub proof fn eval_exprs(z: Run, s: State, n: Notes, v: Seq<Expr>, i: nat) -> (r: (Notes, Seq<Term>))
    requires
        all_whole(v),
        ready(z, s, s.exprs(v, i), n),
        i <= v.len(),
    ensures
        noted(z.w, z.p, s.exprs(v, i).top(), r.0),
        goes_on(n, r.0, s.top().blocks.len()),
        n.cur is None ==> r.0.cur is None,
        n.cur matches Some(k) ==> r.0.cur == Some(k.push_all(r.1)),
        r.1.len() == v.len() - i,
        all_mean(z.w, s.class_name, r.1, v, i),
    decreases v, 0nat, v.len() - i,
{
    broadcast use group_onward_steps;

    reveal(State::exprs);
    reveal(State::expr);
    if i >= v.len() {
        if let Some(k) = n.cur {
            assert(k.push_all(Seq::empty()).stack =~= k.stack);
        }
        (n, Seq::empty())
    } else {
        let u = s.expr(v[i as int]);
        onward_expr(s, v[i as int]);
        onward_exprs(u, v, i + 1);
        let (n1, a) = eval_expr(z, s, n, v[i as int]);
        let (m, rest) = eval_exprs(z, u, n1, v, i + 1);
        let all = seq![a] + rest;
        assert(all.drop_first() =~= rest);
        if let Some(k) = n.cur {
            lemma_pushed_on(k, a, rest);
        }
        (m, all)
    }
}

#[verifier::spinoff_prover]
pub proof fn eval_gather(
    z: Run,
    s: State,
    n: Notes,
    before: u32,
    v: Seq<Expr>,
    k: Machine,
    b: Seq<Term>,
) -> (r: (Notes, Seq<Term>))
    requires
        all_whole(v),
        ready(z, s, s.gather(before, v), n),
        b.len() == before,
        n.cur is Some ==> n.cur == Some(k.push_all(b)),
    ensures
        noted(z.w, z.p, s.gather(before, v).top(), r.0),
        goes_on(n, r.0, s.top().blocks.len()),
        n.cur is None ==> r.0.cur is None,
        n.cur is Some ==> r.0.cur == Some(k.push_all(r.1)),
        r.1.len() == gathered(before, v),
        first_star(v, 0) is None ==> r.1.len() >= before && r.1.take(before as int) == b
            && all_mean(z.w, s.class_name, r.1.skip(before as int), v, 0),
    decreases v, 1nat, 0nat,
{
    broadcast use group_onward_steps;

    reveal(State::gather);
    reveal(State::exprs);
    reveal(State::gather_runs);
    if first_star(v, 0) is Some {
        if before > 0 {
            reveal(plain_step);
            let i = Instruction::BuildTuple { size: before };
            onward_gather_runs(s.emit(i), v, 0, 0);
            let (n1, a) = note_make(z, s, n, i, before as int, Made::Tuple);
            if n.cur is Some {
                assert(k.push(a).stack =~= k.push_all(seq![a]).stack);
            }
            eval_gather_runs(z, s.emit(i), n1, v, 0, 0, k, seq![a])
        } else {
            onward_gather_runs(s, v, 0, 0);
            eval_gather_runs(z, s, n, v, 0, 0, k, b)
        }
    } else {
        onward_exprs(s, v, 0);
        let (m, a) = eval_exprs(z, s, n, v, 0);
        if n.cur is Some {
            assert(k.push_all(b).push_all(a).stack =~= k.push_all(b + a).stack);
        }
        assert((b + a).take(before as int) =~= b);
        assert((b + a).skip(before as int) =~= a);
        (m, b + a)
    }
}

#[verifier::spinoff_prover]
pub proof fn eval_gather_runs(
    z: Run,
    s: State,
    n: Notes,
    v: Seq<Expr>,
    i: nat,
    run: nat,
    k: Machine,
    b: Seq<Term>,
) -> (r: (Notes, Seq<Term>))
    requires
        all_whole(v),
        ready(z, s, s.gather_runs(v, i, run), n),
        run <= b.len(),
        i <= v.len(),
        run > 0 ==> i < v.len() && !(v[i as int] is Starred),
        n.cur is Some ==> n.cur == Some(k.push_all(b)),
    ensures
        noted(z.w, z.p, s.gather_runs(v, i, run).top(), r.0),
        goes_on(n, r.0, s.top().blocks.len()),
        n.cur is None ==> r.0.cur is None,
        n.cur is Some ==> r.0.cur == Some(k.push_all(r.1)),
        r.1.len() == b.len() - run + run_count(v, i),
    decreases v, 0nat, v.len() - i,
{
    broadcast use group_onward_steps;

    reveal(State::gather_runs);
    reveal(State::expr);
    if i >= v.len() {
        (n, b)
    } else {
        let e = match v[i as int] {
            Expr::Starred(x) => *x.value,
            e => e,
        };
        let u = s.expr(e);
        let built = Instruction::BuildTuple { size: (run + 1) as u32 };
        onward_expr(s, e);
        onward_gather_runs(u, v, i + 1, 0);
        onward_gather_runs(u, v, i + 1, run + 1);
        onward_gather_runs(u.emit(built), v, i + 1, 0);
        assert(whole(v[i as int]));
        let (n1, a) = eval_expr(z, s, n, e);
        if n.cur is Some {
            lemma_pushed_more(k, b, a);
        }
        if v[i as int] is Starred {
            eval_gather_runs(z, u, n1, v, i + 1, 0, k, b.push(a))
        } else if i + 1 < v.len() && !(v[i as int + 1] is Starred) {
            eval_gather_runs(z, u, n1, v, i + 1, run + 1, k, b.push(a))
        } else {
            assert(step(z.w, z.p, base_of(n1), built) == make(base_of(n1), run as int + 1, Made::Tuple)) by {
                reveal(plain_step);
            }
            let (n2, t) = note_make(z, u, n1, built, run as int + 1, Made::Tuple);
            let c = b.take(b.len() - run).push(t);
            if n.cur is Some {
                assert(k.push_all(b.push(a)).drop(run as int + 1).push(t).stack =~= k.push_all(c).stack);
            }
            eval_gather_runs(z, u.emit(built), n2, v, i + 1, 0, k, c)
        }
    }
}

} // verus!
