//! The code of calls, targets, functions and f-strings does on the stack what they are for.
use vstd::prelude::*;

use crate::ast::{
    Arguments, Expr, ExprCall, ExprLambda, FStringElement, FStringExpressionElement, FStringPart,
    FStringValue, Keyword, ParameterWithDefault, Parameters, TextRange,
};
use crate::bytecode::{ConstantModel, Instruction, UnpackExArgs};
use crate::expr_code::{
    argument_count, async_generator, call_code, call_type, comprehension_awaits,
    comprehension_generators, comprehension_name, comprehension_type, default_count, double_star,
    element_conversion, first_star, function_flags, gathered, keyword_names, keyword_run_count,
    parameter_flags, plain_function, positional_defaults, ComprehensionType,
};
use crate::machine::{
    function_parts, is_made, make, noted, on, plain_step, step, unpacked, Machine, Made, Notes,
    Term,
};
use crate::noting::{
    goes_on, group_pushed, lemma_goes_twice, lemma_pushed_more, lemma_pushed_on, note_const,
    note_on, ready, Run,
};
use crate::onward::{
    group_onward_steps, onward, onward_call_arguments, onward_close_function,
    onward_comprehension_function, onward_defaults, onward_enter_function, onward_expr,
    onward_fstring_element_values, onward_fstring_elements, onward_fstring_expression,
    onward_fstring_parts, onward_gather, onward_keyword_defaults, onward_keyword_runs,
    onward_keyword_values, onward_keywords, onward_pass_keywords, onward_store,
    onward_store_elements, placed,
};
use crate::state::State;
use crate::symboltable::mangled;
use crate::validity::{group_layout, group_lefts, pools_kept};


use crate::whole::{
    all_whole, whole, whole_arguments, whole_defaults, whole_elements, whole_formatted,
    whole_fstring, whole_generator, whole_keyword, whole_keywords, whole_parameters, whole_parts,
};

use crate::values::{keywords_mean, means};
use crate::handling::{
    base_of, called_as, lemma_call_step, lemma_called, lemma_closed, lemma_keywords_checked,
    lemma_named, lemma_some_run, lemma_unclosed, named, note_closed, note_intern, note_make,
    note_one, note_received, note_store_name, note_two, outer, passed,
};
use crate::eval::{eval_expr, eval_gather};
verus! {

broadcast use {group_layout, group_lefts, group_pushed};

#[verifier::spinoff_prover]
#[verifier::rlimit(80)]
pub proof fn eval_call(z: Run, s: State, n: Notes, x: ExprCall) -> (r: (Notes, Term))
    requires
        whole(Expr::Call(x)),
        ready(z, s, s.call(x), n),
    ensures
        noted(z.w, z.p, s.call(x).top(), r.0),
        goes_on(n, r.0, s.top().blocks.len()),
        n.cur is None ==> r.0.cur is None,
        n.cur matches Some(k) ==> r.0.cur == Some(k.push(r.1)),
        means(z.w, s.class_name, r.1, Expr::Call(x)),
    decreases x, 0nat, 0nat,
{
    broadcast use group_onward_steps;

    reveal(State::call);
    reveal(State::call_arguments);
    reveal(State::expr);
    let a = x.arguments;
    assert(whole(*x.func));
    let ty = call_type(0, a);
    let method = *x.func is Attribute;
    let i = call_code(ty, method);
    let k = base_of(n);
    let t = match *x.func {
        Expr::Attribute(g) => {
            let u = s.expr(*g.value);
            u.intern_name(g.attr@).emit(Instruction::LoadMethod { idx: u.name_index(g.attr@) })
        },
        _ => s.expr(*x.func),
    };
    assert(t == callee(s, *x.func));
    onward_call_arguments(t, 0, a);
    assert(onward(s, t)) by {
        match *x.func {
            Expr::Attribute(g) => {
                onward_expr(s, *g.value);
            },
            _ => {
                onward_expr(s, *x.func);
            },
        }
    }
    let (n1, f) = eval_callee(z, s, n, *x.func);
    assert(k.push(f).push_all(Seq::empty()).stack =~= k.push(f).stack);
    let (n2, vs) = eval_call_arguments(z, t, n1, 0, a, k.push(f), Seq::empty());
    lemma_pushed_on(k, f, vs);
    let all = seq![f] + vs;
    let how = called_as(a);
    let u = t.call_arguments(0, a);
    lemma_call_step(z, k.push_all(all), s.class_name, a, vs, method);
    lemma_goes_twice(n, n1, n2, s.top().blocks.len(), t.top().blocks.len());
    let (m, v) = note_make(z, u, n2, i, all.len() as int, how);
    lemma_called(z.w, s.class_name, x, f, vs);
    (m, Term::Of(how, all))
}

/// The function of a call comes onto the stack.
#[verifier::spinoff_prover]
pub proof fn eval_callee(z: Run, s: State, n: Notes, e: Expr) -> (r: (Notes, Term))
    requires
        whole(e),
        ready(z, s, callee(s, e), n),
    ensures
        noted(z.w, z.p, callee(s, e).top(), r.0),
        goes_on(n, r.0, s.top().blocks.len()),
        n.cur is None ==> r.0.cur is None,
        n.cur matches Some(k) ==> r.0.cur == Some(k.push(r.1)),
        means(z.w, s.class_name, r.1, e),
        onward(s, callee(s, e)),
    decreases e, 4nat, 0nat,
{
    broadcast use group_onward_steps;

    reveal(State::expr);
    let k = base_of(n);
    match e {
        Expr::Attribute(g) => {
            let u = s.expr(*g.value);
            let idx = u.name_index(g.attr@);
            onward_expr(s, *g.value);
            let (n0, o) = eval_expr(z, s, n, *g.value);
            note_intern(z, u, n0, g.attr@);
            let how = Made::Attribute(mangled(s.class_name, g.attr@));
            let i = Instruction::LoadMethod { idx };
            assert(step(z.w, z.p, k.push(o), i) == make(k.push(o), 1, how)) by {
                reveal(plain_step);
            }
            let n1 = note_one(z, u.intern_name(g.attr@), n0, i, o, how);
            (n1, Term::Of(how, seq![o]))
        },
        _ => {
            onward_expr(s, e);
            eval_expr(z, s, n, e)
        },
    }
}

/// The state after the function of a call.
pub open spec fn callee(s: State, e: Expr) -> State {
    match e {
        Expr::Attribute(g) => {
            let u = s.expr(*g.value);
            u.intern_name(g.attr@).emit(Instruction::LoadMethod { idx: u.name_index(g.attr@) })
        },
        _ => s.expr(e),
    }
}

#[verifier::rlimit(50)]
#[verifier::spinoff_prover]
pub proof fn eval_call_arguments(
    z: Run,
    s: State,
    n: Notes,
    before: u32,
    a: Arguments,
    k: Machine,
    b: Seq<Term>,
) -> (r: (Notes, Seq<Term>))
    requires
        whole_arguments(a),
        ready(z, s, s.call_arguments(before, a), n),
        b.len() == before,
        n.cur is Some ==> n.cur == Some(k.push_all(b)),
    ensures
        noted(z.w, z.p, s.call_arguments(before, a).top(), r.0),
        goes_on(n, r.0, s.top().blocks.len()),
        n.cur is None ==> r.0.cur is None,
        n.cur is Some ==> r.0.cur == Some(k.push_all(r.1)),
        argument_count(before, a) <= u32::MAX,
        passed(z.w, s.class_name, a, before as int, r.1),
    decreases a, 0nat, 0nat,
{
    broadcast use group_onward_steps;

    reveal(State::call_arguments);
    reveal(State::gather);
    reveal(State::pass_keywords);
    let unpack = first_star(a.args@, 0) is Some;
    let size = gathered(before, a.args@) as u32;
    let t = s.gather(before, a.args@);
    onward_gather(s, before, a.args@);
    lemma_keywords_checked(t, a.keywords@, 0);
    onward_pass_keywords(t, unpack, size, a.keywords@);
    let (n1, c) = eval_gather(z, s, n, before, a.args@, k, b);
    let (m, vs) = eval_pass_keywords(z, t, n1, unpack, size, a.keywords@, k, c);
    lemma_goes_twice(n, n1, m, s.top().blocks.len(), t.top().blocks.len());
    if !unpack && !double_star(a.keywords@, 0) {
        let len = before as int + a.args@.len() as int;
        assert(vs.subrange(before as int, len) =~= c.skip(before as int)) by {
            assert(vs.take(c.len() as int) == c);
            assert forall|i: int| 0 <= i < c.len() implies vs[i] == c[i] by {
                assert(vs.take(c.len() as int)[i] == vs[i]);
            }
        }
    }
    (m, vs)
}

#[verifier::rlimit(50)]
#[verifier::spinoff_prover]
pub proof fn eval_pass_keywords(
    z: Run,
    s: State,
    n: Notes,
    unpack: bool,
    size: u32,
    v: Seq<Keyword>,
    k: Machine,
    b: Seq<Term>,
) -> (r: (Notes, Seq<Term>))
    requires
        whole_keywords(v),
        ready(z, s, s.pass_keywords(unpack, size, v), n),
        b.len() == size,
        n.cur is Some ==> n.cur == Some(k.push_all(b)),
    ensures
        noted(z.w, z.p, s.pass_keywords(unpack, size, v).top(), r.0),
        goes_on(n, r.0, s.top().blocks.len()),
        n.cur is None ==> r.0.cur is None,
        n.cur is Some ==> r.0.cur == Some(k.push_all(r.1)),
        named(z.w, s.class_name, unpack, v, b, r.1),
    decreases v, 2nat, 0nat,
{
    broadcast use group_onward_steps;

    reveal(State::pass_keywords);
    reveal(State::keywords);
    reveal(State::keyword_values);
    if unpack || double_star(v, 0) {
        let i = if unpack {
            Instruction::BuildTupleUnpack { size }
        } else {
            Instruction::BuildTuple { size }
        };
        let how = if unpack {
            Made::ChainedTuple
        } else {
            Made::Tuple
        };
        assert(step(z.w, z.p, k.push_all(b), i) == make(k.push_all(b), size as int, how)) by {
            reveal(plain_step);
        }
        onward_keywords(s.emit(i), v);
        let (n1, t) = note_make(z, s, n, i, size as int, how);
        assert(k.push(t).stack =~= k.push_all(seq![t]).stack);
        if v.len() > 0 {
            let (m, q) = eval_keywords(z, s.emit(i), n1, v);
            lemma_pushed_more(k, seq![t], q);
            (m, seq![t].push(q))
        } else {
            (n1, seq![t])
        }
    } else if v.len() > 0 {
        let c = ConstantModel::Tuple(keyword_names(v));
        let u = s.keyword_values(v, 0);
        onward_keyword_values(s, v, 0);
        let (n1, q) = eval_keyword_values(z, s, n, v, 0);
        lemma_named(v, 0);
        let (m, t) = note_const(z, u, n1, c);
        assert(k.push_all(b).push_all(q).stack =~= k.push_all(b + q).stack);
        lemma_pushed_more(k, b + q, t);
        let all = (b + q).push(t);
        assert(all.take(b.len() as int) =~= b);
        assert(all.subrange(b.len() as int, b.len() as int + v.len() as int) =~= q);
        (m, all)
    } else {
        assert(b.take(b.len() as int) =~= b);
        (n, b)
    }
}

#[verifier::spinoff_prover]
pub proof fn eval_keyword_values(
    z: Run,
    s: State,
    n: Notes,
    v: Seq<Keyword>,
    i: nat,
) -> (r: (Notes, Seq<Term>))
    requires
        whole_keywords(v),
        ready(z, s, s.keyword_values(v, i), n),
        i <= v.len(),
    ensures
        noted(z.w, z.p, s.keyword_values(v, i).top(), r.0),
        goes_on(n, r.0, s.top().blocks.len()),
        n.cur is None ==> r.0.cur is None,
        n.cur matches Some(k) ==> r.0.cur == Some(k.push_all(r.1)),
        r.1.len() == v.len() - i,
        keywords_mean(z.w, s.class_name, r.1, v, i),
    decreases v, 0nat, v.len() - i,
{
    broadcast use group_onward_steps;

    reveal(State::keyword_values);
    reveal(State::expr);
    if i >= v.len() {
        if let Some(k) = n.cur {
            assert(k.push_all(Seq::empty()).stack =~= k.stack);
        }
        (n, Seq::empty())
    } else {
        let u = s.expr(v[i as int].value);
        onward_expr(s, v[i as int].value);
        onward_keyword_values(u, v, i + 1);
        let (n1, a) = eval_expr(z, s, n, v[i as int].value);
        let (m, rest) = eval_keyword_values(z, u, n1, v, i + 1);
        let all = seq![a] + rest;
        assert(all.drop_first() =~= rest);
        if let Some(k) = n.cur {
            lemma_pushed_on(k, a, rest);
        }
        (m, all)
    }
}

#[verifier::spinoff_prover]
pub proof fn eval_keywords(z: Run, s: State, n: Notes, v: Seq<Keyword>) -> (r: (Notes, Term))
    requires
        whole_keywords(v),
        ready(z, s, s.keywords(v), n),
        v.len() > 0,
    ensures
        noted(z.w, z.p, s.keywords(v).top(), r.0),
        goes_on(n, r.0, s.top().blocks.len()),
        n.cur is None ==> r.0.cur is None,
        n.cur matches Some(k) ==> r.0.cur == Some(k.push(r.1)),
    decreases v, 1nat, 0nat,
{
    broadcast use group_onward_steps;

    reveal(State::keywords);
    reveal(State::keyword_runs);
    let t = s.keyword_runs(v, 0, 0);
    let len = keyword_run_count(v, 0);
    onward_keyword_runs(s, v, 0, 0);
    let k = base_of(n);
    assert(k.push_all(Seq::empty()).stack =~= k.stack);
    let (n1, b) = eval_keyword_runs(z, s, n, v, 0, 0, k, Seq::empty());
    lemma_some_run(v, 0);
    if len > 1 {
        let i = Instruction::BuildMapForCall { size: len as u32 };
        assert(step(z.w, z.p, k.push_all(b), i) == make(k.push_all(b), len as int, Made::MergedMaps)) by {
            reveal(plain_step);
        }
        note_make(z, t, n1, i, len as int, Made::MergedMaps)
    } else {
        assert(k.push_all(b).stack =~= k.push(b[0]).stack);
        (n1, b[0])
    }
}

#[verifier::spinoff_prover]
pub proof fn eval_keyword_runs(
    z: Run,
    s: State,
    n: Notes,
    v: Seq<Keyword>,
    i: nat,
    run: nat,
    k: Machine,
    b: Seq<Term>,
) -> (r: (Notes, Seq<Term>))
    requires
        whole_keywords(v),
        ready(z, s, s.keyword_runs(v, i, run), n),
        2 * run <= b.len(),
        i <= v.len(),
        run > 0 ==> i < v.len() && v[i as int].arg is Some,
        n.cur is Some ==> n.cur == Some(k.push_all(b)),
    ensures
        noted(z.w, z.p, s.keyword_runs(v, i, run).top(), r.0),
        goes_on(n, r.0, s.top().blocks.len()),
        n.cur is None ==> r.0.cur is None,
        n.cur is Some ==> r.0.cur == Some(k.push_all(r.1)),
        r.1.len() == b.len() - 2 * run + keyword_run_count(v, i),
    decreases v, 0nat, v.len() - i,
{
    broadcast use group_onward_steps;

    reveal(State::keyword_runs);
    reveal(State::expr);
    if i >= v.len() {
        (n, b)
    } else {
        match v[i as int].arg {
            None => {
                let u = s.expr(v[i as int].value);
                onward_expr(s, v[i as int].value);
                onward_keyword_runs(u, v, i + 1, 0);
                let (n1, a) = eval_expr(z, s, n, v[i as int].value);
                lemma_pushed_more(k, b, a);
                let (m, c) = eval_keyword_runs(z, u, n1, v, i + 1, 0, k, b.push(a));
                lemma_goes_twice(n, n1, m, s.top().blocks.len(), u.top().blocks.len());
                (m, c)
            },
            Some(name) => {
                let t = s.load_const(ConstantModel::Str(name@));
                let u = t.expr(v[i as int].value);
                let built = Instruction::BuildMap { size: (run + 1) as u32 };
                onward_expr(t, v[i as int].value);
                onward_keyword_runs(u, v, i + 1, run + 1);
                onward_keyword_runs(u.emit(built), v, i + 1, 0);
                assert(whole_keyword(v[i as int]));
                let (n0, c) = note_const(z, s, n, ConstantModel::Str(name@));
                let (n1, a) = eval_expr(z, t, n0, v[i as int].value);
                lemma_pushed_more(k, b, c);
                lemma_pushed_more(k, b.push(c), a);
                let d = b.push(c).push(a);
                if i + 1 < v.len() && v[i as int + 1].arg is Some {
                    let (m, c) = eval_keyword_runs(z, u, n1, v, i + 1, run + 1, k, d);
                    lemma_goes_twice(n, n1, m, s.top().blocks.len(), u.top().blocks.len());
                    (m, c)
                } else {
                    let width = 2 * (run + 1);
                    assert(step(z.w, z.p, k.push_all(d), built) == make(
                        k.push_all(d),
                        width as int,
                        Made::MapOf,
                    )) by {
                        reveal(plain_step);
                    }
                    let (n2, p) = note_make(z, u, n1, built, width as int, Made::MapOf);
                    let e = d.take(d.len() - width).push(p);
                    assert(k.push_all(d).drop(width as int).push(p).stack =~= k.push_all(e).stack);
                    let (m, c) = eval_keyword_runs(z, u.emit(built), n2, v, i + 1, 0, k, e);
                    lemma_goes_twice(n, n2, m, s.top().blocks.len(), u.emit(built).top().blocks.len());
                    (m, c)
                }
            },
        }
    }
}

#[verifier::spinoff_prover]
pub proof fn eval_store(z: Run, s: State, n: Notes, e: Expr, k: Machine, a: Term) -> (r: Notes)
    requires
        whole(e),
        ready(z, s, s.store(e), n),
        n.cur is Some ==> n.cur == Some(k.push(a)),
    ensures
        noted(z.w, z.p, s.store(e).top(), r),
        goes_on(n, r, s.top().blocks.len()),
        n.cur is None ==> r.cur is None,
        n.cur is Some ==> r.cur == Some(k),
    decreases e, 2nat, 0nat,
{
    broadcast use group_onward_steps;

    reveal(State::store);
    reveal(State::expr);
    reveal(State::store_elements);
    match e {
        Expr::Name(x) => note_store_name(z, s, n, x.id@),
        Expr::Subscript(x) => {
            let u = s.expr(*x.value);
            let v = u.expr(*x.slice);
            onward_expr(s, *x.value);
            onward_expr(u, *x.slice);
            let (n1, p) = eval_expr(z, s, n, *x.value);
            let (n2, q) = eval_expr(z, u, n1, *x.slice);
            assert(step(z.w, z.p, k.push(a).push(p).push(q), Instruction::StoreSubscript) == on(k)) by {
                reveal(plain_step);
            }
            note_on(z, v, n2, Instruction::StoreSubscript, k)
        },
        Expr::Attribute(x) => {
            reveal(State::check_name);
            let u = s.expr(*x.value);
            let idx = u.name_index(x.attr@);
            onward_expr(s, *x.value);
            let (n1, p) = eval_expr(z, s, n, *x.value);
            note_intern(z, u, n1, x.attr@);
            assert(step(z.w, z.p, k.push(a).push(p), Instruction::StoreAttr { idx }) == on(k)) by {
                reveal(plain_step);
            }
            note_on(z, u.intern_name(x.attr@), n1, Instruction::StoreAttr { idx }, k)
        },
        Expr::List(x) => eval_store_unpacked(z, s, n, x.elts@, x.range, k, a),
        Expr::Tuple(x) => eval_store_unpacked(z, s, n, x.elts@, x.range, k, a),
        _ => n,
    }
}

/// The parts of a value, the first last.
pub open spec fn parts_of(v: Term, n: nat) -> Seq<Term>
    decreases n,
{
    if n == 0 {
        Seq::empty()
    } else {
        seq![Term::Of(Made::Part((n - 1) as nat), seq![v])] + parts_of(v, (n - 1) as nat)
    }
}

pub proof fn lemma_unpacked(k: Machine, v: Term, n: nat)
    ensures
        unpacked(k, v, n) == k.push_all(parts_of(v, n)),
        parts_of(v, n).len() == n,
    decreases n,
{
    if n > 0 {
        let p = Term::Of(Made::Part((n - 1) as nat), seq![v]);
        lemma_unpacked(k.push(p), v, (n - 1) as nat);
        lemma_pushed_on(k, p, parts_of(v, (n - 1) as nat));
    } else {
        assert(k.push_all(Seq::empty()).stack =~= k.stack);
    }
}

#[verifier::spinoff_prover]
pub proof fn eval_store_unpacked(
    z: Run,
    s: State,
    n: Notes,
    v: Seq<Expr>,
    range: TextRange,
    k: Machine,
    a: Term,
) -> (r: Notes)
    requires
        all_whole(v),
        ready(z, s, s.unpack(v, range).to(s.unpack(v, range).store_elements(v, 0)), n),
        n.cur is Some ==> n.cur == Some(k.push(a)),
    ensures
        noted(
            z.w,
            z.p,
            s.unpack(v, range).to(s.unpack(v, range).store_elements(v, 0)).top(),
            r,
        ),
        goes_on(n, r, s.top().blocks.len()),
        n.cur is None ==> r.cur is None,
        n.cur is Some ==> r.cur == Some(k),
    decreases v, 1nat, 0nat,
{
    broadcast use group_onward_steps;

    reveal(State::unpack);
    let t = s.unpack(v, range);
    let i = match first_star(v, 0) {
        None => Instruction::UnpackSequence { size: v.len() as u32 },
        Some(i) => Instruction::UnpackEx {
            args: UnpackExArgs { before: i as u8, after: (v.len() - i - 1) as u8 },
        },
    };
    onward_store_elements(t, v, 0);
    lemma_first_star(v, 0);
    lemma_unpacked(k, a, v.len());
    let b = parts_of(a, v.len());
    assert(step(z.w, z.p, k.push(a), i) == on(k.push_all(b))) by {
        reveal(plain_step);
    }
    assert(t == s.emit(i));
    let n1 = note_on(z, s, n, i, k.push_all(b));
    let m = eval_store_elements(z, t, n1, v, 0, k, b);
    assert(goes_on(n, m, s.top().blocks.len()));
    m
}

pub proof fn lemma_first_star(v: Seq<Expr>, i: nat)
    ensures
        first_star(v, i) matches Some(j) ==> i <= j < v.len(),
    decreases v.len() - i,
{
    if i < v.len() {
        lemma_first_star(v, i + 1);
    }
}

#[verifier::spinoff_prover]
pub proof fn eval_store_elements(
    z: Run,
    s: State,
    n: Notes,
    v: Seq<Expr>,
    i: nat,
    k: Machine,
    b: Seq<Term>,
) -> (r: Notes)
    requires
        all_whole(v),
        ready(z, s, s.store_elements(v, i), n),
        i <= v.len(),
        b.len() == v.len() - i,
        n.cur is Some ==> n.cur == Some(k.push_all(b)),
    ensures
        noted(z.w, z.p, s.store_elements(v, i).top(), r),
        goes_on(n, r, s.top().blocks.len()),
        n.cur is None ==> r.cur is None,
        n.cur is Some ==> r.cur == Some(k),
    decreases v, 0nat, v.len() - i,
{
    broadcast use group_onward_steps;

    reveal(State::store_elements);
    reveal(State::store);
    if i >= v.len() {
        assert(k.push_all(b).stack =~= k.stack);
        n
    } else {
        let e = match v[i as int] {
            Expr::Starred(x) => *x.value,
            e => e,
        };
        onward_store(s, e);
        onward_store_elements(s.store(e), v, i + 1);
        assert(b =~= b.drop_last().push(b.last()));
        lemma_pushed_more(k, b.drop_last(), b.last());
        let n1 = eval_store(z, s, n, e, k.push_all(b.drop_last()), b.last());
        eval_store_elements(z, s.store(e), n1, v, i + 1, k, b.drop_last())
    }
}

#[verifier::spinoff_prover]
pub proof fn eval_defaults(
    z: Run,
    s: State,
    n: Notes,
    v: Seq<ParameterWithDefault>,
    i: nat,
    k: Machine,
    b: Seq<Term>,
) -> (r: (Notes, Seq<Term>))
    requires
        whole_defaults(v),
        ready(z, s, s.defaults(v, i), n),
        n.cur is Some ==> n.cur == Some(k.push_all(b)),
    ensures
        noted(z.w, z.p, s.defaults(v, i).top(), r.0),
        goes_on(n, r.0, s.top().blocks.len()),
        n.cur is None ==> r.0.cur is None,
        n.cur is Some ==> r.0.cur == Some(k.push_all(r.1)),
        r.1.len() == b.len() + default_count(v, i),
    decreases v, 0nat, v.len() - i,
{
    broadcast use group_onward_steps;

    reveal(State::defaults);
    reveal(State::expr);
    if i >= v.len() {
        (n, b)
    } else {
        match v[i as int].default {
            Some(e) => {
                let (t, n0, c) = (s, n, b);
                let u = t.expr(*e);
                onward_expr(t, *e);
                onward_defaults(u, v, i + 1);
                let (n1, a) = eval_expr(z, t, n0, *e);
                lemma_pushed_more(k, c, a);
                eval_defaults(z, u, n1, v, i + 1, k, c.push(a))
            },
            None => {
                onward_defaults(s, v, i + 1);
                eval_defaults(z, s, n, v, i + 1, k, b)
            },
        }
    }
}

#[verifier::spinoff_prover]
pub proof fn eval_keyword_defaults(
    z: Run,
    s: State,
    n: Notes,
    v: Seq<ParameterWithDefault>,
    i: nat,
    k: Machine,
    b: Seq<Term>,
) -> (r: (Notes, Seq<Term>))
    requires
        whole_defaults(v),
        ready(z, s, s.keyword_defaults(v, i), n),
        n.cur is Some ==> n.cur == Some(k.push_all(b)),
    ensures
        noted(z.w, z.p, s.keyword_defaults(v, i).top(), r.0),
        goes_on(n, r.0, s.top().blocks.len()),
        n.cur is None ==> r.0.cur is None,
        n.cur is Some ==> r.0.cur == Some(k.push_all(r.1)),
        r.1.len() == b.len() + 2 * default_count(v, i),
    decreases v, 0nat, v.len() - i,
{
    broadcast use group_onward_steps;

    reveal(State::keyword_defaults);
    reveal(State::expr);
    if i >= v.len() {
        (n, b)
    } else {
        match v[i as int].default {
            Some(e) => {
                let text = ConstantModel::Str(v[i as int].parameter.name@);
                let t = s.load_const(text);
                onward_expr(t, *e);
                onward_keyword_defaults(t.expr(*e), v, i + 1);
                let (n0, q) = note_const(z, s, n, text);
                let c = b.push(q);
                lemma_pushed_more(k, b, q);
                let u = t.expr(*e);
                onward_expr(t, *e);
                onward_keyword_defaults(u, v, i + 1);
                let (n1, a) = eval_expr(z, t, n0, *e);
                lemma_pushed_more(k, c, a);
                eval_keyword_defaults(z, u, n1, v, i + 1, k, c.push(a))
            },
            None => {
                onward_keyword_defaults(s, v, i + 1);
                eval_keyword_defaults(z, s, n, v, i + 1, k, b)
            },
        }
    }
}

/// The defaults of a function come onto the stack before its code unit is opened.
#[verifier::spinoff_prover]
pub proof fn eval_enter_function(
    z: Run,
    s: State,
    n: Notes,
    name: Seq<char>,
    p: Parameters,
    k: Machine,
    b: Seq<Term>,
) -> (r: (Notes, Seq<Term>))
    requires
        whole_parameters(p),
        placed(s),
        s.enter_function(name, p).running(),
        noted(z.w, z.p, s.top(), n),
        pools_kept(outer(s.enter_function(name, p)), z.p),
        s.top().cellvars.len() == z.p.cellvars.len(),
        outer(s.enter_function(name, p)).blocks.len() <= u32::MAX,
        n.cur is Some ==> n.cur == Some(k.push_all(b)),
    ensures
        noted(z.w, z.p, outer(s.enter_function(name, p)), r.0),
        goes_on(n, r.0, s.top().blocks.len()),
        n.cur is None ==> r.0.cur is None,
        n.cur is Some ==> r.0.cur == Some(k.push_all(r.1)),
        r.1.len() == b.len() + function_parts(parameter_flags(p)),
        outer(s.enter_function(name, p)).cellvars.len() == z.p.cellvars.len(),
    decreases p, 0nat, 0nat,
{
    broadcast use group_onward_steps;

    reveal(State::enter_function);
    reveal(State::defaults);
    reveal(State::keyword_defaults);
    let many = positional_defaults(p);
    let few = default_count(p.kwonlyargs@, 0);
    let t = s.defaults(p.posonlyargs@, 0);
    let u = t.defaults(p.args@, 0);
    let i = Instruction::BuildTuple { size: many as u32 };
    let v = if many == 0 {
        u
    } else {
        u.emit(i)
    };
    let w = v.keyword_defaults(p.kwonlyargs@, 0);
    let j = Instruction::BuildMap { size: few as u32 };
    let end = if few == 0 {
        w
    } else {
        w.emit(j)
    };
    let positional = p.posonlyargs@.len() + p.args@.len();
    let opened = end.push_code(
        function_flags(),
        p.posonlyargs@.len() as u32,
        positional as u32,
        p.kwonlyargs@.len() as u32,
        name,
    );
    onward_defaults(s, p.posonlyargs@, 0);
    onward_defaults(t, p.args@, 0);
    onward_keyword_defaults(v, p.kwonlyargs@, 0);
    assert(opened.running() && opened.codes.drop_last() == end.codes);
    assert(onward(opened, opened.parameters(p)));
    assert(outer(s.enter_function(name, p)) == end.top());
    let (n1, b1) = eval_defaults(z, s, n, p.posonlyargs@, 0, k, b);
    let (n2, b2) = eval_defaults(z, t, n1, p.args@, 0, k, b1);
    let (n3, b3) = if many == 0 {
        (n2, b2)
    } else {
        assert(step(z.w, z.p, k.push_all(b2), i) == make(k.push_all(b2), many as int, Made::Tuple))
            by {
            reveal(plain_step);
        }
        let (n3, a) = note_make(z, u, n2, i, many as int, Made::Tuple);
        let c = b2.take(b.len() as int).push(a);
        assert(k.push_all(b2).drop(many as int).push(a).stack =~= k.push_all(c).stack);
        (n3, c)
    };
    let (n4, b4) = eval_keyword_defaults(z, v, n3, p.kwonlyargs@, 0, k, b3);
    if few == 0 {
        (n4, b4)
    } else {
        assert(step(z.w, z.p, k.push_all(b4), j) == make(k.push_all(b4), (2 * few) as int, Made::MapOf))
            by {
            reveal(plain_step);
        }
        let (n5, a) = note_make(z, w, n4, j, (2 * few) as int, Made::MapOf);
        let c = b4.take(b3.len() as int).push(a);
        assert(k.push_all(b4).drop((2 * few) as int).push(a).stack =~= k.push_all(c).stack);
        (n5, c)
    }
}

#[verifier::spinoff_prover]
pub proof fn eval_lambda(z: Run, s: State, n: Notes, x: ExprLambda) -> (r: (Notes, Term))
    requires
        whole(Expr::Lambda(x)),
        ready(z, s, s.lambda(x), n),
    ensures
        noted(z.w, z.p, s.lambda(x).top(), r.0),
        goes_on(n, r.0, s.top().blocks.len()),
        n.cur is None ==> r.0.cur is None,
        n.cur matches Some(k) ==> r.0.cur == Some(k.push(r.1)),
        is_made(r.1, Made::Function),
    decreases x, 0nat, 0nat,
{
    broadcast use group_onward_steps;

    reveal(State::lambda);
    reveal(State::enter_function);
    reveal(State::expr);
    let name = "<lambda>"@;
    let opened = match x.parameters {
        Some(p) => s.enter_function(name, *p),
        None => s.push_code(function_flags(), 0, 0, 0, name),
    };
    let entered = opened.set_ctx(s.function_ctx(false)).insert_const(ConstantModel::NoneValue);
    let done = entered.expr(*x.body).return_value();
    let flags = match x.parameters {
        Some(p) => parameter_flags(*p),
        None => plain_function(),
    };
    if let Some(p) = x.parameters {
        onward_enter_function(s, name, *p);
    }
    onward_expr(entered, *x.body);
    onward_close_function(s, done, name, flags);
    assert(entered.running()) by {
        if !entered.running() {
            lemma_unclosed(entered, s.ctx, name, flags);
        }
    }
    lemma_unclosed(done, s.ctx, name, flags);
    lemma_closed(done, s.ctx, name, flags);
    assert(done.codes.drop_last() == opened.codes.drop_last());
    let k = base_of(n);
    assert(k.push_all(Seq::empty()).stack =~= k.stack);
    let (n1, b) = match x.parameters {
        Some(p) => eval_enter_function(z, s, n, name, *p, k, Seq::empty()),
        None => (n, Seq::empty()),
    };
    note_closed(z, done, n1, s.ctx, name, flags, k, b)
}

#[verifier::spinoff_prover]
pub proof fn eval_comprehension(z: Run, s: State, n: Notes, e: Expr) -> (r: (Notes, Term))
    requires
        whole(e),
        ready(z, s, s.comprehension(e), n),
    ensures
        noted(z.w, z.p, s.comprehension(e).top(), r.0),
        goes_on(n, r.0, s.top().blocks.len()),
        n.cur is None ==> r.0.cur is None,
        n.cur matches Some(k) ==> r.0.cur == Some(k.push(r.1)),
    decreases e, 2nat, 1nat,
{
    broadcast use group_onward_steps;

    reveal(State::comprehension);
    reveal(State::comprehension_function);
    reveal(State::expr);
    reveal(State::call_comprehension);
    let g = comprehension_generators(e);
    let ty = comprehension_type(e);
    let name = comprehension_name(ty);
    let is_async = comprehension_awaits(e, s.ctx.func);
    let within = s.set_ctx(s.function_ctx(is_async));
    let inner = within.comprehension_function(e, is_async);
    let t = inner.close_function(s.ctx, name, plain_function());
    let u = t.expr(g[0].iter);
    onward_comprehension_function(within, e, is_async);
    onward_close_function(s, inner, name, plain_function());
    onward_expr(t, g[0].iter);
    lemma_unclosed(inner, s.ctx, name, plain_function());
    lemma_closed(inner, s.ctx, name, plain_function());
    let k = base_of(n);
    assert(k.push_all(Seq::empty()).stack =~= k.stack);
    let (n1, f) = note_closed(z, inner, n, s.ctx, name, plain_function(), k, Seq::empty());
    assert(whole_generator(g[0])) by {
        match e {
            Expr::ListComp(x) => {
                assert(e->ListComp_0 == x);
                assert(whole_generator(x.generators@[0]));
            },
            Expr::SetComp(x) => {
                assert(e->SetComp_0 == x);
                assert(whole_generator(x.generators@[0]));
            },
            Expr::DictComp(x) => {
                assert(e->DictComp_0 == x);
                assert(whole_generator(x.generators@[0]));
            },
            Expr::Generator(x) => {
                assert(e->Generator_0 == x);
                assert(whole_generator(x.generators@[0]));
            },
            _ => {},
        }
    }
    let (n2, a) = eval_expr(z, t, n1, g[0].iter);
    let i = if async_generator(g, 0) {
        Instruction::GetAIter
    } else {
        Instruction::GetIter
    };
    let how = if async_generator(g, 0) {
        Made::AsyncIterator
    } else {
        Made::Iterator
    };
    let j = Instruction::CallFunctionPositional { nargs: 1 };
    assert(step(z.w, z.p, k.push(f).push(a), i) == make(k.push(f).push(a), 1, how)) by {
        reveal(plain_step);
    }
    let n3 = note_one(z, u, n2, i, a, how);
    let b = Term::Of(how, seq![a]);
    assert(step(z.w, z.p, k.push(f).push(b), j) == make(k.push(f).push(b), 2, Made::Call)) by {
        reveal(plain_step);
    }
    let base = if n3.cur is Some { Some(k) } else { None };
    let n4 = note_two(z, u.emit(i), n3, j, base, f, b, Made::Call);
    let c = Term::Of(Made::Call, seq![f, b]);
    if is_async && ty != ComprehensionType::Generator {
        let v = u.emit(i).emit(j);
        assert(step(z.w, z.p, k.push(c), Instruction::GetAwaitable) == make(
            k.push(c),
            1,
            Made::Awaitable,
        )) by {
            reveal(plain_step);
        }
        let n5 = note_one(z, v, n4, Instruction::GetAwaitable, c, Made::Awaitable);
        let d = Term::Of(Made::Awaitable, seq![c]);
        let m = note_received(z, v.emit(Instruction::GetAwaitable), n5, base, d);
        (m, Term::Of(Made::Received, seq![d]))
    } else {
        (n4, c)
    }
}

#[verifier::spinoff_prover]
pub proof fn eval_fstring(z: Run, s: State, n: Notes, x: FStringValue) -> (r: (Notes, Term))
    requires
        whole_fstring(x),
        ready(z, s, s.fstring(x), n),
    ensures
        noted(z.w, z.p, s.fstring(x).top(), r.0),
        goes_on(n, r.0, s.top().blocks.len()),
        n.cur is None ==> r.0.cur is None,
        n.cur matches Some(k) ==> r.0.cur == Some(k.push(r.1)),
    decreases x, 0nat, 0nat,
{
    broadcast use group_onward_steps;

    reveal(State::fstring);
    reveal(State::fstring_parts);
    let t = s.fstring_parts(x.parts@, 0);
    let len = x.parts@.len();
    onward_fstring_parts(s, x.parts@, 0);
    let (n1, b) = eval_fstring_parts(z, s, n, x.parts@, 0);
    let k = base_of(n);
    if len != 1 {
        let i = Instruction::BuildString { size: len as u32 };
        assert(step(z.w, z.p, k.push_all(b), i) == make(k.push_all(b), len as int, Made::Joined)) by {
            reveal(plain_step);
        }
        note_make(z, t, n1, i, len as int, Made::Joined)
    } else {
        assert(k.push_all(b).stack =~= k.push(b[0]).stack);
        (n1, b[0])
    }
}

#[verifier::spinoff_prover]
pub proof fn eval_fstring_parts(
    z: Run,
    s: State,
    n: Notes,
    v: Seq<FStringPart>,
    i: nat,
) -> (r: (Notes, Seq<Term>))
    requires
        whole_parts(v),
        ready(z, s, s.fstring_parts(v, i), n),
        i <= v.len(),
    ensures
        noted(z.w, z.p, s.fstring_parts(v, i).top(), r.0),
        goes_on(n, r.0, s.top().blocks.len()),
        n.cur is None ==> r.0.cur is None,
        n.cur matches Some(k) ==> r.0.cur == Some(k.push_all(r.1)),
        r.1.len() == v.len() - i,
    decreases v, 0nat, v.len() - i,
{
    broadcast use group_onward_steps;

    reveal(State::fstring_parts);
    reveal(State::fstring_elements);
    if i >= v.len() {
        if let Some(k) = n.cur {
            assert(k.push_all(Seq::empty()).stack =~= k.stack);
        }
        (n, Seq::empty())
    } else {
        let (u, n1, a) = match v[i as int] {
            FStringPart::Literal(text) => {
                let u = s.load_const(ConstantModel::Str(text@));
                onward_fstring_parts(u, v, i + 1);
                let (n1, a) = note_const(z, s, n, ConstantModel::Str(text@));
                (u, n1, a)
            },
            FStringPart::FString(f) => {
                let u = s.fstring_elements(f.elements@);
                onward_fstring_elements(s, f.elements@);
                onward_fstring_parts(u, v, i + 1);
                let (n1, a) = eval_fstring_elements(z, s, n, f.elements@);
                (u, n1, a)
            },
        };
        let (m, rest) = eval_fstring_parts(z, u, n1, v, i + 1);
        if let Some(k) = n.cur {
            lemma_pushed_on(k, a, rest);
        }
        (m, seq![a] + rest)
    }
}

#[verifier::spinoff_prover]
pub proof fn eval_fstring_elements(
    z: Run,
    s: State,
    n: Notes,
    v: Seq<FStringElement>,
) -> (r: (Notes, Term))
    requires
        whole_elements(v),
        ready(z, s, s.fstring_elements(v), n),
    ensures
        noted(z.w, z.p, s.fstring_elements(v).top(), r.0),
        goes_on(n, r.0, s.top().blocks.len()),
        n.cur is None ==> r.0.cur is None,
        n.cur matches Some(k) ==> r.0.cur == Some(k.push(r.1)),
    decreases v, 1nat, 0nat,
{
    broadcast use group_onward_steps;

    reveal(State::fstring_elements);
    reveal(State::fstring_element_values);
    let t = s.fstring_element_values(v, 0);
    let len = v.len();
    onward_fstring_element_values(s, v, 0);
    let (n1, b) = eval_fstring_element_values(z, s, n, v, 0);
    let k = base_of(n);
    if len == 0 {
        assert(k.push_all(b).stack =~= k.stack);
        note_const(z, t, n1, ConstantModel::Str(""@))
    } else if len > 1 {
        let i = Instruction::BuildString { size: len as u32 };
        assert(step(z.w, z.p, k.push_all(b), i) == make(k.push_all(b), len as int, Made::Joined)) by {
            reveal(plain_step);
        }
        note_make(z, t, n1, i, len as int, Made::Joined)
    } else {
        assert(k.push_all(b).stack =~= k.push(b[0]).stack);
        (n1, b[0])
    }
}

#[verifier::spinoff_prover]
pub proof fn eval_fstring_element_values(
    z: Run,
    s: State,
    n: Notes,
    v: Seq<FStringElement>,
    i: nat,
) -> (r: (Notes, Seq<Term>))
    requires
        whole_elements(v),
        ready(z, s, s.fstring_element_values(v, i), n),
        i <= v.len(),
    ensures
        noted(z.w, z.p, s.fstring_element_values(v, i).top(), r.0),
        goes_on(n, r.0, s.top().blocks.len()),
        n.cur is None ==> r.0.cur is None,
        n.cur matches Some(k) ==> r.0.cur == Some(k.push_all(r.1)),
        r.1.len() == v.len() - i,
    decreases v, 0nat, v.len() - i,
{
    broadcast use group_onward_steps;

    reveal(State::fstring_element_values);
    reveal(State::fstring_expression);
    if i >= v.len() {
        if let Some(k) = n.cur {
            assert(k.push_all(Seq::empty()).stack =~= k.stack);
        }
        (n, Seq::empty())
    } else {
        let (u, n1, a) = match v[i as int] {
            FStringElement::Literal(text) => {
                let u = s.load_const(ConstantModel::Str(text@));
                onward_fstring_element_values(u, v, i + 1);
                let (n1, a) = note_const(z, s, n, ConstantModel::Str(text@));
                (u, n1, a)
            },
            FStringElement::Expression(x) => {
                let u = s.fstring_expression(x);
                onward_fstring_expression(s, x);
                onward_fstring_element_values(u, v, i + 1);
                let (n1, a) = eval_fstring_expression(z, s, n, x);
                (u, n1, a)
            },
        };
        let (m, rest) = eval_fstring_element_values(z, u, n1, v, i + 1);
        if let Some(k) = n.cur {
            lemma_pushed_on(k, a, rest);
        }
        (m, seq![a] + rest)
    }
}

#[verifier::spinoff_prover]
pub proof fn eval_fstring_expression(
    z: Run,
    s: State,
    n: Notes,
    x: FStringExpressionElement,
) -> (r: (Notes, Term))
    requires
        whole_formatted(x),
        ready(z, s, s.fstring_expression(x), n),
    ensures
        noted(z.w, z.p, s.fstring_expression(x).top(), r.0),
        goes_on(n, r.0, s.top().blocks.len()),
        n.cur is None ==> r.0.cur is None,
        n.cur matches Some(k) ==> r.0.cur == Some(k.push(r.1)),
    decreases x, 0nat, 0nat,
{
    broadcast use group_onward_steps;

    reveal(State::fstring_expression);
    reveal(State::fstring_elements);
    reveal(State::expr);
    reveal(State::debug_text);
    let k = base_of(n);
    let t = s.debug_text(x.debug_text);
    let u = match x.format_spec {
        Some(spec) => t.fstring_elements(spec.elements@),
        None => t.load_const(ConstantModel::Str(""@)),
    };
    let v = u.expr(*x.expression);
    let i = Instruction::FormatValue { conversion: element_conversion(x) };
    let how = Made::Formatted(element_conversion(x));
    assert(onward(s, t));
    if let Some(spec) = x.format_spec {
        onward_fstring_elements(t, spec.elements@);
    }
    onward_expr(u, *x.expression);
    let (n1, b) = match x.debug_text {
        Some(d) => {
            let c1 = ConstantModel::Str(d.leading@);
            let c2 = ConstantModel::Str(d.source@);
            let c3 = ConstantModel::Str(d.trailing@);
            let t1 = s.load_const(c1);
            let t2 = t1.load_const(c2);
            let (m1, a1) = note_const(z, s, n, c1);
            let (m2, a2) = note_const(z, t1, m1, c2);
            let (m3, a3) = note_const(z, t2, m2, c3);
            assert(k.push(a1).push(a2).push(a3).stack =~= k.push_all(seq![a1, a2, a3]).stack);
            (m3, seq![a1, a2, a3])
        },
        None => {
            assert(k.push_all(Seq::empty()).stack =~= k.stack);
            (n, Seq::empty())
        },
    };
    let (n2, p) = match x.format_spec {
        Some(spec) => eval_fstring_elements(z, t, n1, spec.elements@),
        None => note_const(z, t, n1, ConstantModel::Str(""@)),
    };
    let (n3, q) = eval_expr(z, u, n2, *x.expression);
    let j = k.push_all(b);
    assert(step(z.w, z.p, j.push(p).push(q), i) == make(j.push(p).push(q), 2, how)) by {
        reveal(plain_step);
    }
    let base = if n3.cur is Some { Some(j) } else { None };
    let n4 = note_two(z, v, n3, i, base, p, q, how);
    let f = Term::Of(how, seq![p, q]);
    lemma_pushed_more(k, b, f);
    if x.debug_text is Some {
        let l = Instruction::BuildString { size: 4 };
        assert(step(z.w, z.p, k.push_all(b.push(f)), l) == make(k.push_all(b.push(f)), 4, Made::Joined))
            by {
            reveal(plain_step);
        }
        note_make(z, v.emit(i), n4, l, 4, Made::Joined)
    } else {
        assert(k.push_all(b.push(f)).stack =~= k.push(f).stack);
        (n4, f)
    }
}

} // verus!
