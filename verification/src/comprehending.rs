//! What a comprehension adds to its collection, turn by turn.
use vstd::prelude::*;

use crate::ast::{Comprehension, Expr};
use crate::bytecode::{BlockIdx, Instruction};
use crate::eval::eval_expr;
use crate::eval_call::eval_store;
use crate::eval_logic::eval_jump_ifs;
use crate::expr_code::{
    async_generator, comprehension_generators, comprehension_type, ComprehensionType,
};
use crate::handling::{note_marked, note_one};
use crate::machine::{
    is_made, leap, make, noted, on, plain_step, step, Flow, Machine, Made, Notes, Term, World,
};
use crate::noting::{
    goes_on, group_pushed, lemma_goes_twice, lemma_pushed_more, note_block, note_flow, note_label,
    note_on, ready, Run,
};
use crate::onward::{
    group_onward_steps, onward_comprehension_loop, onward_comprehension_loops,
    onward_comprehension_value, onward_expr, onward_jump_ifs, onward_store,
};
use crate::state::State;
use crate::validity::{group_layout, group_lefts, left, lefts_kept};
use crate::values::means;
use crate::whole::{whole, whole_generator};

verus! {

broadcast use {group_layout, group_lefts, group_pushed};

/// Whether values are those that a comprehension is to add in a turn: the value of its element, or
/// that of its key and then that of its value.
pub open spec fn turned_out(w: World, cls: Option<Seq<char>>, e: Expr, t: Seq<Term>) -> bool {
    match e {
        Expr::ListComp(x) => t.len() == 1 && means(w, cls, t[0], *x.elt),
        Expr::SetComp(x) => t.len() == 1 && means(w, cls, t[0], *x.elt),
        Expr::DictComp(x) => t.len() == 2 && means(w, cls, t[0], *x.key) && means(
            w,
            cls,
            t[1],
            *x.value,
        ),
        Expr::Generator(x) => t.len() == 1 && means(w, cls, t[0], *x.elt),
        _ => false,
    }
}

/// The collection that a comprehension makes.
pub open spec fn collection_of(e: Expr) -> Made {
    match e {
        Expr::SetComp(_) => Made::SetOf,
        Expr::DictComp(_) => Made::MapOf,
        _ => Made::List,
    }
}

/// What a comprehension gives for a turn comes onto the stack.
#[verifier::spinoff_prover]
pub proof fn eval_turn(z: Run, s: State, n: Notes, e: Expr) -> (r: (Notes, Seq<Term>))
    requires
        ready(z, s, s.comprehension_value(e), n),
        whole(e),
        e is ListComp || e is SetComp || e is DictComp || e is Generator,
    ensures
        noted(z.w, z.p, s.comprehension_value(e).top(), r.0),
        goes_on(n, r.0, s.top().blocks.len()),
        n.cur is None ==> r.0.cur is None,
        n.cur matches Some(k) ==> r.0.cur == Some(k.push_all(r.1)),
        turned_out(z.w, s.class_name, e, r.1),
{
    broadcast use group_onward_steps;

    reveal(State::comprehension_value);
    reveal(State::comprehension_element);
    reveal(State::expr);
    match e {
        Expr::DictComp(x) => {
            let t = s.expr(*x.key);
            onward_expr(s, *x.key);
            onward_expr(t, *x.value);
            let (n1, a) = eval_expr(z, s, n, *x.key);
            let (n2, b) = eval_expr(z, t, n1, *x.value);
            lemma_goes_twice(n, n1, n2, s.top().blocks.len(), t.top().blocks.len());
            if let Some(k) = n.cur {
                assert(k.push(a).push(b).stack =~= k.push_all(seq![a, b]).stack);
            }
            (n2, seq![a, b])
        },
        _ => {
            let elt = match e {
                Expr::ListComp(x) => *x.elt,
                Expr::SetComp(x) => *x.elt,
                Expr::Generator(x) => *x.elt,
                _ => arbitrary(),
            };
            let (n1, a) = eval_expr(z, s, n, elt);
            if let Some(k) = n.cur {
                assert(k.push(a).stack =~= k.push_all(seq![a]).stack);
            }
            (n1, seq![a])
        },
    }
}

/// In a turn of a comprehension, what is added to the collection below the iterators is the value
/// of its element, or the value of its key under that of its value; nothing else is left on the
/// stack. The key is evaluated before the value.
#[verifier::spinoff_prover]
pub proof fn a_turn_adds_what_it_gives(
    z: Run,
    s: State,
    n: Notes,
    e: Expr,
    k: Machine,
    collection: Term,
    iterators: Seq<Term>,
) -> (r: Notes)
    requires
        ready(
            z,
            s,
            s.comprehension_value(e).comprehension_collect(comprehension_type(e), iterators.len()),
            n,
        ),
        whole(e),
        e is ListComp || e is SetComp || e is DictComp || e is Generator,
        forall|t: Seq<Term>|
            (#[trigger] (z.w.insert)(t)) <==> turned_out(z.w, s.class_name, e, t),
        is_made(collection, collection_of(e)),
        n.cur is Some ==> n.cur == Some(k.push(collection).push_all(iterators)),
    ensures
        noted(
            z.w,
            z.p,
            s.comprehension_value(e).comprehension_collect(
                comprehension_type(e),
                iterators.len(),
            ).top(),
            r,
        ),
        goes_on(n, r, s.top().blocks.len()),
        r.cur == n.cur,
{
    broadcast use group_onward_steps;

    reveal(State::comprehension_collect);
    onward_comprehension_value(s, e);
    let t = s.comprehension_value(e);
    let ty = comprehension_type(e);
    let (n1, vs) = eval_turn(z, s, n, e);
    let j = k.push(collection).push_all(iterators);
    assert((z.w.insert)(vs));
    if ty == ComprehensionType::Generator {
        let u = t.mark_generator();
        note_marked(z, t, n1);
        let v = Term::Of(Made::Sent, vs);
        assert(j.push_all(vs).stack =~= j.push(vs[0]).stack);
        assert(seq![vs[0]] =~= vs);
        assert(step(z.w, z.p, j.push(vs[0]), Instruction::YieldValue) == make(
            j.push(vs[0]),
            1,
            Made::Sent,
        )) by {
            reveal(plain_step);
        }
        assert(step(z.w, z.p, j.push(v), Instruction::Pop) == on(j)) by {
            reveal(plain_step);
        }
        let n2 = note_one(z, u, n1, Instruction::YieldValue, vs[0], Made::Sent);
        note_on(z, u.emit(Instruction::YieldValue), n2, Instruction::Pop, j)
    } else {
        let i = match ty {
            ComprehensionType::List => Instruction::ListAppend { i: iterators.len() as u32 },
            ComprehensionType::SetDisplay => Instruction::SetAdd { i: iterators.len() as u32 },
            _ => Instruction::MapAdd { i: iterators.len() as u32 },
        };
        assert(t.emit(i) == t.comprehension_collect(ty, iterators.len()));
        assert(step(z.w, z.p, j.push_all(vs), i) == on(j)) by {
            reveal(plain_step);
            assert(j.push_all(vs).peek(vs.len() as int + iterators.len() as int) == collection);
        }
        note_on(z, t, n1, i, j)
    }
}

/// The start of a loop: the iterator is on the stack in each turn, and is gone where the loop ends.
#[verifier::spinoff_prover]
proof fn eval_loop(
    z: Run,
    s: State,
    n: Notes,
    x: Comprehension,
    first: Option<u32>,
    loop_block: BlockIdx,
    after: BlockIdx,
    k: Machine,
) -> (r: (Notes, Term))
    requires
        ready(z, s, s.comprehension_loop(x, first, loop_block, after), n),
        whole_generator(x),
        !x.is_async,
        first matches Some(a) ==> a < z.p.varnames.len(),
        loop_block.0 < s.top().blocks.len(),
        after.0 < s.top().blocks.len(),
        loop_block != after,
        !n.at.contains_key(loop_block.0 as int),
        !n.at.contains_key(after.0 as int),
        !left(s.comprehension_loop(x, first, loop_block, after).top(), after.0 as int),
        n.cur is Some ==> n.cur == Some(k),
    ensures
        noted(z.w, z.p, s.comprehension_loop(x, first, loop_block, after).top(), r.0),
        forall|b: int|
            b < s.top().blocks.len() && b != loop_block.0 && b != after.0 ==> (
            #[trigger] r.0.at.contains_key(b) <==> n.at.contains_key(b)) && (n.at.contains_key(b)
                ==> r.0.at[b] == n.at[b]),
        n.cur is None ==> r.0.cur is None && !r.0.at.contains_key(loop_block.0 as int)
            && !r.0.at.contains_key(after.0 as int),
        n.cur is Some ==> r.0.at.contains_key(loop_block.0 as int) && r.0.at[loop_block.0 as int]
            == k.push(r.1) && r.0.at.contains_key(after.0 as int) && r.0.at[after.0 as int] == k
            && (r.0.cur is Some ==> r.0.cur == Some(k.push(r.1))),
{
    broadcast use group_onward_steps;

    reveal(State::comprehension_loop);
    reveal(State::expr);
    reveal(State::store);
    reveal(State::jump_ifs);
    reveal(lefts_kept);
    reveal(State::switch_to);
    let t = match first {
        Some(a) => s.emit(Instruction::LoadFast(a)),
        None => s.expr(x.iter).emit(Instruction::GetIter),
    };
    let t1 = t.switch_to(loop_block);
    let i = Instruction::ForIter { target: after };
    let t2 = t1.emit(i);
    let t3 = t2.store(x.target);
    let t4 = t3.jump_ifs(x.ifs@, 0, x.ifs@.len(), false, loop_block);
    onward_expr(s, x.iter);
    onward_store(t2, x.target);
    onward_jump_ifs(t3, x.ifs@, 0, x.ifs@.len(), false, loop_block);
    assert(t4 == s.comprehension_loop(x, first, loop_block, after));
    assert(t4.running() && t3.running() && t2.running() && t1.running() && t.running());
    let (n1, it) = match first {
        Some(a) => {
            let v = Term::Var(z.p.varnames[a as int]);
            assert(step(z.w, z.p, k, Instruction::LoadFast(a)) == on(k.push(v))) by {
                reveal(plain_step);
            }
            (note_on(z, s, n, Instruction::LoadFast(a), k.push(v)), v)
        },
        None => {
            let (n0, a) = eval_expr(z, s, n, x.iter);
            let v = Term::Of(Made::Iterator, seq![a]);
            assert(step(z.w, z.p, k.push(a), Instruction::GetIter) == make(
                k.push(a),
                1,
                Made::Iterator,
            )) by {
                reveal(plain_step);
            }
            (note_one(z, s.expr(x.iter), n0, Instruction::GetIter, a, Made::Iterator), v)
        },
    };
    let j = k.push(it);
    let n2 = note_label(z, t, n1, loop_block);
    let item = Term::Of(Made::NextItem, seq![it]);
    let f = Flow { next: Some(j.push(item)), jump: Some((after, k)) };
    assert(step(z.w, z.p, j, i) == Some(f)) by {
        reveal(leap);
    }
    assert(left(t1.top(), after.0 as int) ==> left(t4.top(), after.0 as int));
    let n3 = note_flow(z, t1, n2, i, f);
    let n4 = eval_store(z, t2, n3, x.target, j, item);
    let (n5, b) = eval_jump_ifs(z, t3, n4, x.ifs@, 0, x.ifs@.len(), false, loop_block);
    (n5, it)
}

/// All that the loops of a comprehension add to its collection is what it gives for a turn; when
/// they are done, the stack is as it was.
#[verifier::spinoff_prover]
#[verifier::rlimit(60)]
pub proof fn loops_add_what_turns_give(
    z: Run,
    s: State,
    n: Notes,
    e: Expr,
    g: Seq<Comprehension>,
    i: nat,
    arg0: u32,
    k: Machine,
    collection: Term,
    iterators: Seq<Term>,
) -> (r: Notes)
    requires
        ready(z, s, s.comprehension_loops(e, g, i, arg0), n),
        whole(e),
        e is ListComp || e is SetComp || e is DictComp || e is Generator,
        g == comprehension_generators(e),
        !async_generator(g, 0),
        i <= g.len(),
        iterators.len() == i,
        arg0 < z.p.varnames.len(),
        forall|t: Seq<Term>|
            (#[trigger] (z.w.insert)(t)) <==> turned_out(z.w, s.class_name, e, t),
        is_made(collection, collection_of(e)),
        n.cur is Some ==> n.cur == Some(k.push(collection).push_all(iterators)),
    ensures
        noted(z.w, z.p, s.comprehension_loops(e, g, i, arg0).top(), r),
        goes_on(n, r, s.top().blocks.len()),
        r.cur == n.cur,
    decreases g.len() - i,
{
    broadcast use group_onward_steps;

    reveal(State::comprehension_loops);
    reveal(State::comprehension_value);
    reveal(State::comprehension_loop);
    if i >= g.len() {
        a_turn_adds_what_it_gives(z, s, n, e, k, collection, iterators)
    } else {
        reveal(lefts_kept);
        reveal(State::switch_to);
        let x = g[i as int];
        lemma_generator(e, g, i);
        let loop_block = s.fresh();
        let t = s.new_block();
        let after = t.fresh();
        let u = t.new_block();
        let first = if i == 0 {
            Some(arg0)
        } else {
            None
        };
        let v = u.comprehension_loop(x, first, loop_block, after);
        let w = v.comprehension_loops(e, g, i + 1, arg0);
        let jump = Instruction::Jump { target: loop_block };
        let end = w.emit(jump);
        onward_comprehension_loop(u, x, first, loop_block, after);
        onward_comprehension_loops(v, e, g, i + 1, arg0);
        assert(!left(end.top(), after.0 as int));
        note_block(z, s, n);
        note_block(z, t, n);
        let j = k.push(collection).push_all(iterators);
        let (n1, it) = eval_loop(z, u, n, x, first, loop_block, after, j);
        lemma_pushed_more(k.push(collection), iterators, it);
        let n2 = loops_add_what_turns_give(
            z,
            v,
            n1,
            e,
            g,
            i + 1,
            arg0,
            k,
            collection,
            iterators.push(it),
        );
        let f = Flow { next: None, jump: Some((loop_block, j.push(it))) };
        assert(step(z.w, z.p, j.push(it), jump) == Some(f)) by {
            reveal(leap);
        }
        assert(n2.cur is Some ==> n2.at.contains_key(loop_block.0 as int) && n2.at[loop_block.0 as int]
            == j.push(it));
        let n3 = note_flow(z, w, n2, jump, f);
        note_label(z, end, n3, after)
    }
}

proof fn lemma_generator(e: Expr, g: Seq<Comprehension>, i: nat)
    requires
        whole(e),
        g == comprehension_generators(e),
        !async_generator(g, 0),
        i < g.len(),
    ensures
        whole_generator(g[i as int]),
        !g[i as int].is_async,
{
    match e {
        Expr::ListComp(x) => {
            assert(e->ListComp_0 == x);
            assert(whole_generator(x.generators@[i as int]));
        },
        Expr::SetComp(x) => {
            assert(e->SetComp_0 == x);
            assert(whole_generator(x.generators@[i as int]));
        },
        Expr::DictComp(x) => {
            assert(e->DictComp_0 == x);
            assert(whole_generator(x.generators@[i as int]));
        },
        Expr::Generator(x) => {
            assert(e->Generator_0 == x);
            assert(whole_generator(x.generators@[i as int]));
        },
        _ => {},
    }
    lemma_no_async(g, 0, i);
}

proof fn lemma_no_async(g: Seq<Comprehension>, i: nat, j: nat)
    requires
        !async_generator(g, i),
        i <= j < g.len(),
    ensures
        !g[j as int].is_async,
    decreases j - i,
{
    if i < j {
        lemma_no_async(g, i + 1, j);
    }
}

} // verus!
