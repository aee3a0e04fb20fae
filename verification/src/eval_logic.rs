//! The code of conditions, comparisons and dicts leaves their values on the stack.
use vstd::prelude::*;

use crate::ast::{BoolOp, CmpOp, DictItem, Expr, ExprCompare, ExprDict, UnaryOp};
use crate::bytecode::{BlockIdx, Instruction};
use crate::expr_code::{comparison_code, conditional_jump, short_circuit};
use crate::machine::{leap, make, noted, on, plain_step, step, Flow, Machine, Made, Notes, Term};
use crate::noting::{
    goes_on, goes_on_but, group_pushed, lemma_goes_but_twice, lemma_goes_twice, lemma_pushed_more,
    note_block, note_flow, note_label, note_on, ready, Run,
};
use crate::onward::{
    group_onward_steps, onward, onward_bool_values, onward_compare_middle, onward_dict_items,
    onward_expr, onward_jump_if, onward_jump_ifs,
};
use crate::state::State;
use crate::validity::{group_layout, group_lefts, left, lefts_kept};


use crate::whole::{all_whole, whole, whole_item, whole_items};

use crate::values::{
    all_come_out, chain_means, comes_out, compared, comparison_operator_symbol, decides, items_mean,
    means, starts, taken_as, taken_otherwise, unpacks_map,
};
use crate::handling::{base_of, can_go, jumped, note_make, note_two};
use crate::eval::eval_expr;
verus! {

broadcast use {group_layout, group_lefts, group_pushed};

#[verifier::spinoff_prover]
pub proof fn eval_bool_values(
    z: Run,
    s: State,
    n: Notes,
    v: Seq<Expr>,
    i: nat,
    op: BoolOp,
    after: BlockIdx,
) -> (r: (Notes, Option<Term>))
    requires
        all_whole(v),
        ready(z, s, s.bool_values(v, i, op, after), n),
        i < v.len(),
        after.0 < s.top().blocks.len(),
        n.cur is Some ==> !n.at.contains_key(after.0 as int),
        !left(s.bool_values(v, i, op, after).top(), after.0 as int),
    ensures
        noted(z.w, z.p, s.bool_values(v, i, op, after).top(), r.0),
        goes_on_but(n, r.0, s.top().blocks.len(), after),
        n.cur is None ==> r.0.cur is None && goes_on(n, r.0, s.top().blocks.len()),
        n.cur matches Some(k) ==> match r.1 {
            Some(v) => r.0.cur is None && r.0.at.contains_key(after.0 as int)
                && r.0.at[after.0 as int] == k.push(v),
            None => r.0.cur == Some(k) && !r.0.at.contains_key(after.0 as int),
        },
        match r.1 {
            Some(d) => decides(z.w, s.class_name, d, v, i, op == BoolOp::Or),
            None => forall|a: Term| #[trigger]
                means(z.w, s.class_name, a, v[v.len() - 1]) ==> decides(
                    z.w,
                    s.class_name,
                    a,
                    v,
                    i,
                    op == BoolOp::Or,
                ),
        },
    decreases v, 0nat, v.len() - i,
{
    broadcast use group_onward_steps;

    reveal(State::bool_values);
    reveal(State::expr);
    if i + 1 >= v.len() {
        (n, None)
    } else {
        reveal(lefts_kept);
        reveal(leap);
        let u = s.expr(v[i as int]);
        let j = short_circuit(op, after);
        onward_expr(s, v[i as int]);
        onward_bool_values(u.emit(j), v, i + 1, op, after);
        let (n1, a) = eval_expr(z, s, n, v[i as int]);
        let taken = (z.w.truth)(a) == (op == BoolOp::Or);
        assert(!taken ==> taken_otherwise(z.w, a, op == BoolOp::Or));
        let k = base_of(n);
        let f = if taken {
            Flow { next: None, jump: Some((after, k.push(a))) }
        } else {
            Flow { next: Some(k), jump: None }
        };
        let n2 = note_flow(z, u, n1, j, f);
        let (m, d) = eval_bool_values(z, u.emit(j), n2, v, i + 1, op, after);
        assert(goes_on_but(n, n2, s.top().blocks.len(), after));
        lemma_goes_but_twice(n, n2, m, s.top().blocks.len(), u.emit(j).top().blocks.len(), after);
        if n.cur is None {
            assert(goes_on(n, n2, s.top().blocks.len()));
            lemma_goes_twice(n, n2, m, s.top().blocks.len(), u.emit(j).top().blocks.len());
        }
        if taken {
            assert(after.0 < u.emit(j).top().blocks.len());
            assert(n.cur is Some ==> n2.at.contains_key(after.0 as int) && n2.cur is None);
            assert(n.cur is Some ==> m.at.contains_key(after.0 as int));
            (m, Some(a))
        } else {
            assert(n.cur is Some ==> n2.cur == n.cur);
            (m, d)
        }
    }
}

#[verifier::spinoff_prover]
pub proof fn eval_jump_if(
    z: Run,
    s: State,
    n: Notes,
    e: Expr,
    condition: bool,
    target: BlockIdx,
) -> (r: (Notes, bool))
    requires
        whole(e),
        ready(z, s, s.jump_if(e, condition, target), n),
        target.0 < s.top().blocks.len(),
        can_go(s.jump_if(e, condition, target), n, target),
    ensures
        noted(z.w, z.p, s.jump_if(e, condition, target).top(), r.0),
        goes_on_but(n, r.0, s.top().blocks.len(), target),
        jumped(n, r.0, target, r.1 == condition),
        comes_out(z.w, s.class_name, e, r.1),
    decreases e, 4nat, 0nat,
{
    broadcast use group_onward_steps;

    reveal(State::jump_if);
    reveal(State::expr);
    reveal(State::jump_ifs);
    match e {
        Expr::BoolOp(x) => if (x.op == BoolOp::And) == condition {
            reveal(State::switch_to);
            reveal(lefts_kept);
            let end = s.fresh();
            let t = s.new_block();
            let last = (x.values@.len() - 1) as nat;
            let u = t.jump_ifs(x.values@, 0, last, !condition, end);
            let v = u.jump_if(x.values@[last as int], condition, target);
            onward_jump_ifs(t, x.values@, 0, last, !condition, end);
            onward_jump_if(u, x.values@[last as int], condition, target);
            assert(!left(v.top(), end.0 as int));
            note_block(z, s, n);
            let (n1, a) = eval_jump_ifs(z, t, n, x.values@, 0, last, !condition, end);
            let (n2, b) = eval_jump_if(z, u, n1, x.values@[last as int], condition, target);
            let m = note_label(z, v, n2, end);
            let out = if a { !condition } else { b };
            assert(all_come_out(z.w, s.class_name, x.values@, last + 1, !condition, condition));
            assert(!a ==> all_come_out(z.w, s.class_name, x.values@, last, !condition, b));
            assert(goes_on_but(n, n1, s.top().blocks.len(), target));
            assert(goes_on_but(n, n2, s.top().blocks.len(), target));
            assert(goes_on_but(n, m, s.top().blocks.len(), target));
            assert(all_come_out(z.w, s.class_name, x.values@, 0, !condition, out));
            (m, out)
        } else {
            let (m, a) = eval_jump_ifs(z, s, n, x.values@, 0, x.values@.len(), condition, target);
            let out = if a { condition } else { !condition };
            assert(all_come_out(z.w, s.class_name, x.values@, x.values@.len(), condition, !condition));
            (m, out)
        },
        Expr::UnaryOp(x) => if x.op == UnaryOp::Not {
            let (m, b) = eval_jump_if(z, s, n, *x.operand, !condition, target);
            (m, !b)
        } else {
            eval_jump_plain(z, s, n, e, condition, target)
        },
        _ => eval_jump_plain(z, s, n, e, condition, target),
    }
}

#[verifier::spinoff_prover]
pub proof fn eval_jump_plain(
    z: Run,
    s: State,
    n: Notes,
    e: Expr,
    condition: bool,
    target: BlockIdx,
) -> (r: (
    Notes,
    bool,
))
    requires
        whole(e),
        ready(z, s, s.expr(e).emit(conditional_jump(condition, target)), n),
        target.0 < s.top().blocks.len(),
        can_go(s.expr(e).emit(conditional_jump(condition, target)), n, target),
    ensures
        noted(z.w, z.p, s.expr(e).emit(conditional_jump(condition, target)).top(), r.0),
        goes_on_but(n, r.0, s.top().blocks.len(), target),
        jumped(n, r.0, target, r.1 == condition),
        exists|v: Term| #[trigger] taken_as(z.w, v, r.1) && means(z.w, s.class_name, v, e),
    decreases e, 3nat, 1nat,
{
    broadcast use group_onward_steps;

    reveal(leap);
    reveal(lefts_kept);
    onward_expr(s, e);
    let u = s.expr(e);
    let i = conditional_jump(condition, target);
    let (n1, v) = eval_expr(z, s, n, e);
    let b = (z.w.truth)(v);
    let k = base_of(n);
    let f = if b == condition {
        Flow { next: None, jump: Some((target, k)) }
    } else {
        Flow { next: Some(k), jump: None }
    };
    let m = note_flow(z, u, n1, i, f);
    assert(taken_as(z.w, v, b));
    (m, b)
}

#[verifier::spinoff_prover]
pub proof fn eval_jump_ifs(
    z: Run,
    s: State,
    n: Notes,
    v: Seq<Expr>,
    i: nat,
    end: nat,
    condition: bool,
    target: BlockIdx,
) -> (r: (Notes, bool))
    requires
        all_whole(v),
        ready(z, s, s.jump_ifs(v, i, end, condition, target), n),
        i <= end <= v.len(),
        target.0 < s.top().blocks.len(),
        can_go(s.jump_ifs(v, i, end, condition, target), n, target),
    ensures
        noted(z.w, z.p, s.jump_ifs(v, i, end, condition, target).top(), r.0),
        goes_on_but(n, r.0, s.top().blocks.len(), target),
        jumped(n, r.0, target, r.1),
        r.1 ==> all_come_out(z.w, s.class_name, v, i, condition, condition),
        !r.1 ==> forall|b: bool| #[trigger]
            all_come_out(z.w, s.class_name, v, end, condition, b) ==> all_come_out(
                z.w,
                s.class_name,
                v,
                i,
                condition,
                b,
            ),
    decreases v, 0nat, end - i,
{
    broadcast use group_onward_steps;

    reveal(State::jump_ifs);
    reveal(State::jump_if);
    if i >= end {
        (n, false)
    } else {
        reveal(lefts_kept);
        let u = s.jump_if(v[i as int], condition, target);
        onward_jump_if(s, v[i as int], condition, target);
        onward_jump_ifs(u, v, i + 1, end, condition, target);
        let (n1, a) = eval_jump_if(z, s, n, v[i as int], condition, target);
        let (m, b) = eval_jump_ifs(z, u, n1, v, i + 1, end, condition, target);
        assert(goes_on_but(n, m, s.top().blocks.len(), target));
        (m, a == condition || b)
    }
}

#[verifier::spinoff_prover]
pub proof fn eval_compare(z: Run, s: State, n: Notes, x: ExprCompare) -> (r: (Notes, Term))
    requires
        whole(Expr::Compare(x)),
        ready(z, s, s.compare(x), n),
    ensures
        noted(z.w, z.p, s.compare(x).top(), r.0),
        goes_on(n, r.0, s.top().blocks.len()),
        n.cur is None ==> r.0.cur is None,
        n.cur matches Some(k) ==> r.0.cur == Some(k.push(r.1)),
        means(z.w, s.class_name, r.1, Expr::Compare(x)),
    decreases x, 0nat, 0nat,
{
    broadcast use group_onward_steps;

    reveal(State::compare);
    reveal(State::compare_middle);
    reveal(State::expr);
    let len = x.ops@.len();
    let last = len - 1;
    let u = s.expr(*x.left);
    onward_expr(s, *x.left);
    assert(u.running());
    assert(onward(u, s.compare(x))) by {
        if len == 1 {
            onward_expr(u, x.comparators@[0]);
        } else {
            let t = u.new_block().new_block();
            let v = t.compare_middle(x.ops@, x.comparators@, 0, u.fresh());
            onward_compare_middle(t, x.ops@, x.comparators@, 0, u.fresh());
            onward_expr(v, x.comparators@[last]);
        }
    }
    let (n1, a) = eval_expr(z, s, n, *x.left);
    let how = Made::Compare(comparison_operator_symbol(x.ops@[last]));
    if len == 1 {
        onward_expr(u, x.comparators@[0]);
        let (n2, b) = eval_expr(z, u, n1, x.comparators@[0]);
        assert(compared(x.ops@[0], a, b) == Term::Of(how, seq![a, b]));
        assert(starts(compared(x.ops@[0], a, b), a));
        assert(chain_means(z.w, s.class_name, compared(x.ops@[0], a, b), a, x.ops@, x.comparators@, 0));
        reveal(plain_step);
        let m = note_two(z, u.expr(x.comparators@[0]), n2, comparison_code(x.ops@[0]), n.cur, a, b, how);
        (m, Term::Of(how, seq![a, b]))
    } else {
        reveal(State::switch_to);
        reveal(lefts_kept);
        let break_block = u.fresh();
        let t1 = u.new_block();
        let after = t1.fresh();
        let t2 = t1.new_block();
        let t3 = t2.compare_middle(x.ops@, x.comparators@, 0, break_block);
        let t4 = t3.expr(x.comparators@[last]);
        let t5 = t4.emit(comparison_code(x.ops@[last]));
        let t6 = t5.emit(Instruction::Jump { target: after });
        let t7 = t6.switch_to(break_block);
        let t8 = t7.emit(Instruction::Rotate2);
        let t9 = t8.emit(Instruction::Pop);
        onward_compare_middle(t2, x.ops@, x.comparators@, 0, break_block);
        onward_expr(t3, x.comparators@[last]);
        assert(!left(t6.top(), break_block.0 as int));
        assert(!left(t9.top(), after.0 as int));
        note_block(z, u, n1);
        note_block(z, t1, n1);
        let k = base_of(n);
        let (n3, b, broke) = eval_compare_middle(z, t2, n1, x.ops@, x.comparators@, 0, break_block, k, a);
        let (n4, c) = eval_expr(z, t3, n3, x.comparators@[last]);
        let v = Term::Of(how, seq![b, c]);
        assert(compared(x.ops@[last], b, c) == v);
        assert(chain_means(z.w, s.class_name, v, b, x.ops@, x.comparators@, last as nat));
        assert(starts(v, a) && starts(broke->0, a));
        let base = if n4.cur is Some { Some(k) } else { None };
        assert(step(z.w, z.p, k.push(b).push(c), comparison_code(x.ops@[last])) == make(
            k.push(b).push(c),
            2,
            how,
        )) by {
            reveal(plain_step);
        }
        let n5 = note_two(z, t4, n4, comparison_code(x.ops@[last]), base, b, c, how);
        assert(step(z.w, z.p, k.push(v), Instruction::Jump { target: after }) == Some(
            Flow { next: None, jump: Some((after, k.push(v))) },
        )) by {
            reveal(leap);
        }
        let n6 = note_flow(
            z,
            t5,
            n5,
            Instruction::Jump { target: after },
            Flow { next: None, jump: Some((after, k.push(v))) },
        );
        let n7 = note_label(z, t6, n6, break_block);
        reveal(plain_step);
        let n8 = note_on(z, t7, n7, Instruction::Rotate2, k.push(broke->0).push(b));
        let n9 = note_on(z, t8, n8, Instruction::Pop, k.push(broke->0));
        let m = note_label(z, t9, n9, after);
        match broke {
            Some(r) => (m, r),
            None => (m, v),
        }
    }
}

#[verifier::spinoff_prover]
pub proof fn eval_compare_middle(
    z: Run,
    s: State,
    n: Notes,
    ops: Seq<CmpOp>,
    v: Seq<Expr>,
    i: nat,
    break_block: BlockIdx,
    k: Machine,
    a: Term,
) -> (r: (Notes, Term, Option<Term>))
    requires
        all_whole(v),
        ready(z, s, s.compare_middle(ops, v, i, break_block), n),
        i < v.len(),
        break_block.0 < s.top().blocks.len(),
        n.cur is Some ==> n.cur == Some(k.push(a)) && !n.at.contains_key(break_block.0 as int),
        !left(s.compare_middle(ops, v, i, break_block).top(), break_block.0 as int),
    ensures
        noted(z.w, z.p, s.compare_middle(ops, v, i, break_block).top(), r.0),
        goes_on_but(n, r.0, s.top().blocks.len(), break_block),
        n.cur is None ==> r.0.cur is None && goes_on(n, r.0, s.top().blocks.len()),
        n.cur is Some ==> match r.2 {
            Some(c) => r.0.cur is None && r.0.at.contains_key(break_block.0 as int)
                && r.0.at[break_block.0 as int] == k.push(r.1).push(c),
            None => r.0.cur == Some(k.push(r.1)) && !r.0.at.contains_key(break_block.0 as int),
        },
        match r.2 {
            Some(c) => chain_means(z.w, s.class_name, c, a, ops, v, i),
            None => forall|d: Term| #[trigger]
                chain_means(z.w, s.class_name, d, r.1, ops, v, (v.len() - 1) as nat) ==> chain_means(
                    z.w,
                    s.class_name,
                    d,
                    a,
                    ops,
                    v,
                    i,
                ),
        },
    decreases v, 0nat, v.len() - i,
{
    broadcast use group_onward_steps;

    reveal(State::compare_middle);
    reveal(State::expr);
    if i + 1 >= v.len() {
        (n, a, None)
    } else {
        reveal(lefts_kept);
        let u = s.expr(v[i as int]);
        let i3 = comparison_code(ops[i as int]);
        let i4 = Instruction::JumpIfFalseOrPop { target: break_block };
        let u1 = u.emit(Instruction::Duplicate);
        let u2 = u1.emit(Instruction::Rotate3);
        let u3 = u2.emit(i3);
        let u4 = u3.emit(i4);
        onward_expr(s, v[i as int]);
        onward_compare_middle(u4, ops, v, i + 1, break_block);
        let (n0, b) = eval_expr(z, s, n, v[i as int]);
        let how = Made::Compare(comparison_operator_symbol(ops[i as int]));
        let c = Term::Of(how, seq![a, b]);
        assert(compared(ops[i as int], a, b) == c);
        let taken = !(z.w.truth)(c);
        let f = if taken {
            Flow { next: None, jump: Some((break_block, k.push(b).push(c))) }
        } else {
            Flow { next: Some(k.push(b)), jump: None }
        };
        assert(step(z.w, z.p, k.push(b).push(c), i4) == Some(f)) by {
            reveal(leap);
        }
        assert(step(z.w, z.p, k.push(a).push(b), Instruction::Duplicate) == on(
            k.push(a).push(b).push(b),
        )) by {
            reveal(plain_step);
        }
        assert(step(z.w, z.p, k.push(a).push(b).push(b), Instruction::Rotate3) == on(
            k.push(b).push(a).push(b),
        )) by {
            reveal(plain_step);
        }
        assert(step(z.w, z.p, k.push(b).push(a).push(b), i3) == on(k.push(b).push(c))) by {
            reveal(plain_step);
        }
        let n1 = note_on(z, u, n0, Instruction::Duplicate, k.push(a).push(b).push(b));
        let n2 = note_on(z, u1, n1, Instruction::Rotate3, k.push(b).push(a).push(b));
        let n3 = note_on(z, u2, n2, i3, k.push(b).push(c));
        let n4 = note_flow(z, u3, n3, i4, f);
        let (m, d, rest) = eval_compare_middle(z, u4, n4, ops, v, i + 1, break_block, k, b);
        assert(goes_on_but(n, n4, s.top().blocks.len(), break_block));
        assert(s.top().blocks.len() <= u4.top().blocks.len());
        lemma_goes_but_twice(n, n4, m, s.top().blocks.len(), u4.top().blocks.len(), break_block);
        assert(goes_on_but(n, m, s.top().blocks.len(), break_block));
        assert(n.cur is None ==> goes_on(n, m, s.top().blocks.len()));
        if taken {
            (m, b, Some(c))
        } else {
            (m, d, rest)
        }
    }
}

#[verifier::spinoff_prover]
pub proof fn eval_dict(z: Run, s: State, n: Notes, x: ExprDict) -> (r: (Notes, Term))
    requires
        whole(Expr::Dict(x)),
        ready(z, s, s.dict(x), n),
    ensures
        noted(z.w, z.p, s.dict(x).top(), r.0),
        goes_on(n, r.0, s.top().blocks.len()),
        n.cur is None ==> r.0.cur is None,
        n.cur matches Some(k) ==> r.0.cur == Some(k.push(r.1)),
        means(z.w, s.class_name, r.1, Expr::Dict(x)),
    decreases x, 0nat, 0nat,
{
    broadcast use group_onward_steps;

    reveal(State::dict);
    reveal(State::dict_items);
    if let Some(k) = n.cur {
        assert(k.push_all(Seq::empty()).stack =~= k.stack);
    }
    let e = Expr::Dict(x);
    assert(e->Dict_0 == x);
    assert(forall|i: int| 0 <= i < x.items@.len() ==> whole_item(#[trigger] x.items@[i]));
    let r = eval_dict_items(z, s, n, x.items@, 0, 0, false, base_of(n), Seq::empty());
    if !unpacks_map(x.items@, 0) {
        let a: Seq<Term> = choose|a: Seq<Term>| #[trigger]
            items_mean(z.w, s.class_name, a, x.items@, 0) && r.1 == Term::Of(
                Made::MapOf,
                Seq::<Term>::empty() + a,
            );
        assert(Seq::<Term>::empty() + a =~= a);
    }
    r
}

#[verifier::rlimit(50)]
#[verifier::spinoff_prover]
pub proof fn eval_dict_items(
    z: Run,
    s: State,
    n: Notes,
    v: Seq<DictItem>,
    i: nat,
    run: nat,
    made: bool,
    k: Machine,
    b: Seq<Term>,
) -> (r: (Notes, Term))
    requires
        whole_items(v),
        ready(z, s, s.dict_items(v, i, run, made), n),
        b.len() == 2 * run + (if made { 1nat } else { 0 }),
        n.cur is Some ==> n.cur == Some(k.push_all(b)),
    ensures
        noted(z.w, z.p, s.dict_items(v, i, run, made).top(), r.0),
        goes_on(n, r.0, s.top().blocks.len()),
        n.cur is None ==> r.0.cur is None,
        n.cur is Some ==> r.0.cur == Some(k.push(r.1)),
        !made && !unpacks_map(v, i) ==> exists|a: Seq<Term>| #[trigger]
            items_mean(z.w, s.class_name, a, v, i) && r.1 == Term::Of(Made::MapOf, b + a),
    decreases v, 0nat, v.len() - i,
{
    broadcast use group_onward_steps;

    reveal(State::dict_items);
    reveal(State::expr);
    if i >= v.len() {
        let (m, t) = eval_dict_run(z, s, n, run, made, k, b);
        assert(b + Seq::<Term>::empty() =~= b);
        assert(items_mean(z.w, s.class_name, Seq::empty(), v, i));
        (m, t)
    } else {
        match v[i as int].key {
            Some(key) => {
                let t = s.expr(key);
                let u = t.expr(v[i as int].value);
                onward_expr(s, key);
                onward_expr(t, v[i as int].value);
                onward_dict_items(u, v, i + 1, run + 1, made);
                let (n1, p) = eval_expr(z, s, n, key);
                let (n2, q) = eval_expr(z, t, n1, v[i as int].value);
                let c = b.push(p).push(q);
                lemma_pushed_more(k, b, p);
                lemma_pushed_more(k, b.push(p), q);
                let r = eval_dict_items(z, u, n2, v, i + 1, run + 1, made, k, c);
                lemma_goes_twice(n, n1, n2, s.top().blocks.len(), t.top().blocks.len());
                lemma_goes_twice(n, n2, r.0, s.top().blocks.len(), u.top().blocks.len());
                if !made && !unpacks_map(v, i) {
                    let a = choose|a: Seq<Term>| #[trigger]
                        items_mean(z.w, s.class_name, a, v, i + 1) && r.1 == Term::Of(
                            Made::MapOf,
                            c + a,
                        );
                    let all = seq![p, q] + a;
                    assert(all.skip(2) =~= a);
                    assert(b + all =~= c + a);
                    assert(items_mean(z.w, s.class_name, all, v, i));
                }
                r
            },
            None => {
                let t = s.dict_run(run, made);
                let u = t.expr(v[i as int].value);
                let w = u.emit(Instruction::DictUpdate);
                assert(onward(s, t));
                onward_expr(t, v[i as int].value);
                onward_dict_items(w, v, i + 1, 0, true);
                let (n0, d) = eval_dict_run(z, s, n, run, made, k, b);
                let (n1, q) = eval_expr(z, t, n0, v[i as int].value);
                assert(step(z.w, z.p, k.push(d).push(q), Instruction::DictUpdate) == make(
                    k.push(d).push(q),
                    2,
                    Made::Updated,
                )) by {
                    reveal(plain_step);
                }
                let base = if n1.cur is Some { Some(k) } else { None };
                let n2 = note_two(z, u, n1, Instruction::DictUpdate, base, d, q, Made::Updated);
                let e = Term::Of(Made::Updated, seq![d, q]);
                assert(k.push(e).stack =~= k.push_all(seq![e]).stack);
                let r = eval_dict_items(z, w, n2, v, i + 1, 0, true, k, seq![e]);
                assert(goes_on(n, n2, s.top().blocks.len()));
                lemma_goes_twice(n, n2, r.0, s.top().blocks.len(), w.top().blocks.len());
                r
            },
        }
    }
}

#[verifier::spinoff_prover]
pub proof fn eval_dict_run(
    z: Run,
    s: State,
    n: Notes,
    run: nat,
    made: bool,
    k: Machine,
    b: Seq<Term>,
) -> (r: (Notes, Term))
    requires
        ready(z, s, s.dict_run(run, made), n),
        b.len() == 2 * run + (if made {
            1nat
        } else {
            0
        }),
        n.cur is Some ==> n.cur == Some(k.push_all(b)),
    ensures
        noted(z.w, z.p, s.dict_run(run, made).top(), r.0),
        r.0.at == n.at,
        n.cur is None ==> r.0.cur is None,
        n.cur is Some ==> r.0.cur == Some(k.push(r.1)),
        !made ==> r.1 == Term::Of(Made::MapOf, b),
{
    broadcast use group_onward_steps;

    if made && run == 0 {
        assert(k.push_all(b).stack =~= k.push(b[0]).stack);
        (n, b[0])
    } else {
        let i = Instruction::BuildMap { size: run as u32 };
        assert(step(z.w, z.p, base_of(n), i) == make(base_of(n), (2 * run) as int, Made::MapOf)) by {
            reveal(plain_step);
        }
        let (n1, t) = note_make(z, s, n, i, (2 * run) as int, Made::MapOf);
        if made {
            assert(k.push_all(b).drop((2 * run) as int).stack =~= k.push(b[0]).stack);
            let base = if n.cur is Some {
                Some(k)
            } else {
                None
            };
            assert(step(z.w, z.p, k.push(b[0]).push(t), Instruction::DictUpdate) == make(
                k.push(b[0]).push(t),
                2,
                Made::Updated,
            )) by {
                reveal(plain_step);
            }
            let m = note_two(
                z,
                s.emit(i),
                n1,
                Instruction::DictUpdate,
                base,
                b[0],
                t,
                Made::Updated,
            );
            (m, Term::Of(Made::Updated, seq![b[0], t]))
        } else {
            (n1, Term::Of(Made::MapOf, b))
        }
    }
}

} // verus!
