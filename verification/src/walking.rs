//! Statements of which every run comes back.
use vstd::prelude::*;

use crate::ast::{stmt_range, ExceptHandler, Stmt, StmtFor, StmtIf, StmtRaise, StmtTry, StmtWhile};
use crate::bytecode::{BlockIdx, Instruction, RaiseKind};
use crate::eval::eval_expr;
use crate::eval_logic::eval_jump_if;
use crate::handling::base_of;
use crate::machine::{leap, noted, on, plain_step, step, Flow, Frame, Notes};
use crate::noting::{
    goes_on, group_pushed, lemma_goes_twice, note_block, note_flow, note_label, note_on, ready, Run,
};
use crate::onward::{group_onward_steps, onward, onward_expr, onward_jump_if, onward_store};
use crate::running::{
    a_break_ends_the_loop, a_continue_goes_on_with_the_loop, a_for_loop_comes_back, calm, came_back,
    grew, lemma_grew_after, lemma_grew_twice, lemma_grew_within, lemma_looped, loop_open, run,
    set_out,
};
use crate::state::State;
use crate::trying::{
    a_try_statement_comes_back, lemma_still_open, onward_catch, onward_leave_try, open_around,
};
use crate::validity::{group_layout, group_lefts, left, lefts_kept, pools_kept};
use crate::whole::{maybe_whole, whole};

verus! {

broadcast use {group_layout, group_lefts, group_pushed};

/// Whether a statement is made of expression statements, those that raise, break off or go on with
/// a loop, if statements of one clause, loops and try statements.
pub open spec fn plain(x: Stmt) -> bool
    decreases x,
{
    match x {
        Stmt::Expr(x) => whole(*x.value),
        Stmt::Pass(_) | Stmt::Global(_) | Stmt::Nonlocal(_) | Stmt::Break(_) | Stmt::Continue(
            _,
        ) => true,
        Stmt::Raise(x) => maybe_whole(x.exc) && maybe_whole(x.cause),
        Stmt::If(x) => {
            &&& whole(*x.test)
            &&& x.elif_else_clauses@.len() == 0
            &&& forall|i: int| 0 <= i < x.body@.len() ==> plain(#[trigger] x.body@[i])
        },
        Stmt::While(x) => {
            &&& whole(*x.test)
            &&& forall|i: int| 0 <= i < x.body@.len() ==> plain(#[trigger] x.body@[i])
            &&& forall|i: int| 0 <= i < x.orelse@.len() ==> plain(#[trigger] x.orelse@[i])
        },
        Stmt::For(x) => {
            &&& !x.is_async
            &&& whole(*x.iter)
            &&& whole(*x.target)
            &&& forall|i: int| 0 <= i < x.body@.len() ==> plain(#[trigger] x.body@[i])
            &&& forall|i: int| 0 <= i < x.orelse@.len() ==> plain(#[trigger] x.orelse@[i])
        },
        Stmt::Try(x) => {
            &&& forall|i: int| 0 <= i < x.body@.len() ==> plain(#[trigger] x.body@[i])
            &&& forall|i: int| 0 <= i < x.orelse@.len() ==> plain(#[trigger] x.orelse@[i])
            &&& forall|i: int| 0 <= i < x.finalbody@.len() ==> plain(#[trigger] x.finalbody@[i])
            &&& forall|i: int|
                0 <= i < x.handlers@.len() ==> plain_handler(#[trigger] x.handlers@[i])
        },
        _ => false,
    }
}

/// Whether a handler is made of such statements.
pub open spec fn plain_handler(h: ExceptHandler) -> bool
    decreases h,
{
    maybe_whole(h.type_) && forall|i: int| 0 <= i < h.body@.len() ==> plain(#[trigger] h.body@[i])
}

/// Whether statements are all of this kind.
pub open spec fn all_plain(v: Seq<Stmt>) -> bool {
    forall|i: int| 0 <= i < v.len() ==> plain(#[trigger] v[i])
}

/// A while loop comes back with the stacks as it found them: when its test fails, through its else
/// clause; and on a break, whose target is where the code goes on after the whole statement.
#[verifier::spinoff_prover]
#[verifier::rlimit(80)]
pub proof fn a_while_loop_comes_back(z: Run, s: State, n: Notes, x: StmtWhile) -> (r: Notes)
    requires
        set_out(z, s, s.while_loop(x), n),
        whole(*x.test),
        calm(z, x.body@),
        calm(z, x.orelse@),
    ensures
        came_back(z, s, s.while_loop(x), n, r),
{
    broadcast use group_onward_steps;

    reveal(State::while_loop);
    reveal(State::stmts);
    let while_block = s.fresh();
    let s1 = s.new_block();
    let else_block = s1.fresh();
    let s2 = s1.new_block();
    let after = s2.fresh();
    let s3 = s2.new_block();
    let u0 = s3.emit(Instruction::SetupLoop);
    let u = u0.switch_to(while_block);
    let tested = u.jump_if(*x.test, false, else_block);
    let b1 = tested.set_loop(Some((while_block, after)));
    let b2 = b1.stmts(x.body@, 0);
    let b3 = b2.set_loop(tested.ctx.loop_data);
    let jump = Instruction::Jump { target: while_block };
    let b4 = b3.emit(jump);
    let b5 = b4.switch_to(else_block);
    let body = b5.emit(Instruction::PopBlock);
    let o1 = body.stmts(x.orelse@, 0);
    let end = o1.switch_to(after);
    onward_jump_if(u, *x.test, false, else_block);
    assert(onward(b1, b2));
    assert(onward(body, o1));
    assert(end == s.while_loop(x));
    assert(o1.running() && body.running() && b2.running() && tested.running() && u.running());
    assert(pools_kept(tested.top(), b2.top()) && lefts_kept(tested.top(), b2.top()));
    assert(b2.ctx == b1.ctx && b3.ctx == tested.ctx);
    let len = s.top().blocks.len();
    let k = base_of(n);
    let k1 = k.enter(Frame::Loop(k.height()));
    note_block(z, s, n);
    note_block(z, s1, n);
    note_block(z, s2, n);
    assert(while_block.0 == len && else_block.0 == len + 1 && after.0 == len + 2);
    assert(step(z.w, z.p, k, Instruction::SetupLoop) == on(k1)) by {
        reveal(leap);
    }
    let n1 = note_on(z, s3, n, Instruction::SetupLoop, k1);
    let n2 = note_label(z, u0, n1, while_block);
    assert(goes_on(n, n2, len));
    assert(!left(b4.top(), else_block.0 as int) && !left(o1.top(), after.0 as int)) by {
        reveal(State::switch_to);
    }
    assert(!left(tested.top(), else_block.0 as int) && !left(b2.top(), after.0 as int)) by {
        reveal(lefts_kept);
        assert(lefts_kept(tested.top(), b4.top()));
        assert(lefts_kept(b2.top(), o1.top()));
    }
    let (n3, c) = eval_jump_if(z, u, n2, *x.test, false, else_block);
    assert(goes_on(n, n3, len));
    assert(len + 3 <= u.top().blocks.len() <= tested.top().blocks.len());
    let w = while_block.0 as int;
    assert(n3.at.contains_key(w) <==> n2.at.contains_key(w));
    assert(n2.at.contains_key(w) ==> n3.at[w] == k1);
    assert(n3.at.contains_key(else_block.0 as int) ==> n3.at[else_block.0 as int] == k1);
    assert(!n3.at.contains_key(after.0 as int));
    assert(k1.push_all(Seq::empty()).stack =~= k1.stack);
    if n.cur is Some {
        lemma_looped(k, Seq::empty());
    }
    assert(set_out(z, b1, b2, n3));
    let n7 = run(z, b1, n3, x.body@);
    lemma_grew_within(Some((while_block, after)), base_of(n3), n3, n7, b1.top().blocks.len(), len);
    lemma_goes_twice(n, n3, n7, len, len);
    assert(n7.at.contains_key(else_block.0 as int) <==> n3.at.contains_key(else_block.0 as int));
    assert(n3.at.contains_key(else_block.0 as int) ==> n7.at[else_block.0 as int] == k1);
    assert(w < b1.top().blocks.len());
    if n3.at.contains_key(w) {
        assert(n3.at[w] == k1);
        assert(n7.at.contains_key(w));
        assert(n7.at[w] == n3.at[w]);
    }
    assert(n7.at.contains_key(after.0 as int) ==> n3.cur is Some && n7.at[after.0 as int] == k);
    let g = Flow { next: None, jump: Some((while_block, k1)) };
    assert(step(z.w, z.p, k1, jump) == Some(g)) by {
        reveal(leap);
    }
    let n8 = note_flow(z, b3, n7, jump, g);
    assert(goes_on(n7, n8, len));
    lemma_goes_twice(n, n7, n8, len, len);
    let n9 = note_label(z, b4, n8, else_block);
    assert(goes_on(n8, n9, len));
    lemma_goes_twice(n, n8, n9, len, len);
    assert(n9.cur is None || n.cur is Some && n9.cur == Some(k1));
    assert(step(z.w, z.p, k1, Instruction::PopBlock) == on(k1.leave())) by {
        reveal(leap);
    }
    let n10 = note_on(z, b5, n9, Instruction::PopBlock, k1.leave());
    assert(goes_on(n, n10, len));
    assert(n10.cur is None || n10.cur == n.cur);
    assert(body.ctx == s.ctx);
    assert(loop_open(body, o1, n10)) by {
        reveal(lefts_kept);
        assert(lefts_kept(o1.top(), end.top()));
    }
    let n11 = run(z, body, n10, x.orelse@);
    assert(n10.at.contains_key(after.0 as int) ==> n10.at[after.0 as int] == k && n.cur is Some);
    if n10.cur is Some {
        assert(base_of(n10) == k);
        lemma_grew_after(s.ctx.loop_data, k, -1, k, n, n10, n11, body.top().blocks.len(), len);
    } else {
        assert(grew(s.ctx.loop_data, k, -1, k, n10, n11, body.top().blocks.len()));
        lemma_grew_after(s.ctx.loop_data, k, -1, k, n, n10, n11, body.top().blocks.len(), len);
    }
    let m = note_label(z, o1, n11, after);
    assert(grew(s.ctx.loop_data, k, -1, k, n, m, len));
    m
}

/// An if statement of one clause comes back.
#[verifier::spinoff_prover]
#[verifier::rlimit(60)]
pub proof fn an_if_statement_comes_back(z: Run, s: State, n: Notes, x: StmtIf) -> (r: Notes)
    requires
        set_out(z, s, s.if_statement(x), n),
        whole(*x.test),
        x.elif_else_clauses@.len() == 0,
        calm(z, x.body@),
    ensures
        came_back(z, s, s.if_statement(x), n, r),
{
    broadcast use group_onward_steps;

    reveal(State::if_statement);
    reveal(State::stmts);
    let after = s.fresh();
    let s1 = s.new_block();
    let tested = s1.jump_if(*x.test, false, after);
    let b = tested.stmts(x.body@, 0);
    let end = b.switch_to(after);
    onward_jump_if(s1, *x.test, false, after);
    assert(onward(tested, b));
    assert(end == s.if_statement(x));
    assert(tested.running() && b.running());
    let len = s.top().blocks.len();
    let k = base_of(n);
    note_block(z, s, n);
    assert(!left(b.top(), after.0 as int)) by {
        reveal(State::switch_to);
    }
    assert(!left(tested.top(), after.0 as int)) by {
        reveal(lefts_kept);
        assert(lefts_kept(tested.top(), b.top()));
    }
    let (n1, c) = eval_jump_if(z, s1, n, *x.test, false, after);
    assert(goes_on(n, n1, len));
    assert(n1.cur is None || n1.cur == n.cur);
    assert(n1.at.contains_key(after.0 as int) ==> n.cur is Some && n1.cur is None
        && n1.at[after.0 as int] == k);
    assert(grew(s.ctx.loop_data, k, -1, k, n, n1, len));
    if n1.cur is Some {
        lemma_still_open(s, end, n, tested, b, n1, k, -1, k);
    }
    assert(loop_open(tested, b, n1));
    let n2 = run(z, tested, n1, x.body@);
    assert(tested.ctx == s.ctx);
    assert(grew(s.ctx.loop_data, k, -1, k, n1, n2, tested.top().blocks.len()));
    lemma_grew_after(s.ctx.loop_data, k, -1, k, n, n1, n2, tested.top().blocks.len(), len);
    let m = note_label(z, b, n2, after);
    assert(grew(s.ctx.loop_data, k, -1, k, n, m, len));
    m
}

proof fn onward_raise(s: State, x: StmtRaise)
    ensures
        onward(s, s.raise(x)),
{
    broadcast use group_onward_steps;

    reveal(State::raise);
    if let Some(exc) = x.exc {
        onward_expr(s, *exc);
        if let Some(cause) = x.cause {
            onward_expr(s.expr(*exc), *cause);
        }
    }
}

/// A raise statement does not come out at the end.
#[verifier::spinoff_prover]
proof fn eval_raise(z: Run, s: State, n: Notes, x: StmtRaise) -> (r: Notes)
    requires
        ready(z, s, s.raise(x), n),
        maybe_whole(x.exc),
        maybe_whole(x.cause),
    ensures
        noted(z.w, z.p, s.raise(x).top(), r),
        goes_on(n, r, s.top().blocks.len()),
        r.cur is None,
{
    broadcast use group_onward_steps;

    reveal(State::raise);
    let stop = Flow { next: None, jump: None };
    let k = base_of(n);
    match x.exc {
        None => {
            let i = Instruction::Raise { kind: RaiseKind::Reraise };
            assert(step(z.w, z.p, k, i) == Some(stop)) by {
                reveal(leap);
            }
            note_flow(z, s, n, i, stop)
        },
        Some(exc) => {
            let t = s.expr(*exc);
            onward_expr(s, *exc);
            if let Some(cause) = x.cause {
                onward_expr(t, *cause);
            }
            let (n1, a) = eval_expr(z, s, n, *exc);
            match x.cause {
                None => {
                    let i = Instruction::Raise { kind: RaiseKind::Raise };
                    assert(step(z.w, z.p, k.push(a), i) == Some(stop)) by {
                        reveal(leap);
                    }
                    note_flow(z, t, n1, i, stop)
                },
                Some(cause) => {
                    let i = Instruction::Raise { kind: RaiseKind::RaiseCause };
                    let (n2, b) = eval_expr(z, t, n1, *cause);
                    lemma_goes_twice(n, n1, n2, s.top().blocks.len(), t.top().blocks.len());
                    assert(step(z.w, z.p, k.push(a).push(b), i) == Some(stop)) by {
                        reveal(leap);
                    }
                    note_flow(z, t.expr(*cause), n2, i, stop)
                },
            }
        },
    }
}

/// What a statement of this kind means for the imports that may come changes nothing else.
proof fn lemma_future(s: State, x: Stmt)
    requires
        plain(x),
    ensures
        ({
            let t = s.set_range(stmt_range(x)).note_future(x);
            t.codes == s.codes && t.ctx == s.ctx && t.status == s.status && onward(s, t)
        }),
{
    broadcast use group_onward_steps;

    reveal(State::note_future);
}

/// The code of such statements goes on in the code unit.
#[verifier::spinoff_prover]
pub proof fn onward_stmts(s: State, v: Seq<Stmt>, i: nat)
    requires
        all_plain(v),
    ensures
        onward(s, s.stmts(v, i)),
    decreases v, 0nat, v.len() - i,
{
    reveal(State::stmts);
    reveal(State::stmt);
    if i < v.len() {
        onward_stmt(s, v[i as int]);
        onward_stmts(s.stmt(v[i as int]), v, i + 1);
    }
}

#[verifier::spinoff_prover]
#[verifier::rlimit(60)]
pub proof fn onward_stmt(s: State, x: Stmt)
    requires
        plain(x),
    ensures
        onward(s, s.stmt(x)),
    decreases x, 1nat, 0nat,
{
    broadcast use group_onward_steps;

    reveal(State::stmt);
    reveal(State::stmt_body);
    reveal(State::if_statement);
    reveal(State::while_loop);
    reveal(State::for_loop);
    reveal(State::try_statement);
    reveal(State::stmts);
    lemma_future(s, x);
    let t = s.set_range(stmt_range(x)).note_future(x);
    match x {
        Stmt::If(y) => {
            assert(x->If_0 == y);
            assert(all_plain(y.body@));
            let u = t.new_block();
            onward_jump_if(u, *y.test, false, t.fresh());
            onward_stmts(u.jump_if(*y.test, false, t.fresh()), y.body@, 0);
        },
        Stmt::While(y) => {
            assert(x->While_0 == y);
            assert(all_plain(y.body@) && all_plain(y.orelse@));
            onward_while(t, y);
        },
        Stmt::For(y) => {
            assert(x->For_0 == y);
            assert(all_plain(y.body@) && all_plain(y.orelse@));
            onward_for(t, y);
        },
        Stmt::Try(y) => {
            lemma_try_parts(x, y);
            onward_try(t, y);
        },
        Stmt::Expr(y) => {
            reveal(State::simple);
            onward_expr(t, *y.value);
        },
        Stmt::Raise(y) => {
            reveal(State::simple);
            onward_raise(t, y);
        },
        _ => {
            reveal(State::simple);
        },
    }
}

proof fn lemma_try_parts(x: Stmt, y: StmtTry)
    requires
        plain(x),
        x == Stmt::Try(y),
    ensures
        all_plain(y.body@),
        all_plain(y.orelse@),
        all_plain(y.finalbody@),
        forall|i: int| 0 <= i < y.handlers@.len() ==> plain_handler(#[trigger] y.handlers@[i]),
{
    assert(x->Try_0 == y);
    assert(forall|i: int| 0 <= i < y.handlers@.len() ==> plain_handler(#[trigger] y.handlers@[i]));
}

#[verifier::spinoff_prover]
proof fn onward_while(s: State, x: StmtWhile)
    requires
        all_plain(x.body@),
        all_plain(x.orelse@),
    ensures
        onward(s, s.while_loop(x)),
    decreases x, 0nat, 0nat,
{
    broadcast use group_onward_steps;

    reveal(State::while_loop);
    reveal(State::stmts);
    let s1 = s.new_block();
    let s2 = s1.new_block();
    let u = s2.new_block().emit(Instruction::SetupLoop).switch_to(s.fresh());
    let tested = u.jump_if(*x.test, false, s1.fresh());
    let b1 = tested.set_loop(Some((s.fresh(), s2.fresh())));
    let b2 = b1.stmts(x.body@, 0);
    let b3 = b2.set_loop(tested.ctx.loop_data);
    let body = b3.emit(Instruction::Jump { target: s.fresh() }).switch_to(s1.fresh()).emit(
        Instruction::PopBlock,
    );
    onward_jump_if(u, *x.test, false, s1.fresh());
    onward_stmts(b1, x.body@, 0);
    onward_stmts(body, x.orelse@, 0);
    lemma_loop_set(tested, Some((s.fresh(), s2.fresh())), b2);
}

/// What goes on in a loop goes on from before it.
proof fn lemma_loop_set(s: State, around: Option<(BlockIdx, BlockIdx)>, t: State)
    requires
        onward(s.set_loop(around), t),
    ensures
        onward(s, t.set_loop(s.ctx.loop_data)),
{
}

#[verifier::spinoff_prover]
proof fn onward_for(s: State, x: StmtFor)
    requires
        !x.is_async,
        all_plain(x.body@),
        all_plain(x.orelse@),
    ensures
        onward(s, s.for_loop(x)),
    decreases x, 0nat, 0nat,
{
    broadcast use group_onward_steps;

    reveal(State::for_loop);
    reveal(State::for_turn);
    reveal(State::stmts);
    let s1 = s.new_block();
    let s2 = s1.new_block();
    let u = s2.new_block().emit(Instruction::SetupLoop);
    let u1 = u.expr(*x.iter);
    let u4 = u1.emit(Instruction::GetIter).switch_to(s.fresh()).emit(
        Instruction::ForIter { target: s1.fresh() },
    );
    let turn = u4.store(*x.target);
    let b1 = turn.set_loop(Some((s.fresh(), s2.fresh())));
    let b2 = b1.stmts(x.body@, 0);
    let b3 = b2.set_loop(turn.ctx.loop_data);
    let body = b3.emit(Instruction::Jump { target: s.fresh() }).switch_to(s1.fresh()).emit(
        Instruction::PopBlock,
    );
    onward_expr(u, *x.iter);
    onward_store(u4, *x.target);
    onward_stmts(b1, x.body@, 0);
    onward_stmts(body, x.orelse@, 0);
    lemma_loop_set(turn, Some((s.fresh(), s2.fresh())), b2);
}

#[verifier::spinoff_prover]
#[verifier::rlimit(60)]
proof fn onward_try(s: State, x: StmtTry)
    requires
        all_plain(x.body@),
        all_plain(x.orelse@),
        all_plain(x.finalbody@),
        forall|i: int| 0 <= i < x.handlers@.len() ==> plain_handler(#[trigger] x.handlers@[i]),
    ensures
        onward(s, s.try_statement(x)),
    decreases x, 0nat, 0nat,
{
    broadcast use group_onward_steps;

    reveal(State::try_statement);
    reveal(State::stmts);
    reveal(State::handlers);
    let has_final = x.finalbody@.len() > 0;
    let s1 = s.new_block();
    let finally_block = s1.fresh();
    let made = s1.new_block();
    let t = if has_final {
        made.emit(Instruction::SetupFinally { handler: finally_block })
    } else {
        made
    };
    let u = t.new_block().emit(Instruction::SetupExcept { handler: s.fresh() });
    let b1 = u.stmts(x.body@, 0);
    let body = b1.emit(Instruction::PopBlock).emit(
        Instruction::Jump { target: t.fresh() },
    ).switch_to(s.fresh());
    let hs = body.handlers(x.handlers@, 0, finally_block, has_final);
    let handled = hs.emit(Instruction::Raise { kind: RaiseKind::Reraise }).switch_to(t.fresh());
    let o1 = handled.stmts(x.orelse@, 0);
    let orelse = o1.leave_try(has_final).switch_to(finally_block);
    onward_stmts(u, x.body@, 0);
    onward_plain_handlers(body, x.handlers@, 0, finally_block, has_final);
    onward_stmts(handled, x.orelse@, 0);
    onward_leave_try(o1, has_final);
    onward_stmts(orelse, x.finalbody@, 0);
}

#[verifier::spinoff_prover]
proof fn onward_plain_handlers(
    s: State,
    v: Seq<ExceptHandler>,
    i: nat,
    finally_block: BlockIdx,
    has_final: bool,
)
    requires
        forall|j: int| 0 <= j < v.len() ==> plain_handler(#[trigger] v[j]),
    ensures
        onward(s, s.handlers(v, i, finally_block, has_final)),
    decreases v, 0nat, v.len() - i,
{
    broadcast use group_onward_steps;

    reveal(State::handlers);
    reveal(State::stmts);
    if i < v.len() {
        let h = v[i as int];
        let next = s.fresh();
        let t = s.new_block();
        let u = t.catch(h, next);
        let b = u.stmts(h.body@, 0);
        let p = b.emit(Instruction::PopException);
        let l = p.leave_try(has_final);
        let done = l.emit(Instruction::Jump { target: finally_block }).switch_to(next);
        assert(plain_handler(h));
        assert(all_plain(h.body@));
        onward_catch(t, h, next);
        onward_stmts(u, h.body@, 0);
        onward_leave_try(p, has_final);
        onward_plain_handlers(done, v, i + 1, finally_block, has_final);
    }
}

/// Every run of such statements comes back.
pub proof fn plain_statements_are_calm(z: Run, v: Seq<Stmt>)
    requires
        all_plain(v),
    ensures
        calm(z, v),
    decreases v, 1nat, 0nat,
{
    assert forall|s: State| onward(s, #[trigger] s.stmts(v, 0)) by {
        onward_stmts(s, v, 0);
    }
    assert forall|s: State, n: Notes| #[trigger] set_out(z, s, s.stmts(v, 0), n) implies exists|
        m: Notes,
    | #[trigger] came_back(z, s, s.stmts(v, 0), n, m) by {
        let m = walk_stmts(z, s, n, v, 0);
        assert(came_back(z, s, s.stmts(v, 0), n, m));
    }
}

/// A run of such statements, one after the other, comes back.
#[verifier::spinoff_prover]
#[verifier::rlimit(40)]
proof fn walk_stmts(z: Run, s: State, n: Notes, v: Seq<Stmt>, i: nat) -> (r: Notes)
    requires
        all_plain(v),
        set_out(z, s, s.stmts(v, i), n),
    ensures
        came_back(z, s, s.stmts(v, i), n, r),
    decreases v, 0nat, v.len() - i,
{
    reveal(State::stmts);
    reveal(State::stmt);
    if i >= v.len() {
        n
    } else {
        let x = v[i as int];
        let t = s.stmt(x);
        let end = s.stmts(v, i);
        let around = s.ctx.loop_data;
        let len = s.top().blocks.len();
        let k = base_of(n);
        onward_stmt(s, x);
        onward_stmts(t, v, i + 1);
        assert(end == t.stmts(v, i + 1));
        assert(grew(around, k, -1, k, n, n, len));
        if n.cur is Some {
            assert(open_around(s, end, n, k));
            lemma_still_open(s, end, n, s, t, n, k, -1, k);
        }
        let n1 = walk_stmt(z, s, n, x);
        if n1.cur is Some {
            lemma_still_open(s, end, n, t, end, n1, k, -1, k);
        }
        let m = walk_stmts(z, t, n1, v, i + 1);
        assert(grew(around, k, -1, k, n1, m, t.top().blocks.len()));
        lemma_grew_twice(around, k, -1, k, n, n1, m, t.top().blocks.len(), len);
        m
    }
}

#[verifier::spinoff_prover]
#[verifier::rlimit(60)]
proof fn walk_stmt(z: Run, s: State, n: Notes, x: Stmt) -> (r: Notes)
    requires
        plain(x),
        set_out(z, s, s.stmt(x), n),
    ensures
        came_back(z, s, s.stmt(x), n, r),
    decreases x, 1nat, 0nat,
{
    broadcast use group_onward_steps;

    reveal(State::stmt);
    reveal(State::stmt_body);
    lemma_future(s, x);
    let t = s.set_range(stmt_range(x)).note_future(x);
    assert(t.top() == s.top());
    match x {
        Stmt::If(y) => {
            reveal(State::if_statement);
            assert(x->If_0 == y);
            assert(all_plain(y.body@));
            plain_statements_are_calm(z, y.body@);
            an_if_statement_comes_back(z, t, n, y)
        },
        Stmt::While(y) => {
            reveal(State::while_loop);
            assert(x->While_0 == y);
            assert(all_plain(y.body@) && all_plain(y.orelse@));
            plain_statements_are_calm(z, y.body@);
            plain_statements_are_calm(z, y.orelse@);
            a_while_loop_comes_back(z, t, n, y)
        },
        Stmt::For(y) => {
            reveal(State::for_loop);
            assert(x->For_0 == y);
            assert(all_plain(y.body@) && all_plain(y.orelse@));
            plain_statements_are_calm(z, y.body@);
            plain_statements_are_calm(z, y.orelse@);
            a_for_loop_comes_back(z, t, n, y)
        },
        Stmt::Try(y) => {
            reveal(State::try_statement);
            lemma_try_parts(x, y);
            plain_statements_are_calm(z, y.body@);
            plain_statements_are_calm(z, y.orelse@);
            plain_statements_are_calm(z, y.finalbody@);
            assert forall|i: int| 0 <= i < y.handlers@.len() implies calm(
                z,
                (#[trigger] y.handlers@[i]).body@,
            ) && maybe_whole(y.handlers@[i].type_) by {
                assert(plain_handler(y.handlers@[i]));
                assert(all_plain(y.handlers@[i].body@));
                plain_statements_are_calm(z, y.handlers@[i].body@);
            }
            a_try_statement_comes_back(z, t, n, y)
        },
        Stmt::Expr(y) => {
            reveal(State::simple);
            let u = t.expr(*y.value);
            onward_expr(t, *y.value);
            let (n1, a) = eval_expr(z, t, n, *y.value);
            assert(step(z.w, z.p, base_of(n).push(a), Instruction::Pop) == on(base_of(n))) by {
                reveal(plain_step);
            }
            let m = note_on(z, u, n1, Instruction::Pop, base_of(n));
            assert(goes_on(n, m, s.top().blocks.len()));
            m
        },
        Stmt::Raise(y) => {
            reveal(State::simple);
            eval_raise(z, t, n, y)
        },
        Stmt::Break(_) => {
            reveal(State::simple);
            match t.ctx.loop_data {
                Some((_, end)) => a_break_ends_the_loop(z, t, n, end),
                None => n,
            }
        },
        Stmt::Continue(_) => {
            reveal(State::simple);
            match t.ctx.loop_data {
                Some((start, _)) => a_continue_goes_on_with_the_loop(z, t, n, start),
                None => n,
            }
        },
        _ => {
            reveal(State::simple);
            n
        },
    }
}

} // verus!
