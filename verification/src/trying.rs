//! Where a run goes through a try statement, and what it leaves of the stacks.
use vstd::prelude::*;

use crate::ast::{ExceptHandler, StmtTry};
use crate::bytecode::{BlockIdx, Instruction, RaiseKind, TestOperator};
use crate::eval::eval_expr;
use crate::handling::{base_of, note_store_name, note_two};
use crate::machine::{
    caught, innermost_loop, leap, make, noted, on, plain_step, step, Flow, Frame, Machine, Made,
    Notes, Term,
};
use crate::noting::{
    goes_on, goes_on_but, group_pushed, note_block, note_flow, note_label, note_on, ready, Run,
};
use crate::onward::{group_onward_steps, onward, onward_expr};
use crate::running::{
    awaits, broken, calm, came_back, gone_to, grew, lemma_entered, lemma_grew_after,
    lemma_grew_twice, loop_open, resumed, run, set_out, tidy,
};
use crate::state::State;
use crate::validity::{group_layout, group_lefts, left, lefts_kept};
use crate::whole::maybe_whole;

verus! {

broadcast use {group_layout, group_lefts, group_pushed};

/// Whether every run of the handlers of a try statement comes back.
pub open spec fn calm_handlers(z: Run, v: Seq<ExceptHandler>) -> bool {
    forall|i: int|
        0 <= i < v.len() ==> calm(z, (#[trigger] v[i]).body@) && maybe_whole(v[i].type_)
}

/// The machine in a try statement, before anything of it is run that may raise.
pub open spec fn within_try(k: Machine, has_final: bool) -> Machine {
    if has_final {
        k.enter(Frame::Finally(k.height()))
    } else {
        k
    }
}

/// The machine where a finally body is run, or where the code goes on if there is none: the frame
/// of the statement has been taken off, and the finally body entered once.
pub open spec fn finishing(k: Machine, has_final: bool) -> Machine {
    if has_final {
        k.enter(Frame::FinallyHandler(k.height()))
    } else {
        k
    }
}

/// The machine in which a handler is run.
pub open spec fn handling_in(k: Machine) -> Machine {
    k.enter(Frame::ExceptHandler(k.height()))
}

/// An exception at run time.
pub open spec fn exception() -> Term {
    Term::Of(Made::Exception, Seq::empty())
}

pub proof fn onward_catch(s: State, h: ExceptHandler, next: BlockIdx)
    ensures
        onward(s, s.catch(h, next)),
{
    broadcast use group_onward_steps;

    reveal(State::catch);
    if let Some(e) = h.type_ {
        onward_expr(s.emit(Instruction::Duplicate), *e);
    }
}

pub proof fn onward_leave_try(s: State, has_final: bool)
    ensures
        onward(s, s.leave_try(has_final)),
{
    broadcast use group_onward_steps;

    reveal(State::leave_try);
}

proof fn onward_handlers(
    z: Run,
    s: State,
    v: Seq<ExceptHandler>,
    i: nat,
    finally_block: BlockIdx,
    has_final: bool,
)
    requires
        calm_handlers(z, v),
    ensures
        onward(s, s.handlers(v, i, finally_block, has_final)),
    decreases v.len() - i,
{
    broadcast use group_onward_steps;

    reveal(State::handlers);
    reveal(State::stmts);
    if i < v.len() {
        let h = v[i as int];
        let next = s.fresh();
        let t = s.new_block();
        let u = t.catch(h, next);
        let b = u.stmts(h.body@, 0);
        let p = b.emit(Instruction::PopException);
        let l = p.leave_try(has_final);
        let done = l.emit(Instruction::Jump { target: finally_block }).switch_to(next);
        onward_catch(t, h, next);
        assert(calm(z, h.body@));
        assert(onward(u, b));
        onward_leave_try(p, has_final);
        onward_handlers(z, done, v, i + 1, finally_block, has_final);
    }
}

/// A handler takes the exception off the stack, or goes on to the next handler with it.
#[verifier::spinoff_prover]
proof fn eval_catch(
    z: Run,
    s: State,
    n: Notes,
    h: ExceptHandler,
    next: BlockIdx,
    q: Machine,
) -> (r: Notes)
    requires
        ready(z, s, s.catch(h, next), n),
        maybe_whole(h.type_),
        next.0 < s.top().blocks.len(),
        !n.at.contains_key(next.0 as int),
        !left(s.catch(h, next).top(), next.0 as int),
        n.cur is Some ==> n.cur == Some(q.push(exception())),
    ensures
        noted(z.w, z.p, s.catch(h, next).top(), r),
        goes_on_but(n, r, s.top().blocks.len(), next),
        n.cur is None ==> r.cur is None && !r.at.contains_key(next.0 as int),
        n.cur is Some ==> if r.at.contains_key(next.0 as int) {
            r.cur is None && r.at[next.0 as int] == q.push(exception())
        } else {
            r.cur == Some(q)
        },
{
    broadcast use group_onward_steps;

    reveal(State::catch);
    let k = q.push(exception());
    match h.type_ {
        Some(e) => {
            let t = s.emit(Instruction::Duplicate);
            let u = t.expr(*e);
            let i = Instruction::TestOperation { op: TestOperator::ExceptionMatch };
            let j = Instruction::JumpIfFalse { target: next };
            let v = u.emit(i);
            let w = v.emit(j);
            onward_expr(t, *e);
            assert(w.running());
            assert(!left(v.top(), next.0 as int)) by {
                reveal(lefts_kept);
                assert(lefts_kept(v.top(), s.catch(h, next).top()));
            }
            assert(step(z.w, z.p, k, Instruction::Duplicate) == on(k.push(exception()))) by {
                reveal(plain_step);
            }
            let n1 = note_on(z, s, n, Instruction::Duplicate, k.push(exception()));
            let (n2, a) = eval_expr(z, t, n1, *e);
            assert(step(z.w, z.p, k.push(exception()).push(a), i) == make(
                k.push(exception()).push(a),
                2,
                Made::Matches,
            )) by {
                reveal(plain_step);
            }
            let base = if n2.cur is Some {
                Some(k)
            } else {
                None
            };
            let n3 = note_two(z, u, n2, i, base, exception(), a, Made::Matches);
            let c = Term::Of(Made::Matches, seq![exception(), a]);
            let f = if (z.w.truth)(c) {
                Flow { next: Some(k), jump: None }
            } else {
                Flow { next: None, jump: Some((next, k)) }
            };
            assert(step(z.w, z.p, k.push(c), j) == Some(f)) by {
                reveal(leap);
            }
            let n4 = note_flow(z, v, n3, j, f);
            match h.name {
                Some(name) => note_store_name(z, w, n4, name@),
                None => {
                    assert(step(z.w, z.p, k, Instruction::Pop) == on(q)) by {
                        reveal(plain_step);
                    }
                    note_on(z, w, n4, Instruction::Pop, q)
                },
            }
        },
        None => {
            assert(step(z.w, z.p, k, Instruction::Pop) == on(q)) by {
                reveal(plain_step);
            }
            note_on(z, s, n, Instruction::Pop, q)
        },
    }
}

/// Where a try statement is left without an exception, its frame is taken off and its finally body
/// is entered, if it has one.
proof fn eval_leave_try(z: Run, s: State, n: Notes, has_final: bool, k: Machine) -> (r: Notes)
    requires
        ready(z, s, s.leave_try(has_final), n),
        n.cur is Some ==> n.cur == Some(within_try(k, has_final)),
    ensures
        noted(z.w, z.p, s.leave_try(has_final).top(), r),
        r.at == n.at,
        n.cur is None ==> r.cur is None,
        n.cur is Some ==> r.cur == Some(finishing(k, has_final)),
{
    broadcast use group_onward_steps;

    reveal(State::leave_try);
    if has_final {
        let k1 = within_try(k, true);
        assert(k1.leave().frames =~= k.frames);
        assert(step(z.w, z.p, k1, Instruction::PopBlock) == on(k)) by {
            reveal(leap);
        }
        assert(step(z.w, z.p, k, Instruction::EnterFinally) == on(finishing(k, true))) by {
            reveal(leap);
        }
        let n1 = note_on(z, s, n, Instruction::PopBlock, k);
        note_on(
            z,
            s.emit(Instruction::PopBlock),
            n1,
            Instruction::EnterFinally,
            finishing(k, true),
        )
    } else {
        n
    }
}

/// What is done in a try statement has the same loop around it.
proof fn lemma_within(k: Machine, has_final: bool)
    requires
        tidy(k),
    ensures
        ({
            let k1 = within_try(k, has_final);
            let q = handling_in(k1);
            let b = k1.enter(Frame::Except(k.height()));
            let f = finishing(k, has_final);
            &&& k1.height() == k.height()
            &&& tidy(k1) && tidy(q) && tidy(b) && tidy(f)
            &&& q.leave() == k1 && b.leave() == k1
            &&& innermost_loop(k1.frames) == innermost_loop(k.frames)
            &&& innermost_loop(q.frames) == innermost_loop(k.frames)
            &&& innermost_loop(b.frames) == innermost_loop(k.frames)
            &&& innermost_loop(f.frames) == innermost_loop(k.frames)
            &&& innermost_loop(k.frames) is Some ==> {
                &&& broken(k1) == broken(k) && resumed(k1) == resumed(k)
                &&& broken(q) == broken(k) && resumed(q) == resumed(k)
                &&& broken(b) == broken(k) && resumed(b) == resumed(k)
                &&& broken(f) == broken(k) && resumed(f) == resumed(k)
            }
        }),
{
    let k1 = within_try(k, has_final);
    if has_final {
        lemma_entered(k, Frame::Finally(k.height()));
        lemma_entered(k, Frame::FinallyHandler(k.height()));
    }
    lemma_entered(k1, Frame::ExceptHandler(k1.height()));
    lemma_entered(k1, Frame::Except(k.height()));
}

/// Whether a run in a try statement can go where the loop around it goes.
pub open spec fn open_around(s: State, t: State, n: Notes, k: Machine) -> bool {
    match s.ctx.loop_data {
        Some((start, end)) => start != end && innermost_loop(k.frames) is Some && awaits(
            s,
            t,
            n,
            start,
            resumed(k),
        ) && awaits(s, t, n, end, broken(k)),
        None => true,
    }
}

/// A block that was waiting is waiting still, whatever was gone to.
proof fn lemma_still_awaits(
    s: State,
    t: State,
    n: Notes,
    s1: State,
    t1: State,
    m: Notes,
    target: BlockIdx,
    j: Machine,
    k: Machine,
    block: int,
    there: Machine,
)
    requires
        awaits(s, t, n, target, j),
        grew(s.ctx.loop_data, k, block, there, n, m, s.top().blocks.len()),
        s.top().blocks.len() <= s1.top().blocks.len() <= t1.top().blocks.len()
            <= t.top().blocks.len() <= u32::MAX,
        lefts_kept(t1.top(), t.top()),
        forall|l: Machine|
            #[trigger] gone_to(s.ctx.loop_data, k, block, there, target.0 as int, l) ==> l == j,
    ensures
        awaits(s1, t1, m, target, j),
{
    reveal(lefts_kept);
    let b = target.0 as int;
    if m.at.contains_key(b) && !n.at.contains_key(b) {
        assert(gone_to(s.ctx.loop_data, k, block, there, b, m.at[b]));
    }
    assert(left(t1.top(), b) ==> left(t.top(), b));
}

/// The loop around goes on waiting.
pub proof fn lemma_still_open(
    s: State,
    t: State,
    n: Notes,
    s1: State,
    t1: State,
    m: Notes,
    k: Machine,
    block: int,
    there: Machine,
)
    requires
        open_around(s, t, n, k),
        grew(s.ctx.loop_data, k, block, there, n, m, s.top().blocks.len()),
        s.top().blocks.len() <= s1.top().blocks.len() <= t1.top().blocks.len()
            <= t.top().blocks.len() <= u32::MAX,
        lefts_kept(t1.top(), t.top()),
        s1.ctx == s.ctx,
        s.ctx.loop_data matches Some(p) ==> p.0.0 != block && p.1.0 != block,
    ensures
        open_around(s1, t1, m, k),
{
    if let Some((start, end)) = s.ctx.loop_data {
        lemma_still_awaits(s, t, n, s1, t1, m, start, resumed(k), k, block, there);
        lemma_still_awaits(s, t, n, s1, t1, m, end, broken(k), k, block, there);
    }
}

/// Notes that grew in a part of a try statement grew in it.
proof fn lemma_grew_in(
    around: Option<(BlockIdx, BlockIdx)>,
    q: Machine,
    j: Machine,
    k: Machine,
    block: int,
    there: Machine,
    n: Notes,
    m: Notes,
    len: nat,
)
    requires
        grew(around, q, -1, j, n, m, len),
        around is Some && n.cur is Some ==> broken(q) == broken(k) && resumed(q) == resumed(k),
    ensures
        grew(around, k, block, there, n, m, len),
{
}

/// Notes after a jump to the block that may have been gone to.
proof fn lemma_grew_there(
    around: Option<(BlockIdx, BlockIdx)>,
    k: Machine,
    block: int,
    there: Machine,
    n: Notes,
    m: Notes,
    l: Notes,
    len: nat,
)
    requires
        grew(around, k, -1, there, n, m, len),
        block >= 0,
        l.at == m.at || (n.cur is Some && l.at == m.at.insert(block, there) && (
        m.at.contains_key(block) ==> m.at[block] == there)),
    ensures
        grew(around, k, block, there, n, l, len),
{
    assert forall|b: int| b < len implies (n.at.contains_key(b) ==> l.at.contains_key(b) && l.at[b]
        == n.at[b]) && ((#[trigger] l.at.contains_key(b)) && !n.at.contains_key(b) ==> n.cur is Some
        && gone_to(around, k, block, there, b, l.at[b])) by {
        let before = m.at.contains_key(b);
        if b != block {
            assert(l.at.contains_key(b) == m.at.contains_key(b));
            assert(before ==> l.at[b] == m.at[b]);
        } else {
            assert(before ==> l.at[b] == m.at[b]);
        }
        if before && !n.at.contains_key(b) {
            assert(gone_to(around, k, -1, there, b, m.at[b]));
        }
    }
}

/// Whatever handler takes an exception, a run comes to the finally body, or to where the code goes
/// on if there is none, with the frames of the statement taken off.
#[verifier::spinoff_prover]
#[verifier::rlimit(80)]
proof fn eval_handlers(
    z: Run,
    s: State,
    n: Notes,
    v: Seq<ExceptHandler>,
    i: nat,
    finally_block: BlockIdx,
    has_final: bool,
    k: Machine,
) -> (r: Notes)
    requires
        ready(z, s, s.handlers(v, i, finally_block, has_final), n),
        calm_handlers(z, v),
        n.cur is Some ==> {
            &&& n.cur == Some(handling_in(within_try(k, has_final)).push(exception()))
            &&& tidy(k)
            &&& open_around(s, s.handlers(v, i, finally_block, has_final), n, k)
            &&& awaits(
                s,
                s.handlers(v, i, finally_block, has_final),
                n,
                finally_block,
                finishing(k, has_final),
            )
        },
        n.cur is Some ==> (s.ctx.loop_data matches Some(p) ==> p.0.0 != finally_block.0 && p.1.0
            != finally_block.0),
        finally_block.0 < s.top().blocks.len(),
    ensures
        noted(z.w, z.p, s.handlers(v, i, finally_block, has_final).top(), r),
        r.cur is None || r.cur == n.cur,
        grew(
            s.ctx.loop_data,
            k,
            finally_block.0 as int,
            finishing(k, has_final),
            n,
            r,
            s.top().blocks.len(),
        ),
    decreases v.len() - i,
{
    broadcast use group_onward_steps;

    reveal(State::handlers);
    reveal(State::stmts);
    if i >= v.len() {
        n
    } else {
        let h = v[i as int];
        let around = s.ctx.loop_data;
        let y = finally_block.0 as int;
        let fin = finishing(k, has_final);
        let k1 = within_try(k, has_final);
        let q = handling_in(k1);
        let len = s.top().blocks.len();
        let next = s.fresh();
        let t = s.new_block();
        let u = t.catch(h, next);
        let b = u.stmts(h.body@, 0);
        let p = b.emit(Instruction::PopException);
        let l = p.leave_try(has_final);
        let jump = Instruction::Jump { target: finally_block };
        let d = l.emit(jump);
        let done = d.switch_to(next);
        let end = done.handlers(v, i + 1, finally_block, has_final);
        onward_catch(t, h, next);
        assert(calm(z, h.body@));
        assert(onward(u, b));
        onward_leave_try(p, has_final);
        onward_handlers(z, done, v, i + 1, finally_block, has_final);
        assert(end == s.handlers(v, i, finally_block, has_final));
        assert(done.running() && d.running() && l.running() && b.running() && u.running());
        assert(!left(d.top(), next.0 as int)) by {
            reveal(State::switch_to);
        }
        note_block(z, s, n);
        assert(!left(u.top(), next.0 as int)) by {
            reveal(lefts_kept);
            assert(lefts_kept(u.top(), d.top()));
        }
        let n1 = eval_catch(z, t, n, h, next, q);
        assert(goes_on(n, n1, len));
        assert(grew(around, k, -1, fin, n, n1, len));
        if n.cur is Some {
            lemma_within(k, has_final);
            lemma_still_open(s, end, n, u, b, n1, k, -1, fin);
        }
        assert(loop_open(u, b, n1));
        let n2 = run(z, u, n1, h.body@);
        lemma_grew_in(around, base_of(n1), base_of(n1), k, -1, fin, n1, n2, u.top().blocks.len());
        lemma_grew_after(around, k, -1, fin, n, n1, n2, u.top().blocks.len(), len);
        assert(n2.at.contains_key(next.0 as int) <==> n1.at.contains_key(next.0 as int));
        assert(n1.at.contains_key(next.0 as int) ==> n2.at[next.0 as int] == n1.at[next.0 as int]);
        assert(step(z.w, z.p, q, Instruction::PopException) == on(q.leave())) by {
            reveal(leap);
        }
        let n3 = note_on(z, b, n2, Instruction::PopException, q.leave());
        let n4 = eval_leave_try(z, p, n3, has_final, k);
        let f = Flow { next: None, jump: Some((finally_block, fin)) };
        assert(step(z.w, z.p, fin, jump) == Some(f)) by {
            reveal(leap);
        }
        if n.cur is Some {
            lemma_still_awaits(s, end, n, l, l, n4, finally_block, fin, k, -1, fin);
        }
        let n5 = note_flow(z, l, n4, jump, f);
        assert(n5.cur is None);
        lemma_grew_there(around, k, y, fin, n, n4, n5, len);
        assert(grew(around, k, y, fin, n, n5, len));
        let n6 = note_label(z, d, n5, next);
        assert(grew(around, k, y, fin, n, n6, len));
        if n.cur is Some {
            lemma_still_open(s, end, n, done, end, n6, k, y, fin);
            lemma_still_awaits(s, end, n, done, end, n6, finally_block, fin, k, y, fin);
        }
        let r = eval_handlers(z, done, n6, v, i + 1, finally_block, has_final, k);
        lemma_grew_twice(around, k, y, fin, n, n6, r, done.top().blocks.len(), len);
        r
    }
}

/// A try statement comes back with the stacks as it found them. Every way into its finally body
/// that is not an exception, from the end of its else clause and from the end of each handler, has
/// taken off the frame that the statement set up and has entered the finally body once, so that
/// the frames there are the same whichever way the run came, and the body's end takes off the last.
#[verifier::spinoff_prover]
#[verifier::rlimit(100)]
pub proof fn a_try_statement_comes_back(z: Run, s: State, n: Notes, x: StmtTry) -> (r: Notes)
    requires
        set_out(z, s, s.try_statement(x), n),
        calm(z, x.body@),
        calm_handlers(z, x.handlers@),
        calm(z, x.orelse@),
        calm(z, x.finalbody@),
    ensures
        came_back(z, s, s.try_statement(x), n, r),
{
    broadcast use group_onward_steps;

    reveal(State::try_statement);
    reveal(State::stmts);
    reveal(State::handlers);
    let has_final = x.finalbody@.len() > 0;
    let around = s.ctx.loop_data;
    let len = s.top().blocks.len();
    let k = base_of(n);
    let k1 = within_try(k, has_final);
    let fin = finishing(k, has_final);
    let q = handling_in(k1);
    let inner = k1.enter(Frame::Except(k.height()));
    let handler_block = s.fresh();
    let s1 = s.new_block();
    let finally_block = s1.fresh();
    let y = finally_block.0 as int;
    let made = s1.new_block();
    let setup = Instruction::SetupFinally { handler: finally_block };
    let t = if has_final {
        made.emit(setup)
    } else {
        made
    };
    let else_block = t.fresh();
    let t1 = t.new_block();
    let except = Instruction::SetupExcept { handler: handler_block };
    let u = t1.emit(except);
    let b1 = u.stmts(x.body@, 0);
    let b2 = b1.emit(Instruction::PopBlock);
    let over = Instruction::Jump { target: else_block };
    let b3 = b2.emit(over);
    let body = b3.switch_to(handler_block);
    let hs = body.handlers(x.handlers@, 0, finally_block, has_final);
    let raise = Instruction::Raise { kind: RaiseKind::Reraise };
    let hr = hs.emit(raise);
    let handled = hr.switch_to(else_block);
    let o1 = handled.stmts(x.orelse@, 0);
    let o2 = o1.leave_try(has_final);
    let orelse = o2.switch_to(finally_block);
    let f1 = orelse.stmts(x.finalbody@, 0);
    let end = if has_final {
        f1.emit(Instruction::EndFinally)
    } else {
        orelse
    };
    assert(onward(u, b1));
    onward_handlers(z, body, x.handlers@, 0, finally_block, has_final);
    assert(onward(handled, o1));
    onward_leave_try(o1, has_final);
    assert(onward(orelse, f1));
    assert(end == s.try_statement(x));
    assert(orelse.running() && o1.running() && handled.running() && hs.running());
    assert(body.running() && b1.running() && t.running());
    assert(has_final ==> f1.running());
    note_block(z, s, n);
    note_block(z, s1, n);
    assert(handler_block.0 == len && finally_block.0 == len + 1);
    assert(!left(o2.top(), y) && !left(hr.top(), else_block.0 as int) && !left(
        b3.top(),
        handler_block.0 as int,
    )) by {
        reveal(State::switch_to);
    }
    // Into the statement.
    let n1 = if has_final {
        let f = Flow { next: Some(k1), jump: Some((finally_block, fin)) };
        assert(step(z.w, z.p, k, setup) == Some(f)) by {
            reveal(leap);
        }
        assert(!left(made.top(), y)) by {
            reveal(lefts_kept);
            assert(lefts_kept(made.top(), o2.top()));
        }
        note_flow(z, made, n, setup, f)
    } else {
        n
    };
    assert(goes_on(n, n1, len));
    note_block(z, t, n1);
    assert(t.top().blocks.len() == made.top().blocks.len()) by {
        reveal(State::emit);
    }
    assert(else_block.0 == len + 2);
    let into = Flow { next: Some(inner), jump: Some((handler_block, caught(k1))) };
    assert(step(z.w, z.p, k1, except) == Some(into)) by {
        reveal(leap);
    }
    assert(!left(t1.top(), handler_block.0 as int)) by {
        reveal(lefts_kept);
        assert(lefts_kept(t1.top(), b3.top()));
    }
    let n2 = note_flow(z, t1, n1, except, into);
    assert(goes_on(n, n2, len));
    assert(caught(k1) == q.push(exception()));
    // The body.
    assert(grew(around, k, -1, fin, n, n2, len));
    assert(u.ctx == s.ctx && body.ctx == s.ctx && handled.ctx == s.ctx && orelse.ctx == s.ctx);
    if n.cur is Some {
        lemma_within(k, has_final);
        assert(open_around(s, end, n, k));
        lemma_still_open(s, end, n, u, b1, n2, k, -1, fin);
    }
    assert(loop_open(u, b1, n2));
    let n3 = run(z, u, n2, x.body@);
    lemma_grew_in(around, base_of(n2), base_of(n2), k, -1, fin, n2, n3, u.top().blocks.len());
    assert(len + 3 <= u.top().blocks.len());
    lemma_new_kept(around, k, fin, n2, n3, u.top().blocks.len(), len);
    lemma_grew_after(around, k, -1, fin, n, n2, n3, u.top().blocks.len(), len);
    assert(step(z.w, z.p, inner, Instruction::PopBlock) == on(inner.leave())) by {
        reveal(leap);
    }
    let n4 = note_on(z, b1, n3, Instruction::PopBlock, inner.leave());
    let away = Flow { next: None, jump: Some((else_block, k1)) };
    assert(step(z.w, z.p, k1, over) == Some(away)) by {
        reveal(leap);
    }
    assert(!left(b2.top(), else_block.0 as int)) by {
        reveal(lefts_kept);
        assert(lefts_kept(b2.top(), hr.top()));
    }
    let n5 = note_flow(z, b2, n4, over, away);
    let n6 = note_label(z, b3, n5, handler_block);
    assert(n.cur is Some ==> n6.cur == Some(caught(k1)));
    // The handlers.
    assert(grew(around, k, -1, fin, n, n6, len));
    if n.cur is Some {
        lemma_still_open(s, end, n, body, hs, n6, k, -1, fin);
        assert(awaits(body, hs, n6, finally_block, fin)) by {
            reveal(lefts_kept);
            assert(lefts_kept(hs.top(), o2.top()));
        }
    }
    let n7 = eval_handlers(z, body, n6, x.handlers@, 0, finally_block, has_final, k);
    lemma_grew_in_two(around, k, y, fin, n, n6, n7, body.top().blocks.len(), len);
    assert(n7.at.contains_key(else_block.0 as int) <==> n6.at.contains_key(else_block.0 as int));
    assert(n6.at.contains_key(else_block.0 as int) ==> n7.at[else_block.0 as int] == k1);
    assert(n7.at.contains_key(y) ==> n7.at[y] == fin);
    let stop = Flow { next: None, jump: None };
    assert(forall|j: Machine| #[trigger] step(z.w, z.p, j, raise) == Some(stop)) by {
        reveal(leap);
    }
    let n8 = note_flow(z, hs, n7, raise, stop);
    let n9 = note_label(z, hr, n8, else_block);
    // The else clause.
    assert(grew(around, k, -1, fin, n, n9, len));
    if n.cur is Some {
        lemma_still_open(s, end, n, handled, o1, n9, k, -1, fin);
    }
    assert(loop_open(handled, o1, n9));
    let n10 = run(z, handled, n9, x.orelse@);
    lemma_grew_in(
        around,
        base_of(n9),
        base_of(n9),
        k,
        -1,
        fin,
        n9,
        n10,
        handled.top().blocks.len(),
    );
    lemma_new_kept(around, k, fin, n9, n10, handled.top().blocks.len(), len);
    lemma_grew_twice(around, k, -1, fin, n, n9, n10, handled.top().blocks.len(), len);
    let n11 = eval_leave_try(z, o1, n10, has_final, k);
    assert(n11.at.contains_key(y) ==> n11.at[y] == fin);
    let n12 = note_label(z, o2, n11, finally_block);
    assert(n12.cur is None || n.cur is Some && n12.cur == Some(fin));
    // The finally body.
    assert(grew(around, k, -1, fin, n, n12, len));
    if has_final {
        if n.cur is Some {
            lemma_still_open(s, end, n, orelse, f1, n12, k, -1, fin);
        }
        assert(loop_open(orelse, f1, n12));
        let n13 = run(z, orelse, n12, x.finalbody@);
        lemma_grew_in(
            around,
            base_of(n12),
            base_of(n12),
            k,
            -1,
            fin,
            n12,
            n13,
            orelse.top().blocks.len(),
        );
        lemma_grew_twice(around, k, -1, fin, n, n12, n13, orelse.top().blocks.len(), len);
        assert(fin.leave().frames =~= k.frames);
        assert(step(z.w, z.p, fin, Instruction::EndFinally) == on(k)) by {
            reveal(leap);
        }
        let m = note_on(z, f1, n13, Instruction::EndFinally, k);
        lemma_grew_in(around, k, fin, k, -1, k, n, m, len);
        m
    } else {
        lemma_grew_in(around, k, fin, k, -1, k, n, n12, len);
        n12
    }
}

/// The notes on blocks that came after the loop around stay.
proof fn lemma_new_kept(
    around: Option<(BlockIdx, BlockIdx)>,
    k: Machine,
    there: Machine,
    n: Notes,
    m: Notes,
    more: nat,
    len: nat,
)
    requires
        grew(around, k, -1, there, n, m, more),
        n.cur is Some ==> (around matches Some(p) ==> p.0.0 < len && p.1.0 < len),
    ensures
        forall|b: int|
            len <= b < more ==> (#[trigger] m.at.contains_key(b) <==> n.at.contains_key(b)) && (
            n.at.contains_key(b) ==> m.at[b] == n.at[b]),
{
}

/// Notes that grew with nothing more gone to, and then with one block.
proof fn lemma_grew_in_two(
    around: Option<(BlockIdx, BlockIdx)>,
    k: Machine,
    block: int,
    there: Machine,
    n: Notes,
    m: Notes,
    l: Notes,
    more: nat,
    len: nat,
)
    requires
        grew(around, k, -1, there, n, m, len),
        m.cur is Some ==> n.cur is Some,
        grew(around, k, block, there, m, l, more),
        len <= more,
        block >= len,
    ensures
        grew(around, k, -1, there, n, l, len),
{
    assert(grew(around, k, -1, there, m, l, len));
    lemma_grew_twice(around, k, -1, there, n, m, l, len, len);
}

} // verus!
