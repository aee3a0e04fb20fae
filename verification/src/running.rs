//! Where a run goes through loops and try statements, and what they leave of the stacks.
use vstd::prelude::*;

use crate::ast::{Stmt, StmtFor};
use crate::bytecode::{BlockIdx, Instruction};
use crate::eval::eval_expr;
use crate::eval_call::eval_store;
use crate::handling::{base_of, note_one};
use crate::machine::{
    innermost_loop, leap, level, make, noted, on, plain_step, step, Flow, Frame, Machine, Made,
    Notes, Term,
};
use crate::noting::{
    goes_on, group_pushed, lemma_goes_twice, note_block, note_flow, note_label, note_on, ready, Run,
};
use crate::onward::{group_onward_steps, onward, onward_expr, onward_store};
use crate::state::State;
use crate::validity::{group_layout, group_lefts, left, lefts_kept, pools_kept};
use crate::whole::whole;

verus! {

broadcast use {group_layout, group_lefts, group_pushed};

/// Whether no frame was set up above the top of the stack.
pub open spec fn tidy(k: Machine) -> bool {
    forall|i: int| 0 <= i < k.frames.len() ==> level(#[trigger] k.frames[i]) <= k.height()
}

/// The machine after the innermost loop was broken off: as it was before the loop.
pub open spec fn broken(k: Machine) -> Machine {
    let j = innermost_loop(k.frames)->0 as int;
    Machine { stack: k.stack.take(level(k.frames[j]) as int), frames: k.frames.take(j) }
}

/// The machine where the innermost loop goes on with its next turn.
pub open spec fn resumed(k: Machine) -> Machine {
    let j = innermost_loop(k.frames)->0 as int;
    Machine {
        stack: if j + 1 < k.frames.len() {
            k.stack.take(level(k.frames[j + 1]) as int)
        } else {
            k.stack
        },
        frames: k.frames.take(j + 1),
    }
}

/// Whether a block can be gone to with a machine: it is known to be there, or nothing is known of
/// the block, in which code has not gone on by `t`.
pub open spec fn awaits(s: State, t: State, n: Notes, block: BlockIdx, k: Machine) -> bool {
    &&& block.0 < s.top().blocks.len()
    &&& if n.at.contains_key(block.0 as int) {
        n.at[block.0 as int] == k
    } else {
        !left(t.top(), block.0 as int)
    }
}

/// Whether code is in a loop that it can break off and go on with, if the context says so.
pub open spec fn loop_open(s: State, t: State, n: Notes) -> bool {
    match n.cur {
        Some(k) => tidy(k) && match s.ctx.loop_data {
            Some((start, end)) => start != end && innermost_loop(k.frames) is Some && awaits(
                s,
                t,
                n,
                start,
                resumed(k),
            ) && awaits(s, t, n, end, broken(k)),
            None => true,
        },
        None => true,
    }
}

/// Whether the code from `s` to `t` can be run through.
pub open spec fn set_out(z: Run, s: State, t: State, n: Notes) -> bool {
    ready(z, s, t, n) && loop_open(s, t, n)
}

/// Whether the notes on the first blocks are the same, but that the loop around may have been
/// broken off or gone on with, and that a block may have been gone to.
pub open spec fn grew(
    around: Option<(BlockIdx, BlockIdx)>,
    k: Machine,
    block: int,
    there: Machine,
    n: Notes,
    m: Notes,
    len: nat,
) -> bool {
    forall|b: int|
        b < len ==> (n.at.contains_key(b) ==> m.at.contains_key(b) && m.at[b] == n.at[b]) && (
        (#[trigger] m.at.contains_key(b)) && !n.at.contains_key(b) ==> n.cur is Some && gone_to(
            around,
            k,
            block,
            there,
            b,
            m.at[b],
        ))
}

/// Whether a block that was gone to is one that may have been, with the machine as it is then.
pub open spec fn gone_to(
    around: Option<(BlockIdx, BlockIdx)>,
    k: Machine,
    block: int,
    there: Machine,
    b: int,
    j: Machine,
) -> bool {
    ||| b >= 0 && b == block && j == there
    ||| match around {
        Some((start, end)) => b == start.0 && j == resumed(k) || b == end.0 && j == broken(k),
        None => false,
    }
}

/// Whether a run of the code from `s` to `t` comes out with the stacks as it found them, if it
/// comes out at the end; otherwise it goes to where the loop around is broken off or gone on with.
pub open spec fn came_back(z: Run, s: State, t: State, n: Notes, m: Notes) -> bool {
    &&& noted(z.w, z.p, t.top(), m)
    &&& m.cur is None || m.cur == n.cur
    &&& grew(s.ctx.loop_data, base_of(n), -1, base_of(n), n, m, s.top().blocks.len())
}

/// Whether every run of some statements comes back.
pub open spec fn calm(z: Run, v: Seq<Stmt>) -> bool {
    &&& forall|s: State| onward(s, #[trigger] s.stmts(v, 0))
    &&& forall|s: State, n: Notes|
        #[trigger] set_out(z, s, s.stmts(v, 0), n) ==> exists|m: Notes| #[trigger]
            came_back(z, s, s.stmts(v, 0), n, m)
}

/// What a loop within leaves of the notes on blocks before it.
pub proof fn lemma_grew_within(
    around: Option<(BlockIdx, BlockIdx)>,
    k: Machine,
    n: Notes,
    m: Notes,
    more: nat,
    len: nat,
)
    requires
        grew(around, k, -1, k, n, m, more),
        len <= more,
        around matches Some(p) ==> p.0.0 >= len && p.1.0 >= len,
    ensures
        goes_on(n, m, len),
{
}

/// What is known of a block after notes grew twice.
proof fn lemma_grew_at(
    around: Option<(BlockIdx, BlockIdx)>,
    k: Machine,
    block: int,
    there: Machine,
    n: Notes,
    m: Notes,
    l: Notes,
    b: int,
)
    requires
        n.at.contains_key(b) ==> m.at.contains_key(b) && m.at[b] == n.at[b],
        m.at.contains_key(b) && !n.at.contains_key(b) ==> n.cur is Some && gone_to(
            around,
            k,
            block,
            there,
            b,
            m.at[b],
        ),
        m.cur is Some ==> n.cur is Some,
        m.at.contains_key(b) ==> l.at.contains_key(b) && l.at[b] == m.at[b],
        l.at.contains_key(b) && !m.at.contains_key(b) ==> m.cur is Some && gone_to(
            around,
            k,
            block,
            there,
            b,
            l.at[b],
        ),
    ensures
        n.at.contains_key(b) ==> l.at.contains_key(b) && l.at[b] == n.at[b],
        l.at.contains_key(b) && !n.at.contains_key(b) ==> n.cur is Some && gone_to(
            around,
            k,
            block,
            there,
            b,
            l.at[b],
        ),
{
}

/// Notes that grew twice.
pub proof fn lemma_grew_twice(
    around: Option<(BlockIdx, BlockIdx)>,
    k: Machine,
    block: int,
    there: Machine,
    n: Notes,
    m: Notes,
    l: Notes,
    more: nat,
    len: nat,
)
    requires
        grew(around, k, block, there, n, m, len),
        m.cur is Some ==> n.cur is Some,
        grew(around, k, block, there, m, l, more),
        len <= more,
    ensures
        grew(around, k, block, there, n, l, len),
{
    assert forall|b: int| b < len implies (n.at.contains_key(b) ==> l.at.contains_key(b) && l.at[b]
        == n.at[b]) && ((#[trigger] l.at.contains_key(b)) && !n.at.contains_key(b) ==> n.cur is Some
        && gone_to(around, k, block, there, b, l.at[b])) by {
        assert(b < more);
        let there_already = m.at.contains_key(b);
        lemma_grew_at(around, k, block, there, n, m, l, b);
    }
}

/// Notes that grew after they went on.
pub proof fn lemma_grew_after(
    around: Option<(BlockIdx, BlockIdx)>,
    k: Machine,
    block: int,
    there: Machine,
    n: Notes,
    m: Notes,
    l: Notes,
    more: nat,
    len: nat,
)
    requires
        goes_on(n, m, len),
        m.cur is Some ==> n.cur is Some,
        grew(around, k, block, there, m, l, more),
        len <= more,
    ensures
        grew(around, k, block, there, n, l, len),
{
    assert(grew(around, k, block, there, n, m, len));
    lemma_grew_twice(around, k, block, there, n, m, l, more, len);
}

pub proof fn run(z: Run, s: State, n: Notes, v: Seq<Stmt>) -> (m: Notes)
    requires
        calm(z, v),
        set_out(z, s, s.stmts(v, 0), n),
    ensures
        came_back(z, s, s.stmts(v, 0), n, m),
{
    choose|m: Notes| #[trigger] came_back(z, s, s.stmts(v, 0), n, m)
}

/// What a frame that is no loop's does not change: where the loop around goes.
pub proof fn lemma_entered(k: Machine, f: Frame)
    requires
        tidy(k),
        level(f) == k.height(),
        !(f is Loop),
    ensures
        tidy(k.enter(f)),
        innermost_loop(k.enter(f).frames) == innermost_loop(k.frames),
        innermost_loop(k.frames) is Some ==> broken(k.enter(f)) == broken(k) && resumed(k.enter(f))
            == resumed(k),
        k.enter(f).leave() == k,
{
    let l = k.enter(f);
    assert(l.frames.drop_last() =~= k.frames);
    if let Some(j) = innermost_loop(k.frames) {
        lemma_innermost(k.frames);
        assert(l.frames.take(j as int) =~= k.frames.take(j as int));
        assert(l.frames.take(j as int + 1) =~= k.frames.take(j as int + 1));
        assert(l.frames[j as int] == k.frames[j as int]);
        if j + 1 < k.frames.len() {
            assert(l.frames[j as int + 1] == k.frames[j as int + 1]);
        } else {
            assert(k.stack.take(k.height() as int) =~= k.stack);
        }
    }
    assert forall|i: int| 0 <= i < l.frames.len() implies level(#[trigger] l.frames[i])
        <= l.height() by {
        if i < k.frames.len() {
            assert(l.frames[i] == k.frames[i]);
        }
    }
}

proof fn lemma_innermost(f: Seq<Frame>)
    ensures
        innermost_loop(f) matches Some(j) ==> j < f.len() && f[j as int] is Loop,
    decreases f.len(),
{
    if f.len() > 0 {
        lemma_innermost(f.drop_last());
    }
}

/// A loop that is entered is broken off to where it was entered, and goes on where its turns start.
pub proof fn lemma_looped(k: Machine, it: Seq<Term>)
    requires
        tidy(k),
    ensures
        ({
            let l = k.enter(Frame::Loop(k.height()));
            let j = l.push_all(it);
            &&& tidy(j)
            &&& innermost_loop(j.frames) is Some
            &&& broken(j) == k
            &&& resumed(j) == j
            &&& l.leave() == k
        }),
{
    let l = k.enter(Frame::Loop(k.height()));
    let j = l.push_all(it);
    assert(l.frames.drop_last() =~= k.frames);
    assert(j.frames.take(k.frames.len() as int) =~= k.frames);
    assert(j.frames.take(k.frames.len() as int + 1) =~= j.frames);
    assert(j.stack.take(k.height() as int) =~= k.stack);
    assert forall|i: int| 0 <= i < j.frames.len() implies level(#[trigger] j.frames[i])
        <= j.height() by {
        if i < k.frames.len() {
            assert(j.frames[i] == k.frames[i]);
        }
    }
}

/// A break goes to where the loop around ends, with the stacks as they were before the loop.
pub proof fn a_break_ends_the_loop(z: Run, s: State, n: Notes, end: BlockIdx) -> (m: Notes)
    requires
        set_out(z, s, s.emit(Instruction::Break { target: end }), n),
        s.ctx.loop_data matches Some(p) && p.1 == end,
    ensures
        came_back(z, s, s.emit(Instruction::Break { target: end }), n, m),
        m.cur is None,
        n.cur matches Some(k) ==> m.at.contains_key(end.0 as int) && m.at[end.0 as int] == broken(
            k,
        ),
{
    broadcast use group_onward_steps;

    reveal(leap);
    reveal(lefts_kept);
    let f = Flow { next: None, jump: Some((end, broken(base_of(n)))) };
    note_flow(z, s, n, Instruction::Break { target: end }, f)
}

/// A continue goes to where the turns of the loop around start.
pub proof fn a_continue_goes_on_with_the_loop(z: Run, s: State, n: Notes, start: BlockIdx) -> (m:
    Notes)
    requires
        set_out(z, s, s.emit(Instruction::Continue { target: start }), n),
        s.ctx.loop_data matches Some(p) && p.0 == start,
    ensures
        came_back(z, s, s.emit(Instruction::Continue { target: start }), n, m),
        m.cur is None,
        n.cur matches Some(k) ==> m.at.contains_key(start.0 as int) && m.at[start.0 as int]
            == resumed(k),
{
    broadcast use group_onward_steps;

    reveal(leap);
    reveal(lefts_kept);
    let f = Flow { next: None, jump: Some((start, resumed(base_of(n)))) };
    note_flow(z, s, n, Instruction::Continue { target: start }, f)
}

/// A for loop comes back with the stacks as it found them: when its iterator is exhausted, through
/// its else clause, with the frame of the loop taken off before; and on a break, whose target is
/// where the code goes on after the whole statement, with the stacks as they were before it, so
/// that nothing of the else clause is run.
#[verifier::spinoff_prover]
#[verifier::rlimit(80)]
pub proof fn a_for_loop_comes_back(z: Run, s: State, n: Notes, x: StmtFor) -> (r: Notes)
    requires
        set_out(z, s, s.for_loop(x), n),
        !x.is_async,
        whole(*x.iter),
        whole(*x.target),
        calm(z, x.body@),
        calm(z, x.orelse@),
    ensures
        came_back(z, s, s.for_loop(x), n, r),
{
    broadcast use group_onward_steps;

    reveal(State::for_loop);
    reveal(State::for_turn);
    reveal(State::stmts);
    let for_block = s.fresh();
    let s1 = s.new_block();
    let else_block = s1.fresh();
    let s2 = s1.new_block();
    let after = s2.fresh();
    let s3 = s2.new_block();
    let u = s3.emit(Instruction::SetupLoop);
    let u1 = u.expr(*x.iter);
    let u2 = u1.emit(Instruction::GetIter);
    let u3 = u2.switch_to(for_block);
    let iter = Instruction::ForIter { target: else_block };
    let u4 = u3.emit(iter);
    let turn = u4.store(*x.target);
    let b1 = turn.set_loop(Some((for_block, after)));
    let b2 = b1.stmts(x.body@, 0);
    let b3 = b2.set_loop(turn.ctx.loop_data);
    let jump = Instruction::Jump { target: for_block };
    let b4 = b3.emit(jump);
    let b5 = b4.switch_to(else_block);
    let body = b5.emit(Instruction::PopBlock);
    let o1 = body.stmts(x.orelse@, 0);
    let end = o1.switch_to(after);
    onward_expr(u, *x.iter);
    onward_store(u4, *x.target);
    assert(onward(b1, b2));
    assert(onward(body, o1));
    assert(end == s.for_loop(x));
    assert(o1.running() && body.running() && b2.running() && turn.running() && u1.running());
    assert(pools_kept(turn.top(), b2.top()) && lefts_kept(turn.top(), b2.top()));
    assert(b2.ctx == b1.ctx && b3.ctx == turn.ctx);
    let len = s.top().blocks.len();
    let k = base_of(n);
    let k1 = k.enter(Frame::Loop(k.height()));
    note_block(z, s, n);
    note_block(z, s1, n);
    note_block(z, s2, n);
    assert(step(z.w, z.p, k, Instruction::SetupLoop) == on(k1)) by {
        reveal(leap);
    }
    let n1 = note_on(z, s3, n, Instruction::SetupLoop, k1);
    let (n2, a) = eval_expr(z, u, n1, *x.iter);
    assert(step(z.w, z.p, k1.push(a), Instruction::GetIter) == make(k1.push(a), 1, Made::Iterator))
        by {
        reveal(plain_step);
    }
    let n3 = note_one(z, u1, n2, Instruction::GetIter, a, Made::Iterator);
    let it = Term::Of(Made::Iterator, seq![a]);
    let j = k1.push(it);
    assert(k1.push_all(seq![it]).stack =~= j.stack);
    let n4 = note_label(z, u2, n3, for_block);
    let item = Term::Of(Made::NextItem, seq![it]);
    let f = Flow { next: Some(j.push(item)), jump: Some((else_block, k1)) };
    assert(step(z.w, z.p, j, iter) == Some(f)) by {
        reveal(leap);
    }
    assert(!left(b4.top(), else_block.0 as int) && !left(o1.top(), after.0 as int)) by {
        reveal(State::switch_to);
    }
    assert(!left(u3.top(), else_block.0 as int) && !left(b2.top(), after.0 as int)) by {
        reveal(lefts_kept);
    }
    let n5 = note_flow(z, u3, n4, iter, f);
    let n6 = eval_store(z, u4, n5, *x.target, j, item);
    assert(goes_on(n, n1, len) && goes_on(n, n2, len) && goes_on(n, n3, len));
    assert(goes_on(n, n4, len));
    assert(goes_on(n, n5, len));
    lemma_goes_twice(n, n5, n6, len, u4.top().blocks.len());
    assert(for_block.0 == len && else_block.0 == len + 1 && after.0 == len + 2);
    assert(len + 3 <= u.top().blocks.len() <= u4.top().blocks.len());
    if n.cur is Some {
        assert(n3.cur == Some(j) && !n3.at.contains_key(for_block.0 as int));
        assert(n4.at.contains_key(for_block.0 as int) && n4.at[for_block.0 as int] == j);
        assert(n5.at.contains_key(for_block.0 as int) && n5.at[for_block.0 as int] == j);
        assert(n5.at.contains_key(else_block.0 as int) && n5.at[else_block.0 as int] == k1);
        lemma_looped(k, seq![it]);
        let b = for_block.0 as int;
        assert(goes_on(n5, n6, u4.top().blocks.len()));
        assert(n6.at.contains_key(b) <==> n5.at.contains_key(b));
        assert(n6.at[b] == n5.at[b]);
        assert(n6.at.contains_key(for_block.0 as int) && n6.at[for_block.0 as int] == j);
        assert(n6.at.contains_key(else_block.0 as int) && n6.at[else_block.0 as int] == k1);
        assert(!n6.at.contains_key(after.0 as int));
    }
    assert(set_out(z, b1, b2, n6));
    let n7 = run(z, b1, n6, x.body@);
    lemma_grew_within(Some((for_block, after)), base_of(n6), n6, n7, b1.top().blocks.len(), len);
    lemma_goes_twice(n, n6, n7, len, len);
    assert(goes_on(n, n7, len));
    let g = Flow { next: None, jump: Some((for_block, j)) };
    assert(step(z.w, z.p, j, jump) == Some(g)) by {
        reveal(leap);
    }
    let n8 = note_flow(z, b3, n7, jump, g);
    let n9 = note_label(z, b4, n8, else_block);
    assert(n.cur is Some ==> n9.cur == Some(k1));
    assert(step(z.w, z.p, k1, Instruction::PopBlock) == on(k1.leave())) by {
        reveal(leap);
    }
    let n10 = note_on(z, b5, n9, Instruction::PopBlock, k1.leave());
    assert(goes_on(n, n10, len));
    assert(n10.cur == n.cur);
    assert(loop_open(body, o1, n10)) by {
        reveal(lefts_kept);
        assert(lefts_kept(o1.top(), end.top()));
    }
    let n11 = run(z, body, n10, x.orelse@);
    assert(n10.at.contains_key(after.0 as int) ==> n10.at[after.0 as int] == k);
    assert(body.ctx == s.ctx);
    lemma_grew_after(s.ctx.loop_data, k, -1, k, n, n10, n11, body.top().blocks.len(), len);
    let m = note_label(z, o1, n11, after);
    assert(grew(s.ctx.loop_data, k, -1, k, n, m, len));
    m
}

} // verus!
