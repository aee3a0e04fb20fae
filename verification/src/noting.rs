//! How notes on code go on with the code.
use vstd::prelude::*;

use crate::bytecode::{BlockIdx, CodeModel, ConstantModel, Instruction, InstructionInfo, NULL};
use crate::machine::{
    block_noted, noted, on, plain_step, run_of, step, Flow, Machine, Notes, Term, World,
};
use crate::onward::placed;
use crate::pool::{constant_position, same_constant, same_constants};
use crate::state::State;
use crate::validity::{group_layout, group_lefts, left, pools_kept};

verus! {

broadcast use {group_layout, group_lefts};

/// What a run of code depends on: the world, and the pools that the code ends up with.
pub struct Run {
    pub w: World,
    pub p: CodeModel,
}

/// Whether code goes on from `s` to `t`, notes are true of it where it starts, and the pools that
/// it ends up with are those of the run.
pub open spec fn ready(x: Run, s: State, t: State, n: Notes) -> bool {
    &&& placed(s)
    &&& t.running()
    &&& noted(x.w, x.p, s.top(), n)
    &&& pools_kept(t.top(), x.p)
    &&& s.top().cellvars.len() == x.p.cellvars.len()
    &&& t.top().blocks.len() <= u32::MAX
}

/// Whether notes go on from others: what they say of the first blocks is the same.
pub open spec fn goes_on(n: Notes, m: Notes, blocks: nat) -> bool {
    forall|b: int|
        b < blocks ==> (#[trigger] m.at.contains_key(b) <==> n.at.contains_key(b)) && (
        n.at.contains_key(b) ==> m.at[b] == n.at[b])
}

/// As [`goes_on`], but for one block.
pub open spec fn goes_on_but(n: Notes, m: Notes, blocks: nat, but: BlockIdx) -> bool {
    forall|b: int|
        b < blocks && b != but.0 ==> (#[trigger] m.at.contains_key(b) <==> n.at.contains_key(b))
            && (n.at.contains_key(b) ==> m.at[b] == n.at[b])
}

/// Notes that go on from others that go on.
pub proof fn lemma_goes_twice(n: Notes, m: Notes, l: Notes, blocks: nat, more: nat)
    requires
        goes_on(n, m, blocks),
        goes_on(m, l, more),
        blocks <= more,
    ensures
        goes_on(n, l, blocks),
{
}

pub proof fn lemma_goes_but_twice(
    n: Notes,
    m: Notes,
    l: Notes,
    blocks: nat,
    more: nat,
    but: BlockIdx,
)
    requires
        goes_on_but(n, m, blocks, but),
        goes_on_but(m, l, more, but),
        blocks <= more,
    ensures
        goes_on_but(n, l, blocks, but),
{
}

/// Pools have no fewer cells than others that they start with.
pub broadcast proof fn pools_cells(c: CodeModel, d: CodeModel)
    requires
        #[trigger] pools_kept(c, d),
    ensures
        c.cellvars.len() <= d.cellvars.len(),
{
    reveal(pools_kept);
}

proof fn lemma_run_more(
    x: Run,
    at: Map<int, Machine>,
    more: Map<int, Machine>,
    k: Machine,
    s: Seq<InstructionInfo>,
)
    requires
        forall|b: int| #[trigger] at.contains_key(b) ==> more.contains_key(b) && more[b] == at[b],
    ensures
        run_of(x.w, x.p, at, k, s) is Some ==> run_of(x.w, x.p, more, k, s) == run_of(
            x.w,
            x.p,
            at,
            k,
            s,
        ),
    decreases s.len(),
{
    if s.len() > 0 {
        lemma_run_more(x, at, more, k, s.drop_last());
    }
}

/// The notes after an instruction.
pub open spec fn after(n: Notes, f: Flow) -> Notes {
    Notes {
        at: match f.jump {
            Some((b, k)) => n.at.insert(b.0 as int, k),
            None => n.at,
        },
        cur: f.next,
    }
}

/// Whether an instruction can be noted: a jump goes to a block that waits for its code, or with
/// the machine that is known to be at its target.
pub open spec fn can_note(c: CodeModel, n: Notes, f: Flow) -> bool {
    match f.jump {
        Some((b, k)) => {
            &&& b.0 < c.blocks.len()
            &&& if n.at.contains_key(b.0 as int) {
                n.at[b.0 as int] == k
            } else {
                !left(c, b.0 as int)
            }
        },
        None => true,
    }
}

/// Notes go on with an instruction.
pub proof fn note_flow(x: Run, s: State, n: Notes, i: Instruction, f: Flow) -> (m: Notes)
    requires
        placed(s),
        s.running(),
        noted(x.w, x.p, s.top(), n),
        n.cur matches Some(k) ==> step(x.w, x.p, k, i) == Some(f) && can_note(s.top(), n, f),
    ensures
        noted(x.w, x.p, s.emit(i).top(), m),
        n.cur is None ==> m == n,
        n.cur is Some ==> m == after(n, f),
{
    reveal(noted);
    reveal(State::emit);
    let c = s.top();
    let d = s.emit(i).top();
    let at = c.current_block.0 as int;
    let info = d.blocks[at].instructions.last();
    assert(d.blocks[at].instructions.drop_last() =~= c.blocks[at].instructions);
    let m = match n.cur {
        Some(_) => after(n, f),
        None => n,
    };
    assert forall|b: int| #[trigger] n.at.contains_key(b) implies m.at.contains_key(b) && m.at[b]
        == n.at[b] by {}
    assert forall|b: int|
        #[trigger] m.at.contains_key(b) && d.blocks[b].next != BlockIdx(NULL) implies block_noted(
        x.w,
        x.p,
        d,
        m.at,
        b,
    ) by {
        assert(d.blocks[b] == c.blocks[b]);
        assert(n.at.contains_key(b));
        lemma_run_more(x, n.at, m.at, n.at[b], c.blocks[b].instructions);
    }
    if n.at.contains_key(at) {
        lemma_run_more(x, n.at, m.at, n.at[at], c.blocks[at].instructions);
    }
    m
}

/// Notes go on with an instruction that does not jump.
pub proof fn note_on(x: Run, s: State, n: Notes, i: Instruction, k: Machine) -> (m: Notes)
    requires
        placed(s),
        s.running(),
        noted(x.w, x.p, s.top(), n),
        n.cur matches Some(j) ==> step(x.w, x.p, j, i) == on(k),
    ensures
        noted(x.w, x.p, s.emit(i).top(), m),
        m.at == n.at,
        n.cur is None ==> m.cur is None,
        n.cur is Some ==> m.cur == Some(k),
{
    note_flow(x, s, n, i, Flow { next: Some(k), jump: None })
}

/// The notes when code goes on in a block.
pub open spec fn labelled(n: Notes, block: BlockIdx) -> Notes {
    let b = block.0 as int;
    if n.at.contains_key(b) {
        Notes { at: n.at, cur: Some(n.at[b]) }
    } else {
        match n.cur {
            Some(k) => Notes { at: n.at.insert(b, k), cur: Some(k) },
            None => n,
        }
    }
}

/// Notes go on in another block.
pub proof fn note_label(x: Run, s: State, n: Notes, block: BlockIdx) -> (m: Notes)
    requires
        placed(s),
        s.switch_to(block).running(),
        s.top().blocks.len() <= u32::MAX,
        noted(x.w, x.p, s.top(), n),
        n.at.contains_key(block.0 as int) && n.cur is Some ==> n.cur == Some(n.at[block.0 as int]),
    ensures
        noted(x.w, x.p, s.switch_to(block).top(), m),
        m == labelled(n, block),
{
    reveal(noted);
    reveal(State::switch_to);
    let m = labelled(n, block);
    let c = s.top();
    let d = s.switch_to(block).top();
    let at = c.current_block.0 as int;
    assert forall|b: int| #[trigger] n.at.contains_key(b) implies m.at.contains_key(b) && m.at[b]
        == n.at[b] by {}
    assert forall|b: int|
        #[trigger] m.at.contains_key(b) && d.blocks[b].next != BlockIdx(NULL) implies block_noted(
        x.w,
        x.p,
        d,
        m.at,
        b,
    ) by {
        assert(b != block.0);
        assert(n.at.contains_key(b));
        lemma_run_more(x, n.at, m.at, n.at[b], c.blocks[b].instructions);
    }
    assert(c.blocks[block.0 as int].instructions.len() == 0);
    assert forall|b: int|
        0 <= b < d.blocks.len() && b != d.current_block.0 && (#[trigger] d.blocks[b]).next
            == BlockIdx(NULL) implies d.blocks[b].instructions.len() == 0 by {
        assert(c.blocks[b].next == d.blocks[b].next);
    }
    m
}

/// Notes stay true when a block is allocated.
pub proof fn note_block(x: Run, s: State, n: Notes)
    requires
        placed(s),
        s.new_block().running(),
        noted(x.w, x.p, s.top(), n),
    ensures
        noted(x.w, x.p, s.new_block().top(), n),
        !n.at.contains_key(s.fresh().0 as int),
        s.fresh().0 == s.top().blocks.len(),
        s.new_block().top().blocks.len() == s.top().blocks.len() + 1,
{
    reveal(noted);
    reveal(State::new_block);
    let c = s.top();
    let d = s.new_block().top();
    assert forall|b: int|
        #[trigger] n.at.contains_key(b) && d.blocks[b].next != BlockIdx(NULL) implies block_noted(
        x.w,
        x.p,
        d,
        n.at,
        b,
    ) by {
        assert(d.blocks[b] == c.blocks[b]);
    }
}

/// Notes stay true when only what is not the blocks changes.
pub proof fn note_same(x: Run, c: CodeModel, d: CodeModel, n: Notes)
    requires
        noted(x.w, x.p, c, n),
        d.blocks == c.blocks,
        d.current_block == c.current_block,
    ensures
        noted(x.w, x.p, d, n),
{
    reveal(noted);
    assert forall|b: int|
        #[trigger] n.at.contains_key(b) && d.blocks[b].next != BlockIdx(NULL) implies block_noted(
        x.w,
        x.p,
        d,
        n.at,
        b,
    ) by {
        assert(block_noted(x.w, x.p, c, n.at, b));
    }
}

/// Whether a constant is found in a pool as it is: it holds no code unit, and if it is a tuple, only
/// strings.
pub open spec fn simple(c: ConstantModel) -> bool {
    match c {
        ConstantModel::Tuple(t) => forall|i: int| 0 <= i < t.len() ==> #[trigger] t[i] is Str,
        ConstantModel::Code(..) => false,
        _ => true,
    }
}

proof fn lemma_same_strings(x: Seq<ConstantModel>, y: Seq<ConstantModel>, n: nat)
    requires
        n <= x.len() == y.len(),
        same_constants(x, y, n),
        forall|i: int| 0 <= i < y.len() ==> #[trigger] y[i] is Str,
    ensures
        forall|i: int| 0 <= i < n ==> x[i] == y[i],
    decreases n,
{
    if n > 0 {
        lemma_same_strings(x, y, (n - 1) as nat);
        assert(y[n - 1] is Str);
        assert(same_constant(x[n - 1], y[n - 1]));
        assert(x[n - 1] == y[n - 1]);
    }
}

proof fn lemma_position_value(pool: Seq<ConstantModel>, c: ConstantModel)
    requires
        simple(c),
    ensures
        constant_position(pool, c) matches Some(i) ==> i < pool.len() && pool[i as int] == c,
    decreases pool.len(),
{
    if pool.len() > 0 {
        lemma_position_value(pool.drop_last(), c);
        if same_constant(pool.last(), c) {
            match (pool.last(), c) {
                (ConstantModel::Tuple(x), ConstantModel::Tuple(y)) => {
                    lemma_same_strings(x, y, x.len());
                    assert(x =~= y);
                },
                _ => {},
            }
        }
    }
}

proof fn lemma_position_bound(pool: Seq<ConstantModel>, c: ConstantModel)
    ensures
        constant_position(pool, c) matches Some(i) ==> i < pool.len(),
    decreases pool.len(),
{
    if pool.len() > 0 {
        lemma_position_bound(pool.drop_last(), c);
    }
}

/// Notes go on with a constant.
pub proof fn note_const(x: Run, s: State, n: Notes, c: ConstantModel) -> (r: (Notes, Term))
    requires
        ready(x, s, s.load_const(c), n),
    ensures
        noted(x.w, x.p, s.load_const(c).top(), r.0),
        r.0.at == n.at,
        n.cur is None ==> r.0.cur is None,
        n.cur matches Some(k) ==> r.0.cur == Some(k.push(r.1)),
        r.1 is Const,
        simple(c) ==> r.1 == Term::Const(c),
{
    reveal(State::load_const);
    reveal(State::intern_const);
    reveal(State::insert_const);
    reveal(State::emit);
    reveal(pools_kept);
    reveal(plain_step);
    let u = s.intern_const(c);
    let idx = s.const_index(c);
    lemma_position_bound(s.top().constants, c);
    note_same(x, s.top(), u.top(), n);
    let held = x.p.constants[idx as int];
    if simple(c) {
        lemma_position_value(s.top().constants, c);
        assert(u.top().constants[idx as int] == c);
        assert(s.load_const(c).top().constants[idx as int] == c);
    }
    assert(idx < s.load_const(c).top().constants.len());
    let k = match n.cur {
        Some(k) => k.push(Term::Const(held)),
        None => arbitrary(),
    };
    let m = note_on(x, u, n, Instruction::LoadConst { idx }, k);
    (m, Term::Const(held))
}

/// The topmost values of a stack that others were pushed on.
pub broadcast proof fn pushed_one(k: Machine, a: Term)
    ensures
        (#[trigger] k.push(a)).drop(1) == k,
        k.push(a).topmost(1) == seq![a],
        k.push(a).peek(0) == a,
        k.push(a).height() == k.height() + 1,
{
    assert(k.push(a).drop(1).stack =~= k.stack);
    assert(k.push(a).topmost(1) =~= seq![a]);
}

pub broadcast proof fn pushed_two(k: Machine, a: Term, b: Term)
    ensures
        (#[trigger] k.push(a).push(b)).drop(2) == k,
        k.push(a).push(b).topmost(2) == seq![a, b],
        k.push(a).push(b).peek(1) == a,
{
    assert(k.push(a).push(b).drop(2).stack =~= k.stack);
    assert(k.push(a).push(b).topmost(2) =~= seq![a, b]);
}

pub broadcast proof fn pushed_three(k: Machine, a: Term, b: Term, c: Term)
    ensures
        (#[trigger] k.push(a).push(b).push(c)).drop(3) == k,
        k.push(a).push(b).push(c).topmost(3) == seq![a, b, c],
        k.push(a).push(b).push(c).peek(2) == a,
{
    assert(k.push(a).push(b).push(c).drop(3).stack =~= k.stack);
    assert(k.push(a).push(b).push(c).topmost(3) =~= seq![a, b, c]);
}

pub broadcast proof fn pushed_all(k: Machine, v: Seq<Term>)
    ensures
        (#[trigger] k.push_all(v)).drop(v.len() as int) == k,
        k.push_all(v).topmost(v.len() as int) == v,
        k.push_all(v).height() == k.height() + v.len(),
{
    assert(k.push_all(v).drop(v.len() as int).stack =~= k.stack);
    assert(k.push_all(v).topmost(v.len() as int) =~= v);
}

/// Values that were pushed on a value.
pub proof fn lemma_pushed_on(k: Machine, f: Term, v: Seq<Term>)
    ensures
        k.push(f).push_all(v) == k.push_all(seq![f] + v),
{
    assert(k.push(f).push_all(v).stack =~= k.push_all(seq![f] + v).stack);
}

pub proof fn lemma_pushed_more(k: Machine, v: Seq<Term>, f: Term)
    ensures
        k.push_all(v).push(f) == k.push_all(v.push(f)),
{
    assert(k.push_all(v).push(f).stack =~= k.push_all(v.push(f)).stack);
}

pub broadcast group group_pushed {
    pushed_one,
    pushed_two,
    pushed_three,
    pushed_all,
    pools_cells,
}

} // verus!
