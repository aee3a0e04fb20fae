//! What the jumps of a condition do when its code is run.
//!
//! A condition is made of leaves by `and`, `or` and `not`. The code of a leaf is run as a whole:
//! it starts at one place, ends at another, and leaves a value that is true or false there. What
//! the jumps between the leaves do then is proved from the code itself.
use vstd::prelude::*;

use crate::ast::{BoolOp, Expr, ExprBoolOp, ExprUnaryOp, UnaryOp};
use crate::bytecode::{BlockIdx, CodeModel, Instruction, NULL};
use crate::expr_code::{conditional_jump, short_circuit};
use crate::state::{group_halted_steps, State};
use crate::validity::{
    carried_on, code_ok, group_layout, kept, laid_out, lemma_top_ok, no_blocks, one_block, pending,
};

verus! {

broadcast use {group_halted_steps, group_layout};

/// A place in code: a block, and how many of its instructions come before.
pub struct Place {
    pub block: int,
    pub index: int,
}

/// The leaves of a condition at run time: where the code that starts at a place ends, and whether
/// the value it leaves is true.
pub struct Leaves {
    pub end: spec_fn(Place) -> Place,
    pub truth: spec_fn(Place) -> bool,
}

/// The start of a block.
pub open spec fn start_of(block: BlockIdx) -> Place {
    Place { block: block.0 as int, index: 0 }
}

/// The place where the code that comes next will stand.
pub open spec fn here(s: State) -> Place {
    let c = s.top();
    Place {
        block: c.current_block.0 as int,
        index: c.blocks[c.current_block.0 as int].instructions.len() as int,
    }
}

/// Whether all the code of `d` is in `c`: a block has its instructions still, and one that another
/// follows is complete.
#[verifier::opaque]
pub open spec fn held(d: CodeModel, c: CodeModel) -> bool {
    &&& d.blocks.len() <= c.blocks.len()
    &&& forall|b: int|
        0 <= b < d.blocks.len() ==> carried_on(
            (#[trigger] c.blocks[b]).instructions,
            d.blocks[b].instructions,
        )
    &&& forall|b: int|
        0 <= b < d.blocks.len() && d.blocks[b].next != BlockIdx(NULL) ==> (#[trigger] c.blocks[b])
            == d.blocks[b]
}

/// Whether the code of a state can go on where it is.
pub open spec fn live(s: State) -> bool {
    let c = s.top();
    &&& s.running()
    &&& s.codes.len() > 0
    &&& c.current_block.0 < c.blocks.len()
    &&& c.blocks[c.current_block.0 as int].next == BlockIdx(NULL)
}

/// Whether the code of `s` went on to that of `t`.
pub open spec fn grows(s: State, t: State) -> bool {
    &&& live(t)
    &&& laid_out(s.top(), t.top(), no_blocks())
}

/// What every part of the compiler keeps is that the code goes on from what there is.
pub proof fn kept_code_grows(s: State, t: State)
    requires
        t.wf(),
        t.running(),
        kept(s, t),
    ensures
        grows(s, t),
{
    lemma_top_ok(t);
    reveal(code_ok);
}

/// Whether an expression is a leaf of a condition.
pub open spec fn is_leaf(e: Expr) -> bool {
    match e {
        Expr::BoolOp(_) => false,
        Expr::UnaryOp(x) => x.op != UnaryOp::Not,
        _ => true,
    }
}

/// The number of leaves of a condition.
pub open spec fn leaf_count(e: Expr) -> nat
    decreases e, 1nat, 0nat,
{
    match e {
        Expr::BoolOp(x) => leaf_counts(x.values@, 0, x.values@.len()),
        Expr::UnaryOp(x) => if x.op == UnaryOp::Not {
            leaf_count(*x.operand)
        } else {
            1
        },
        _ => 1,
    }
}

/// The number of leaves of the conditions `v[i..n]`.
pub open spec fn leaf_counts(v: Seq<Expr>, i: nat, n: nat) -> nat
    decreases v, 0nat, n - i,
{
    if i >= n || n > v.len() {
        0
    } else {
        leaf_count(v[i as int]) + leaf_counts(v, i + 1, n)
    }
}

/// Whether a condition is true, where its leaves are those from the `k`-th on at `places`.
pub open spec fn verdict(
    e: Expr,
    places: Seq<Place>,
    truth: spec_fn(Place) -> bool,
    k: nat,
) -> bool
    decreases e, 1nat, 0nat,
{
    match e {
        Expr::BoolOp(x) => if x.op == BoolOp::And {
            !decided(x.values@, 0, x.values@.len(), false, places, truth, k)
        } else {
            decided(x.values@, 0, x.values@.len(), true, places, truth, k)
        },
        Expr::UnaryOp(x) => if x.op == UnaryOp::Not {
            !verdict(*x.operand, places, truth, k)
        } else {
            truth(places[k as int])
        },
        _ => truth(places[k as int]),
    }
}

/// Whether one of the conditions `v[i..n]` is what decides.
pub open spec fn decided(
    v: Seq<Expr>,
    i: nat,
    n: nat,
    deciding: bool,
    places: Seq<Place>,
    truth: spec_fn(Place) -> bool,
    k: nat,
) -> bool
    decreases v, 0nat, n - i,
{
    if i >= n || n > v.len() {
        false
    } else {
        verdict(v[i as int], places, truth, k) == deciding || decided(
            v,
            i + 1,
            n,
            deciding,
            places,
            truth,
            k + leaf_count(v[i as int]),
        )
    }
}

/// The leaves that have to be evaluated for the verdict of a condition, in order: of `and` and
/// `or`, those of the operands up to the first that decides.
pub open spec fn evaluated(
    e: Expr,
    places: Seq<Place>,
    truth: spec_fn(Place) -> bool,
    k: nat,
) -> Seq<Place>
    decreases e, 1nat, 0nat,
{
    match e {
        Expr::BoolOp(x) => evaluated_until(
            x.values@,
            0,
            x.values@.len(),
            x.op == BoolOp::Or,
            places,
            truth,
            k,
        ),
        Expr::UnaryOp(x) => if x.op == UnaryOp::Not {
            evaluated(*x.operand, places, truth, k)
        } else {
            seq![places[k as int]]
        },
        _ => seq![places[k as int]],
    }
}

/// The leaves of the conditions `v[i..n]` up to the first that decides.
pub open spec fn evaluated_until(
    v: Seq<Expr>,
    i: nat,
    n: nat,
    deciding: bool,
    places: Seq<Place>,
    truth: spec_fn(Place) -> bool,
    k: nat,
) -> Seq<Place>
    decreases v, 0nat, n - i,
{
    if i >= n || n > v.len() {
        Seq::empty()
    } else {
        let first = evaluated(v[i as int], places, truth, k);
        if verdict(v[i as int], places, truth, k) == deciding {
            first
        } else {
            first + evaluated_until(
                v,
                i + 1,
                n,
                deciding,
                places,
                truth,
                k + leaf_count(v[i as int]),
            )
        }
    }
}

/// Whether the leaves of a condition that is compiled in a state are those from the `k`-th on at
/// `places`: the code of each starts there, has at least one instruction there, goes on from what
/// there is, and ends where `leaves` says.
pub open spec fn placed(
    s: State,
    e: Expr,
    condition: bool,
    target: BlockIdx,
    leaves: Leaves,
    places: Seq<Place>,
    k: nat,
) -> bool
    decreases e, 1nat, 0nat,
{
    match e {
        Expr::BoolOp(x) => x.values@.len() > 0 && if (x.op == BoolOp::And) == condition {
            let end = s.fresh();
            let made = s.new_block();
            let last = (x.values@.len() - 1) as nat;
            let t = made.jump_ifs(x.values@, 0, last, !condition, end);
            &&& placed_all(made, x.values@, 0, last, !condition, end, leaves, places, k)
            &&& placed(
                t,
                x.values@[last as int],
                condition,
                target,
                leaves,
                places,
                k + leaf_counts(x.values@, 0, last),
            )
        } else {
            placed_all(s, x.values@, 0, x.values@.len(), condition, target, leaves, places, k)
        },
        Expr::UnaryOp(x) => if x.op == UnaryOp::Not {
            placed(s, *x.operand, !condition, target, leaves, places, k)
        } else {
            leaf_placed(s, e, leaves, places, k)
        },
        _ => leaf_placed(s, e, leaves, places, k),
    }
}

/// As [`placed`], for the conditions `v[i..n]`.
pub open spec fn placed_all(
    s: State,
    v: Seq<Expr>,
    i: nat,
    n: nat,
    condition: bool,
    target: BlockIdx,
    leaves: Leaves,
    places: Seq<Place>,
    k: nat,
) -> bool
    decreases v, 0nat, n - i,
{
    if i >= n || n > v.len() {
        true
    } else {
        let one = s.jump_if(v[i as int], condition, target);
        &&& placed(s, v[i as int], condition, target, leaves, places, k)
        &&& placed_all(
            one,
            v,
            i + 1,
            n,
            condition,
            target,
            leaves,
            places,
            k + leaf_count(v[i as int]),
        )
    }
}

/// As [`placed`], for a leaf.
pub open spec fn leaf_placed(
    s: State,
    e: Expr,
    leaves: Leaves,
    places: Seq<Place>,
    k: nat,
) -> bool {
    let u = s.expr(e);
    &&& u.running() ==> {
        &&& grows(s, u)
        &&& places[k as int] == here(s)
        &&& (leaves.end)(here(s)) == here(u)
        &&& here(s).index < u.top().blocks[here(s).block].instructions.len()
    }
}

/// Where a run of the code goes from a place: past the end of a block to the one that follows it,
/// and else through the leaf that starts there and the jump behind it, if there is one.
pub open spec fn step(c: CodeModel, leaves: Leaves, p: Place) -> Place {
    if p.index >= c.blocks[p.block].instructions.len() {
        start_of(c.blocks[p.block].next)
    } else {
        let q = (leaves.end)(p);
        if q.index >= c.blocks[q.block].instructions.len() {
            q
        } else {
            jump(c.blocks[q.block].instructions[q.index].instr, q, (leaves.truth)(p))
        }
    }
}

/// Where an instruction at a place leads, where the value on the stack is true or false.
pub open spec fn jump(instr: Instruction, q: Place, truth: bool) -> Place {
    let past = Place { block: q.block, index: q.index + 1 };
    match instr {
        Instruction::JumpIfTrue { target } | Instruction::JumpIfTrueOrPop { target } => if truth {
            start_of(target)
        } else {
            past
        },
        Instruction::JumpIfFalse { target } | Instruction::JumpIfFalseOrPop { target } => if truth {
            past
        } else {
            start_of(target)
        },
        _ => q,
    }
}

/// Whether a run of the code goes in `n` steps from `p` to `q`, through the leaves `seen`.
pub open spec fn goes(
    c: CodeModel,
    leaves: Leaves,
    p: Place,
    q: Place,
    seen: Seq<Place>,
    n: nat,
) -> bool
    decreases n,
{
    if n == 0 {
        p == q && seen.len() == 0
    } else if p.index >= c.blocks[p.block].instructions.len() {
        goes(c, leaves, step(c, leaves, p), q, seen, (n - 1) as nat)
    } else {
        seen.len() > 0 && seen[0] == p && goes(
            c,
            leaves,
            step(c, leaves, p),
            q,
            seen.drop_first(),
            (n - 1) as nat,
        )
    }
}

/// Whether a run of the code gets from `p` to `q`, through the leaves `seen` and no others.
#[verifier::opaque]
pub open spec fn reaches(
    c: CodeModel,
    leaves: Leaves,
    p: Place,
    q: Place,
    seen: Seq<Place>,
) -> bool {
    exists|n: nat| #[trigger] goes(c, leaves, p, q, seen, n)
}

proof fn lemma_goes_on(
    c: CodeModel,
    leaves: Leaves,
    p: Place,
    q: Place,
    r: Place,
    first: Seq<Place>,
    second: Seq<Place>,
    n: nat,
    m: nat,
)
    requires
        goes(c, leaves, p, q, first, n),
        goes(c, leaves, q, r, second, m),
    ensures
        goes(c, leaves, p, r, first + second, n + m),
    decreases n,
{
    if n == 0 {
        assert(first + second =~= second);
    } else if p.index >= c.blocks[p.block].instructions.len() {
        lemma_goes_on(c, leaves, step(c, leaves, p), q, r, first, second, (n - 1) as nat, m);
    } else {
        lemma_goes_on(
            c,
            leaves,
            step(c, leaves, p),
            q,
            r,
            first.drop_first(),
            second,
            (n - 1) as nat,
            m,
        );
        assert((first + second).drop_first() =~= first.drop_first() + second);
    }
}

/// Two runs make one.
pub proof fn lemma_reaches(
    c: CodeModel,
    leaves: Leaves,
    p: Place,
    q: Place,
    r: Place,
    first: Seq<Place>,
    second: Seq<Place>,
)
    requires
        reaches(c, leaves, p, q, first),
        reaches(c, leaves, q, r, second),
    ensures
        reaches(c, leaves, p, r, first + second),
{
    reveal(reaches);
    let n = choose|n: nat| goes(c, leaves, p, q, first, n);
    let m = choose|m: nat| goes(c, leaves, q, r, second, m);
    lemma_goes_on(c, leaves, p, q, r, first, second, n, m);
}

/// A run that stays where it is.
proof fn lemma_stays(c: CodeModel, leaves: Leaves, p: Place)
    ensures
        reaches(c, leaves, p, p, Seq::empty()),
{
    reveal(reaches);
    assert(goes(c, leaves, p, p, Seq::empty(), 0));
}

/// Code that is held in code that is held is held.
pub proof fn lemma_held(d: CodeModel, e: CodeModel, c: CodeModel)
    requires
        held(d, e),
        held(e, c),
    ensures
        held(d, c),
{
    reveal(held);
    assert forall|b: int| 0 <= b < d.blocks.len() implies carried_on(
        (#[trigger] c.blocks[b]).instructions,
        d.blocks[b].instructions,
    ) by {
        let x = e.blocks[b];
        assert(carried_on(e.blocks[b].instructions, d.blocks[b].instructions));
        assert(carried_on(c.blocks[b].instructions, e.blocks[b].instructions));
    }
    assert forall|b: int|
        0 <= b < d.blocks.len() && d.blocks[b].next != BlockIdx(NULL) implies (#[trigger] c.blocks[b])
        == d.blocks[b] by {
        assert(e.blocks[b] == d.blocks[b]);
    }
}

/// The code of a state is in code that went on from it.
pub proof fn lemma_held_on(s: State, c: CodeModel)
    requires
        live(s),
        laid_out(s.top(), c, no_blocks()),
    ensures
        held(s.top(), c),
{
    reveal(held);
    reveal(laid_out);
}

/// Code that went on twice went on.
proof fn lemma_grows(s: State, t: State, u: State)
    requires
        grows(s, t),
        grows(t, u),
    ensures
        grows(s, u),
{
}

proof fn lemma_grows_same(s: State)
    requires
        live(s),
    ensures
        grows(s, s),
{
}

/// A jump on a boolean operation, in terms of jumps on its operands.
pub proof fn lemma_jump_bool(s: State, x: ExprBoolOp, condition: bool, target: BlockIdx)
    requires
        x.values@.len() > 0,
    ensures
        s.jump_if(Expr::BoolOp(x), condition, target) == (if (x.op == BoolOp::And) == condition {
            let end = s.fresh();
            let made = s.new_block();
            let last = x.values@.len() - 1;
            let t = made.jump_ifs(x.values@, 0, last as nat, !condition, end);
            made.to(t).to(t.jump_if(x.values@[last], condition, target).switch_to(end))
        } else {
            s.jump_ifs(x.values@, 0, x.values@.len(), condition, target)
        }),
{
    reveal(State::jump_if);
    reveal(State::jump_ifs);
}

/// The first of several jumps, and the others.
pub proof fn lemma_jumps(s: State, v: Seq<Expr>, i: nat, n: nat, condition: bool, target: BlockIdx)
    requires
        n <= v.len(),
    ensures
        i >= n ==> s.jump_ifs(v, i, n, condition, target) == s,
        i < n ==> s.jump_ifs(v, i, n, condition, target) == ({
            let one = s.jump_if(v[i as int], condition, target);
            one.to(one.jump_ifs(v, i + 1, n, condition, target))
        }),
{
    reveal(State::jump_if);
    reveal(State::jump_ifs);
}

/// A jump on a leaf: its code, and the jump behind it.
proof fn lemma_jump_leaf(s: State, e: Expr, condition: bool, target: BlockIdx)
    requires
        is_leaf(e),
    ensures
        s.jump_if(e, condition, target) == s.expr(e).emit(conditional_jump(condition, target)),
{
    reveal(State::jump_if);
    reveal(State::expr);
}

/// What an instruction adds to the code.
proof fn lemma_emitted(s: State, instr: Instruction)
    requires
        live(s),
    ensures
        grows(s, s.emit(instr)),
        here(s.emit(instr)) == (Place { block: here(s).block, index: here(s).index + 1 }),
        s.emit(instr).top().blocks[here(s).block].instructions[here(s).index].instr == instr,
{
    reveal(State::emit);
    reveal(laid_out);
    let t = s.emit(instr);
    assert(t.top().current_block == s.top().current_block);
}

/// What a new block adds to the code: it is empty, and the code goes on where it was.
proof fn lemma_made(s: State)
    requires
        live(s),
        s.new_block().running(),
    ensures
        grows(s, s.new_block()),
        here(s.new_block()) == here(s),
        s.fresh().0 == s.top().blocks.len(),
        waiting(s.new_block(), s.fresh()),
{
    reveal(State::new_block);
    reveal(laid_out);
}

/// Whether a block waits for its code.
pub open spec fn waiting(s: State, block: BlockIdx) -> bool {
    &&& pending(s.top(), block)
    &&& s.top().blocks[block.0 as int].instructions.len() == 0
}

/// A block that waits for its code still does when the code went on elsewhere.
proof fn lemma_waits(s: State, t: State, block: BlockIdx)
    requires
        waiting(s, block),
        grows(s, t),
    ensures
        waiting(t, block),
{
    reveal(laid_out);
}

/// What becomes of the code when it goes on in a block that waits, and was not there at a start.
proof fn lemma_switched(s: State, start: State, block: BlockIdx)
    requires
        live(s),
        waiting(s, block),
        grows(start, s),
        block.0 >= start.top().blocks.len(),
    ensures
        grows(start, s.switch_to(block)),
        held(s.top(), s.switch_to(block).top()),
        here(s.switch_to(block)) == start_of(block),
{
    reveal(State::switch_to);
    let t = s.switch_to(block);
    assert(held(s.top(), t.top())) by {
        reveal(held);
    }
    assert(laid_out(s.top(), t.top(), one_block(block))) by {
        reveal(laid_out);
    }
}

/// A run that has come to where code went on in a block falls through to the start of the block.
proof fn lemma_falls(s: State, block: BlockIdx, c: CodeModel, leaves: Leaves)
    requires
        live(s),
        waiting(s, block),
        held(s.switch_to(block).top(), c),
        c.blocks.len() <= u32::MAX,
    ensures
        reaches(c, leaves, here(s), start_of(block), Seq::empty()),
{
    reveal(State::switch_to);
    reveal(held);
    reveal(reaches);
    let t = s.switch_to(block);
    let at = here(s).block;
    assert(t.top().blocks[at].next == block);
    assert(c.blocks[at] == t.top().blocks[at]);
    assert(step(c, leaves, here(s)) == start_of(block));
    assert(goes(c, leaves, start_of(block), start_of(block), Seq::empty(), 0));
    assert(goes(c, leaves, here(s), start_of(block), Seq::empty(), 1));
}

/// The code of a condition goes on from what there is.
proof fn lemma_condition_grows(
    s: State,
    e: Expr,
    condition: bool,
    target: BlockIdx,
    leaves: Leaves,
    places: Seq<Place>,
    k: nat,
)
    requires
        live(s),
        s.jump_if(e, condition, target).running(),
        placed(s, e, condition, target, leaves, places, k),
    ensures
        grows(s, s.jump_if(e, condition, target)),
    decreases e, 1nat, 0nat,
{
    match e {
        Expr::BoolOp(x) => {
            lemma_jump_bool(s, x, condition, target);
            let v = x.values@;
            if (x.op == BoolOp::And) == condition {
                let end = s.fresh();
                let made = s.new_block();
                let last = (v.len() - 1) as nat;
                let t = made.jump_ifs(v, 0, last, !condition, end);
                let u = t.jump_if(v[last as int], condition, target);
                assert(made.running());
                assert(t.running());
                assert(u.running()) by {
                    reveal(State::switch_to);
                }
                lemma_made(s);
                lemma_conditions_grow(made, v, 0, last, !condition, end, leaves, places, k);
                lemma_condition_grows(
                    t,
                    v[last as int],
                    condition,
                    target,
                    leaves,
                    places,
                    k + leaf_counts(v, 0, last),
                );
                lemma_waits(made, t, end);
                lemma_waits(t, u, end);
                lemma_grows(s, made, t);
                lemma_grows(s, t, u);
                lemma_switched(u, s, end);
            } else {
                lemma_conditions_grow(s, v, 0, v.len(), condition, target, leaves, places, k);
            }
        },
        Expr::UnaryOp(x) => {
            if x.op == UnaryOp::Not {
                lemma_jump_not(s, x, condition, target);
                lemma_condition_grows(s, *x.operand, !condition, target, leaves, places, k);
            } else {
                lemma_leaf_grows(s, e, condition, target, leaves, places, k);
            }
        },
        _ => {
            lemma_leaf_grows(s, e, condition, target, leaves, places, k);
        },
    }
}

/// A jump on a negation.
proof fn lemma_jump_not(s: State, x: ExprUnaryOp, condition: bool, target: BlockIdx)
    requires
        x.op == UnaryOp::Not,
    ensures
        s.jump_if(Expr::UnaryOp(x), condition, target) == s.jump_if(*x.operand, !condition, target),
{
    reveal(State::jump_if);
}

/// The code of a leaf and the jump behind it go on from what there is.
proof fn lemma_leaf_grows(
    s: State,
    e: Expr,
    condition: bool,
    target: BlockIdx,
    leaves: Leaves,
    places: Seq<Place>,
    k: nat,
)
    requires
        live(s),
        is_leaf(e),
        s.jump_if(e, condition, target).running(),
        leaf_placed(s, e, leaves, places, k),
    ensures
        grows(s, s.jump_if(e, condition, target)),
        s.expr(e).running(),
{
    lemma_jump_leaf(s, e, condition, target);
    let u = s.expr(e);
    assert(u.running());
    lemma_emitted(u, conditional_jump(condition, target));
    lemma_grows(s, u, s.jump_if(e, condition, target));
}

/// The code of conditions goes on from what there is.
proof fn lemma_conditions_grow(
    s: State,
    v: Seq<Expr>,
    i: nat,
    n: nat,
    condition: bool,
    target: BlockIdx,
    leaves: Leaves,
    places: Seq<Place>,
    k: nat,
)
    requires
        live(s),
        n <= v.len(),
        s.jump_ifs(v, i, n, condition, target).running(),
        placed_all(s, v, i, n, condition, target, leaves, places, k),
    ensures
        grows(s, s.jump_ifs(v, i, n, condition, target)),
    decreases v, 0nat, n - i,
{
    lemma_jumps(s, v, i, n, condition, target);
    if i < n {
        let one = s.jump_if(v[i as int], condition, target);
        assert(one.running());
        lemma_condition_grows(s, v[i as int], condition, target, leaves, places, k);
        let next = k + leaf_count(v[i as int]);
        lemma_conditions_grow(one, v, i + 1, n, condition, target, leaves, places, next);
        lemma_grows(s, one, one.jump_ifs(v, i + 1, n, condition, target));
    } else {
        lemma_grows_same(s);
    }
}

/// What the last of several conditions adds to what decides and to what is evaluated.
proof fn lemma_last(
    v: Seq<Expr>,
    i: nat,
    n: nat,
    deciding: bool,
    places: Seq<Place>,
    truth: spec_fn(Place) -> bool,
    k: nat,
)
    requires
        i <= n < v.len(),
    ensures
        ({
            let before = decided(v, i, n, deciding, places, truth, k);
            let seen = evaluated_until(v, i, n, deciding, places, truth, k);
            let at = k + leaf_counts(v, i, n);
            &&& decided(v, i, n + 1, deciding, places, truth, k) == (before || verdict(
                v[n as int],
                places,
                truth,
                at,
            ) == deciding)
            &&& evaluated_until(v, i, n + 1, deciding, places, truth, k) == (if before {
                seen
            } else {
                seen + evaluated(v[n as int], places, truth, at)
            })
        }),
    decreases n - i,
{
    let first = evaluated(v[i as int], places, truth, k);
    if i == n {
        let next = k + leaf_count(v[i as int]);
        assert(!decided(v, n + 1, n + 1, deciding, places, truth, next));
        assert(evaluated_until(v, n + 1, n + 1, deciding, places, truth, next) =~= Seq::empty());
        assert(first + Seq::<Place>::empty() =~= first);
        assert(Seq::<Place>::empty() + first =~= first);
        assert(leaf_counts(v, n, n) == 0);
    } else {
        let next = k + leaf_count(v[i as int]);
        lemma_last(v, i + 1, n, deciding, places, truth, next);
        let rest = evaluated_until(v, i + 1, n, deciding, places, truth, next);
        let last = evaluated(v[n as int], places, truth, k + leaf_counts(v, i, n));
        assert(leaf_counts(v, i, n) == leaf_count(v[i as int]) + leaf_counts(v, i + 1, n));
        assert(first + (rest + last) =~= (first + rest) + last);
    }
}

/// A run through a leaf takes the jump behind it where the value is as the condition says, and
/// else comes to the place behind the jump.
proof fn lemma_leaf_runs(
    s: State,
    e: Expr,
    condition: bool,
    target: BlockIdx,
    leaves: Leaves,
    places: Seq<Place>,
    k: nat,
    c: CodeModel,
)
    requires
        live(s),
        is_leaf(e),
        s.jump_if(e, condition, target).running(),
        leaf_placed(s, e, leaves, places, k),
        held(s.jump_if(e, condition, target).top(), c),
    ensures
        reaches(
            c,
            leaves,
            here(s),
            if (leaves.truth)(places[k as int]) == condition {
                start_of(target)
            } else {
                here(s.jump_if(e, condition, target))
            },
            seq![places[k as int]],
        ),
{
    lemma_leaf_grows(s, e, condition, target, leaves, places, k);
    lemma_jump_leaf(s, e, condition, target);
    let u = s.expr(e);
    let instr = conditional_jump(condition, target);
    lemma_emitted(u, instr);
    lemma_run_through(s, u, u.emit(instr), instr, leaves, c);
}

/// A jump on a condition goes where it should: when the code is run, exactly the leaves that
/// decide are evaluated, in order, and the run comes to the target where the condition is as
/// asked, and else to where the code goes on.
///
/// `places` are those of the leaves in the code, and `c` is the finished code.
pub proof fn jump_goes_by_the_verdict(
    s: State,
    e: Expr,
    condition: bool,
    target: BlockIdx,
    leaves: Leaves,
    places: Seq<Place>,
    k: nat,
    c: CodeModel,
)
    requires
        live(s),
        s.jump_if(e, condition, target).running(),
        placed(s, e, condition, target, leaves, places, k),
        held(s.jump_if(e, condition, target).top(), c),
        c.blocks.len() <= u32::MAX,
    ensures
        reaches(
            c,
            leaves,
            here(s),
            if verdict(e, places, leaves.truth, k) == condition {
                start_of(target)
            } else {
                here(s.jump_if(e, condition, target))
            },
            evaluated(e, places, leaves.truth, k),
        ),
    decreases e, 1nat, 0nat,
{
    match e {
        Expr::BoolOp(x) => {
            lemma_jump_bool(s, x, condition, target);
            let v = x.values@;
            if (x.op == BoolOp::And) == condition {
                lemma_all_runs(s, x, condition, target, leaves, places, k, c);
            } else {
                lemma_runs(s, v, 0, v.len(), condition, target, leaves, places, k, c);
            }
        },
        Expr::UnaryOp(x) => {
            if x.op == UnaryOp::Not {
                lemma_jump_not(s, x, condition, target);
                jump_goes_by_the_verdict(s, *x.operand, !condition, target, leaves, places, k, c);
            } else {
                lemma_leaf_runs(s, e, condition, target, leaves, places, k, c);
            }
        },
        _ => {
            lemma_leaf_runs(s, e, condition, target, leaves, places, k, c);
        },
    }
}

/// A jump for which all operands have to be as the condition says: one that is not leads past
/// the code of the others.
proof fn lemma_all_runs(
    s: State,
    x: ExprBoolOp,
    condition: bool,
    target: BlockIdx,
    leaves: Leaves,
    places: Seq<Place>,
    k: nat,
    c: CodeModel,
)
    requires
        live(s),
        (x.op == BoolOp::And) == condition,
        s.jump_if(Expr::BoolOp(x), condition, target).running(),
        placed(s, Expr::BoolOp(x), condition, target, leaves, places, k),
        held(s.jump_if(Expr::BoolOp(x), condition, target).top(), c),
        c.blocks.len() <= u32::MAX,
    ensures
        reaches(
            c,
            leaves,
            here(s),
            if verdict(Expr::BoolOp(x), places, leaves.truth, k) == condition {
                start_of(target)
            } else {
                here(s.jump_if(Expr::BoolOp(x), condition, target))
            },
            evaluated(Expr::BoolOp(x), places, leaves.truth, k),
        ),
    decreases Expr::BoolOp(x), 0nat, 0nat,
{
    let v = x.values@;
    let end = s.fresh();
    let made = s.new_block();
    let last = (v.len() - 1) as nat;
    let t = made.jump_ifs(v, 0, last, !condition, end);
    let u = t.jump_if(v[last as int], condition, target);
    let w = u.switch_to(end);
    let at = k + leaf_counts(v, 0, last);
    lemma_jump_bool(s, x, condition, target);
    assert(made.running());
    assert(t.running());
    assert(u.running()) by {
        reveal(State::switch_to);
    }
    lemma_made(s);
    lemma_conditions_grow(made, v, 0, last, !condition, end, leaves, places, k);
    lemma_condition_grows(t, v[last as int], condition, target, leaves, places, at);
    lemma_waits(made, t, end);
    lemma_waits(t, u, end);
    lemma_grows(s, made, t);
    lemma_grows(s, t, u);
    lemma_switched(u, s, end);
    lemma_held(u.top(), w.top(), c);
    lemma_held_on(t, u.top());
    lemma_held(t.top(), u.top(), c);
    lemma_runs(made, v, 0, last, !condition, end, leaves, places, k, c);
    jump_goes_by_the_verdict(t, v[last as int], condition, target, leaves, places, at, c);
    lemma_falls(u, end, c, leaves);
    lemma_last(v, 0, last, !condition, places, leaves.truth, k);
    let before = decided(v, 0, last, !condition, places, leaves.truth, k);
    let seen = evaluated_until(v, 0, last, !condition, places, leaves.truth, k);
    let tail = evaluated(v[last as int], places, leaves.truth, at);
    if !before {
        if verdict(v[last as int], places, leaves.truth, at) == condition {
            lemma_reaches(c, leaves, here(s), here(t), start_of(target), seen, tail);
        } else {
            lemma_reaches(c, leaves, here(s), here(t), here(u), seen, tail);
            lemma_reaches(c, leaves, here(s), here(u), start_of(end), seen + tail, Seq::empty());
            assert(seen + tail + Seq::<Place>::empty() =~= seen + tail);
        }
    }
}

/// As [`jump_goes_by_the_verdict`], for jumps on the conditions `v[i..n]`: the first that decides
/// leads to the target.
proof fn lemma_runs(
    s: State,
    v: Seq<Expr>,
    i: nat,
    n: nat,
    condition: bool,
    target: BlockIdx,
    leaves: Leaves,
    places: Seq<Place>,
    k: nat,
    c: CodeModel,
)
    requires
        live(s),
        n <= v.len(),
        s.jump_ifs(v, i, n, condition, target).running(),
        placed_all(s, v, i, n, condition, target, leaves, places, k),
        held(s.jump_ifs(v, i, n, condition, target).top(), c),
        c.blocks.len() <= u32::MAX,
    ensures
        reaches(
            c,
            leaves,
            here(s),
            if decided(v, i, n, condition, places, leaves.truth, k) {
                start_of(target)
            } else {
                here(s.jump_ifs(v, i, n, condition, target))
            },
            evaluated_until(v, i, n, condition, places, leaves.truth, k),
        ),
    decreases v, 0nat, n - i,
{
    lemma_jumps(s, v, i, n, condition, target);
    if i < n {
        let one = s.jump_if(v[i as int], condition, target);
        let t = one.jump_ifs(v, i + 1, n, condition, target);
        let next = k + leaf_count(v[i as int]);
        assert(one.running());
        lemma_condition_grows(s, v[i as int], condition, target, leaves, places, k);
        lemma_conditions_grow(one, v, i + 1, n, condition, target, leaves, places, next);
        lemma_held_on(one, t.top());
        lemma_held(one.top(), t.top(), c);
        jump_goes_by_the_verdict(s, v[i as int], condition, target, leaves, places, k, c);
        lemma_runs(one, v, i + 1, n, condition, target, leaves, places, next, c);
        let first = evaluated(v[i as int], places, leaves.truth, k);
        let rest = evaluated_until(v, i + 1, n, condition, places, leaves.truth, next);
        if verdict(v[i as int], places, leaves.truth, k) != condition {
            let goal = if decided(v, i + 1, n, condition, places, leaves.truth, next) {
                start_of(target)
            } else {
                here(t)
            };
            lemma_reaches(c, leaves, here(s), here(one), goal, first, rest);
        }
    } else {
        lemma_stays(c, leaves, here(s));
    }
}

/// Whether the operands `v[i..]` of a boolean operation that are compiled in a state are at
/// `places`, as [`placed`] says of leaves.
pub open spec fn operands_placed(
    s: State,
    v: Seq<Expr>,
    i: nat,
    op: BoolOp,
    after: BlockIdx,
    leaves: Leaves,
    places: Seq<Place>,
) -> bool
    decreases v.len() - i,
{
    &&& i < v.len()
    &&& leaf_placed(s, v[i as int], leaves, places, i)
    &&& i + 1 < v.len() ==> operands_placed(
        s.expr(v[i as int]).emit(short_circuit(op, after)),
        v,
        i + 1,
        op,
        after,
        leaves,
        places,
    )
}

/// The operands of `n`, from the `i`-th on, up to the first that decides; the last one counts
/// whatever it is.
pub open spec fn operands_until(
    i: nat,
    n: nat,
    deciding: bool,
    places: Seq<Place>,
    truth: spec_fn(Place) -> bool,
) -> Seq<Place>
    decreases n - i,
{
    if i + 1 >= n || truth(places[i as int]) == deciding {
        seq![places[i as int]]
    } else {
        seq![places[i as int]] + operands_until(i + 1, n, deciding, places, truth)
    }
}

/// The first of several operands whose value may decide, and the others.
pub proof fn lemma_values(s: State, v: Seq<Expr>, i: nat, op: BoolOp, after: BlockIdx)
    ensures
        i + 1 >= v.len() ==> s.bool_values(v, i, op, after) == s,
        i + 1 < v.len() ==> s.bool_values(v, i, op, after) == ({
            let one = s.expr(v[i as int]).emit(short_circuit(op, after));
            one.to(one.bool_values(v, i + 1, op, after))
        }),
{
    reveal(State::bool_values);
    reveal(State::expr);
}

/// A boolean operation has the value of an operand: when its code is run, the operands are
/// evaluated in order, up to the first that decides or else the last, and the run comes to where
/// the code goes on with the value of the last one evaluated.
///
/// `places` are those of the operands in the code, and `c` is the finished code.
pub proof fn operation_has_the_deciding_value(
    s: State,
    x: ExprBoolOp,
    leaves: Leaves,
    places: Seq<Place>,
    c: CodeModel,
)
    requires
        live(s),
        s.bool_op(x).running(),
        operands_placed(s.new_block(), x.values@, 0, x.op, s.fresh(), leaves, places),
        held(s.bool_op(x).top(), c),
        c.blocks.len() <= u32::MAX,
    ensures
        reaches(
            c,
            leaves,
            here(s),
            here(s.bool_op(x)),
            operands_until(0, x.values@.len(), x.op == BoolOp::Or, places, leaves.truth),
        ),
{
    let v = x.values@;
    let after = s.fresh();
    let made = s.new_block();
    let t = made.bool_values(v, 0, x.op, after);
    let u = t.expr(v[v.len() - 1]);
    assert(s.bool_op(x) == made.to(t).to(u.switch_to(after))) by {
        reveal(State::bool_op);
        reveal(State::bool_values);
        reveal(State::expr);
    }
    assert(made.running());
    assert(t.running());
    assert(u.running()) by {
        reveal(State::switch_to);
    }
    lemma_made(s);
    lemma_operands_grow(made, v, 0, x.op, after, leaves, places);
    lemma_waits(made, u, after);
    lemma_grows(s, made, u);
    lemma_switched(u, s, after);
    lemma_operands_run(made, v, 0, x.op, after, leaves, places, c);
}

/// The code of operands goes on from what there is.
proof fn lemma_operands_grow(
    s: State,
    v: Seq<Expr>,
    i: nat,
    op: BoolOp,
    after: BlockIdx,
    leaves: Leaves,
    places: Seq<Place>,
)
    requires
        live(s),
        operands_placed(s, v, i, op, after, leaves, places),
        s.bool_values(v, i, op, after).running(),
        s.bool_values(v, i, op, after).expr(v[v.len() - 1]).running(),
    ensures
        grows(s, s.bool_values(v, i, op, after).expr(v[v.len() - 1])),
    decreases v.len() - i,
{
    lemma_values(s, v, i, op, after);
    if i + 1 < v.len() {
        let u = s.expr(v[i as int]);
        let one = u.emit(short_circuit(op, after));
        assert(one.running());
        assert(u.running());
        lemma_emitted(u, short_circuit(op, after));
        lemma_grows(s, u, one);
        lemma_operands_grow(one, v, i + 1, op, after, leaves, places);
        lemma_grows(s, one, one.bool_values(v, i + 1, op, after).expr(v[v.len() - 1]));
    }
}

/// A run through the operands `v[i..]` comes to the start of the block behind them.
proof fn lemma_operands_run(
    s: State,
    v: Seq<Expr>,
    i: nat,
    op: BoolOp,
    after: BlockIdx,
    leaves: Leaves,
    places: Seq<Place>,
    c: CodeModel,
)
    requires
        live(s),
        operands_placed(s, v, i, op, after, leaves, places),
        s.bool_values(v, i, op, after).running(),
        s.bool_values(v, i, op, after).expr(v[v.len() - 1]).running(),
        waiting(s, after),
        held(s.bool_values(v, i, op, after).expr(v[v.len() - 1]).switch_to(after).top(), c),
        c.blocks.len() <= u32::MAX,
    ensures
        reaches(
            c,
            leaves,
            here(s),
            start_of(after),
            operands_until(i, v.len(), op == BoolOp::Or, places, leaves.truth),
        ),
    decreases v.len() - i,
{
    lemma_values(s, v, i, op, after);
    lemma_operands_grow(s, v, i, op, after, leaves, places);
    let last = s.bool_values(v, i, op, after).expr(v[v.len() - 1]);
    lemma_waits(s, last, after);
    lemma_grows_same(last);
    assert(held(last.top(), last.switch_to(after).top())) by {
        reveal(State::switch_to);
        reveal(held);
    }
    lemma_held(last.top(), last.switch_to(after).top(), c);
    let u = s.expr(v[i as int]);
    let p = here(s);
    let q = here(u);
    if i + 1 < v.len() {
        let instr = short_circuit(op, after);
        let one = u.emit(instr);
        assert(one.running());
        assert(u.running());
        lemma_emitted(u, instr);
        lemma_grows(s, u, one);
        lemma_operands_grow(one, v, i + 1, op, after, leaves, places);
        lemma_held_on(one, last.top());
        lemma_held(one.top(), last.top(), c);
        lemma_run_through(s, u, one, instr, leaves, c);
        lemma_waits(s, one, after);
        if (leaves.truth)(p) != (op == BoolOp::Or) {
            lemma_operands_run(one, v, i + 1, op, after, leaves, places, c);
            let rest = operands_until(i + 1, v.len(), op == BoolOp::Or, places, leaves.truth);
            lemma_reaches(c, leaves, p, here(one), start_of(after), seq![p], rest);
        }
    } else {
        lemma_falls(last, after, c, leaves);
        lemma_held_on(s, last.top());
        assert(reaches(c, leaves, p, q, seq![p])) by {
            reveal(held);
            reveal(reaches);
            reveal(State::switch_to);
            let w = last.switch_to(after);
            assert(carried_on(c.blocks[p.block].instructions, last.top().blocks[p.block].instructions));
            assert(w.top().blocks[q.block].next == after);
            assert(c.blocks[q.block] == w.top().blocks[q.block]);
            assert(step(c, leaves, p) == q);
            assert(seq![p].drop_first() =~= Seq::empty());
            assert(goes(c, leaves, q, q, seq![p].drop_first(), 0));
            assert(goes(c, leaves, p, q, seq![p], 1));
        }
        lemma_reaches(c, leaves, p, q, start_of(after), seq![p], Seq::empty());
        assert(seq![p] + Seq::<Place>::empty() =~= seq![p]);
    }
}

/// A run goes through a leaf and where the jump behind it leads.
proof fn lemma_run_through(
    s: State,
    u: State,
    t: State,
    instr: Instruction,
    leaves: Leaves,
    c: CodeModel,
)
    requires
        live(s),
        live(u),
        grows(s, u),
        t == u.emit(instr),
        !(instr is LoadConst),
        (leaves.end)(here(s)) == here(u),
        here(s).index < u.top().blocks[here(s).block].instructions.len(),
        held(t.top(), c),
    ensures
        reaches(
            c,
            leaves,
            here(s),
            jump(instr, here(u), (leaves.truth)(here(s))),
            seq![here(s)],
        ),
{
    let p = here(s);
    let q = here(u);
    let seen = seq![p];
    lemma_emitted(u, instr);
    lemma_held_on(s, u.top());
    lemma_held_on(u, t.top());
    reveal(held);
    reveal(reaches);
    assert(carried_on(c.blocks[q.block].instructions, t.top().blocks[q.block].instructions));
    assert(c.blocks[q.block].instructions[q.index] == t.top().blocks[q.block].instructions[q.index]);
    assert(carried_on(t.top().blocks[p.block].instructions, u.top().blocks[p.block].instructions));
    assert(carried_on(c.blocks[p.block].instructions, t.top().blocks[p.block].instructions));
    let r = step(c, leaves, p);
    assert(seen.drop_first() =~= Seq::empty());
    assert(goes(c, leaves, r, r, seen.drop_first(), 0));
    assert(goes(c, leaves, p, r, seen, 1));
}

} // verus!
