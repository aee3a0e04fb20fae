//! What holds of the compiler as a whole, whatever it compiles.
use vstd::prelude::*;

use crate::alike::{alike, group_alike_steps, lemma_alike_same};
use crate::alike_stmt::{alike_enter_with, alike_leave_with, alike_with_item};
use crate::ast::{
    expr_range, BoolOp, DictItem, Expr, ExprBoolOp, ExprUnaryOp, Stmt, StmtAssert, StmtWith,
    UnaryOp,
};
use crate::branches::{lemma_jump_bool, lemma_jumps, lemma_values};
use crate::bytecode::{BlockIdx, CodeModel, ConstantModel, Instruction, NULL};
use crate::doc::doc_of;
use crate::error::{ErrorKind, ErrorModel};
use crate::expr_code::{group_halted_parts, short_circuit};
use crate::pool::{
    constant_position, constant_slot, item_slot, same_constant, with_constant, with_item,
};
use crate::state::{
    forbidden_name, group_halted_steps, pool_of, DoneWithFuture, NameUsage, Pool, State, Status,
};
use crate::steady::{group_steady_steps, steady, steady_expr, steady_new_block, steady_store};
use crate::symboltable::{found_symbol, is_private, mangled, stripped};
use crate::text::{lemma_position, position};
use crate::validity::{code_ok, complete, kept, lemma_one_end, pools_kept};

verus! {

/// Optimised code is the same with an assert statement as without it.
pub proof fn optimised_code_has_no_assertions(s: State, x: StmtAssert)
    requires
        s.optimize > 0,
    ensures
        s.assertion(x) == s,
{
    reveal(State::assertion);
}

/// Code that is optimised further has no docstrings.
pub proof fn optimised_code_has_no_docstrings(body: Seq<Stmt>, optimize: u8)
    requires
        optimize > 1,
    ensures
        doc_of(body, optimize) is None,
{
}

/// To jump on a negation is to jump on the opposite of what it negates.
pub proof fn negation_turns_the_jump(s: State, x: ExprUnaryOp, condition: bool, target: BlockIdx)
    requires
        x.op == UnaryOp::Not,
    ensures
        s.jump_if(Expr::UnaryOp(x), condition, target) == s.jump_if(*x.operand, !condition, target),
{
    reveal(State::jump_if);
}

/// A double negation costs a jump nothing.
pub proof fn double_negation_leaves_the_jump(
    s: State,
    x: ExprUnaryOp,
    y: ExprUnaryOp,
    condition: bool,
    target: BlockIdx,
)
    requires
        x.op == UnaryOp::Not,
        y.op == UnaryOp::Not,
        *x.operand == Expr::UnaryOp(y),
    ensures
        s.jump_if(Expr::UnaryOp(x), condition, target) == s.jump_if(*y.operand, condition, target),
{
    negation_turns_the_jump(s, x, condition, target);
    negation_turns_the_jump(s, y, !condition, target);
}

/// A jump on `x and y` or `x or y`: the code of `y` comes after a jump that leaves it out where
/// `x` decides. Where the whole is decided as the condition says, that jump goes to the target,
/// and else past the code of `y`.
pub proof fn second_operand_is_left_out(
    s: State,
    x: ExprBoolOp,
    condition: bool,
    target: BlockIdx,
)
    requires
        x.values@.len() == 2,
    ensures
        (x.op == BoolOp::And) != condition ==> s.jump_if(Expr::BoolOp(x), condition, target) == ({
            let first = s.jump_if(x.values@[0], condition, target);
            first.to(first.jump_if(x.values@[1], condition, target))
        }),
        (x.op == BoolOp::And) == condition ==> s.jump_if(Expr::BoolOp(x), condition, target) == ({
            let end = s.fresh();
            let made = s.new_block();
            let first = made.jump_if(x.values@[0], !condition, end);
            made.to(first).to(first.jump_if(x.values@[1], condition, target).switch_to(end))
        }),
{
    let v = x.values@;
    lemma_jump_bool(s, x, condition, target);
    lemma_jumps(s, v, 0, 2, condition, target);
    let first = s.jump_if(v[0], condition, target);
    lemma_jumps(first, v, 1, 2, condition, target);
    lemma_jumps(first.jump_if(v[1], condition, target), v, 2, 2, condition, target);
    let made = s.new_block();
    lemma_jumps(made, v, 0, 1, !condition, s.fresh());
    lemma_jumps(made.jump_if(v[0], !condition, s.fresh()), v, 1, 1, !condition, s.fresh());
}

/// The value of `x and y` or `x or y`: that of `x` stays on the stack where it decides, and the
/// code of `y` is left out; else it is that of `y`.
pub proof fn deciding_operand_is_the_value(s: State, x: ExprBoolOp)
    requires
        x.values@.len() == 2,
    ensures
        s.bool_op(x) == ({
            let after = s.fresh();
            let made = s.new_block();
            let first = made.expr(x.values@[0]).emit(short_circuit(x.op, after));
            made.to(first).to(first.expr(x.values@[1]).switch_to(after))
        }),
{
    let v = x.values@;
    let after = s.fresh();
    let made = s.new_block();
    lemma_values(made, v, 0, x.op, after);
    lemma_values(made.expr(v[0]).emit(short_circuit(x.op, after)), v, 1, x.op, after);
    reveal(State::bool_op);
    reveal(State::bool_values);
    reveal(State::expr);
}

/// A `**` item of a dict display updates the dict of all the items before it.
pub proof fn unpacked_item_updates_those_before(s: State, items: Seq<DictItem>, last: DictItem)
    requires
        last.key is None,
    ensures
        s.dict_items(items.push(last), 0, 0, false) == {
            let before = s.dict_items(items, 0, 0, false);
            before.to(before.expr(last.value).emit(Instruction::DictUpdate))
        },
{
    lemma_unpacked_last(s, items, last, 0, 0, false);
}

proof fn lemma_unpacked_last(
    s: State,
    items: Seq<DictItem>,
    last: DictItem,
    i: nat,
    run: nat,
    made: bool,
)
    requires
        last.key is None,
        i <= items.len(),
    ensures
        s.dict_items(items.push(last), i, run, made) == {
            let before = s.dict_items(items, i, run, made);
            before.to(before.expr(last.value).emit(Instruction::DictUpdate))
        },
    decreases items.len() - i,
{
    broadcast use {group_halted_steps, group_halted_parts};

    reveal(State::dict_items);
    reveal(State::expr);
    let all = items.push(last);
    if i < items.len() {
        assert(all[i as int] == items[i as int]);
        match items[i as int].key {
            Some(key) => {
                let k = s.expr(key);
                let v = k.to(k.expr(items[i as int].value));
                lemma_unpacked_last(v, items, last, i + 1, run + 1, made);
            },
            None => {
                let t = s.dict_run(run, made);
                let u = t.to(t.expr(items[i as int].value).emit(Instruction::DictUpdate));
                lemma_unpacked_last(u, items, last, i + 1, 0, true);
            },
        }
    } else {
        let t = s.dict_run(run, made);
        let u = t.to(t.expr(last.value).emit(Instruction::DictUpdate));
        assert(u.dict_items(all, i + 1, 0, true) == u);
    }
}

/// A `key: value` item of a dict display that comes after a `**` item updates the dict of all the
/// items before it.
pub proof fn keyed_item_updates_those_before(
    s: State,
    items: Seq<DictItem>,
    unpacked: DictItem,
    last: DictItem,
)
    requires
        unpacked.key is None,
        last.key is Some,
    ensures
        s.dict_items(items.push(unpacked).push(last), 0, 0, false) == {
            let before = s.dict_items(items.push(unpacked), 0, 0, false);
            let key = before.expr(last.key->Some_0);
            let value = key.to(key.expr(last.value));
            before.to(
                value.emit(Instruction::BuildMap { size: 1 }).emit(Instruction::DictUpdate),
            )
        },
{
    lemma_keyed_last(s, items, unpacked, last, 0, 0, false);
}

proof fn lemma_keyed_last(
    s: State,
    items: Seq<DictItem>,
    unpacked: DictItem,
    last: DictItem,
    i: nat,
    run: nat,
    made: bool,
)
    requires
        unpacked.key is None,
        last.key is Some,
        i <= items.len(),
    ensures
        s.dict_items(items.push(unpacked).push(last), i, run, made) == {
            let before = s.dict_items(items.push(unpacked), i, run, made);
            let key = before.expr(last.key->Some_0);
            let value = key.to(key.expr(last.value));
            before.to(
                value.emit(Instruction::BuildMap { size: 1 }).emit(Instruction::DictUpdate),
            )
        },
    decreases items.len() - i,
{
    broadcast use {group_halted_steps, group_halted_parts};

    reveal(State::dict_items);
    reveal(State::expr);
    let some = items.push(unpacked);
    let all = some.push(last);
    if i < items.len() {
        assert(some[i as int] == items[i as int]);
        assert(all[i as int] == items[i as int]);
        match items[i as int].key {
            Some(key) => {
                let k = s.expr(key);
                let v = k.to(k.expr(items[i as int].value));
                lemma_keyed_last(v, items, unpacked, last, i + 1, run + 1, made);
            },
            None => {
                let t = s.dict_run(run, made);
                let u = t.to(t.expr(items[i as int].value).emit(Instruction::DictUpdate));
                lemma_keyed_last(u, items, unpacked, last, i + 1, 0, true);
            },
        }
    } else {
        let t = s.dict_run(run, made);
        let u = t.to(t.expr(unpacked.value).emit(Instruction::DictUpdate));
        assert(u.dict_items(some, i + 1, 0, true) == u);
        let k = u.expr(last.key->Some_0);
        let v = k.to(k.expr(last.value));
        assert(some[i as int] == unpacked);
        assert(all[i as int] == unpacked);
        assert(all[i as int + 1] == last);
        assert(v.dict_items(all, i + 1 + 1, 0 + 1, true) == v.dict_run(1, true));
        assert(u.dict_items(all, i + 1, 0, true) == v.to(v.dict_run(1, true)));
    }
}

/// No code assigns to or deletes the forbidden name: the compilation fails where it tries to.
pub proof fn forbidden_name_is_never_changed(s: State, name: Seq<char>, usage: NameUsage)
    requires
        s.running(),
        forbidden_name(mangled(s.class_name, name)),
        usage != NameUsage::Load,
    ensures
        s.name(name, usage).status is Failed,
        s.name(name, usage).codes == s.codes,
{
    reveal(State::name);
    reveal(State::check_name);
}

/// No parameter has the forbidden name.
pub proof fn forbidden_name_is_no_parameter(s: State, name: Seq<char>)
    requires
        s.running(),
        forbidden_name(name),
    ensures
        s.intern_varname(name).status is Failed,
        s.intern_varname(name).codes == s.codes,
{
    reveal(State::intern_varname);
}

/// Where the forbidden name is known, it is a constant: whether the code is not optimised.
pub proof fn forbidden_name_is_a_constant(s: State, name: Seq<char>)
    requires
        s.running(),
        s.tables.len() > 0,
        mangled(s.class_name, name) == "__debug__"@,
        found_symbol(s.tables.last().table, mangled(s.class_name, name)) is Some,
    ensures
        s.name(name, NameUsage::Load) == s.load_const(ConstantModel::Boolean(s.optimize == 0)),
{
    reveal(State::name);
    reveal(State::check_name);
}

/// Outside a class, and for a name that is not private, mangling changes nothing.
pub proof fn only_private_names_are_mangled(class: Option<Seq<char>>, name: Seq<char>)
    requires
        class is None || !is_private(name),
    ensures
        mangled(class, name) == name,
{
}

/// A name is mangled once: its mangled form is no longer private, unless the class name still
/// starts with an underscore when one was taken off, or is empty then.
pub proof fn mangled_name_is_settled(class: Seq<char>, name: Seq<char>)
    requires
        stripped(class).len() > 0,
        stripped(class)[0] != '_',
    ensures
        mangled(Some(class), mangled(Some(class), name)) == mangled(Some(class), name),
{
    if is_private(name) {
        let m = mangled(Some(class), name);
        assert(m[1] == stripped(class)[0]);
    }
}

/// An item that comes in a second time changes nothing and gets the place it had.
pub proof fn item_comes_in_once<T>(pool: Seq<T>, x: T)
    ensures
        with_item(with_item(pool, x), x) == with_item(pool, x),
        item_slot(with_item(pool, x), x) == item_slot(pool, x),
        with_item(pool, x)[item_slot(pool, x) as int] == x,
{
    lemma_position(pool, x);
    if position(pool, x) is None {
        assert(pool.push(x).drop_last() =~= pool);
    }
}

/// A pool that holds each item once still does when one comes in.
pub proof fn pool_holds_each_item_once<T>(pool: Seq<T>, x: T)
    requires
        pool.no_duplicates(),
    ensures
        with_item(pool, x).no_duplicates(),
{
    lemma_position(pool, x);
}

/// A constant that is the same as itself, as all are but code objects and tuples with one, comes
/// into a pool once.
pub proof fn constant_comes_in_once(pool: Seq<ConstantModel>, c: ConstantModel)
    requires
        same_constant(c, c),
    ensures
        with_constant(with_constant(pool, c), c) == with_constant(pool, c),
        constant_slot(with_constant(pool, c), c) == constant_slot(pool, c),
{
    if constant_position(pool, c) is None {
        assert(pool.push(c).drop_last() =~= pool);
    }
}

/// What a pool holds stays at its place through all that the compiler does: an argument that
/// names it means the same in the finished code.
pub proof fn pools_only_grow(s: State, t: State, p: Pool, i: int)
    requires
        kept(s, t),
    ensures
        0 <= i < pool_of(s.top(), p).len() ==> i < pool_of(t.top(), p).len() && pool_of(t.top(), p)[i]
            == pool_of(s.top(), p)[i],
        0 <= i < s.top().constants.len() ==> i < t.top().constants.len() && t.top().constants[i]
            == s.top().constants[i],
{
    reveal(pools_kept);
}

/// In valid and complete code, and so in all that a compilation returns and in all the code units
/// within it, every block but the one that the code ends in falls through to a block that is
/// there: none that was allocated was forgotten.
pub proof fn every_block_gets_its_code(c: CodeModel, b: int)
    requires
        code_ok(c),
        complete(c),
        c.blocks.len() <= u32::MAX,
        0 <= b < c.blocks.len(),
        b != c.current_block.0,
    ensures
        c.blocks[b].next != BlockIdx(NULL),
        c.blocks[b].next.0 < c.blocks.len(),
{
    reveal(code_ok);
    lemma_one_end(c.blocks, c.current_block.0 as int, b);
}

/// Once a module is past its `from __future__` imports it stays so.
pub proof fn future_never_reopens(s: State, x: Stmt)
    requires
        s.future == DoneWithFuture::Yes,
    ensures
        s.note_future(x).future == DoneWithFuture::Yes,
{
    reveal(State::note_future);
    reveal(State::future_features);
}

/// A `from __future__` import that comes too late is an error, whatever it names.
pub proof fn late_future_import_fails(s: State, x: crate::ast::StmtImportFrom)
    requires
        s.running(),
        s.future == DoneWithFuture::Yes,
        x.module matches Some(module) && module@ == "__future__"@,
    ensures
        s.note_future(Stmt::ImportFrom(x)).status == Status::Failed(
            ErrorModel {
                location: Some(s.range.start),
                error: ErrorKind::InvalidFuturePlacement,
                source_path: s.path,
            },
        ),
{
    reveal(State::note_future);
    reveal(State::future_features);
}

/// A with statement of several items has the code of nested with statements, source locations
/// aside: `with a, b: body` is `with a: with b: body`.
pub proof fn with_items_are_nested(s: State, x: StmtWith, outer: StmtWith, inner: StmtWith)
    requires
        s.wf(),
        x.items@.len() > 1,
        outer.items@ == x.items@.take(1),
        outer.body@ == seq![Stmt::With(inner)],
        inner.items@ == x.items@.skip(1),
        inner.body@ == x.body@,
        outer.is_async == x.is_async,
        inner.is_async == x.is_async,
    ensures
        alike(s.stmt(Stmt::With(x)), s.stmt(Stmt::With(outer))),
{
    broadcast use group_alike_steps;

    reveal(State::stmt);
    reveal(State::stmt_body);
    reveal(State::with_item);
    reveal(State::note_future);
    lemma_alike_same(s);
    let one = s.set_range(x.range).note_future(Stmt::With(x));
    let other = s.set_range(outer.range).note_future(Stmt::With(outer));
    assert(alike(one, other));
    if one.running() {
        lemma_with_nested(one, other, x, outer, inner);
    }
}

proof fn lemma_with_nested(
    s: State,
    s2: State,
    x: StmtWith,
    outer: StmtWith,
    inner: StmtWith,
)
    requires
        alike(s, s2),
        s.running(),
        s.future == DoneWithFuture::Yes,
        x.items@.len() > 1,
        outer.items@ == x.items@.take(1),
        outer.body@ == seq![Stmt::With(inner)],
        inner.items@ == x.items@.skip(1),
        inner.body@ == x.body@,
        outer.is_async == x.is_async,
        inner.is_async == x.is_async,
    ensures
        alike(s.with_item(x, 0), s2.with_item(outer, 0)),
{
    broadcast use group_alike_steps;

    reveal(State::with_item);
    reveal(State::stmts);
    reveal(State::stmt);
    reveal(State::stmt_body);
    reveal(State::note_future);
    let end = s.fresh();
    let t = s.new_block();
    let t2 = s2.new_block();
    let u = t.enter_with(x, 0, end);
    let u2 = t2.enter_with(x, 0, end);
    assert(u2 == t2.enter_with(outer, 0, end)) by {
        reveal(State::enter_with);
    }
    alike_enter_with(t, t2, x, 0, end);
    steady_new_block(s2);
    lemma_enter_with(t2, x, 0, end);
    if u.running() {
        let v = u.set_range(s.range);
        let v2 = u2.set_range(inner.range);
        lemma_with_items(v2, x, inner, 0);
        assert(v2.note_future(Stmt::With(inner)) == v2);
        assert(u2.stmt(Stmt::With(inner)) == v2.with_item(inner, 0));
        let w2 = u2.stmt(Stmt::With(inner));
        assert(w2.stmts(outer.body@, 1) == w2);
        assert(u2.stmts(outer.body@, 0) == w2);
        alike_with_item(v, v2, x, 1);
        let w = v.with_item(x, 1);
        alike_leave_with(w.set_range(s.range), w2.set_range(s2.range), x.is_async, end);
    }
}

/// To enter a context manager leaves alone what belongs to the whole module.
proof fn lemma_enter_with(s: State, x: StmtWith, i: nat, end: BlockIdx)
    ensures
        steady(s, s.enter_with(x, i, end)),
{
    broadcast use group_steady_steps;

    reveal(State::enter_with);
    let item = x.items@[i as int];
    let t = s.expr(item.context_expr).set_range(s.range);
    let u = if x.is_async {
        t.emit(Instruction::BeforeAsyncWith).emit(Instruction::GetAwaitable).load_const(
            ConstantModel::NoneValue,
        ).emit(Instruction::YieldFrom).emit(Instruction::SetupAsyncWith { end })
    } else {
        t.emit(Instruction::SetupWith { end })
    };
    steady_expr(s, item.context_expr);
    if let Some(var) = item.optional_vars {
        steady_store(u.set_range(expr_range(*var)), *var);
    }
}

/// The items after the first are those of the inner statement.
proof fn lemma_with_items(s: State, x: StmtWith, inner: StmtWith, i: nat)
    requires
        x.items@.len() > 0,
        inner.items@ == x.items@.skip(1),
        inner.body@ == x.body@,
        inner.is_async == x.is_async,
    ensures
        s.with_item(x, i + 1) == s.with_item(inner, i),
    decreases x.items@.len() - i,
{
    reveal(State::with_item);
    if i < inner.items@.len() {
        let end = s.fresh();
        let t = s.new_block().enter_with(x, i + 1, end);
        assert(t == s.new_block().enter_with(inner, i, end)) by {
            reveal(State::enter_with);
            assert(x.items@[i as int + 1] == inner.items@[i as int]);
        }
        lemma_with_items(t.set_range(s.range), x, inner, i + 1);
    }
}

} // verus!
