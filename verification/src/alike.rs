//! Source locations do not matter to what code does: compilations that differ in them alone go on
//! to differ in them alone.
use vstd::prelude::*;

use crate::ast::{Keyword, ParameterWithDefault, Parameters, TextRange};
use crate::bytecode::{
    BlockIdx, BlockModel, CodeFlags, CodeModel, ConstantModel, Instruction, MakeFunctionFlags,
};
use crate::error::ErrorKind;
use crate::pool::{constant_position, constant_slot};
use crate::state::{CompileContext, DoneWithFuture, NameUsage, Pool, State, Status};
use crate::symboltable::Symbol;
use crate::validity::code_ok;

verus! {

/// Whether two blocks have the same instructions, source locations aside, and fall through alike.
pub open spec fn block_alike(b: BlockModel, c: BlockModel) -> bool {
    &&& b.next == c.next
    &&& b.instructions.len() == c.instructions.len()
    &&& forall|i: int|
        0 <= i < b.instructions.len() ==> (#[trigger] b.instructions[i]).instr
            == c.instructions[i].instr
}

/// Whether two code units have the same flags, names and number of blocks, and are in the same
/// one of these.
pub open spec fn unit_alike(c: CodeModel, d: CodeModel) -> bool {
    &&& c.flags == d.flags
    &&& c.posonlyarg_count == d.posonlyarg_count
    &&& c.arg_count == d.arg_count
    &&& c.kwonlyarg_count == d.kwonlyarg_count
    &&& c.source_path == d.source_path
    &&& c.obj_name == d.obj_name
    &&& c.blocks.len() == d.blocks.len()
    &&& c.current_block == d.current_block
    &&& c.current_block.0 < c.blocks.len()
    &&& c.names == d.names
    &&& c.varnames == d.varnames
    &&& c.cellvars == d.cellvars
    &&& c.freevars == d.freevars
}

/// Whether two code units are the same, source locations aside.
#[verifier::opaque]
pub open spec fn code_alike(c: CodeModel, d: CodeModel) -> bool
    decreases c,
{
    &&& unit_alike(c, d)
    &&& forall|b: int|
        0 <= b < c.blocks.len() ==> block_alike(#[trigger] c.blocks[b], d.blocks[b])
    &&& c.constants.len() == d.constants.len()
    &&& forall|k: int|
        0 <= k < c.constants.len() ==> constant_alike(#[trigger] c.constants[k], d.constants[k])
}

/// Whether two constants are the same, or code units that are so, source locations aside.
pub open spec fn constant_alike(a: ConstantModel, b: ConstantModel) -> bool
    decreases a,
{
    a == b || match (a, b) {
        (ConstantModel::Code(c, o), ConstantModel::Code(d, p)) => o == p && code_alike(c, d),
        _ => false,
    }
}

/// Whether two compilations both go on, or halted for the same reason, source locations aside.
pub open spec fn status_alike(a: Status, b: Status) -> bool {
    match (a, b) {
        (Status::Failed(e), Status::Failed(f)) => e.error == f.error && e.source_path
            == f.source_path,
        _ => a == b,
    }
}

/// Whether two compilations are in the same state, source locations aside.
pub open spec fn alike(s: State, t: State) -> bool {
    &&& status_alike(s.status, t.status)
    &&& s.codes.len() == t.codes.len()
    &&& s.codes.len() > 0
    &&& unit_alike(s.top(), t.top())
    &&& codes_alike(s.codes, t.codes)
    &&& s.tables == t.tables
    &&& s.path == t.path
    &&& s.qualified == t.qualified
    &&& s.future == t.future
    &&& s.future_annotations == t.future_annotations
    &&& s.ctx == t.ctx
    &&& s.class_name == t.class_name
    &&& s.optimize == t.optimize
}

/// Whether open code units are pairwise the same, source locations aside.
#[verifier::opaque]
pub open spec fn codes_alike(x: Seq<CodeModel>, y: Seq<CodeModel>) -> bool {
    &&& x.len() == y.len()
    &&& forall|i: int| 0 <= i < x.len() ==> code_alike(#[trigger] x[i], y[i])
}

proof fn lemma_code_same(c: CodeModel)
    requires
        c.current_block.0 < c.blocks.len(),
    ensures
        code_alike(c, c),
{
    reveal(code_alike);
    assert forall|k: int| 0 <= k < c.constants.len() implies constant_alike(
        #[trigger] c.constants[k],
        c.constants[k],
    ) by {}
}

/// A valid state is in the same state as itself.
pub proof fn lemma_alike_same(s: State)
    requires
        s.wf(),
    ensures
        alike(s, s),
{
    reveal(codes_alike);
    reveal(code_ok);
    assert(code_ok(s.codes[s.codes.len() - 1]));
    assert forall|i: int| 0 <= i < s.codes.len() implies code_alike(
        #[trigger] s.codes[i],
        s.codes[i],
    ) by {
        assert(code_ok(s.codes[i]));
        lemma_code_same(s.codes[i]);
    }
}

pub proof fn lemma_top_alike(s: State, t: State)
    requires
        alike(s, t),
    ensures
        code_alike(s.top(), t.top()),
{
    reveal(codes_alike);
    assert(code_alike(s.codes[s.codes.len() - 1], t.codes[s.codes.len() - 1]));
}

proof fn lemma_with_top_alike(s: State, t: State, c: CodeModel, d: CodeModel)
    requires
        alike(s, t),
        code_alike(c, d),
    ensures
        alike(s.with_top(c), t.with_top(d)),
{
    reveal(codes_alike);
    reveal(code_alike);
    let x = s.with_top(c).codes;
    let y = t.with_top(d).codes;
    assert forall|i: int| 0 <= i < x.len() implies code_alike(#[trigger] x[i], y[i]) by {
        if i < x.len() - 1 {
            assert(x[i] == s.codes[i]);
            assert(code_alike(s.codes[i], t.codes[i]));
        }
    }
    assert(x.last() == c);
    assert(y.last() == d);
}

/// A constant has the same place in pools that are pairwise alike.
proof fn lemma_constant_place(
    x: Seq<ConstantModel>,
    y: Seq<ConstantModel>,
    a: ConstantModel,
    b: ConstantModel,
)
    requires
        x.len() == y.len(),
        forall|k: int| 0 <= k < x.len() ==> constant_alike(#[trigger] x[k], y[k]),
        constant_alike(a, b),
    ensures
        constant_position(x, a) == constant_position(y, b),
    decreases x.len(),
{
    if x.len() > 0 {
        assert forall|k: int| 0 <= k < x.len() - 1 implies constant_alike(
            #[trigger] x.drop_last()[k],
            y.drop_last()[k],
        ) by {
            assert(constant_alike(x[k], y[k]));
        }
        lemma_constant_place(x.drop_last(), y.drop_last(), a, b);
        assert(constant_alike(x[x.len() - 1], y[x.len() - 1]));
    }
}

/// Steps from states that are alike lead to such states.
pub broadcast proof fn alike_set_range(s: State, t: State, a: TextRange, b: TextRange)
    requires
        #[trigger] alike(s, t),
    ensures
        alike(#[trigger] s.set_range(a), #[trigger] t.set_range(b)),
{
}

pub broadcast proof fn alike_fail_at(
    s: State,
    t: State,
    error: ErrorKind,
    a: TextRange,
    b: TextRange,
)
    requires
        #[trigger] alike(s, t),
    ensures
        alike(#[trigger] s.fail_at(error, a), #[trigger] t.fail_at(error, b)),
{
}

pub broadcast proof fn alike_fail(s: State, t: State, error: ErrorKind)
    requires
        #[trigger] alike(s, t),
    ensures
        alike(#[trigger] s.fail(error), #[trigger] t.fail(error)),
{
}

pub broadcast proof fn alike_stuck(s: State, t: State)
    requires
        #[trigger] alike(s, t),
    ensures
        alike(#[trigger] s.stuck(), #[trigger] t.stuck()),
{
}

pub broadcast proof fn alike_set_ctx(s: State, t: State, ctx: CompileContext)
    requires
        #[trigger] alike(s, t),
    ensures
        alike(#[trigger] s.set_ctx(ctx), #[trigger] t.set_ctx(ctx)),
{
}

pub broadcast proof fn alike_set_loop(s: State, t: State, loop_data: Option<(BlockIdx, BlockIdx)>)
    requires
        #[trigger] alike(s, t),
    ensures
        alike(#[trigger] s.set_loop(loop_data), #[trigger] t.set_loop(loop_data)),
{
}

pub broadcast proof fn alike_set_class(s: State, t: State, class_name: Option<Seq<char>>)
    requires
        #[trigger] alike(s, t),
    ensures
        alike(#[trigger] s.set_class(class_name), #[trigger] t.set_class(class_name)),
{
}

pub broadcast proof fn alike_set_future(s: State, t: State, future: DoneWithFuture)
    requires
        #[trigger] alike(s, t),
    ensures
        alike(#[trigger] s.set_future(future), #[trigger] t.set_future(future)),
{
}

pub broadcast proof fn alike_set_qualified(s: State, t: State, path: Seq<Seq<char>>)
    requires
        #[trigger] alike(s, t),
    ensures
        alike(#[trigger] s.set_qualified(path), #[trigger] t.set_qualified(path)),
{
}

pub broadcast proof fn alike_set_flags(s: State, t: State, flags: CodeFlags)
    requires
        #[trigger] alike(s, t),
    ensures
        alike(#[trigger] s.set_flags(flags), #[trigger] t.set_flags(flags)),
{
    reveal(State::set_flags);
    reveal(code_alike);
    if s.running() {
        lemma_top_alike(s, t);
        lemma_with_top_alike(
            s,
            t,
            CodeModel { flags, ..s.top() },
            CodeModel { flags, ..t.top() },
        );
    }
}

pub broadcast proof fn alike_mark_generator(s: State, t: State)
    requires
        #[trigger] alike(s, t),
    ensures
        alike(#[trigger] s.mark_generator(), #[trigger] t.mark_generator()),
{
    broadcast use alike_set_flags;

    reveal(State::mark_generator);
}

pub broadcast proof fn alike_mark_coroutine(s: State, t: State, is_coroutine: bool)
    requires
        #[trigger] alike(s, t),
    ensures
        alike(#[trigger] s.mark_coroutine(is_coroutine), #[trigger] t.mark_coroutine(is_coroutine)),
{
    broadcast use alike_set_flags;

    reveal(State::mark_coroutine);
}

pub broadcast proof fn alike_mark_varargs(s: State, t: State)
    requires
        #[trigger] alike(s, t),
    ensures
        alike(#[trigger] s.mark_varargs(), #[trigger] t.mark_varargs()),
{
    broadcast use alike_set_flags;

    reveal(State::mark_varargs);
}

pub broadcast proof fn alike_mark_varkeywords(s: State, t: State)
    requires
        #[trigger] alike(s, t),
    ensures
        alike(#[trigger] s.mark_varkeywords(), #[trigger] t.mark_varkeywords()),
{
    broadcast use alike_set_flags;

    reveal(State::mark_varkeywords);
}

pub broadcast proof fn alike_emit(s: State, t: State, instr: Instruction)
    requires
        #[trigger] alike(s, t),
    ensures
        alike(#[trigger] s.emit(instr), #[trigger] t.emit(instr)),
{
    reveal(State::emit);
    reveal(code_alike);
    if s.running() {
        lemma_top_alike(s, t);
        let c = s.emit(instr).top();
        let d = t.emit(instr).top();
        assert forall|b: int| 0 <= b < c.blocks.len() implies block_alike(
            #[trigger] c.blocks[b],
            d.blocks[b],
        ) by {
            assert(block_alike(s.top().blocks[b], t.top().blocks[b]));
        }
        assert forall|k: int| 0 <= k < c.constants.len() implies constant_alike(
            #[trigger] c.constants[k],
            d.constants[k],
        ) by {
            assert(constant_alike(s.top().constants[k], t.top().constants[k]));
        }
        lemma_with_top_alike(s, t, c, d);
    }
}

pub broadcast proof fn alike_new_block(s: State, t: State)
    requires
        #[trigger] alike(s, t),
    ensures
        alike(#[trigger] s.new_block(), #[trigger] t.new_block()),
{
    reveal(State::new_block);
    reveal(code_alike);
    if s.running() && s.top().blocks.len() <= u32::MAX {
        lemma_top_alike(s, t);
        lemma_with_top_alike(s, t, s.new_block().top(), t.new_block().top());
    }
}

pub broadcast proof fn alike_switch_to(s: State, t: State, block: BlockIdx)
    requires
        #[trigger] alike(s, t),
    ensures
        alike(#[trigger] s.switch_to(block), #[trigger] t.switch_to(block)),
{
    reveal(State::switch_to);
    reveal(code_alike);
    if s.running() {
        lemma_top_alike(s, t);
        let at = s.top().current_block.0 as int;
        assert(block_alike(s.top().blocks[at], t.top().blocks[at]));
        if block.0 < s.top().blocks.len() {
            assert(block_alike(s.top().blocks[block.0 as int], t.top().blocks[block.0 as int]));
        }
        if s.can_switch(block) {
            let c = s.switch_to(block).top();
            let d = t.switch_to(block).top();
            assert forall|b: int| 0 <= b < c.blocks.len() implies block_alike(
                #[trigger] c.blocks[b],
                d.blocks[b],
            ) by {
                assert(block_alike(s.top().blocks[b], t.top().blocks[b]));
            }
            lemma_with_top_alike(s, t, c, d);
        }
    }
}

/// The place of a constant is the same, and so is the pool after it came in, up to code units that
/// are alike.
proof fn lemma_insert_alike(s: State, t: State, a: ConstantModel, b: ConstantModel)
    requires
        alike(s, t),
        constant_alike(a, b),
    ensures
        alike(s.insert_const(a), t.insert_const(b)),
        constant_slot(s.top().constants, a) == constant_slot(t.top().constants, b),
{
    reveal(State::insert_const);
    reveal(code_alike);
    lemma_top_alike(s, t);
    lemma_constant_place(s.top().constants, t.top().constants, a, b);
    if s.running() {
        let c = s.insert_const(a).top();
        let d = t.insert_const(b).top();
        assert forall|k: int| 0 <= k < c.constants.len() implies constant_alike(
            #[trigger] c.constants[k],
            d.constants[k],
        ) by {
            if k < s.top().constants.len() {
                assert(constant_alike(s.top().constants[k], t.top().constants[k]));
            }
        }
        lemma_with_top_alike(s, t, c, d);
    }
}

/// To load constants that are alike leads to states that are alike.
proof fn lemma_load_alike(s: State, t: State, a: ConstantModel, b: ConstantModel)
    requires
        alike(s, t),
        constant_alike(a, b),
    ensures
        alike(s.load_const(a), t.load_const(b)),
{
    broadcast use {alike_emit, alike_stuck};

    reveal(State::load_const);
    reveal(State::intern_const);
    lemma_insert_alike(s, t, a, b);
}

pub broadcast proof fn alike_insert_const(s: State, t: State, c: ConstantModel)
    requires
        #[trigger] alike(s, t),
    ensures
        alike(#[trigger] s.insert_const(c), #[trigger] t.insert_const(c)),
{
    lemma_insert_alike(s, t, c, c);
}

pub broadcast proof fn alike_load_const(s: State, t: State, c: ConstantModel)
    requires
        #[trigger] alike(s, t),
    ensures
        alike(#[trigger] s.load_const(c), #[trigger] t.load_const(c)),
{
    lemma_load_alike(s, t, c, c);
}

pub broadcast proof fn alike_return_const(s: State, t: State, c: ConstantModel)
    requires
        #[trigger] alike(s, t),
    ensures
        alike(#[trigger] s.return_const(c), #[trigger] t.return_const(c)),
{
    broadcast use {alike_emit, alike_stuck};

    reveal(State::return_const);
    reveal(State::intern_const);
    lemma_insert_alike(s, t, c, c);
}

pub broadcast proof fn alike_return_value(s: State, t: State)
    requires
        #[trigger] alike(s, t),
    ensures
        alike(#[trigger] s.return_value(), #[trigger] t.return_value()),
{
    broadcast use alike_emit;

    reveal(State::return_value);
    if s.running() {
        let at = s.top().current_block.0 as int;
        let count = s.top().blocks[at].instructions.len();
        lemma_top_alike(s, t);
        assert(block_alike(s.top().blocks[at], t.top().blocks[at])) by {
            reveal(code_alike);
        }
        if count > 0 {
            assert(s.top().blocks[at].instructions[count - 1].instr
                == t.top().blocks[at].instructions[count - 1].instr);
        }
        if count > 0 && s.top().blocks[at].instructions[count - 1].instr is LoadConst {
            let c = s.return_value().top();
            let d = t.return_value().top();
            assert(code_alike(c, d)) by {
                reveal(code_alike);
                assert forall|b: int| 0 <= b < c.blocks.len() implies block_alike(
                    #[trigger] c.blocks[b],
                    d.blocks[b],
                ) by {
                    assert(block_alike(s.top().blocks[b], t.top().blocks[b]));
                }
            }
            lemma_with_top_alike(s, t, c, d);
        }
    }
}

pub broadcast proof fn alike_insert_text(s: State, t: State, p: Pool, text: Seq<char>)
    requires
        #[trigger] alike(s, t),
    ensures
        alike(#[trigger] s.insert_text(p, text), #[trigger] t.insert_text(p, text)),
{
    reveal(State::insert_text);
    reveal(code_alike);
    if s.running() {
        lemma_top_alike(s, t);
        lemma_with_top_alike(s, t, s.insert_text(p, text).top(), t.insert_text(p, text).top());
    }
}

pub broadcast proof fn alike_intern(s: State, t: State, p: Pool, name: Seq<char>)
    requires
        #[trigger] alike(s, t),
    ensures
        alike(#[trigger] s.intern(p, name), #[trigger] t.intern(p, name)),
{
    broadcast use {alike_insert_text, alike_stuck};

    reveal(State::intern);
}

pub broadcast proof fn alike_intern_varname(s: State, t: State, name: Seq<char>)
    requires
        #[trigger] alike(s, t),
    ensures
        alike(#[trigger] s.intern_varname(name), #[trigger] t.intern_varname(name)),
{
    broadcast use {alike_fail, alike_intern};

    reveal(State::intern_varname);
}

pub broadcast proof fn alike_check_name(s: State, t: State, name: Seq<char>, usage: NameUsage)
    requires
        #[trigger] alike(s, t),
    ensures
        alike(#[trigger] s.check_name(name, usage), #[trigger] t.check_name(name, usage)),
{
    broadcast use alike_fail;

    reveal(State::check_name);
}

pub broadcast proof fn alike_symbol_access(
    s: State,
    t: State,
    m: Seq<char>,
    symbol: Symbol,
    usage: NameUsage,
)
    requires
        #[trigger] alike(s, t),
    ensures
        alike(
            #[trigger] s.symbol_access(m, symbol, usage),
            #[trigger] t.symbol_access(m, symbol, usage),
        ),
{
    broadcast use {alike_insert_text, alike_emit, alike_stuck};

    reveal(State::symbol_access);
}

pub broadcast proof fn alike_name(s: State, t: State, name: Seq<char>, usage: NameUsage)
    requires
        #[trigger] alike(s, t),
    ensures
        alike(#[trigger] s.name(name, usage), #[trigger] t.name(name, usage)),
{
    broadcast use {alike_check_name, alike_stuck, alike_load_const, alike_symbol_access};

    reveal(State::name);
}

pub broadcast proof fn alike_push_table(s: State, t: State)
    requires
        #[trigger] alike(s, t),
    ensures
        alike(#[trigger] s.push_table(), #[trigger] t.push_table()),
{
    broadcast use alike_stuck;

    reveal(State::push_table);
}

pub broadcast proof fn alike_pop_table(s: State, t: State)
    requires
        #[trigger] alike(s, t),
    ensures
        alike(#[trigger] s.pop_table(), #[trigger] t.pop_table()),
{
    broadcast use alike_stuck;

    reveal(State::pop_table);
}

pub broadcast proof fn alike_push_code(
    s: State,
    t: State,
    flags: CodeFlags,
    posonlyarg_count: u32,
    arg_count: u32,
    kwonlyarg_count: u32,
    obj_name: Seq<char>,
)
    requires
        #[trigger] alike(s, t),
    ensures
        alike(
            #[trigger] s.push_code(flags, posonlyarg_count, arg_count, kwonlyarg_count, obj_name),
            #[trigger] t.push_code(flags, posonlyarg_count, arg_count, kwonlyarg_count, obj_name),
        ),
{
    broadcast use alike_push_table;

    reveal(State::push_code);
    let x = s.push_code(flags, posonlyarg_count, arg_count, kwonlyarg_count, obj_name);
    let y = t.push_code(flags, posonlyarg_count, arg_count, kwonlyarg_count, obj_name);
    if s.push_table().running() {
        assert(x.codes.last() == x.top());
        assert(codes_alike(x.codes, y.codes)) by {
            reveal(codes_alike);
            reveal(code_alike);
            assert forall|i: int| 0 <= i < x.codes.len() implies code_alike(
                #[trigger] x.codes[i],
                y.codes[i],
            ) by {
                if i < s.push_table().codes.len() {
                    assert(code_alike(s.push_table().codes[i], t.push_table().codes[i]));
                }
            }
        }
    }
}

pub broadcast proof fn alike_pop_code(s: State, t: State)
    requires
        #[trigger] alike(s, t),
    ensures
        alike(#[trigger] s.pop_code(), #[trigger] t.pop_code()),
{
    broadcast use alike_stuck;

    reveal(State::pop_code);
    reveal(codes_alike);
    if s.codes.len() >= 2 {
        let i = s.codes.len() - 2;
        assert(code_alike(s.codes[i], t.codes[i]));
        assert(unit_alike(s.codes[i], t.codes[i])) by {
            reveal(code_alike);
        }
        assert forall|j: int| 0 <= j < s.codes.len() - 1 implies code_alike(
            #[trigger] s.codes.drop_last()[j],
            t.codes.drop_last()[j],
        ) by {
            assert(code_alike(s.codes[j], t.codes[j]));
        }
    }
}

pub broadcast proof fn alike_load_closure(s: State, t: State, var: Seq<char>)
    requires
        #[trigger] alike(s, t),
    ensures
        alike(#[trigger] s.load_closure(var), #[trigger] t.load_closure(var)),
{
    broadcast use {alike_emit, alike_stuck};

    reveal(State::load_closure);
}

pub broadcast proof fn alike_load_closures(s: State, t: State, vars: Seq<Seq<char>>, i: nat)
    requires
        #[trigger] alike(s, t),
    ensures
        alike(#[trigger] s.load_closures(vars, i), #[trigger] t.load_closures(vars, i)),
    decreases vars.len() - i,
{
    reveal(State::load_closures);
    if s.running() && i < vars.len() {
        alike_load_closure(s, t, vars[i as int]);
        alike_load_closures(
            s.load_closure(vars[i as int]),
            t.load_closure(vars[i as int]),
            vars,
            i + 1,
        );
    }
}

pub broadcast proof fn alike_closure(s: State, t: State, vars: Seq<Seq<char>>)
    requires
        #[trigger] alike(s, t),
    ensures
        alike(#[trigger] s.closure(vars), #[trigger] t.closure(vars)),
{
    broadcast use {alike_load_closures, alike_emit, alike_stuck};

    reveal(State::closure);
}

/// To make functions of code units that are alike leads to states that are alike.
pub proof fn lemma_make_alike(
    s: State,
    t: State,
    c: CodeModel,
    d: CodeModel,
    optimize: u8,
    name: Seq<char>,
    flags: MakeFunctionFlags,
)
    requires
        alike(s, t),
        code_alike(c, d),
    ensures
        alike(s.make_function(c, optimize, name, flags), t.make_function(d, optimize, name, flags)),
{
    broadcast use {alike_load_const, alike_emit};

    reveal(State::make_function);
    reveal(code_alike);
    lemma_load_alike(s, t, ConstantModel::Code(c, optimize), ConstantModel::Code(d, optimize));
}

pub broadcast proof fn alike_close_function(
    s: State,
    t: State,
    ctx: CompileContext,
    name: Seq<char>,
    flags: MakeFunctionFlags,
)
    requires
        #[trigger] alike(s, t),
    ensures
        alike(
            #[trigger] s.close_function(ctx, name, flags),
            #[trigger] t.close_function(ctx, name, flags),
        ),
{
    broadcast use {alike_pop_code, alike_set_ctx, alike_closure};

    reveal(State::close_function);
    lemma_top_alike(s, t);
    let c = s.top();
    let d = t.top();
    lemma_make_alike(
        s.pop_code().set_ctx(ctx).closure(c.freevars),
        t.pop_code().set_ctx(ctx).closure(d.freevars),
        c,
        d,
        s.optimize,
        name,
        MakeFunctionFlags { closure: c.freevars.len() > 0, ..flags },
    );
}

pub broadcast proof fn alike_relink(s: State, t: State, base: nat, n: nat)
    requires
        #[trigger] alike(s, t),
    ensures
        alike(#[trigger] s.relink(base, n), #[trigger] t.relink(base, n)),
{
    reveal(State::relink);
    reveal(code_alike);
    if s.running() {
        lemma_top_alike(s, t);
        let c = s.relink(base, n).top();
        let d = t.relink(base, n).top();
        assert forall|b: int| 0 <= b < c.blocks.len() implies block_alike(
            #[trigger] c.blocks[b],
            d.blocks[b],
        ) by {
            assert(block_alike(s.top().blocks[b], t.top().blocks[b]));
        }
        lemma_with_top_alike(s, t, c, d);
    }
}

pub broadcast proof fn alike_check_keywords(s: State, t: State, keywords: Seq<Keyword>, i: nat)
    requires
        #[trigger] alike(s, t),
    ensures
        alike(#[trigger] s.check_keywords(keywords, i), #[trigger] t.check_keywords(keywords, i)),
    decreases keywords.len() - i,
{
    reveal(State::check_keywords);
    if s.running() && i < keywords.len() {
        match keywords[i as int].arg {
            Some(name) => {
                alike_check_name(s, t, name@, NameUsage::Store);
                alike_check_keywords(
                    s.check_name(name@, NameUsage::Store),
                    t.check_name(name@, NameUsage::Store),
                    keywords,
                    i + 1,
                );
            },
            None => {
                alike_check_keywords(s, t, keywords, i + 1);
            },
        }
    }
}

pub broadcast proof fn alike_varnames(
    s: State,
    t: State,
    p: Seq<ParameterWithDefault>,
    i: nat,
    without: bool,
    with: bool,
)
    requires
        #[trigger] alike(s, t),
    ensures
        alike(
            #[trigger] s.varnames(p, i, without, with),
            #[trigger] t.varnames(p, i, without, with),
        ),
    decreases p.len() - i,
{
    reveal(State::varnames);
    if s.running() && i < p.len() {
        let name = p[i as int].parameter.name@;
        alike_intern_varname(s, t, name);
        alike_varnames(s.intern_varname(name), t.intern_varname(name), p, i + 1, without, with);
        alike_varnames(s, t, p, i + 1, without, with);
    }
}

pub broadcast proof fn alike_parameters(s: State, t: State, p: Parameters)
    requires
        #[trigger] alike(s, t),
    ensures
        alike(#[trigger] s.parameters(p), #[trigger] t.parameters(p)),
{
    broadcast use {
        alike_varnames,
        alike_mark_varargs,
        alike_mark_varkeywords,
        alike_intern_varname,
    };

    reveal(State::parameters);
    reveal(State::positional);
    reveal(State::keyword_only);
    reveal(State::vararg);
    reveal(State::kwarg);
}

pub broadcast group group_alike_steps {
    alike_set_range,
    alike_fail_at,
    alike_fail,
    alike_stuck,
    alike_set_ctx,
    alike_set_loop,
    alike_set_class,
    alike_set_future,
    alike_set_qualified,
    alike_mark_generator,
    alike_mark_coroutine,
    alike_emit,
    alike_new_block,
    alike_switch_to,
    alike_insert_const,
    alike_load_const,
    alike_return_const,
    alike_return_value,
    alike_intern,
    alike_intern_varname,
    alike_check_name,
    alike_name,
    alike_push_table,
    alike_pop_table,
    alike_push_code,
    alike_pop_code,
    alike_closure,
    alike_close_function,
    alike_check_keywords,
    alike_parameters,
    alike_relink,
}

} // verus!
