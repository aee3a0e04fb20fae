//! What goes on from a state: the code unit that is open grows, and all around it stays.
use vstd::prelude::*;

use crate::ast::{
    expr_range, Arguments, BoolOp, CmpOp, Comprehension, DictItem, Expr, ExprAttribute, ExprAwait,
    ExprBinOp, ExprBoolOp, ExprCall, ExprCompare, ExprDict, ExprIf, ExprLambda, ExprNamed,
    ExprSlice, ExprSubscript, ExprUnaryOp, ExprYield, ExprYieldFrom, FStringElement,
    FStringExpressionElement, FStringPart, FStringValue, Keyword, ParameterWithDefault, Parameters,
    TextRange, UnaryOp,
};
use crate::bytecode::{
    BlockIdx, CodeFlags, CodeModel, ConstantModel, Instruction, MakeFunctionFlags,
};
use crate::error::ErrorKind;
use crate::expr_code::{
    comparison_code, comprehension_awaits, comprehension_generators, comprehension_name,
    comprehension_type, first_star, function_flags, gathered, parameter_flags, plain_function,
    positional_defaults, short_circuit, ComprehensionType, Display,
};
use crate::state::{NameUsage, Pool, State};
use crate::symboltable::Symbol;
use crate::validity::{group_layout, group_lefts, left, lefts_kept, pools_kept};

verus! {

broadcast use {group_layout, group_lefts};

/// Whether a code unit is open, and in one of its blocks.
pub open spec fn placed(s: State) -> bool {
    s.codes.len() > 0 && s.top().current_block.0 < s.top().blocks.len()
}

/// Whether a compilation that goes on in `t` has gone on from `s`, in the same code unit: its
/// pools and blocks are there still, the units around it are the same, and so are the context and
/// the class.
pub open spec fn onward(s: State, t: State) -> bool {
    &&& t.running() ==> s.running()
    &&& t.running() && placed(s) ==> {
        &&& placed(t)
        &&& t.codes.len() == s.codes.len()
        &&& t.codes.drop_last() == s.codes.drop_last()
        &&& pools_kept(s.top(), t.top())
        &&& s.top().blocks.len() <= t.top().blocks.len()
        &&& lefts_kept(s.top(), t.top())
        &&& t.ctx == s.ctx
        &&& t.class_name == s.class_name
        &&& t.optimize == s.optimize
        &&& t.qualified == s.qualified
        &&& t.future_annotations == s.future_annotations
    }
}

/// Whether a compilation that goes on in `t` has gone on from `s` and opened a code unit.
pub open spec fn inward(s: State, t: State) -> bool {
    &&& t.running() ==> s.running()
    &&& t.running() && placed(s) ==> {
        let o = t.codes.drop_last();
        &&& placed(t)
        &&& t.codes.len() == s.codes.len() + 1
        &&& o.drop_last() == s.codes.drop_last()
        &&& pools_kept(s.top(), o.last())
        &&& s.top().blocks.len() <= o.last().blocks.len()
        &&& lefts_kept(s.top(), o.last())
        &&& o.last().current_block.0 < o.last().blocks.len()
        &&& t.class_name == s.class_name
        &&& t.optimize == s.optimize
        &&& t.qualified == s.qualified
        &&& t.future_annotations == s.future_annotations
    }
}

pub broadcast proof fn onward_fail_at(s: State, error: ErrorKind, range: TextRange)
    ensures
        onward(s, #[trigger] s.fail_at(error, range)),
{
}

pub broadcast proof fn onward_fail(s: State, error: ErrorKind)
    ensures
        onward(s, #[trigger] s.fail(error)),
{
}

pub broadcast proof fn onward_stuck(s: State)
    ensures
        onward(s, #[trigger] s.stuck()),
{
}

pub broadcast proof fn onward_set_range(s: State, range: TextRange)
    ensures
        onward(s, #[trigger] s.set_range(range)),
{
}

pub broadcast proof fn onward_set_flags(s: State, flags: CodeFlags)
    ensures
        onward(s, #[trigger] s.set_flags(flags)),
{
    reveal(State::set_flags);
    reveal(pools_kept);
    reveal(lefts_kept);
    let t = s.set_flags(flags);
    if t.running() && placed(s) {
        assert(t.codes.drop_last() =~= s.codes.drop_last());
    }
}

pub broadcast proof fn onward_mark_generator(s: State)
    ensures
        onward(s, #[trigger] s.mark_generator()),
{
    broadcast use onward_set_flags;

    reveal(State::mark_generator);
}

pub broadcast proof fn onward_mark_varargs(s: State)
    ensures
        onward(s, #[trigger] s.mark_varargs()),
{
    broadcast use onward_set_flags;

    reveal(State::mark_varargs);
}

pub broadcast proof fn onward_mark_varkeywords(s: State)
    ensures
        onward(s, #[trigger] s.mark_varkeywords()),
{
    broadcast use onward_set_flags;

    reveal(State::mark_varkeywords);
}

pub broadcast proof fn onward_emit(s: State, instr: Instruction)
    ensures
        onward(s, #[trigger] s.emit(instr)),
{
    reveal(State::emit);
    reveal(pools_kept);
    reveal(lefts_kept);
    let t = s.emit(instr);
    if t.running() && placed(s) {
        assert(t.codes.drop_last() =~= s.codes.drop_last());
    }
}

pub broadcast proof fn onward_new_block(s: State)
    ensures
        onward(s, #[trigger] s.new_block()),
{
    reveal(State::new_block);
    reveal(pools_kept);
    reveal(lefts_kept);
    let t = s.new_block();
    if t.running() && placed(s) {
        assert(t.codes.drop_last() =~= s.codes.drop_last());
    }
}

pub broadcast proof fn onward_switch_to(s: State, block: BlockIdx)
    ensures
        onward(s, #[trigger] s.switch_to(block)),
{
    reveal(State::switch_to);
    reveal(pools_kept);
    reveal(lefts_kept);
    let t = s.switch_to(block);
    if t.running() && placed(s) {
        assert(t.codes.drop_last() =~= s.codes.drop_last());
    }
}

pub broadcast proof fn onward_insert_const(s: State, c: ConstantModel)
    ensures
        onward(s, #[trigger] s.insert_const(c)),
{
    reveal(State::insert_const);
    reveal(pools_kept);
    reveal(lefts_kept);
    let t = s.insert_const(c);
    if t.running() && placed(s) {
        assert(t.codes.drop_last() =~= s.codes.drop_last());
    }
}

pub broadcast proof fn onward_load_const(s: State, c: ConstantModel)
    ensures
        onward(s, #[trigger] s.load_const(c)),
{
    broadcast use {onward_insert_const, onward_emit, onward_stuck};

    reveal(State::load_const);
    reveal(State::intern_const);
}

pub broadcast proof fn onward_return_value(s: State)
    ensures
        onward(s, #[trigger] s.return_value()),
{
    broadcast use onward_emit;

    reveal(State::return_value);
    reveal(pools_kept);
    reveal(lefts_kept);
    let t = s.return_value();
    if t.running() && placed(s) {
        assert(t.codes.drop_last() =~= s.codes.drop_last());
    }
}

pub broadcast proof fn onward_insert_text(s: State, p: Pool, text: Seq<char>)
    ensures
        onward(s, #[trigger] s.insert_text(p, text)),
{
    reveal(State::insert_text);
    reveal(pools_kept);
    reveal(lefts_kept);
    let t = s.insert_text(p, text);
    if t.running() && placed(s) {
        assert(t.codes.drop_last() =~= s.codes.drop_last());
    }
}

pub broadcast proof fn onward_intern(s: State, p: Pool, name: Seq<char>)
    ensures
        onward(s, #[trigger] s.intern(p, name)),
{
    broadcast use {onward_insert_text, onward_stuck};

    reveal(State::intern);
}

pub broadcast proof fn onward_intern_varname(s: State, name: Seq<char>)
    ensures
        onward(s, #[trigger] s.intern_varname(name)),
{
    broadcast use {onward_fail, onward_intern};

    reveal(State::intern_varname);
}

pub broadcast proof fn onward_check_name(s: State, name: Seq<char>, usage: NameUsage)
    ensures
        onward(s, #[trigger] s.check_name(name, usage)),
{
    broadcast use onward_fail;

    reveal(State::check_name);
}

pub broadcast proof fn onward_symbol_access(
    s: State,
    m: Seq<char>,
    symbol: Symbol,
    usage: NameUsage,
)
    ensures
        onward(s, #[trigger] s.symbol_access(m, symbol, usage)),
{
    broadcast use {onward_insert_text, onward_emit, onward_stuck};

    reveal(State::symbol_access);
}

pub broadcast proof fn onward_name(s: State, name: Seq<char>, usage: NameUsage)
    ensures
        onward(s, #[trigger] s.name(name, usage)),
{
    broadcast use {onward_check_name, onward_stuck, onward_load_const, onward_symbol_access};

    reveal(State::name);
}

pub broadcast proof fn onward_load_closure(s: State, var: Seq<char>)
    ensures
        onward(s, #[trigger] s.load_closure(var)),
{
    broadcast use {onward_emit, onward_stuck};

    reveal(State::load_closure);
}

pub broadcast proof fn onward_load_closures(s: State, vars: Seq<Seq<char>>, i: nat)
    ensures
        onward(s, #[trigger] s.load_closures(vars, i)),
    decreases vars.len() - i,
{
    reveal(State::load_closures);
    if s.running() && i < vars.len() {
        onward_load_closure(s, vars[i as int]);
        onward_load_closures(s.load_closure(vars[i as int]), vars, i + 1);
    }
}

pub broadcast proof fn onward_closure(s: State, vars: Seq<Seq<char>>)
    ensures
        onward(s, #[trigger] s.closure(vars)),
{
    broadcast use {onward_load_closures, onward_emit, onward_stuck};

    reveal(State::closure);
}

pub broadcast proof fn onward_make_function(
    s: State,
    code: CodeModel,
    optimize: u8,
    name: Seq<char>,
    flags: MakeFunctionFlags,
)
    ensures
        onward(s, #[trigger] s.make_function(code, optimize, name, flags)),
{
    broadcast use {onward_load_const, onward_emit};

    reveal(State::make_function);
}

/// A code unit that is opened is closed again.
pub proof fn onward_close_function(
    s: State,
    t: State,
    name: Seq<char>,
    flags: MakeFunctionFlags,
)
    requires
        inward(s, t),
    ensures
        onward(s, t.close_function(s.ctx, name, flags)),
{
    broadcast use {onward_closure, onward_make_function, onward_stuck};

    reveal(State::close_function);
    reveal(State::pop_code);
    reveal(State::closure);
    reveal(State::make_function);
    reveal(State::load_const);
    reveal(State::intern_const);
}

pub broadcast proof fn inward_push_code(
    s: State,
    flags: CodeFlags,
    posonlyarg_count: u32,
    arg_count: u32,
    kwonlyarg_count: u32,
    obj_name: Seq<char>,
)
    ensures
        inward(
            s,
            #[trigger] s.push_code(flags, posonlyarg_count, arg_count, kwonlyarg_count, obj_name),
        ),
        ({
            let t = s.push_code(flags, posonlyarg_count, arg_count, kwonlyarg_count, obj_name);
            t.running() ==> t.codes.drop_last() == s.codes
        }),
{
    reveal(State::push_code);
    reveal(State::push_table);
    let t = s.push_code(flags, posonlyarg_count, arg_count, kwonlyarg_count, obj_name);
    if t.running() {
        assert(t.codes.drop_last() =~= s.codes);
    }
}

pub broadcast proof fn onward_check_keywords(s: State, keywords: Seq<Keyword>, i: nat)
    ensures
        onward(s, #[trigger] s.check_keywords(keywords, i)),
    decreases keywords.len() - i,
{
    reveal(State::check_keywords);
    if s.running() && i < keywords.len() {
        match keywords[i as int].arg {
            Some(name) => {
                onward_check_name(s, name@, NameUsage::Store);
                onward_check_keywords(s.check_name(name@, NameUsage::Store), keywords, i + 1);
            },
            None => {
                onward_check_keywords(s, keywords, i + 1);
            },
        }
    }
}

pub broadcast proof fn onward_varnames(
    s: State,
    p: Seq<ParameterWithDefault>,
    i: nat,
    without: bool,
    with: bool,
)
    ensures
        onward(s, #[trigger] s.varnames(p, i, without, with)),
    decreases p.len() - i,
{
    reveal(State::varnames);
    if s.running() && i < p.len() {
        let name = p[i as int].parameter.name@;
        onward_intern_varname(s, name);
        onward_varnames(s.intern_varname(name), p, i + 1, without, with);
        onward_varnames(s, p, i + 1, without, with);
    }
}

pub broadcast proof fn onward_parameters(s: State, p: Parameters)
    ensures
        onward(s, #[trigger] s.parameters(p)),
{
    broadcast use {
        onward_varnames,
        onward_mark_varargs,
        onward_mark_varkeywords,
        onward_intern_varname,
    };

    reveal(State::parameters);
    reveal(State::positional);
    reveal(State::keyword_only);
    reveal(State::vararg);
    reveal(State::kwarg);
}

pub broadcast group group_onward_steps {
    onward_fail_at,
    onward_fail,
    onward_stuck,
    onward_set_range,
    onward_mark_generator,
    onward_emit,
    onward_new_block,
    onward_switch_to,
    onward_insert_const,
    onward_load_const,
    onward_return_value,
    onward_intern,
    onward_intern_varname,
    onward_check_name,
    onward_name,
    inward_push_code,
    onward_check_keywords,
    onward_parameters,
}

#[verifier::spinoff_prover]
pub proof fn onward_expr(s: State, e: Expr)
    ensures
        onward(s, s.expr(e)),
    decreases e, 3nat, 0nat,
{
    broadcast use group_onward_steps;

    reveal(State::expr);
    reveal(State::call);
    reveal(State::bool_op);
    reveal(State::bin_op);
    reveal(State::subscript);
    reveal(State::unary_op);
    reveal(State::attribute);
    reveal(State::compare);
    reveal(State::display);
    reveal(State::dict);
    reveal(State::slice);
    reveal(State::yield_value);
    reveal(State::await_value);
    reveal(State::yield_from);
    reveal(State::lambda);
    reveal(State::comprehension);
    reveal(State::conditional);
    reveal(State::named);
    reveal(State::fstring);
    reveal(State::literal);
    let t = s.set_range(expr_range(e));
    match e {
        Expr::Call(x) => onward_call(t, x),
        Expr::BoolOp(x) => onward_bool_op(t, x),
        Expr::BinOp(x) => onward_bin_op(t, x),
        Expr::Subscript(x) => onward_subscript(t, x),
        Expr::UnaryOp(x) => onward_unary_op(t, x),
        Expr::Attribute(x) => onward_attribute(t, x),
        Expr::Compare(x) => onward_compare(t, x),
        Expr::List(x) => onward_display(t, x.elts@, Display::List),
        Expr::Tuple(x) => onward_display(t, x.elts@, Display::Tuple),
        Expr::SetDisplay(x) => onward_display(t, x.elts@, Display::SetDisplay),
        Expr::Dict(x) => onward_dict(t, x),
        Expr::Slice(x) => onward_slice(t, x),
        Expr::Yield(x) => onward_yield_value(t, x),
        Expr::Await(x) => onward_await_value(t, x),
        Expr::YieldFrom(x) => onward_yield_from(t, x),
        Expr::Lambda(x) => onward_lambda(t, x),
        Expr::ListComp(_) | Expr::SetComp(_) | Expr::DictComp(_) | Expr::Generator(
            _,
        ) => onward_comprehension(t, e),
        Expr::If(x) => onward_conditional(t, x),
        Expr::Named(x) => onward_named(t, x),
        Expr::FString(x) => onward_fstring(t, x.value),
        _ => {},
    }
}

#[verifier::spinoff_prover]
pub proof fn onward_bin_op(s: State, x: ExprBinOp)
    ensures
        onward(s, s.bin_op(x)),
    decreases x, 0nat, 0nat,
{
    broadcast use group_onward_steps;

    reveal(State::bin_op);
    reveal(State::expr);
    onward_expr(s, *x.left);
    onward_expr(s.expr(*x.left), *x.right);
}

#[verifier::spinoff_prover]
pub proof fn onward_subscript(s: State, x: ExprSubscript)
    ensures
        onward(s, s.subscript(x)),
    decreases x, 0nat, 0nat,
{
    broadcast use group_onward_steps;

    reveal(State::subscript);
    reveal(State::expr);
    onward_expr(s, *x.value);
    onward_expr(s.expr(*x.value), *x.slice);
}

#[verifier::spinoff_prover]
pub proof fn onward_unary_op(s: State, x: ExprUnaryOp)
    ensures
        onward(s, s.unary_op(x)),
    decreases x, 0nat, 0nat,
{
    broadcast use group_onward_steps;

    reveal(State::unary_op);
    reveal(State::expr);
    onward_expr(s, *x.operand);
}

#[verifier::spinoff_prover]
pub proof fn onward_attribute(s: State, x: ExprAttribute)
    ensures
        onward(s, s.attribute(x)),
    decreases x, 0nat, 0nat,
{
    broadcast use group_onward_steps;

    reveal(State::attribute);
    reveal(State::expr);
    onward_expr(s, *x.value);
}

#[verifier::spinoff_prover]
pub proof fn onward_display(s: State, elements: Seq<Expr>, ty: Display)
    ensures
        onward(s, s.display(elements, ty)),
    decreases elements, 2nat, 0nat,
{
    broadcast use group_onward_steps;

    reveal(State::display);
    reveal(State::gather);
    onward_gather(s, 0, elements);
}

#[verifier::spinoff_prover]
pub proof fn onward_yield_value(s: State, x: ExprYield)
    ensures
        onward(s, s.yield_value(x)),
    decreases x, 0nat, 0nat,
{
    broadcast use group_onward_steps;

    reveal(State::yield_value);
    reveal(State::bound);
    onward_bound(s.mark_generator(), x.value);
}

#[verifier::spinoff_prover]
pub proof fn onward_await_value(s: State, x: ExprAwait)
    ensures
        onward(s, s.await_value(x)),
    decreases x, 0nat, 0nat,
{
    broadcast use group_onward_steps;

    reveal(State::await_value);
    reveal(State::expr);
    onward_expr(s, *x.value);
}

#[verifier::spinoff_prover]
pub proof fn onward_yield_from(s: State, x: ExprYieldFrom)
    ensures
        onward(s, s.yield_from(x)),
    decreases x, 0nat, 0nat,
{
    broadcast use group_onward_steps;

    reveal(State::yield_from);
    reveal(State::expr);
    onward_expr(s.mark_generator(), *x.value);
}

#[verifier::spinoff_prover]
pub proof fn onward_named(s: State, x: ExprNamed)
    ensures
        onward(s, s.named(x)),
    decreases x, 0nat, 0nat,
{
    broadcast use group_onward_steps;

    reveal(State::named);
    reveal(State::expr);
    reveal(State::store);
    let value = s.expr(*x.value);
    onward_expr(s, *x.value);
    onward_store(value.emit(Instruction::Duplicate), *x.target);
}

#[verifier::spinoff_prover]
pub proof fn onward_exprs(s: State, v: Seq<Expr>, i: nat)
    ensures
        onward(s, s.exprs(v, i)),
    decreases v, 0nat, v.len() - i,
{
    broadcast use group_onward_steps;

    reveal(State::exprs);
    reveal(State::expr);
    if i < v.len() {
        onward_expr(s, v[i as int]);
        onward_exprs(s.expr(v[i as int]), v, i + 1);
    }
}

#[verifier::spinoff_prover]
pub proof fn onward_bound(s: State, e: Option<Box<Expr>>)
    ensures
        onward(s, s.bound(e)),
    decreases e, 0nat, 0nat,
{
    broadcast use group_onward_steps;

    reveal(State::bound);
    reveal(State::expr);
    if let Some(e) = e {
        onward_expr(s, *e);
    }
}

#[verifier::spinoff_prover]
pub proof fn onward_slice(s: State, x: ExprSlice)
    ensures
        onward(s, s.slice(x)),
    decreases x, 0nat, 0nat,
{
    broadcast use group_onward_steps;

    reveal(State::slice);
    reveal(State::bound);
    reveal(State::expr);
    let lower = s.bound(x.lower);
    onward_bound(s, x.lower);
    onward_bound(lower, x.upper);
    if let Some(step) = x.step {
        onward_expr(lower.bound(x.upper), *step);
    }
}

#[verifier::spinoff_prover]
pub proof fn onward_conditional(s: State, x: ExprIf)
    ensures
        onward(s, s.conditional(x)),
    decreases x, 0nat, 0nat,
{
    broadcast use group_onward_steps;

    reveal(State::conditional);
    reveal(State::jump_if);
    reveal(State::expr);
    let else_block = s.fresh();
    let t = s.new_block();
    let after = t.fresh();
    let u = t.new_block();
    let tested = u.jump_if(*x.test, false, else_block);
    let first = tested.expr(*x.body).emit(Instruction::Jump { target: after }).switch_to(else_block);
    onward_jump_if(u, *x.test, false, else_block);
    onward_expr(tested, *x.body);
    onward_expr(first, *x.orelse);
}

#[verifier::spinoff_prover]
pub proof fn onward_bool_op(s: State, x: ExprBoolOp)
    ensures
        onward(s, s.bool_op(x)),
    decreases x, 0nat, 0nat,
{
    broadcast use group_onward_steps;

    reveal(State::bool_op);
    reveal(State::bool_values);
    reveal(State::expr);
    let after = s.fresh();
    let t = s.new_block();
    if x.values@.len() > 0 {
        onward_bool_values(t, x.values@, 0, x.op, after);
        onward_expr(t.bool_values(x.values@, 0, x.op, after), x.values@[x.values@.len() - 1]);
    }
}

#[verifier::spinoff_prover]
pub proof fn onward_bool_values(s: State, v: Seq<Expr>, i: nat, op: BoolOp, after: BlockIdx)
    ensures
        onward(s, s.bool_values(v, i, op, after)),
    decreases v, 0nat, v.len() - i,
{
    broadcast use group_onward_steps;

    reveal(State::bool_values);
    reveal(State::expr);
    if i + 1 < v.len() {
        let one = s.expr(v[i as int]).emit(short_circuit(op, after));
        onward_expr(s, v[i as int]);
        onward_bool_values(one, v, i + 1, op, after);
    }
}

#[verifier::spinoff_prover]
pub proof fn onward_jump_if(s: State, e: Expr, condition: bool, target: BlockIdx)
    ensures
        onward(s, s.jump_if(e, condition, target)),
    decreases e, 4nat, 0nat,
{
    broadcast use group_onward_steps;

    reveal(State::jump_if);
    reveal(State::jump_ifs);
    reveal(State::expr);
    match e {
        Expr::BoolOp(x) => if (x.op == BoolOp::And) == condition {
            let end = s.fresh();
            let t = s.new_block();
            if x.values@.len() > 0 {
                let last = x.values@.len() - 1;
                let u = t.jump_ifs(x.values@, 0, last as nat, !condition, end);
                onward_jump_ifs(t, x.values@, 0, last as nat, !condition, end);
                onward_jump_if(u, x.values@[last], condition, target);
            }
        } else {
            onward_jump_ifs(s, x.values@, 0, x.values@.len(), condition, target);
        },
        Expr::UnaryOp(x) => if x.op == UnaryOp::Not {
            onward_jump_if(s, *x.operand, !condition, target);
        } else {
            onward_expr(s, e);
        },
        _ => onward_expr(s, e),
    }
}

#[verifier::spinoff_prover]
pub proof fn onward_jump_ifs(
    s: State,
    v: Seq<Expr>,
    i: nat,
    n: nat,
    condition: bool,
    target: BlockIdx,
)
    ensures
        onward(s, s.jump_ifs(v, i, n, condition, target)),
    decreases v, 0nat, n - i,
{
    broadcast use group_onward_steps;

    reveal(State::jump_ifs);
    reveal(State::jump_if);
    if i < n && n <= v.len() {
        onward_jump_if(s, v[i as int], condition, target);
        onward_jump_ifs(s.jump_if(v[i as int], condition, target), v, i + 1, n, condition, target);
    }
}

#[verifier::spinoff_prover]
pub proof fn onward_compare(s: State, x: ExprCompare)
    ensures
        onward(s, s.compare(x)),
    decreases x, 0nat, 0nat,
{
    broadcast use group_onward_steps;

    reveal(State::compare);
    reveal(State::compare_middle);
    reveal(State::expr);
    let n = x.ops@.len();
    if n > 0 && x.comparators@.len() == n {
        let t = s.expr(*x.left);
        onward_expr(s, *x.left);
        if n == 1 {
            onward_expr(t, x.comparators@[0]);
        } else {
            let break_block = t.fresh();
            let u = t.new_block().new_block();
            let v = u.compare_middle(x.ops@, x.comparators@, 0, break_block);
            onward_compare_middle(u, x.ops@, x.comparators@, 0, break_block);
            onward_expr(v, x.comparators@[n - 1]);
        }
    }
}

#[verifier::spinoff_prover]
pub proof fn onward_compare_middle(
    s: State,
    ops: Seq<CmpOp>,
    v: Seq<Expr>,
    i: nat,
    break_block: BlockIdx,
)
    ensures
        onward(s, s.compare_middle(ops, v, i, break_block)),
    decreases v, 0nat, v.len() - i,
{
    broadcast use group_onward_steps;

    reveal(State::compare_middle);
    reveal(State::expr);
    if i + 1 < v.len() {
        let one = s.expr(v[i as int]).emit(Instruction::Duplicate).emit(Instruction::Rotate3).emit(
            comparison_code(ops[i as int]),
        ).emit(Instruction::JumpIfFalseOrPop { target: break_block });
        onward_expr(s, v[i as int]);
        onward_compare_middle(one, ops, v, i + 1, break_block);
    }
}

#[verifier::spinoff_prover]
pub proof fn onward_dict(s: State, x: ExprDict)
    ensures
        onward(s, s.dict(x)),
    decreases x, 0nat, 0nat,
{
    broadcast use group_onward_steps;

    reveal(State::dict);
    reveal(State::dict_items);
    onward_dict_items(s, x.items@, 0, 0, false);
}

#[verifier::spinoff_prover]
pub proof fn onward_dict_items(s: State, items: Seq<DictItem>, i: nat, run: nat, made: bool)
    ensures
        onward(s, s.dict_items(items, i, run, made)),
    decreases items, 0nat, items.len() - i,
{
    broadcast use group_onward_steps;

    reveal(State::dict_items);
    reveal(State::expr);
    if i < items.len() {
        let value = items[i as int].value;
        match items[i as int].key {
            Some(key) => {
                let k = s.expr(key);
                let v = k.to(k.expr(value));
                onward_expr(s, key);
                onward_expr(k, value);
                onward_dict_items(v, items, i + 1, run + 1, made);
            },
            None => {
                let t = s.dict_run(run, made);
                let u = t.to(t.expr(value).emit(Instruction::DictUpdate));
                onward_expr(t, value);
                onward_dict_items(u, items, i + 1, 0, true);
            },
        }
    }
}

#[verifier::spinoff_prover]
pub proof fn onward_gather(s: State, before: u32, v: Seq<Expr>)
    ensures
        onward(s, s.gather(before, v)),
    decreases v, 1nat, 0nat,
{
    broadcast use group_onward_steps;

    reveal(State::gather);
    reveal(State::gather_runs);
    reveal(State::exprs);
    onward_gather_runs(s.emit(Instruction::BuildTuple { size: before }), v, 0, 0);
    onward_gather_runs(s, v, 0, 0);
    onward_exprs(s, v, 0);
}

#[verifier::spinoff_prover]
pub proof fn onward_gather_runs(s: State, v: Seq<Expr>, i: nat, run: nat)
    ensures
        onward(s, s.gather_runs(v, i, run)),
    decreases v, 0nat, v.len() - i,
{
    broadcast use group_onward_steps;

    reveal(State::gather_runs);
    reveal(State::expr);
    if i < v.len() {
        match v[i as int] {
            Expr::Starred(x) => {
                onward_expr(s, *x.value);
                onward_gather_runs(s.expr(*x.value), v, i + 1, 0);
            },
            _ => {
                let one = s.expr(v[i as int]);
                let built = one.emit(Instruction::BuildTuple { size: (run + 1) as u32 });
                onward_expr(s, v[i as int]);
                onward_gather_runs(one, v, i + 1, run + 1);
                onward_gather_runs(built, v, i + 1, 0);
            },
        }
    }
}

#[verifier::spinoff_prover]
pub proof fn onward_call(s: State, x: ExprCall)
    ensures
        onward(s, s.call(x)),
    decreases x, 0nat, 0nat,
{
    broadcast use group_onward_steps;

    reveal(State::call);
    reveal(State::expr);
    reveal(State::call_arguments);
    match *x.func {
        Expr::Attribute(f) => {
            let t = s.expr(*f.value);
            let u = t.intern_name(f.attr@).emit(
                Instruction::LoadMethod { idx: t.name_index(f.attr@) },
            );
            onward_expr(s, *f.value);
            onward_call_arguments(u, 0, x.arguments);
        },
        _ => {
            onward_expr(s, *x.func);
            onward_call_arguments(s.expr(*x.func), 0, x.arguments);
        },
    }
}

#[verifier::spinoff_prover]
pub proof fn onward_call_arguments(s: State, before: u32, a: Arguments)
    ensures
        onward(s, s.call_arguments(before, a)),
    decreases a, 0nat, 0nat,
{
    broadcast use group_onward_steps;

    reveal(State::call_arguments);
    reveal(State::gather);
    reveal(State::pass_keywords);
    let t = s.gather(before, a.args@).check_keywords(a.keywords@, 0);
    onward_gather(s, before, a.args@);
    onward_pass_keywords(
        t,
        first_star(a.args@, 0) is Some,
        gathered(before, a.args@) as u32,
        a.keywords@,
    );
}

#[verifier::spinoff_prover]
pub proof fn onward_pass_keywords(s: State, unpack: bool, size: u32, keywords: Seq<Keyword>)
    ensures
        onward(s, s.pass_keywords(unpack, size, keywords)),
    decreases keywords, 2nat, 0nat,
{
    broadcast use group_onward_steps;

    reveal(State::pass_keywords);
    reveal(State::keywords);
    reveal(State::keyword_values);
    let t = s.emit(
        if unpack {
            Instruction::BuildTupleUnpack { size }
        } else {
            Instruction::BuildTuple { size }
        },
    );
    onward_keywords(t, keywords);
    onward_keyword_values(s, keywords, 0);
}

#[verifier::spinoff_prover]
pub proof fn onward_keyword_values(s: State, keywords: Seq<Keyword>, i: nat)
    ensures
        onward(s, s.keyword_values(keywords, i)),
    decreases keywords, 0nat, keywords.len() - i,
{
    broadcast use group_onward_steps;

    reveal(State::keyword_values);
    reveal(State::expr);
    if i < keywords.len() {
        onward_expr(s, keywords[i as int].value);
        onward_keyword_values(s.expr(keywords[i as int].value), keywords, i + 1);
    }
}

#[verifier::spinoff_prover]
pub proof fn onward_keywords(s: State, keywords: Seq<Keyword>)
    ensures
        onward(s, s.keywords(keywords)),
    decreases keywords, 1nat, 0nat,
{
    broadcast use group_onward_steps;

    reveal(State::keywords);
    reveal(State::keyword_runs);
    onward_keyword_runs(s, keywords, 0, 0);
}

#[verifier::spinoff_prover]
pub proof fn onward_keyword_runs(s: State, keywords: Seq<Keyword>, i: nat, run: nat)
    ensures
        onward(s, s.keyword_runs(keywords, i, run)),
    decreases keywords, 0nat, keywords.len() - i,
{
    broadcast use group_onward_steps;

    reveal(State::keyword_runs);
    reveal(State::expr);
    if i < keywords.len() {
        let value = keywords[i as int].value;
        match keywords[i as int].arg {
            None => {
                onward_expr(s, value);
                onward_keyword_runs(s.expr(value), keywords, i + 1, 0);
            },
            Some(name) => {
                let named = s.load_const(ConstantModel::Str(name@));
                let one = named.to(named.expr(value));
                let built = one.emit(Instruction::BuildMap { size: (run + 1) as u32 });
                onward_expr(named, value);
                onward_keyword_runs(one, keywords, i + 1, run + 1);
                onward_keyword_runs(built, keywords, i + 1, 0);
            },
        }
    }
}

#[verifier::spinoff_prover]
pub proof fn onward_store(s: State, e: Expr)
    ensures
        onward(s, s.store(e)),
    decreases e, 2nat, 0nat,
{
    broadcast use group_onward_steps;

    reveal(State::store);
    reveal(State::expr);
    reveal(State::store_elements);
    reveal(State::unpack);
    match e {
        Expr::Subscript(x) => {
            onward_expr(s, *x.value);
            onward_expr(s.expr(*x.value), *x.slice);
        },
        Expr::Attribute(x) => {
            onward_expr(s.check_name(x.attr@, NameUsage::Store), *x.value);
        },
        Expr::List(x) => {
            onward_store_elements(s.unpack(x.elts@, x.range), x.elts@, 0);
        },
        Expr::Tuple(x) => {
            onward_store_elements(s.unpack(x.elts@, x.range), x.elts@, 0);
        },
        _ => {},
    }
}

#[verifier::spinoff_prover]
pub proof fn onward_store_elements(s: State, v: Seq<Expr>, i: nat)
    ensures
        onward(s, s.store_elements(v, i)),
    decreases v, 0nat, v.len() - i,
{
    broadcast use group_onward_steps;

    reveal(State::store_elements);
    reveal(State::store);
    if i < v.len() {
        let target = match v[i as int] {
            Expr::Starred(x) => *x.value,
            e => e,
        };
        onward_store(s, target);
        onward_store_elements(s.store(target), v, i + 1);
    }
}

#[verifier::spinoff_prover]
pub proof fn onward_defaults(s: State, p: Seq<ParameterWithDefault>, i: nat)
    ensures
        onward(s, s.defaults(p, i)),
    decreases p, 0nat, p.len() - i,
{
    broadcast use group_onward_steps;

    reveal(State::defaults);
    reveal(State::expr);
    if i < p.len() {
        match p[i as int].default {
            Some(e) => {
                onward_expr(s, *e);
                onward_defaults(s.expr(*e), p, i + 1);
            },
            None => onward_defaults(s, p, i + 1),
        }
    }
}

#[verifier::spinoff_prover]
pub proof fn onward_keyword_defaults(s: State, p: Seq<ParameterWithDefault>, i: nat)
    ensures
        onward(s, s.keyword_defaults(p, i)),
    decreases p, 0nat, p.len() - i,
{
    broadcast use group_onward_steps;

    reveal(State::keyword_defaults);
    reveal(State::expr);
    if i < p.len() {
        match p[i as int].default {
            Some(e) => {
                let named = s.load_const(ConstantModel::Str(p[i as int].parameter.name@));
                onward_expr(named, *e);
                onward_keyword_defaults(named.expr(*e), p, i + 1);
            },
            None => onward_keyword_defaults(s, p, i + 1),
        }
    }
}

#[verifier::spinoff_prover]
pub proof fn onward_enter_function(s: State, name: Seq<char>, p: Parameters)
    ensures
        inward(s, s.enter_function(name, p)),
    decreases p, 0nat, 0nat,
{
    broadcast use group_onward_steps;

    reveal(State::enter_function);
    reveal(State::defaults);
    reveal(State::keyword_defaults);
    let n = positional_defaults(p);
    let t = s.defaults(p.posonlyargs@, 0);
    let u = t.to(t.defaults(p.args@, 0));
    let v = if n == 0 {
        u
    } else if n > u32::MAX {
        u.stuck()
    } else {
        u.emit(Instruction::BuildTuple { size: n as u32 })
    };
    onward_defaults(s, p.posonlyargs@, 0);
    onward_defaults(t, p.args@, 0);
    onward_keyword_defaults(v, p.kwonlyargs@, 0);
}

#[verifier::spinoff_prover]
pub proof fn onward_lambda(s: State, x: ExprLambda)
    ensures
        onward(s, s.lambda(x)),
    decreases x, 0nat, 0nat,
{
    broadcast use group_onward_steps;

    reveal(State::lambda);
    reveal(State::enter_function);
    reveal(State::expr);
    let name = "<lambda>"@;
    if let Some(p) = x.parameters {
        onward_enter_function(s, name, *p);
    }
    let entered = (match x.parameters {
        Some(p) => s.enter_function(name, *p),
        None => s.push_code(function_flags(), 0, 0, 0, name),
    }).set_ctx(s.function_ctx(false)).insert_const(ConstantModel::NoneValue);
    onward_expr(entered, *x.body);

    let done = entered.to(entered.expr(*x.body).return_value());
    let flags = match x.parameters {
        Some(p) => parameter_flags(*p),
        None => plain_function(),
    };
    onward_close_function(s, done, name, flags);
}

#[verifier::spinoff_prover]
pub proof fn onward_comprehension_element(s: State, e: Expr)
    ensures
        onward(s, s.comprehension_element(e)),
    decreases e, 4nat, 0nat,
{
    broadcast use group_onward_steps;

    reveal(State::comprehension_element);
    reveal(State::expr);
    onward_expr(s, e);
}

#[verifier::spinoff_prover]
pub proof fn onward_comprehension_value(s: State, e: Expr)
    ensures
        onward(s, s.comprehension_value(e)),
    decreases e, 0nat, 0nat,
{
    broadcast use group_onward_steps;

    reveal(State::comprehension_value);
    reveal(State::comprehension_element);
    reveal(State::expr);
    match e {
        Expr::ListComp(x) => onward_comprehension_element(s, *x.elt),
        Expr::SetComp(x) => onward_comprehension_element(s, *x.elt),
        Expr::DictComp(x) => {
            onward_expr(s, *x.key);
            onward_expr(s.expr(*x.key), *x.value);
        },
        Expr::Generator(x) => onward_comprehension_element(s, *x.elt),
        _ => {},
    }
}

#[verifier::spinoff_prover]
pub proof fn onward_comprehension_loop(
    s: State,
    x: Comprehension,
    first: Option<u32>,
    loop_block: BlockIdx,
    after: BlockIdx,
)
    ensures
        onward(s, s.comprehension_loop(x, first, loop_block, after)),
    decreases x, 0nat, 0nat,
{
    broadcast use group_onward_steps;

    reveal(State::comprehension_loop);
    reveal(State::expr);
    reveal(State::store);
    reveal(State::jump_ifs);
    onward_expr(s, x.iter);
    let t = (match first {
        Some(arg0) => s.emit(Instruction::LoadFast(arg0)),
        None => s.expr(x.iter).emit(
            if x.is_async {
                Instruction::GetAIter
            } else {
                Instruction::GetIter
            },
        ),
    }).switch_to(loop_block);
    let u = if x.is_async {
        t.emit(Instruction::SetupExcept { handler: after }).emit(Instruction::GetANext).load_const(
            ConstantModel::NoneValue,
        ).emit(Instruction::YieldFrom)
    } else {
        t.emit(Instruction::ForIter { target: after })
    };
    onward_store(u, x.target);
    let v = if x.is_async {
        u.store(x.target).emit(Instruction::PopBlock)
    } else {
        u.store(x.target)
    };
    onward_jump_ifs(v, x.ifs@, 0, x.ifs@.len(), false, loop_block);
}

#[verifier::spinoff_prover]
pub proof fn onward_comprehension_loops(s: State, e: Expr, g: Seq<Comprehension>, i: nat, arg0: u32)
    ensures
        onward(s, s.comprehension_loops(e, g, i, arg0)),
    decreases e, 1nat, g.len() - i,
{
    broadcast use group_onward_steps;

    reveal(State::comprehension_loops);
    reveal(State::comprehension_value);
    reveal(State::comprehension_loop);
    reveal(State::comprehension_collect);
    if g == comprehension_generators(e) {
        if i >= g.len() {
            onward_comprehension_value(s, e);
        } else {
            let loop_block = s.fresh();
            let t = s.new_block();
            let after = t.fresh();
            let u = t.new_block();
            let first = if i == 0 {
                Some(arg0)
            } else {
                None
            };
            onward_comprehension_loop(u, g[i as int], first, loop_block, after);
            let v = u.comprehension_loop(g[i as int], first, loop_block, after);
            onward_comprehension_loops(v, e, g, i + 1, arg0);
        }
    }
}

#[verifier::spinoff_prover]
pub proof fn onward_comprehension_function(s: State, e: Expr, is_async: bool)
    ensures
        inward(s, s.comprehension_function(e, is_async)),
        s.comprehension_function(e, is_async).running() && placed(s)
            ==> s.comprehension_function(e, is_async).codes.drop_last() == s.codes,
    decreases e, 2nat, 0nat,
{
    broadcast use group_onward_steps;

    reveal(State::comprehension_function);
    reveal(State::comprehension_loops);
    let ty = comprehension_type(e);
    let t = s.push_code(
        CodeFlags { is_coroutine: is_async, ..function_flags() },
        1,
        1,
        0,
        comprehension_name(ty),
    );
    let named = t.intern_varname(".0"@);
    let u = match ty {
        ComprehensionType::List => named.emit(Instruction::BuildList { size: 0 }),
        ComprehensionType::SetDisplay => named.emit(Instruction::BuildSet { size: 0 }),
        ComprehensionType::Dict => named.emit(Instruction::BuildMap { size: 0 }),
        ComprehensionType::Generator => named,
    };
    onward_comprehension_loops(u, e, comprehension_generators(e), 0, t.varname_index(".0"@));
}

#[verifier::spinoff_prover]
pub proof fn onward_comprehension(s: State, e: Expr)
    ensures
        onward(s, s.comprehension(e)),
    decreases e, 2nat, 1nat,
{
    broadcast use group_onward_steps;

    reveal(State::comprehension);
    reveal(State::comprehension_function);
    reveal(State::expr);
    reveal(State::call_comprehension);
    let g = comprehension_generators(e);
    let ty = comprehension_type(e);
    let is_async = comprehension_awaits(e, s.ctx.func);
    let within = s.set_ctx(s.function_ctx(is_async));
    if g.len() > 0 {
        let t = within.comprehension_function(e, is_async).close_function(
            s.ctx,
            comprehension_name(ty),
            plain_function(),
        );
        onward_comprehension_function(within, e, is_async);
        onward_close_function(s, within.comprehension_function(e, is_async), comprehension_name(ty), plain_function());
        onward_expr(t, g[0].iter);
    }
}

#[verifier::spinoff_prover]
pub proof fn onward_fstring(s: State, x: FStringValue)
    ensures
        onward(s, s.fstring(x)),
    decreases x, 0nat, 0nat,
{
    broadcast use group_onward_steps;

    reveal(State::fstring);
    reveal(State::fstring_parts);
    onward_fstring_parts(s, x.parts@, 0);
}

#[verifier::spinoff_prover]
pub proof fn onward_fstring_parts(s: State, v: Seq<FStringPart>, i: nat)
    ensures
        onward(s, s.fstring_parts(v, i)),
    decreases v, 0nat, v.len() - i,
{
    broadcast use group_onward_steps;

    reveal(State::fstring_parts);
    reveal(State::fstring_elements);
    if i < v.len() {
        match v[i as int] {
            FStringPart::Literal(text) => {
                onward_fstring_parts(s.load_const(ConstantModel::Str(text@)), v, i + 1);
            },
            FStringPart::FString(f) => {
                onward_fstring_elements(s, f.elements@);
                onward_fstring_parts(s.fstring_elements(f.elements@), v, i + 1);
            },
        }
    }
}

#[verifier::spinoff_prover]
pub proof fn onward_fstring_elements(s: State, v: Seq<FStringElement>)
    ensures
        onward(s, s.fstring_elements(v)),
    decreases v, 1nat, 0nat,
{
    broadcast use group_onward_steps;

    reveal(State::fstring_elements);
    reveal(State::fstring_element_values);
    onward_fstring_element_values(s, v, 0);
}

#[verifier::spinoff_prover]
pub proof fn onward_fstring_element_values(s: State, v: Seq<FStringElement>, i: nat)
    ensures
        onward(s, s.fstring_element_values(v, i)),
    decreases v, 0nat, v.len() - i,
{
    broadcast use group_onward_steps;

    reveal(State::fstring_element_values);
    reveal(State::fstring_expression);
    if i < v.len() {
        match v[i as int] {
            FStringElement::Literal(text) => {
                onward_fstring_element_values(s.load_const(ConstantModel::Str(text@)), v, i + 1);
            },
            FStringElement::Expression(x) => {
                onward_fstring_expression(s, x);
                onward_fstring_element_values(s.fstring_expression(x), v, i + 1);
            },
        }
    }
}

#[verifier::spinoff_prover]
pub proof fn onward_fstring_expression(s: State, x: FStringExpressionElement)
    ensures
        onward(s, s.fstring_expression(x)),
    decreases x, 0nat, 0nat,
{
    broadcast use group_onward_steps;

    reveal(State::fstring_expression);
    reveal(State::fstring_elements);
    reveal(State::expr);
    reveal(State::debug_text);
    let t = s.debug_text(x.debug_text);
    match x.format_spec {
        Some(spec) => {
            onward_fstring_elements(t, spec.elements@);
            onward_expr(t.fstring_elements(spec.elements@), *x.expression);
        },
        None => {
            onward_expr(t.load_const(ConstantModel::Str(""@)), *x.expression);
        },
    }
}

} // verus!
