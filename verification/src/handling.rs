//! How names, constants, operators and functions are handled on the stack.
use vstd::prelude::*;

use crate::ast::{Arguments, Expr, ExprCall, Keyword, Number};
use crate::bytecode::{BlockIdx, CodeModel, ConstantModel, Instruction, MakeFunctionFlags};
use crate::expr_code::{
    argument_count, call_code, call_type, double_star, first_star, joined_bytes, keyword_names,
    keyword_run_count,
};
use crate::integer::int_literal;
use crate::machine::{
    function_parts, is_made, make, noted, on, plain_step, step, Machine, Made, Notes, Term, World,
};
use crate::noting::{group_pushed, lemma_pushed_more, note_const, note_on, note_same, ready, Run};
use crate::onward::{
    group_onward_steps, onward, onward_closure, onward_insert_text, onward_load_closure,
    onward_load_closures, onward_make_function, onward_symbol_access, placed,
};
use crate::state::{pool_for, CompileContext, NameUsage, State};
use crate::meaning::{a_name_is_denoted, cell_argument, denoted, latest, of_cell};
use crate::symboltable::{found_symbol, mangled, Symbol, SymbolScope};
use crate::text::{lemma_position, position};
use crate::validity::{group_layout, group_lefts, left, pools_kept};



use crate::values::{all_mean, call_means, decides, keywords_mean, means};
verus! {

broadcast use {group_layout, group_lefts, group_pushed};

/// The topmost values become one, by an instruction that makes it so.
pub proof fn note_make(z: Run, s: State, n: Notes, i: Instruction, count: int, how: Made) -> (r: (
    Notes,
    Term,
))
    requires
        placed(s),
        s.running(),
        noted(z.w, z.p, s.top(), n),
        n.cur matches Some(k) ==> k.height() >= count && step(z.w, z.p, k, i) == make(k, count, how),
    ensures
        noted(z.w, z.p, s.emit(i).top(), r.0),
        r.0.at == n.at,
        n.cur is None ==> r.0.cur is None,
        n.cur matches Some(k) ==> r.1 == Term::Of(how, k.topmost(count)) && r.0.cur == Some(
            k.drop(count).push(r.1),
        ),
{
    let k = match n.cur {
        Some(k) => k,
        None => arbitrary(),
    };
    let v = Term::Of(how, k.topmost(count));
    let m = note_on(z, s, n, i, k.drop(count).push(v));
    (m, v)
}

/// A value becomes another one.
pub proof fn note_one(z: Run, s: State, n: Notes, i: Instruction, a: Term, how: Made) -> (r: Notes)
    requires
        placed(s),
        s.running(),
        noted(z.w, z.p, s.top(), n),
        n.cur matches Some(k) ==> k.height() >= 1 && k.peek(0) == a && step(z.w, z.p, k, i) == make(
            k,
            1,
            how,
        ),
    ensures
        noted(z.w, z.p, s.emit(i).top(), r),
        r.at == n.at,
        n.cur is None ==> r.cur is None,
        n.cur matches Some(k) ==> r.cur == Some(k.drop(1).push(Term::Of(how, seq![a]))),
{
    let (m, v) = note_make(z, s, n, i, 1, how);
    if let Some(k) = n.cur {
        assert(k.topmost(1) =~= seq![a]);
    }
    m
}

/// Two values become one.
pub proof fn note_two(
    z: Run,
    s: State,
    n: Notes,
    i: Instruction,
    base: Option<Machine>,
    a: Term,
    b: Term,
    how: Made,
) -> (r: Notes)
    requires
        placed(s),
        s.running(),
        noted(z.w, z.p, s.top(), n),
        n.cur is Some <==> base is Some,
        base matches Some(k) ==> n.cur == Some(k.push(a).push(b)) && step(
            z.w,
            z.p,
            k.push(a).push(b),
            i,
        ) == make(k.push(a).push(b), 2, how),
    ensures
        noted(z.w, z.p, s.emit(i).top(), r),
        r.at == n.at,
        base is None ==> r.cur is None,
        base matches Some(k) ==> r.cur == Some(k.push(Term::Of(how, seq![a, b]))),
{
    let (m, v) = note_make(z, s, n, i, 2, how);
    m
}

/// A name comes into the pool of names, and its place there stands for it.
pub proof fn note_intern(z: Run, s: State, n: Notes, name: Seq<char>)
    requires
        ready(z, s, s.intern_name(name), n),
    ensures
        noted(z.w, z.p, s.intern_name(name).top(), n),
        s.name_index(name) < z.p.names.len(),
        z.p.names[s.name_index(name) as int] == mangled(s.class_name, name),
{
    reveal(State::intern);
    reveal(State::insert_text);
    reveal(pools_kept);
    lemma_position(s.top().names, mangled(s.class_name, name));
    note_same(z, s.top(), s.intern_name(name).top(), n);
    assert(s.intern_name(name).top().names[s.name_index(name) as int] == mangled(
        s.class_name,
        name,
    ));
}

/// Notes stay true when the code unit is marked as a generator.
pub proof fn note_marked(z: Run, s: State, n: Notes)
    requires
        placed(s),
        noted(z.w, z.p, s.top(), n),
    ensures
        noted(z.w, z.p, s.mark_generator().top(), n),
        s.mark_generator().top().cellvars == s.top().cellvars,
        s.mark_generator().top().blocks == s.top().blocks,
{
    reveal(State::mark_generator);
    reveal(State::set_flags);
    note_same(z, s.top(), s.mark_generator().top(), n);
}

/// What the iterator on the stack ends with takes its place.
pub proof fn note_received(z: Run, s: State, n: Notes, base: Option<Machine>, g: Term) -> (r: Notes)
    requires
        ready(
            z,
            s,
            s.load_const(ConstantModel::NoneValue).emit(Instruction::YieldFrom),
            n,
        ),
        n.cur is Some <==> base is Some,
        base matches Some(k) ==> n.cur == Some(k.push(g)),
    ensures
        noted(
            z.w,
            z.p,
            s.load_const(ConstantModel::NoneValue).emit(Instruction::YieldFrom).top(),
            r,
        ),
        r.at == n.at,
        base is None ==> r.cur is None,
        base matches Some(k) ==> r.cur == Some(k.push(Term::Of(Made::Received, seq![g]))),
{
    broadcast use group_onward_steps;

    let t = s.load_const(ConstantModel::NoneValue);
    let (n1, v) = note_const(z, s, n, ConstantModel::NoneValue);
    let k = match base {
        Some(k) => k.push(Term::Of(Made::Received, seq![g])),
        None => arbitrary(),
    };
    reveal(plain_step);
    note_on(z, t, n1, Instruction::YieldFrom, k)
}

/// A name's load pushes what it stands for.
#[verifier::spinoff_prover]
pub proof fn note_load_name(z: Run, s: State, n: Notes, name: Seq<char>) -> (r: (Notes, Term))
    requires
        ready(z, s, s.load_name(name), n),
    ensures
        noted(z.w, z.p, s.load_name(name).top(), r.0),
        r.0.at == n.at,
        n.cur is None ==> r.0.cur is None,
        n.cur matches Some(k) ==> r.0.cur == Some(k.push(r.1)),
        if mangled(s.class_name, name) == "__debug__"@ {
            r.1 is Const
        } else {
            r.1 == Term::Var(mangled(s.class_name, name))
        },
{
    broadcast use group_onward_steps;

    reveal(State::name);
    reveal(State::check_name);
    let m = mangled(s.class_name, name);
    let symbol = found_symbol(s.tables.last().table, m)->0;
    if m == "__debug__"@ {
        note_const(z, s, n, ConstantModel::Boolean(s.optimize == 0))
    } else {
        let k = match n.cur {
            Some(k) => k.push(Term::Var(m)),
            None => arbitrary(),
        };
        (note_access(z, s, n, m, symbol, NameUsage::Load, k), Term::Var(m))
    }
}

/// The access of a name: a load pushes what it stands for, a store takes off the value.
#[verifier::spinoff_prover]
pub proof fn note_access(
    z: Run,
    s: State,
    n: Notes,
    m: Seq<char>,
    symbol: Symbol,
    usage: NameUsage,
    k: Machine,
) -> (r: Notes)
    requires
        ready(z, s, s.symbol_access(m, symbol, usage), n),
        n.cur matches Some(j) ==> match usage {
            NameUsage::Load => k == j.push(Term::Var(m)),
            NameUsage::Store => j.height() >= 1 && k == j.drop(1),
            NameUsage::Delete => k == j,
        },
    ensures
        noted(z.w, z.p, s.symbol_access(m, symbol, usage).top(), r),
        r.at == n.at,
        n.cur is None ==> r.cur is None,
        n.cur is Some ==> r.cur == Some(k),
{
    broadcast use group_onward_steps;

    assert(onward(s, s.symbol_access(m, symbol, usage))) by {
        onward_symbol_access(s, m, symbol, usage);
    }
    onward_insert_text(s, pool_for(symbol.scope, s.ctx.within_func()), m);
    reveal(State::symbol_access);
    let p = pool_for(symbol.scope, s.ctx.within_func());
    let t = s.insert_text(p, m);
    let after = s.symbol_access(m, symbol, usage);
    assert(t.running()) by {
        reveal(State::insert_text);
    }
    a_name_is_denoted(s, m, symbol, usage);
    let i = latest(after.top());
    assert(after == t.emit(i) && noted(z.w, z.p, t.top(), n)) by {
        reveal(State::insert_text);
        reveal(State::emit);
        note_same(z, s.top(), t.top(), n);
    }
    assert(denoted(i, z.p) == Some(m)) by {
        reveal(pools_kept);
        if of_cell(i) {
            let c = after.top();
            assert(pools_kept(s.top(), c));
            assert(c.cellvars.len() == z.p.cellvars.len());
            assert((c.cellvars + c.freevars)[cell_argument(i) as int] == (z.p.cellvars
                + z.p.freevars)[cell_argument(i) as int]);
        }
    }
    reveal(plain_step);
    note_on(z, t, n, i, k)
}

/// A name's store takes off the value.
#[verifier::spinoff_prover]
pub proof fn note_store_name(z: Run, s: State, n: Notes, name: Seq<char>) -> (r: Notes)
    requires
        ready(z, s, s.store_name(name), n),
        n.cur matches Some(k) ==> k.height() >= 1,
    ensures
        noted(z.w, z.p, s.store_name(name).top(), r),
        r.at == n.at,
        n.cur is None ==> r.cur is None,
        n.cur matches Some(k) ==> r.cur == Some(k.drop(1)),
{
    broadcast use group_onward_steps;

    reveal(State::name);
    reveal(State::check_name);
    let m = mangled(s.class_name, name);
    let symbol = found_symbol(s.tables.last().table, m)->0;
    let k = match n.cur {
        Some(k) => k.drop(1),
        None => arbitrary(),
    };
    note_access(z, s, n, m, symbol, NameUsage::Store, k)
}

/// A literal's load pushes its value.
pub proof fn note_literal(z: Run, s: State, n: Notes, e: Expr) -> (r: (Notes, Term))
    requires
        ready(z, s, s.literal(e), n),
    ensures
        noted(z.w, z.p, s.literal(e).top(), r.0),
        r.0.at == n.at,
        n.cur is None ==> r.0.cur is None,
        n.cur matches Some(k) ==> r.0.cur == Some(k.push(r.1)),
        means(z.w, s.class_name, r.1, e),
{
    broadcast use group_onward_steps;

    reveal(State::literal);
    let c = match e {
        Expr::StringLiteral(x) => ConstantModel::Str(x.value@),
        Expr::BytesLiteral(x) => ConstantModel::Bytes(joined_bytes(x.value@, 0)),
        Expr::NumberLiteral(x) => match x.value {
            Number::Int(i) => ConstantModel::Integer(int_literal(i)->Ok_0),
            Number::Float(bits) => ConstantModel::Float(bits),
            Number::Complex { re, im } => ConstantModel::Complex(re, im),
        },
        Expr::BooleanLiteral(x) => ConstantModel::Boolean(x.value),
        Expr::NoneLiteral(_) => ConstantModel::NoneValue,
        _ => ConstantModel::Ellipsis,
    };
    note_const(z, s, n, c)
}

/// Where the keywords of a call are not refused, nothing changes.
pub proof fn lemma_keywords_checked(s: State, v: Seq<Keyword>, i: nat)
    ensures
        s.check_keywords(v, i).running() ==> s.check_keywords(v, i) == s,
    decreases v.len() - i,
{
    reveal(State::check_keywords);
    reveal(State::check_name);
    if s.running() && i < v.len() {
        let one = match v[i as int].arg {
            Some(name) => s.check_name(name@, NameUsage::Store),
            None => s,
        };
        lemma_keywords_checked(one, v, i + 1);
    }
}

/// Whether a jump can go to a block with the machine as it is.
pub open spec fn can_go(t: State, n: Notes, target: BlockIdx) -> bool {
    n.cur matches Some(k) ==> if n.at.contains_key(target.0 as int) {
        n.at[target.0 as int] == k
    } else {
        !left(t.top(), target.0 as int)
    }
}

/// The notes after a jump that may or may not have been taken.
pub open spec fn jumped(n: Notes, m: Notes, target: BlockIdx, taken: bool) -> bool {
    &&& n.cur is None ==> m.cur is None && m.at.contains_key(target.0 as int) == n.at.contains_key(
        target.0 as int,
    )
    &&& n.cur matches Some(k) ==> if taken {
        m.cur is None && m.at.contains_key(target.0 as int) && m.at[target.0 as int] == k
    } else {
        m.cur == Some(k) && m.at.contains_key(target.0 as int) == n.at.contains_key(target.0 as int)
    }
    &&& n.at.contains_key(target.0 as int) ==> m.at[target.0 as int] == n.at[target.0 as int]
}

/// Where no value of a boolean operation but the last decides, the last is its value.
pub proof fn lemma_decides(
    w: World,
    cls: Option<Seq<char>>,
    s: Seq<Expr>,
    deciding: bool,
    d: Option<Term>,
    a: Term,
)
    requires
        s.len() > 0,
        means(w, cls, a, s[s.len() - 1]),
        match d {
            Some(d) => decides(w, cls, d, s, 0, deciding),
            None => forall|v: Term| #[trigger]
                means(w, cls, v, s[s.len() - 1]) ==> decides(w, cls, v, s, 0, deciding),
        },
    ensures
        decides(
            w,
            cls,
            match d {
                Some(d) => d,
                None => a,
            },
            s,
            0,
            deciding,
        ),
{
}

/// The machine where code goes on, if a run comes there.
pub open spec fn base_of(n: Notes) -> Machine {
    match n.cur {
        Some(k) => k,
        None => arbitrary(),
    }
}

/// How a call of these arguments is made.
pub open spec fn called_as(a: Arguments) -> Made {
    if first_star(a.args@, 0) is Some || double_star(a.keywords@, 0) {
        Made::CallUnpacked
    } else if a.keywords@.len() > 0 {
        Made::CallKeyword
    } else {
        Made::Call
    }
}

/// Whether values are those of the arguments of a call, `before` having come before them.
pub open spec fn passed(
    w: World,
    cls: Option<Seq<char>>,
    a: Arguments,
    before: int,
    v: Seq<Term>,
) -> bool {
    let n = a.args@.len() as int;
    let m = a.keywords@.len() as int;
    if first_star(a.args@, 0) is Some || double_star(a.keywords@, 0) {
        v.len() == 1 + (if m > 0 {
            1nat
        } else {
            0
        })
    } else {
        &&& v.len() == before + n + (if m > 0 {
            m + 1
        } else {
            0
        })
        &&& all_mean(w, cls, v.subrange(before, before + n), a.args@, 0)
        &&& m > 0 ==> keywords_mean(w, cls, v.subrange(before + n, before + n + m), a.keywords@, 0)
            && v.last() == Term::Const(ConstantModel::Tuple(keyword_names(a.keywords@)))
    }
}

/// Whether values are some that came before and those of keywords.
pub open spec fn named(
    w: World,
    cls: Option<Seq<char>>,
    unpack: bool,
    s: Seq<Keyword>,
    b: Seq<Term>,
    v: Seq<Term>,
) -> bool {
    let n = b.len() as int;
    let m = s.len() as int;
    if unpack || double_star(s, 0) {
        v.len() == 1 + (if m > 0 {
            1nat
        } else {
            0
        })
    } else {
        &&& v.len() == n + (if m > 0 {
            m + 1
        } else {
            0
        })
        &&& v.take(n) == b
        &&& m > 0 ==> keywords_mean(w, cls, v.subrange(n, n + m), s, 0) && v.last() == Term::Const(
            ConstantModel::Tuple(keyword_names(s)),
        )
    }
}

/// What the instruction of a call takes off the stack is what is passed to it.
#[verifier::spinoff_prover]
pub proof fn lemma_call_step(
    z: Run,
    k: Machine,
    cls: Option<Seq<char>>,
    a: Arguments,
    v: Seq<Term>,
    method: bool,
)
    requires
        passed(z.w, cls, a, 0, v),
        argument_count(0, a) <= u32::MAX,
    ensures
        step(z.w, z.p, k, call_code(call_type(0, a), method)) == make(
            k,
            v.len() as int + 1,
            called_as(a),
        ),
{
    reveal(plain_step);
}

/// What a function is called with is that of a call.
pub proof fn lemma_called(w: World, cls: Option<Seq<char>>, x: ExprCall, f: Term, v: Seq<Term>)
    requires
        means(w, cls, f, *x.func),
        passed(w, cls, x.arguments, 0, v),
    ensures
        means(w, cls, Term::Of(called_as(x.arguments), seq![f] + v), Expr::Call(x)),
{
    let a = x.arguments;
    let n = a.args@.len() as int;
    let m = a.keywords@.len() as int;
    let t = seq![f] + v;
    if first_star(a.args@, 0) is None && !double_star(a.keywords@, 0) {
        assert(t.subrange(1, 1 + n) =~= v.subrange(0, n));
        if m > 0 {
            assert(t.subrange(1 + n, 1 + n + m) =~= v.subrange(n, n + m));
        }
    }
    assert(call_means(w, cls, Term::Of(called_as(a), t), x));
}

/// Where no keyword is a `**` argument, all have names.
pub proof fn lemma_named(v: Seq<Keyword>, i: nat)
    requires
        !double_star(v, i),
    ensures
        forall|j: int| i <= j < v.len() ==> (#[trigger] v[j]).arg is Some,
    decreases v.len() - i,
{
    if i < v.len() {
        lemma_named(v, i + 1);
    }
}

pub proof fn lemma_some_run(v: Seq<Keyword>, i: nat)
    requires
        i < v.len(),
    ensures
        keyword_run_count(v, i) > 0,
    decreases v.len() - i,
{
    if i + 1 < v.len() {
        lemma_some_run(v, i + 1);
    }
}

/// The code unit around the one that is open.
pub open spec fn outer(s: State) -> CodeModel {
    s.codes.drop_last().last()
}

/// The cells of a closure come onto the stack.
#[verifier::spinoff_prover]
pub proof fn note_closures(
    z: Run,
    s: State,
    n: Notes,
    v: Seq<Seq<char>>,
    i: nat,
    k: Machine,
    b: Seq<Term>,
) -> (r: (
    Notes,
    Seq<Term>,
))
    requires
        ready(z, s, s.load_closures(v, i), n),
        i <= v.len(),
        n.cur is Some ==> n.cur == Some(k.push_all(b)),
    ensures
        noted(z.w, z.p, s.load_closures(v, i).top(), r.0),
        r.0.at == n.at,
        n.cur is None ==> r.0.cur is None,
        n.cur is Some ==> r.0.cur == Some(k.push_all(r.1)),
        r.1.len() == b.len() + v.len() - i,
    decreases v.len() - i,
{
    broadcast use {group_onward_steps, onward_load_closure, onward_load_closures};

    reveal(State::load_closures);
    reveal(State::load_closure);
    if i >= v.len() {
        (n, b)
    } else {
        let t = s.load_closure(v[i as int]);
        let c = s.top();
        lemma_position(c.cellvars, v[i as int]);
        lemma_position(c.freevars, v[i as int]);
        let symbol = found_symbol(s.tables.last().table, v[i as int])->0;
        let slot = position(
            if symbol.scope == SymbolScope::Cell {
                c.cellvars
            } else {
                c.freevars
            },
            v[i as int],
        )->0;
        let idx = (slot + if symbol.scope == SymbolScope::Free {
            c.cellvars.len()
        } else {
            0
        }) as u32;
        let j = Instruction::LoadClosure(idx);
        assert(idx < (z.p.cellvars + z.p.freevars).len()) by {
            reveal(pools_kept);
        }
        let a = Term::Of(Made::Cell((z.p.cellvars + z.p.freevars)[idx as int]), Seq::empty());
        lemma_pushed_more(k, b, a);
        assert(step(z.w, z.p, k.push_all(b), j) == on(k.push_all(b).push(a))) by {
            reveal(plain_step);
        }
        let n1 = note_on(z, s, n, j, k.push_all(b.push(a)));
        note_closures(z, t, n1, v, i + 1, k, b.push(a))
    }
}

/// The closure of a function comes onto the stack, if it has one.
#[verifier::spinoff_prover]
pub proof fn note_captured(
    z: Run,
    s: State,
    n: Notes,
    v: Seq<Seq<char>>,
    k: Machine,
    b: Seq<Term>,
) -> (r: (
    Notes,
    Seq<Term>,
))
    requires
        ready(z, s, s.closure(v), n),
        n.cur is Some ==> n.cur == Some(k.push_all(b)),
    ensures
        noted(z.w, z.p, s.closure(v).top(), r.0),
        r.0.at == n.at,
        n.cur is None ==> r.0.cur is None,
        n.cur is Some ==> r.0.cur == Some(k.push_all(r.1)),
        r.1.len() == b.len() + (if v.len() > 0 {
            1nat
        } else {
            0
        }),
{
    broadcast use {group_onward_steps, onward_closure, onward_load_closures};

    if v.len() == 0 {
        assert(s.closure(v) == s) by {
            reveal(State::closure);
        }
        (n, b)
    } else {
        let t = s.load_closures(v, 0);
        let i = Instruction::BuildTuple { size: v.len() as u32 };
        assert(s.closure(v) == t.emit(i) && v.len() <= u32::MAX) by {
            reveal(State::closure);
        }
        let (n0, c) = note_closures(z, s, n, v, 0, k, b);
        let len = v.len() as int;
        assert(step(z.w, z.p, k.push_all(c), i) == make(k.push_all(c), len, Made::Tuple)) by {
            reveal(plain_step);
        }
        let (n1, a) = note_make(z, t, n0, i, len, Made::Tuple);
        let d = c.take(b.len() as int).push(a);
        assert(k.push_all(c).drop(len).push(a).stack =~= k.push_all(d).stack);
        (n1, d)
    }
}

/// A function is made of a code unit and of the values for it.
#[verifier::spinoff_prover]
pub proof fn note_function(
    z: Run,
    s: State,
    n: Notes,
    code: CodeModel,
    optimize: u8,
    name: Seq<char>,
    flags: MakeFunctionFlags,
    k: Machine,
    b: Seq<Term>,
) -> (r: (Notes, Term))
    requires
        ready(z, s, s.make_function(code, optimize, name, flags), n),
        b.len() == function_parts(flags),
        n.cur is Some ==> n.cur == Some(k.push_all(b)),
    ensures
        noted(z.w, z.p, s.make_function(code, optimize, name, flags).top(), r.0),
        r.0.at == n.at,
        n.cur is None ==> r.0.cur is None,
        n.cur is Some ==> r.0.cur == Some(k.push(r.1)),
        is_made(r.1, Made::Function),
{
    broadcast use group_onward_steps;

    reveal(State::make_function);
    let c1 = ConstantModel::Code(code, optimize);
    let c2 = ConstantModel::Str(name);
    let t = s.load_const(c1);
    let u = t.load_const(c2);
    let (n2, a1) = note_const(z, s, n, c1);
    let (n3, a2) = note_const(z, t, n2, c2);
    let m = k.push_all(b).push(a1).push(a2);
    let v = Term::Of(Made::Function, m.drop(2).topmost(function_parts(flags)).push(m.peek(0)));
    assert(m.drop(function_parts(flags) + 2).stack =~= k.stack);
    assert(step(z.w, z.p, m, Instruction::MakeFunction(flags)) == on(k.push(v))) by {
        reveal(plain_step);
    }
    let n4 = note_on(z, u, n3, Instruction::MakeFunction(flags), k.push(v));
    (n4, v)
}

/// A code unit is closed, and a function made of it and of the values for it.
#[verifier::spinoff_prover]
pub proof fn note_closed(
    z: Run,
    s: State,
    n: Notes,
    ctx: CompileContext,
    name: Seq<char>,
    flags: MakeFunctionFlags,
    k: Machine,
    b: Seq<Term>,
) -> (r: (Notes, Term))
    requires
        s.codes.len() > 1,
        outer(s).current_block.0 < outer(s).blocks.len(),
        noted(z.w, z.p, outer(s), n),
        outer(s).cellvars.len() == z.p.cellvars.len(),
        s.close_function(ctx, name, flags).running(),
        pools_kept(s.close_function(ctx, name, flags).top(), z.p),
        s.close_function(ctx, name, flags).top().blocks.len() <= u32::MAX,
        !flags.closure,
        b.len() == function_parts(flags),
        n.cur is Some ==> n.cur == Some(k.push_all(b)),
    ensures
        noted(z.w, z.p, s.close_function(ctx, name, flags).top(), r.0),
        r.0.at == n.at,
        n.cur is None ==> r.0.cur is None,
        n.cur is Some ==> r.0.cur == Some(k.push(r.1)),
        is_made(r.1, Made::Function),
{
    let code = s.top();
    let t = s.pop_code().set_ctx(ctx);
    let u = t.closure(code.freevars);
    let full = MakeFunctionFlags { closure: code.freevars.len() > 0, ..flags };
    let end = u.make_function(code, s.optimize, name, full);
    assert(end == s.close_function(ctx, name, flags)) by {
        reveal(State::close_function);
    }
    onward_closure(t, code.freevars);
    onward_make_function(u, code, s.optimize, name, full);
    assert(t.running() && t.codes == s.codes.drop_last()) by {
        reveal(State::pop_code);
    }
    let (n1, c) = note_captured(z, t, n, code.freevars, k, b);
    note_function(z, u, n1, code, s.optimize, name, full, k, c)
}

/// What is halted before a function is closed is halted after it.
pub proof fn lemma_unclosed(
    s: State,
    ctx: CompileContext,
    name: Seq<char>,
    flags: MakeFunctionFlags,
)
    requires
        s.close_function(ctx, name, flags).running(),
    ensures
        s.running(),
{
    reveal(State::close_function);
    reveal(State::pop_code);
    reveal(State::closure);
    reveal(State::make_function);
    reveal(State::load_const);
    reveal(State::intern_const);
    reveal(State::insert_const);
    reveal(State::emit);
}

/// What a function is made in when its code unit is closed is the code unit around it.
pub proof fn lemma_closed(s: State, ctx: CompileContext, name: Seq<char>, flags: MakeFunctionFlags)
    requires
        s.codes.len() > 1,
        outer(s).current_block.0 < outer(s).blocks.len(),
        s.close_function(ctx, name, flags).running(),
    ensures
        pools_kept(outer(s), s.close_function(ctx, name, flags).top()),
        outer(s).blocks.len() <= s.close_function(ctx, name, flags).top().blocks.len(),
{
    broadcast use {onward_closure, onward_make_function};

    reveal(State::close_function);
    reveal(State::pop_code);
    let t = s.pop_code().set_ctx(ctx);
    assert(t.running());
}

} // verus!
