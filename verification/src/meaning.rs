//! What the names and the operators of the source come to in the code.
use vstd::arithmetic::div_mod::{
    lemma_fundamental_div_mod, lemma_fundamental_div_mod_converse, lemma_mod_bound,
};
use vstd::arithmetic::power::pow;
use vstd::prelude::*;

use crate::ast::{CmpOp, Operator, UnaryOp};
use crate::bytecode::{
    BinaryOperator, CodeModel, ComparisonOperator, Instruction, TestOperator, UnaryOperator,
};
use crate::expr_code::{comparison_code, operator_code, unary_code};
use crate::state::{pool_for, pool_of, NameUsage, State};
use crate::symboltable::{found_symbol, mangled, Symbol, SymbolScope};
use crate::text::{lemma_position, position};

verus! {

/// The variable that an instruction loads, stores or deletes in a code unit: a local variable, a
/// name, or one of the cells, which come before the free variables.
pub open spec fn denoted(i: Instruction, c: CodeModel) -> Option<Seq<char>> {
    match i {
        Instruction::LoadFast(n) | Instruction::StoreFast(n) | Instruction::DeleteFast(
            n,
        ) => if n < c.varnames.len() {
            Some(c.varnames[n as int])
        } else {
            None
        },
        Instruction::LoadNameAny(n) | Instruction::StoreLocal(n) | Instruction::DeleteLocal(n)
        | Instruction::LoadGlobal(n) | Instruction::StoreGlobal(n) | Instruction::DeleteGlobal(
            n,
        ) => if n < c.names.len() {
            Some(c.names[n as int])
        } else {
            None
        },
        Instruction::LoadDeref(n) | Instruction::LoadClassDeref(n) | Instruction::StoreDeref(n)
        | Instruction::DeleteDeref(n) | Instruction::LoadClosure(n) => if n < (c.cellvars
            + c.freevars).len() {
            Some((c.cellvars + c.freevars)[n as int])
        } else {
            None
        },
        _ => None,
    }
}

/// What an instruction does to the variable that it denotes.
pub open spec fn done_to(i: Instruction) -> Option<NameUsage> {
    match i {
        Instruction::LoadFast(_) | Instruction::LoadNameAny(_) | Instruction::LoadGlobal(_)
        | Instruction::LoadDeref(_) | Instruction::LoadClassDeref(_) => Some(NameUsage::Load),
        Instruction::StoreFast(_) | Instruction::StoreLocal(_) | Instruction::StoreGlobal(_)
        | Instruction::StoreDeref(_) => Some(NameUsage::Store),
        Instruction::DeleteFast(_) | Instruction::DeleteLocal(_) | Instruction::DeleteGlobal(_)
        | Instruction::DeleteDeref(_) => Some(NameUsage::Delete),
        _ => None,
    }
}

/// Whether an instruction speaks of a cell.
pub open spec fn of_cell(i: Instruction) -> bool {
    i is LoadDeref || i is LoadClassDeref || i is StoreDeref || i is DeleteDeref
}

/// The argument of an instruction that speaks of a cell.
pub open spec fn cell_argument(i: Instruction) -> u32 {
    match i {
        Instruction::LoadDeref(n) | Instruction::LoadClassDeref(n) | Instruction::StoreDeref(n)
        | Instruction::DeleteDeref(n) => n,
        _ => 0,
    }
}

/// The last instruction of the block in which code goes on.
pub open spec fn latest(c: CodeModel) -> Instruction {
    c.blocks[c.current_block.0 as int].instructions.last().instr
}

/// The instruction of a name's access does to the name what is asked, and its argument denotes
/// that name in the code unit: among the cells and the free variables if it speaks of a cell,
/// which it does for the symbols that are shared between scopes and no others.
pub proof fn a_name_is_denoted(s: State, m: Seq<char>, symbol: Symbol, usage: NameUsage)
    requires
        s.running(),
        s.codes.len() > 0,
        s.top().current_block.0 < s.top().blocks.len(),
        s.symbol_access(m, symbol, usage).running(),
    ensures
        ({
            let c = s.symbol_access(m, symbol, usage).top();
            &&& denoted(latest(c), c) == Some(m)
            &&& done_to(latest(c)) == Some(usage)
            &&& of_cell(latest(c)) <==> symbol.scope == SymbolScope::Free || symbol.scope
                == SymbolScope::Cell
        }),
{
    reveal(State::symbol_access);
    reveal(State::insert_text);
    reveal(State::emit);
    let p = pool_for(symbol.scope, s.ctx.within_func());
    let pool = pool_of(s.top(), p);
    lemma_position(pool, m);
    let c = s.symbol_access(m, symbol, usage).top();
    let d = s.insert_text(p, m).top();
    assert(c.cellvars == d.cellvars && c.freevars == d.freevars);
    if symbol.scope == SymbolScope::Free {
        let slot = s.text_slot(p, m) as int;
        assert(c.freevars[slot] == m);
        assert((c.cellvars + c.freevars)[c.cellvars.len() + slot] == m);
    } else if symbol.scope == SymbolScope::Cell {
        let slot = s.text_slot(p, m) as int;
        assert(c.cellvars[slot] == m);
        assert((c.cellvars + c.freevars)[slot] == m);
    }
}

/// The access of a name in the source denotes that name in the code, mangled where it has to be;
/// only the load of `__debug__` is that of a constant.
pub proof fn a_source_name_is_denoted(s: State, name: Seq<char>, usage: NameUsage)
    requires
        s.running(),
        s.codes.len() > 0,
        s.top().current_block.0 < s.top().blocks.len(),
        s.name(name, usage).running(),
        usage == NameUsage::Load ==> mangled(s.class_name, name) != "__debug__"@,
    ensures
        ({
            let c = s.name(name, usage).top();
            &&& denoted(latest(c), c) == Some(mangled(s.class_name, name))
            &&& done_to(latest(c)) == Some(usage)
        }),
{
    reveal(State::name);
    reveal(State::check_name);
    let m = mangled(s.class_name, name);
    a_name_is_denoted(s, m, found_symbol(s.tables.last().table, m)->0, usage);
}

/// Accesses of two names never get the same cell: where the arguments are the same in a code unit
/// with the same cells, so are the names.
pub proof fn names_share_no_cell(
    s: State,
    m: Seq<char>,
    symbol: Symbol,
    usage: NameUsage,
    t: State,
    other: Seq<char>,
    other_symbol: Symbol,
    other_usage: NameUsage,
)
    requires
        s.running(),
        s.codes.len() > 0,
        s.top().current_block.0 < s.top().blocks.len(),
        s.symbol_access(m, symbol, usage).running(),
        t.running(),
        t.codes.len() > 0,
        t.top().current_block.0 < t.top().blocks.len(),
        t.symbol_access(other, other_symbol, other_usage).running(),
        ({
            let c = s.symbol_access(m, symbol, usage).top();
            let d = t.symbol_access(other, other_symbol, other_usage).top();
            &&& of_cell(latest(c))
            &&& of_cell(latest(d))
            &&& cell_argument(latest(c)) == cell_argument(latest(d))
            &&& c.cellvars == d.cellvars
            &&& c.freevars =~= d.freevars.take(c.freevars.len() as int)
            &&& c.freevars.len() <= d.freevars.len()
        }),
    ensures
        m == other,
{
    a_name_is_denoted(s, m, symbol, usage);
    a_name_is_denoted(t, other, other_symbol, other_usage);
    let c = s.symbol_access(m, symbol, usage).top();
    let d = t.symbol_access(other, other_symbol, other_usage).top();
    let i = cell_argument(latest(c)) as int;
    assert((c.cellvars + c.freevars)[i] == (d.cellvars + d.freevars)[i]);
}

/// A closure is made of the cells of the variables that it is to hold.
pub proof fn a_closure_is_denoted(s: State, var: Seq<char>)
    requires
        s.running(),
        s.codes.len() > 0,
        s.top().current_block.0 < s.top().blocks.len(),
        s.load_closure(var).running(),
        s.tables.len() > 0,
        found_symbol(s.tables.last().table, var) matches Some(y) ==> y.scope == SymbolScope::Free
            || y.scope == SymbolScope::Cell,
    ensures
        ({
            let c = s.load_closure(var).top();
            latest(c) is LoadClosure && denoted(latest(c), c) == Some(var)
        }),
{
    reveal(State::load_closure);
    reveal(State::emit);
    let c = s.load_closure(var).top();
    lemma_position(s.top().cellvars, var);
    lemma_position(s.top().freevars, var);
    let symbol = found_symbol(s.tables.last().table, var)->0;
    if symbol.scope == SymbolScope::Cell {
        let slot = position(c.cellvars, var)->0 as int;
        assert((c.cellvars + c.freevars)[slot] == var);
    } else {
        let slot = position(c.freevars, var)->0 as int;
        assert((c.cellvars + c.freevars)[c.cellvars.len() + slot] == var);
    }
}

/// A quotient rounded down.
pub open spec fn floor(a: int, b: int) -> int {
    if b > 0 {
        a / b
    } else {
        (-a) / (-b)
    }
}

/// The bit of a number at a place, of a negative one as if ones went on before it for ever.
pub open spec fn bit(a: int, i: nat) -> bool {
    (a / pow(2, i)) % 2 == 1
}

/// Whether the bits of a number are those that are in both of two numbers.
pub open spec fn both_bits(a: int, b: int, r: int) -> bool {
    forall|i: nat| #[trigger] bit(r, i) == (bit(a, i) && bit(b, i))
}

/// Whether the bits of a number are those that are in either of two numbers.
pub open spec fn either_bits(a: int, b: int, r: int) -> bool {
    forall|i: nat| #[trigger] bit(r, i) == (bit(a, i) || bit(b, i))
}

/// Whether the bits of a number are those that are in one of two numbers and not in the other.
pub open spec fn one_bits(a: int, b: int, r: int) -> bool {
    forall|i: nat| #[trigger] bit(r, i) == (bit(a, i) != bit(b, i))
}

/// Whether `q` is the greatest integer that is no greater than the quotient of two integers.
pub open spec fn is_floor(a: int, b: int, q: int) -> bool {
    if b > 0 {
        q * b <= a < q * b + b
    } else {
        q * b + b < a <= q * b
    }
}

/// Whether `r` is what a multiple of `b` leaves of `a`, with the sign of `b` and nearer to zero.
pub open spec fn is_remainder(a: int, b: int, q: int, r: int) -> bool {
    a == q * b + r && if b > 0 {
        0 <= r < b
    } else {
        b < r <= 0
    }
}

/// What an instruction makes of two integers: whether it gives `num / den`.
pub open spec fn gives(op: BinaryOperator, a: int, b: int, num: int, den: int) -> bool {
    match op {
        BinaryOperator::Add => num == (a + b) * den,
        BinaryOperator::Subtract => num == (a - b) * den,
        BinaryOperator::Multiply => num == (a * b) * den,
        BinaryOperator::MatrixMultiply => false,
        BinaryOperator::Divide => b != 0 && num * b == a * den,
        BinaryOperator::FloorDivide => b != 0 && num == floor(a, b) * den,
        BinaryOperator::Modulo => b != 0 && num == (a - floor(a, b) * b) * den,
        BinaryOperator::Power => b >= 0 && num == pow(a, b as nat) * den,
        BinaryOperator::Lshift => b >= 0 && num == (a * pow(2, b as nat)) * den,
        BinaryOperator::Rshift => b >= 0 && num == (a / pow(2, b as nat)) * den,
        BinaryOperator::And => exists|r: int|
            num == r * den && #[trigger] both_bits(a, b, r),
        BinaryOperator::Or => exists|r: int|
            num == r * den && #[trigger] either_bits(a, b, r),
        BinaryOperator::Xor => exists|r: int|
            num == r * den && #[trigger] one_bits(a, b, r),
    }
}

/// What the source means by an operator between two integers: whether it is `num / den`. A
/// quotient in integers is the greatest that is no greater than the quotient, and a remainder has
/// the sign of the divisor.
pub open spec fn meant(op: Operator, a: int, b: int, num: int, den: int) -> bool {
    match op {
        Operator::Add => num == a * den + b * den,
        Operator::Sub => num == a * den - b * den,
        Operator::Mult => num == a * (b * den),
        Operator::MatMult => false,
        Operator::Div => b != 0 && num * b == a * den,
        Operator::FloorDiv => b != 0 && exists|q: int|
            num == q * den && #[trigger] is_floor(a, b, q),
        Operator::Mod => b != 0 && exists|q: int, r: int|
            num == r * den && #[trigger] is_remainder(a, b, q, r),
        Operator::Pow => b >= 0 && num == pow(a, b as nat) * den,
        Operator::LShift => b >= 0 && num == (a * pow(2, b as nat)) * den,
        Operator::RShift => b >= 0 && num == (a / pow(2, b as nat)) * den,
        Operator::BitOr => exists|r: int|
            num == r * den && #[trigger] either_bits(a, b, r),
        Operator::BitXor => exists|r: int|
            num == r * den && #[trigger] one_bits(a, b, r),
        Operator::BitAnd => exists|r: int|
            num == r * den && #[trigger] both_bits(a, b, r),
    }
}

/// A floor is the one integer that lies no further than one divisor below.
proof fn lemma_floor(a: int, b: int, q: int)
    requires
        b != 0,
    ensures
        floor(a, b) == q <==> is_floor(a, b, q),
{
    let (x, d) = if b > 0 {
        (a, b)
    } else {
        (-a, -b)
    };
    lemma_fundamental_div_mod(x, d);
    lemma_mod_bound(x, d);
    assert(d * (x / d) == (x / d) * d) by (nonlinear_arith);
    assert(q * (-b) == -(q * b)) by (nonlinear_arith);
    if q * d <= x < q * d + d {
        lemma_fundamental_div_mod_converse(x, d, q, x - q * d);
    }
}

/// The instruction of a binary operator computes on integers what the source means by it.
pub proof fn an_operator_keeps_its_meaning(
    op: Operator,
    inplace: bool,
    a: int,
    b: int,
    num: int,
    den: int,
)
    requires
        den > 0,
    ensures
        match operator_code(op, inplace) {
            Instruction::BinaryOperation { op: o } => !inplace && (gives(o, a, b, num, den)
                <==> meant(op, a, b, num, den)),
            Instruction::BinaryOperationInplace { op: o } => inplace && (gives(o, a, b, num, den)
                <==> meant(op, a, b, num, den)),
            _ => false,
        },
{
    assert((a + b) * den == a * den + b * den) by (nonlinear_arith);
    assert((a - b) * den == a * den - b * den) by (nonlinear_arith);
    assert((a * b) * den == a * (b * den)) by (nonlinear_arith);
    if b != 0 {
        lemma_floor(a, b, floor(a, b));
        if op == Operator::FloorDiv && meant(op, a, b, num, den) {
            let q = choose|q: int|
                num == q * den && #[trigger] is_floor(a, b, q);
            lemma_floor(a, b, q);
        }
        if op == Operator::Mod {
            if meant(op, a, b, num, den) {
                let (q, r) = choose|q: int, r: int|
                    num == r * den && #[trigger] is_remainder(a, b, q, r);
                lemma_floor(a, b, q);
            }
            if num == (a - floor(a, b) * b) * den {
                let q = floor(a, b);
                let r = a - q * b;
                assert(is_remainder(a, b, q, r));
            }
        }
    }
}

/// Different operators never get the same instruction.
pub proof fn operators_stay_apart(op: Operator, inplace: bool, other: Operator, other_inplace: bool)
    ensures
        operator_code(op, inplace) == operator_code(other, other_inplace) <==> op == other
            && inplace == other_inplace,
{
}

/// What an instruction makes of an integer.
pub open spec fn unary_gives(op: UnaryOperator, a: int) -> int {
    match op {
        UnaryOperator::Not => if a == 0 {
            1
        } else {
            0
        },
        UnaryOperator::Invert => -a - 1,
        UnaryOperator::Minus => -a,
        UnaryOperator::Plus => a,
    }
}

/// What the source means by an operator before an integer: a negation of the number, of its bits
/// or of its truth, which is one or nought.
pub open spec fn unary_meant(op: UnaryOp, a: int, r: int) -> bool {
    match op {
        UnaryOp::UAdd => r == a,
        UnaryOp::USub => r + a == 0,
        UnaryOp::Invert => r + a + 1 == 0,
        UnaryOp::Not => (r == 0 || r == 1) && (r == 1 <==> a == 0),
    }
}

/// The instruction of a unary operator computes on integers what the source means by it.
pub proof fn a_unary_operator_keeps_its_meaning(op: UnaryOp, a: int, r: int)
    ensures
        unary_code(op) matches Instruction::UnaryOperation { op: o } && (unary_gives(o, a) == r
            <==> unary_meant(op, a, r)),
{
}

/// Whether a comparison of two integers holds.
pub open spec fn compares(op: ComparisonOperator, a: int, b: int) -> bool {
    match op {
        ComparisonOperator::Less => a < b,
        ComparisonOperator::Greater => a > b,
        ComparisonOperator::NotEqual => a != b,
        ComparisonOperator::Equal => a == b,
        ComparisonOperator::LessOrEqual => a <= b,
        ComparisonOperator::GreaterOrEqual => a >= b,
    }
}

/// The comparisons that the source means to hold between two integers that differ by `d`.
pub open spec fn compares_by(op: CmpOp, d: int) -> bool {
    match op {
        CmpOp::Eq => d == 0,
        CmpOp::NotEq => d != 0,
        CmpOp::Lt => d < 0,
        CmpOp::LtE => d <= 0,
        CmpOp::Gt => d > 0,
        CmpOp::GtE => d >= 0,
        _ => false,
    }
}

/// The instruction of a comparison holds of two integers where the source means it to, and a test
/// for membership or identity is turned round by the same word as in the source.
pub proof fn a_comparison_keeps_its_meaning(op: CmpOp, a: int, b: int)
    ensures
        match comparison_code(op) {
            Instruction::CompareOperation { op: o } => !(op is In || op is NotIn || op is Is
                || op is IsNot) && (compares(o, a, b) <==> compares_by(op, a - b)),
            Instruction::TestOperation { op: o } => {
                &&& o is In <==> op is In
                &&& o is NotIn <==> op is NotIn
                &&& o is Is <==> op is Is
                &&& o is IsNot <==> op is IsNot
                &&& o != TestOperator::ExceptionMatch
            },
            _ => false,
        },
{
}

} // verus!
