//! What the value of an expression is.
use vstd::prelude::*;

use crate::ast::{BoolOp, CmpOp, DictItem, Expr, ExprCall, Keyword, Number, Operator, UnaryOp};
use crate::bytecode::ConstantModel;
use crate::expr_code::{double_star, first_star, joined_bytes, keyword_names};
use crate::integer::int_literal;
use crate::machine::{is_made, step, Made, Term, World};
use crate::noting::group_pushed;
use crate::symboltable::mangled;
use crate::validity::{group_layout, group_lefts, left};



verus! {

broadcast use {group_layout, group_lefts, group_pushed};

/// How the source writes an operator.
pub open spec fn operator_symbol(op: Operator) -> Seq<char> {
    match op {
        Operator::Add => "+"@,
        Operator::Sub => "-"@,
        Operator::Mult => "*"@,
        Operator::MatMult => "@"@,
        Operator::Div => "/"@,
        Operator::Mod => "%"@,
        Operator::Pow => "**"@,
        Operator::LShift => "<<"@,
        Operator::RShift => ">>"@,
        Operator::BitOr => "|"@,
        Operator::BitXor => "^"@,
        Operator::BitAnd => "&"@,
        Operator::FloorDiv => "//"@,
    }
}

pub open spec fn unary_operator_symbol(op: UnaryOp) -> Seq<char> {
    match op {
        UnaryOp::Invert => "~"@,
        UnaryOp::Not => "not"@,
        UnaryOp::UAdd => "+"@,
        UnaryOp::USub => "-"@,
    }
}

pub open spec fn comparison_operator_symbol(op: CmpOp) -> Seq<char> {
    match op {
        CmpOp::Eq => "=="@,
        CmpOp::NotEq => "!="@,
        CmpOp::Lt => "<"@,
        CmpOp::LtE => "<="@,
        CmpOp::Gt => ">"@,
        CmpOp::GtE => ">="@,
        CmpOp::Is => "is"@,
        CmpOp::IsNot => "is not"@,
        CmpOp::In => "in"@,
        CmpOp::NotIn => "not in"@,
    }
}

/// Whether a value came about in a way from so many others.
pub open spec fn made_of(v: Term, how: Made, n: nat) -> bool {
    v matches Term::Of(m, t) && m == how && t.len() == n
}

/// Whether a value is taken as true, or as false.
pub open spec fn taken_as(w: World, v: Term, b: bool) -> bool {
    (w.truth)(v) == b
}

pub open spec fn taken_otherwise(w: World, v: Term, b: bool) -> bool {
    (w.truth)(v) != b
}

/// Whether two values stand at the end and at the start of a chain of comparisons, as any do.
pub open spec fn starts(v: Term, a: Term) -> bool {
    true
}

/// The value of a comparison.
pub open spec fn compared(op: CmpOp, a: Term, b: Term) -> Term {
    Term::Of(Made::Compare(comparison_operator_symbol(op)), seq![a, b])
}

/// Whether a value is that of an expression in a class, or in none. Of an expression that opens a
/// scope, unpacks, or formats, it is only said how the value comes about.
pub open spec fn means(w: World, cls: Option<Seq<char>>, v: Term, e: Expr) -> bool
    decreases e, 1nat, 0nat,
{
    match e {
        Expr::Name(x) => if mangled(cls, x.id@) == "__debug__"@ {
            v is Const
        } else {
            v == Term::Var(mangled(cls, x.id@))
        },
        Expr::StringLiteral(x) => v == Term::Const(ConstantModel::Str(x.value@)),
        Expr::BytesLiteral(x) => v == Term::Const(ConstantModel::Bytes(joined_bytes(x.value@, 0))),
        Expr::NumberLiteral(x) => match x.value {
            Number::Int(i) => int_literal(i) matches Ok(value) && v == Term::Const(
                ConstantModel::Integer(value),
            ),
            Number::Float(bits) => v == Term::Const(ConstantModel::Float(bits)),
            Number::Complex { re, im } => v == Term::Const(ConstantModel::Complex(re, im)),
        },
        Expr::BooleanLiteral(x) => v == Term::Const(ConstantModel::Boolean(x.value)),
        Expr::NoneLiteral(_) => v == Term::Const(ConstantModel::NoneValue),
        Expr::EllipsisLiteral(_) => v == Term::Const(ConstantModel::Ellipsis),
        Expr::BinOp(x) => {
            &&& made_of(v, Made::Binary(operator_symbol(x.op)), 2)
            &&& means(w, cls, v->Of_1[0], *x.left)
            &&& means(w, cls, v->Of_1[1], *x.right)
        },
        Expr::UnaryOp(x) => {
            &&& made_of(v, Made::Unary(unary_operator_symbol(x.op)), 1)
            &&& means(w, cls, v->Of_1[0], *x.operand)
        },
        Expr::Subscript(x) => {
            &&& made_of(v, Made::Item, 2)
            &&& means(w, cls, v->Of_1[0], *x.value)
            &&& means(w, cls, v->Of_1[1], *x.slice)
        },
        Expr::Attribute(x) => {
            &&& made_of(v, Made::Attribute(mangled(cls, x.attr@)), 1)
            &&& means(w, cls, v->Of_1[0], *x.value)
        },
        Expr::List(x) => display_means(w, cls, v, x.elts@, Made::List, Made::ChainedList),
        Expr::Tuple(x) => display_means(w, cls, v, x.elts@, Made::Tuple, Made::ChainedTuple),
        Expr::SetDisplay(x) => display_means(w, cls, v, x.elts@, Made::SetOf, Made::ChainedSet),
        Expr::Slice(x) => {
            &&& made_of(
                v,
                Made::Slice,
                if x.step is Some {
                    3
                } else {
                    2
                },
            )
            &&& bound_means(w, cls, v->Of_1[0], x.lower)
            &&& bound_means(w, cls, v->Of_1[1], x.upper)
            &&& x.step is Some ==> bound_means(w, cls, v->Of_1[2], x.step)
        },
        Expr::Yield(x) => made_of(v, Made::Sent, 1) && bound_means(w, cls, v->Of_1[0], x.value),
        Expr::Await(x) => made_of(v, Made::Received, 1) && made_of(v->Of_1[0], Made::Awaitable, 1)
            && means(w, cls, v->Of_1[0]->Of_1[0], *x.value),
        Expr::YieldFrom(x) => made_of(v, Made::Received, 1) && made_of(
            v->Of_1[0],
            Made::Iterator,
            1,
        ) && means(w, cls, v->Of_1[0]->Of_1[0], *x.value),
        Expr::If(x) => {
            ||| comes_out(w, cls, *x.test, true) && means(w, cls, v, *x.body)
            ||| comes_out(w, cls, *x.test, false) && means(w, cls, v, *x.orelse)
        },
        Expr::BoolOp(x) => decides(w, cls, v, x.values@, 0, x.op == BoolOp::Or),
        Expr::Compare(x) => exists|a: Term| #[trigger]
            starts(v, a) && means(w, cls, a, *x.left) && chain_means(
                w,
                cls,
                v,
                a,
                x.ops@,
                x.comparators@,
                0,
            ),
        Expr::Named(x) => means(w, cls, v, *x.value),
        Expr::Call(x) => call_means(w, cls, v, x),
        Expr::Dict(x) => !unpacks_map(x.items@, 0) ==> is_made(v, Made::MapOf) && items_mean(
            w,
            cls,
            v->Of_1,
            x.items@,
            0,
        ),
        Expr::Lambda(_) => is_made(v, Made::Function),
        _ => true,
    }
}

/// Whether a value is that of an expression, or None where there is none.
pub open spec fn bound_means(
    w: World,
    cls: Option<Seq<char>>,
    v: Term,
    e: Option<Box<Expr>>,
) -> bool
    decreases e, 0nat, 0nat,
{
    match e {
        Some(e) => means(w, cls, v, *e),
        None => v == Term::Const(ConstantModel::NoneValue),
    }
}

/// Whether values are those of the expressions `s[i..]`, in order.
pub open spec fn all_mean(
    w: World,
    cls: Option<Seq<char>>,
    v: Seq<Term>,
    s: Seq<Expr>,
    i: nat,
) -> bool
    decreases s, 0nat, s.len() - i,
{
    if i >= s.len() {
        v.len() == 0
    } else {
        v.len() > 0 && means(w, cls, v[0], s[i as int]) && all_mean(
            w,
            cls,
            v.drop_first(),
            s,
            i + 1,
        )
    }
}

/// Whether a value is a collection of those of expressions.
pub open spec fn display_means(
    w: World,
    cls: Option<Seq<char>>,
    v: Term,
    s: Seq<Expr>,
    how: Made,
    chained: Made,
) -> bool
    decreases s, 1nat, 0nat,
{
    if first_star(s, 0) is Some {
        is_made(v, chained)
    } else {
        is_made(v, how) && all_mean(w, cls, v->Of_1, s, 0)
    }
}

/// Whether a condition can come out so: `and` and `or` by the first operand that decides, `not` by
/// the opposite, and every other expression by the truth of its value.
pub open spec fn comes_out(w: World, cls: Option<Seq<char>>, e: Expr, b: bool) -> bool
    decreases e, 2nat, 0nat,
{
    match e {
        Expr::BoolOp(x) => all_come_out(w, cls, x.values@, 0, x.op == BoolOp::Or, b),
        Expr::UnaryOp(x) => if x.op == UnaryOp::Not {
            comes_out(w, cls, *x.operand, !b)
        } else {
            exists|v: Term| #[trigger] taken_as(w, v, b) && means(w, cls, v, e)
        },
        _ => exists|v: Term| #[trigger] taken_as(w, v, b) && means(w, cls, v, e),
    }
}

/// Whether the conditions `s[i..]` come out so together, where the first that comes out as
/// `deciding` decides.
pub open spec fn all_come_out(
    w: World,
    cls: Option<Seq<char>>,
    s: Seq<Expr>,
    i: nat,
    deciding: bool,
    b: bool,
) -> bool
    decreases s, 0nat, s.len() - i,
{
    if i >= s.len() {
        b == !deciding
    } else {
        ||| b == deciding && comes_out(w, cls, s[i as int], deciding)
        ||| comes_out(w, cls, s[i as int], !deciding) && all_come_out(
            w,
            cls,
            s,
            i + 1,
            deciding,
            b,
        )
    }
}

/// Whether a value is that of the first of the expressions `s[i..]` whose truth decides, or of the
/// last.
pub open spec fn decides(
    w: World,
    cls: Option<Seq<char>>,
    v: Term,
    s: Seq<Expr>,
    i: nat,
    deciding: bool,
) -> bool
    decreases s, 0nat, s.len() - i,
{
    if i >= s.len() {
        false
    } else if i + 1 == s.len() {
        means(w, cls, v, s[i as int])
    } else {
        ||| means(w, cls, v, s[i as int]) && (w.truth)(v) == deciding
        ||| (exists|u: Term| #[trigger]
            taken_otherwise(w, u, deciding) && means(w, cls, u, s[i as int])) && decides(
            w,
            cls,
            v,
            s,
            i + 1,
            deciding,
        )
    }
}

/// Whether a value is that of a chain of comparisons that starts with `a`: the first that is false,
/// or the last, each between neighbours.
pub open spec fn chain_means(
    w: World,
    cls: Option<Seq<char>>,
    v: Term,
    a: Term,
    ops: Seq<CmpOp>,
    s: Seq<Expr>,
    i: nat,
) -> bool
    decreases s, 0nat, s.len() - i,
{
    i < s.len() && exists|b: Term|
        {
            let r = #[trigger] compared(ops[i as int], a, b);
            means(w, cls, b, s[i as int]) && if i + 1 < s.len() && (w.truth)(r) {
                chain_means(w, cls, v, b, ops, s, i + 1)
            } else {
                v == r
            }
        }
}

/// Whether values are those of the keywords `s[i..]`, in order.
pub open spec fn keywords_mean(
    w: World,
    cls: Option<Seq<char>>,
    v: Seq<Term>,
    s: Seq<Keyword>,
    i: nat,
) -> bool
    decreases s, 0nat, s.len() - i,
{
    if i >= s.len() {
        v.len() == 0
    } else {
        v.len() > 0 && means(w, cls, v[0], s[i as int].value) && keywords_mean(
            w,
            cls,
            v.drop_first(),
            s,
            i + 1,
        )
    }
}

/// Whether a value is that of a call: of the function with its arguments in order, and under a
/// tuple of their names those that are named. Where arguments are unpacked, it is only said that
/// it is such a call.
pub open spec fn call_means(w: World, cls: Option<Seq<char>>, v: Term, x: ExprCall) -> bool
    decreases x, 0nat, 0nat,
{
    let a = x.arguments;
    if first_star(a.args@, 0) is Some || double_star(a.keywords@, 0) {
        is_made(v, Made::CallUnpacked)
    } else {
        let n = a.args@.len() as int;
        let m = a.keywords@.len() as int;
        &&& made_of(
            v,
            if m == 0 {
                Made::Call
            } else {
                Made::CallKeyword
            },
            (if m == 0 {
                1 + n
            } else {
                2 + n + m
            }) as nat,
        )
        &&& means(w, cls, v->Of_1[0], *x.func)
        &&& all_mean(w, cls, v->Of_1.subrange(1, 1 + n), a.args@, 0)
        &&& m > 0 ==> keywords_mean(w, cls, v->Of_1.subrange(1 + n, 1 + n + m), a.keywords@, 0)
            && v->Of_1.last() == Term::Const(ConstantModel::Tuple(keyword_names(a.keywords@)))
    }
}

/// Whether one of the items `s[i..]` is a `**` item.
pub open spec fn unpacks_map(s: Seq<DictItem>, i: nat) -> bool
    decreases s.len() - i,
{
    i < s.len() && (s[i as int].key is None || unpacks_map(s, i + 1))
}

/// Whether values are those of the keys and values of the items `s[i..]`, each key before its
/// value.
pub open spec fn items_mean(
    w: World,
    cls: Option<Seq<char>>,
    v: Seq<Term>,
    s: Seq<DictItem>,
    i: nat,
) -> bool
    decreases s, 0nat, s.len() - i,
{
    if i >= s.len() {
        v.len() == 0
    } else {
        match s[i as int].key {
            Some(key) => v.len() >= 2 && means(w, cls, v[0], key) && means(
                w,
                cls,
                v[1],
                s[i as int].value,
            ) && items_mean(w, cls, v.skip(2), s, i + 1),
            None => false,
        }
    }
}


} // verus!
