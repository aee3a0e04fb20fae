//! What a parser never leaves out: an f-string has a part.
use vstd::prelude::*;

use crate::ast::{
    Arguments, Comprehension, DictItem, Expr, FStringElement, FStringExpressionElement, FStringPart,
    FStringValue, Keyword, ParameterWithDefault, Parameters,
};

verus! {

/// Whether every f-string in an expression has a part.
pub open spec fn whole(e: Expr) -> bool
    decreases e,
{
    match e {
        Expr::BoolOp(x) => forall|i: int| 0 <= i < x.values@.len() ==> whole(#[trigger] x.values@[i]),
        Expr::Named(x) => whole(*x.target) && whole(*x.value),
        Expr::BinOp(x) => whole(*x.left) && whole(*x.right),
        Expr::UnaryOp(x) => whole(*x.operand),
        Expr::Lambda(x) => whole(*x.body) && (x.parameters matches Some(p) ==> whole_parameters(*p)),
        Expr::If(x) => whole(*x.test) && whole(*x.body) && whole(*x.orelse),
        Expr::Dict(x) => forall|i: int|
            0 <= i < x.items@.len() ==> whole_item(#[trigger] x.items@[i]),
        Expr::SetDisplay(x) => forall|i: int|
            0 <= i < x.elts@.len() ==> whole(#[trigger] x.elts@[i]),
        Expr::ListComp(x) => whole(*x.elt) && forall|i: int|
            0 <= i < x.generators@.len() ==> whole_generator(#[trigger] x.generators@[i]),
        Expr::SetComp(x) => whole(*x.elt) && forall|i: int|
            0 <= i < x.generators@.len() ==> whole_generator(#[trigger] x.generators@[i]),
        Expr::DictComp(x) => whole(*x.key) && whole(*x.value) && forall|i: int|
            0 <= i < x.generators@.len() ==> whole_generator(#[trigger] x.generators@[i]),
        Expr::Generator(x) => whole(*x.elt) && forall|i: int|
            0 <= i < x.generators@.len() ==> whole_generator(#[trigger] x.generators@[i]),
        Expr::Await(x) => whole(*x.value),
        Expr::Yield(x) => x.value matches Some(v) ==> whole(*v),
        Expr::YieldFrom(x) => whole(*x.value),
        Expr::Compare(x) => whole(*x.left) && forall|i: int|
            0 <= i < x.comparators@.len() ==> whole(#[trigger] x.comparators@[i]),
        Expr::Call(x) => whole(*x.func) && whole_arguments(x.arguments),
        Expr::FString(x) => whole_fstring(x.value),
        Expr::Attribute(x) => whole(*x.value),
        Expr::Subscript(x) => whole(*x.value) && whole(*x.slice),
        Expr::Starred(x) => whole(*x.value),
        Expr::List(x) => forall|i: int| 0 <= i < x.elts@.len() ==> whole(#[trigger] x.elts@[i]),
        Expr::Tuple(x) => forall|i: int| 0 <= i < x.elts@.len() ==> whole(#[trigger] x.elts@[i]),
        Expr::Slice(x) => (x.lower matches Some(v) ==> whole(*v)) && (x.upper matches Some(v)
            ==> whole(*v)) && (x.step matches Some(v) ==> whole(*v)),
        _ => true,
    }
}

/// Whether every f-string in some expressions has a part.
pub open spec fn all_whole(s: Seq<Expr>) -> bool {
    forall|i: int| 0 <= i < s.len() ==> whole(#[trigger] s[i])
}

/// Whether every f-string in an expression has a part, if it is there.
pub open spec fn maybe_whole(e: Option<Box<Expr>>) -> bool {
    e matches Some(e) ==> whole(*e)
}

pub open spec fn whole_item(x: DictItem) -> bool
    decreases x,
{
    (x.key matches Some(k) ==> whole(k)) && whole(x.value)
}

pub open spec fn whole_items(s: Seq<DictItem>) -> bool {
    forall|i: int| 0 <= i < s.len() ==> whole_item(#[trigger] s[i])
}

pub open spec fn whole_generator(x: Comprehension) -> bool
    decreases x,
{
    whole(x.target) && whole(x.iter) && forall|i: int|
        0 <= i < x.ifs@.len() ==> whole(#[trigger] x.ifs@[i])
}

pub open spec fn whole_keyword(x: Keyword) -> bool
    decreases x,
{
    whole(x.value)
}

pub open spec fn whole_keywords(s: Seq<Keyword>) -> bool {
    forall|i: int| 0 <= i < s.len() ==> whole_keyword(#[trigger] s[i])
}

pub open spec fn whole_arguments(a: Arguments) -> bool
    decreases a,
{
    &&& forall|i: int| 0 <= i < a.args@.len() ==> whole(#[trigger] a.args@[i])
    &&& forall|i: int| 0 <= i < a.keywords@.len() ==> whole_keyword(#[trigger] a.keywords@[i])
}

pub open spec fn whole_parameter(x: ParameterWithDefault) -> bool
    decreases x,
{
    x.default matches Some(e) ==> whole(*e)
}

pub open spec fn whole_defaults(s: Seq<ParameterWithDefault>) -> bool {
    forall|i: int| 0 <= i < s.len() ==> whole_parameter(#[trigger] s[i])
}

pub open spec fn whole_parameters(p: Parameters) -> bool
    decreases p,
{
    &&& forall|i: int|
        0 <= i < p.posonlyargs@.len() ==> whole_parameter(#[trigger] p.posonlyargs@[i])
    &&& forall|i: int| 0 <= i < p.args@.len() ==> whole_parameter(#[trigger] p.args@[i])
    &&& forall|i: int|
        0 <= i < p.kwonlyargs@.len() ==> whole_parameter(#[trigger] p.kwonlyargs@[i])
}

pub open spec fn whole_fstring(x: FStringValue) -> bool
    decreases x,
{
    x.parts@.len() > 0 && forall|i: int|
        0 <= i < x.parts@.len() ==> whole_part(#[trigger] x.parts@[i])
}

pub open spec fn whole_part(x: FStringPart) -> bool
    decreases x,
{
    x matches FStringPart::FString(f) ==> forall|i: int|
        0 <= i < f.elements@.len() ==> whole_element(#[trigger] f.elements@[i])
}

pub open spec fn whole_parts(s: Seq<FStringPart>) -> bool {
    forall|i: int| 0 <= i < s.len() ==> whole_part(#[trigger] s[i])
}

pub open spec fn whole_element(x: FStringElement) -> bool
    decreases x,
{
    x matches FStringElement::Expression(y) ==> whole_formatted(y)
}

pub open spec fn whole_elements(s: Seq<FStringElement>) -> bool {
    forall|i: int| 0 <= i < s.len() ==> whole_element(#[trigger] s[i])
}

pub open spec fn whole_formatted(x: FStringExpressionElement) -> bool
    decreases x,
{
    whole(*x.expression) && (x.format_spec matches Some(f) ==> forall|i: int|
        0 <= i < f.elements@.len() ==> whole_element(#[trigger] f.elements@[i]))
}

} // verus!
