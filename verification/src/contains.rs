//! Where an await expression occurs.
use vstd::prelude::*;

use crate::ast::{
    Comprehension, DictItem, Expr, FStringElement, FStringPart, Keyword, ParameterWithDefault,
};
use crate::compiler::Compiler;

verus! {

/// Whether an expression is an await expression, or one occurs in it.
pub open spec fn has_await(e: Expr) -> bool
    decreases e, 1nat, 0nat,
{
    match e {
        Expr::Await(_) => true,
        Expr::Call(x) => has_await(*x.func) || any_await(x.arguments.args@, 0)
            || keyword_await(x.arguments.keywords@, 0),
        Expr::BoolOp(x) => any_await(x.values@, 0),
        Expr::BinOp(x) => has_await(*x.left) || has_await(*x.right),
        Expr::Subscript(x) => has_await(*x.value) || has_await(*x.slice),
        Expr::UnaryOp(x) => has_await(*x.operand),
        Expr::Attribute(x) => has_await(*x.value),
        Expr::Compare(x) => has_await(*x.left) || any_await(x.comparators@, 0),
        Expr::List(x) => any_await(x.elts@, 0),
        Expr::Tuple(x) => any_await(x.elts@, 0),
        Expr::SetDisplay(x) => any_await(x.elts@, 0),
        Expr::Dict(x) => item_await(x.items@, 0),
        Expr::Slice(x) => optional_await(x.lower) || optional_await(x.upper) || optional_await(
            x.step,
        ),
        Expr::Yield(x) => optional_await(x.value),
        Expr::YieldFrom(x) => has_await(*x.value),
        Expr::Lambda(x) => (match x.parameters {
            Some(p) => default_await(p.posonlyargs@, 0) || default_await(p.args@, 0)
                || default_await(p.kwonlyargs@, 0),
            None => false,
        }) || has_await(*x.body),
        Expr::ListComp(x) => has_await(*x.elt) || generator_await(x.generators@, 0),
        Expr::SetComp(x) => has_await(*x.elt) || generator_await(x.generators@, 0),
        Expr::DictComp(x) => has_await(*x.key) || has_await(*x.value) || generator_await(
            x.generators@,
            0,
        ),
        Expr::Generator(x) => has_await(*x.elt) || generator_await(x.generators@, 0),
        Expr::Starred(x) => has_await(*x.value),
        Expr::If(x) => has_await(*x.test) || has_await(*x.body) || has_await(*x.orelse),
        Expr::Named(x) => has_await(*x.target) || has_await(*x.value),
        Expr::FString(x) => part_await(x.value.parts@, 0),
        Expr::StringLiteral(_)
        | Expr::BytesLiteral(_)
        | Expr::NumberLiteral(_)
        | Expr::BooleanLiteral(_)
        | Expr::NoneLiteral(_)
        | Expr::EllipsisLiteral(_)
        | Expr::Name(_)
        | Expr::IpyEscapeCommand(_) => false,
    }
}

/// Whether an await expression occurs in one of `s[i..]`.
pub open spec fn any_await(s: Seq<Expr>, i: nat) -> bool
    decreases s, 0nat, s.len() - i,
{
    i < s.len() && (has_await(s[i as int]) || any_await(s, i + 1))
}

pub open spec fn optional_await(e: Option<Box<Expr>>) -> bool
    decreases e, 0nat, 0nat,
{
    match e {
        Some(e) => has_await(*e),
        None => false,
    }
}

pub open spec fn keyword_await(s: Seq<Keyword>, i: nat) -> bool
    decreases s, 0nat, s.len() - i,
{
    i < s.len() && (has_await(s[i as int].value) || keyword_await(s, i + 1))
}

pub open spec fn item_await(s: Seq<DictItem>, i: nat) -> bool
    decreases s, 0nat, s.len() - i,
{
    i < s.len() && ((match s[i as int].key {
        Some(key) => has_await(key),
        None => false,
    }) || has_await(s[i as int].value) || item_await(s, i + 1))
}

pub open spec fn default_await(s: Seq<ParameterWithDefault>, i: nat) -> bool
    decreases s, 0nat, s.len() - i,
{
    i < s.len() && (optional_await(s[i as int].default) || default_await(s, i + 1))
}

pub open spec fn generator_await(s: Seq<Comprehension>, i: nat) -> bool
    decreases s, 0nat, s.len() - i,
{
    i < s.len() && (has_await(s[i as int].target) || has_await(s[i as int].iter) || any_await(
        s[i as int].ifs@,
        0,
    ) || generator_await(s, i + 1))
}

pub open spec fn part_await(s: Seq<FStringPart>, i: nat) -> bool
    decreases s, 0nat, s.len() - i,
{
    i < s.len() && ((match s[i as int] {
        FStringPart::Literal(_) => false,
        FStringPart::FString(f) => element_await(f.elements@, 0),
    }) || part_await(s, i + 1))
}

pub open spec fn element_await(s: Seq<FStringElement>, i: nat) -> bool
    decreases s, 0nat, s.len() - i,
{
    i < s.len() && ((match s[i as int] {
        FStringElement::Literal(_) => false,
        FStringElement::Expression(x) => has_await(*x.expression) || (match x.format_spec {
            Some(spec) => element_await(spec.elements@, 0),
            None => false,
        }),
    }) || element_await(s, i + 1))
}

impl Compiler<'_> {
    /// Whether the expression contains an await expression and thus requires the function to be
    /// async. Async with and async for are statements, which stand in no expression.
    pub fn contains_await(expression: &Expr) -> (r: bool)
        ensures
            r == has_await(*expression),
        decreases expression, 1nat, 0nat,
    {
        match expression {
            Expr::Await(_) => true,
            Expr::Call(x) => Self::contains_await(&x.func) || Self::any_contains_await(
                &x.arguments.args,
            ) || Self::keywords_contain_await(&x.arguments.keywords),
            Expr::BoolOp(x) => Self::any_contains_await(&x.values),
            Expr::BinOp(x) => Self::contains_await(&x.left) || Self::contains_await(&x.right),
            Expr::Subscript(x) => Self::contains_await(&x.value) || Self::contains_await(&x.slice),
            Expr::UnaryOp(x) => Self::contains_await(&x.operand),
            Expr::Attribute(x) => Self::contains_await(&x.value),
            Expr::Compare(x) => Self::contains_await(&x.left) || Self::any_contains_await(
                &x.comparators,
            ),
            Expr::List(x) => Self::any_contains_await(&x.elts),
            Expr::Tuple(x) => Self::any_contains_await(&x.elts),
            Expr::SetDisplay(x) => Self::any_contains_await(&x.elts),
            Expr::Dict(x) => Self::items_contain_await(&x.items),
            Expr::Slice(x) => Self::optional_contains_await(&x.lower)
                || Self::optional_contains_await(&x.upper) || Self::optional_contains_await(
                &x.step,
            ),
            Expr::Yield(x) => Self::optional_contains_await(&x.value),
            Expr::YieldFrom(x) => Self::contains_await(&x.value),
            Expr::Lambda(x) => (match &x.parameters {
                Some(p) => Self::defaults_contain_await(&p.posonlyargs)
                    || Self::defaults_contain_await(&p.args) || Self::defaults_contain_await(
                    &p.kwonlyargs,
                ),
                None => false,
            }) || Self::contains_await(&x.body),
            Expr::ListComp(x) => Self::contains_await(&x.elt) || Self::generators_contain_await(
                &x.generators,
            ),
            Expr::SetComp(x) => Self::contains_await(&x.elt) || Self::generators_contain_await(
                &x.generators,
            ),
            Expr::DictComp(x) => Self::contains_await(&x.key) || Self::contains_await(&x.value)
                || Self::generators_contain_await(&x.generators),
            Expr::Generator(x) => Self::contains_await(&x.elt) || Self::generators_contain_await(
                &x.generators,
            ),
            Expr::Starred(x) => Self::contains_await(&x.value),
            Expr::If(x) => Self::contains_await(&x.test) || Self::contains_await(&x.body)
                || Self::contains_await(&x.orelse),
            Expr::Named(x) => Self::contains_await(&x.target) || Self::contains_await(&x.value),
            Expr::FString(x) => Self::parts_contain_await(&x.value.parts),
            Expr::StringLiteral(_)
            | Expr::BytesLiteral(_)
            | Expr::NumberLiteral(_)
            | Expr::BooleanLiteral(_)
            | Expr::NoneLiteral(_)
            | Expr::EllipsisLiteral(_)
            | Expr::Name(_)
            | Expr::IpyEscapeCommand(_) => false,
        }
    }

    fn optional_contains_await(expression: &Option<Box<Expr>>) -> (r: bool)
        ensures
            r == optional_await(*expression),
        decreases expression, 0nat, 0nat,
    {
        match expression {
            Some(e) => Self::contains_await(e),
            None => false,
        }
    }

    fn any_contains_await(s: &Vec<Expr>) -> (r: bool)
        ensures
            r == any_await(s@, 0),
        decreases s@, 1nat, 0nat,
    {
        let n: usize = s.len();
        let mut i: usize = 0;
        while i < n
            invariant
                i <= n,
                n == s@.len(),
                any_await(s@, 0) == any_await(s@, i as nat),
            decreases n - i,
        {
            if Self::contains_await(&s[i]) {
                return true;
            }
            i += 1;
        }
        false
    }

    fn keywords_contain_await(s: &Vec<Keyword>) -> (r: bool)
        ensures
            r == keyword_await(s@, 0),
        decreases s@, 1nat, 0nat,
    {
        let n: usize = s.len();
        let mut i: usize = 0;
        while i < n
            invariant
                i <= n,
                n == s@.len(),
                keyword_await(s@, 0) == keyword_await(s@, i as nat),
            decreases n - i,
        {
            if Self::contains_await(&s[i].value) {
                return true;
            }
            i += 1;
        }
        false
    }

    fn items_contain_await(s: &Vec<DictItem>) -> (r: bool)
        ensures
            r == item_await(s@, 0),
        decreases s@, 1nat, 0nat,
    {
        let n: usize = s.len();
        let mut i: usize = 0;
        while i < n
            invariant
                i <= n,
                n == s@.len(),
                item_await(s@, 0) == item_await(s@, i as nat),
            decreases n - i,
        {
            if let Some(key) = &s[i].key {
                if Self::contains_await(key) {
                    return true;
                }
            }
            if Self::contains_await(&s[i].value) {
                return true;
            }
            i += 1;
        }
        false
    }

    fn defaults_contain_await(s: &Vec<ParameterWithDefault>) -> (r: bool)
        ensures
            r == default_await(s@, 0),
        decreases s@, 1nat, 0nat,
    {
        let n: usize = s.len();
        let mut i: usize = 0;
        while i < n
            invariant
                i <= n,
                n == s@.len(),
                default_await(s@, 0) == default_await(s@, i as nat),
            decreases n - i,
        {
            if Self::optional_contains_await(&s[i].default) {
                return true;
            }
            i += 1;
        }
        false
    }

    fn generators_contain_await(s: &Vec<Comprehension>) -> (r: bool)
        ensures
            r == generator_await(s@, 0),
        decreases s@, 1nat, 0nat,
    {
        let n: usize = s.len();
        let mut i: usize = 0;
        while i < n
            invariant
                i <= n,
                n == s@.len(),
                generator_await(s@, 0) == generator_await(s@, i as nat),
            decreases n - i,
        {
            if Self::contains_await(&s[i].target) || Self::contains_await(&s[i].iter)
                || Self::any_contains_await(&s[i].ifs) {
                return true;
            }
            i += 1;
        }
        false
    }

    fn parts_contain_await(s: &Vec<FStringPart>) -> (r: bool)
        ensures
            r == part_await(s@, 0),
        decreases s@, 1nat, 0nat,
    {
        let n: usize = s.len();
        let mut i: usize = 0;
        while i < n
            invariant
                i <= n,
                n == s@.len(),
                part_await(s@, 0) == part_await(s@, i as nat),
            decreases n - i,
        {
            if let FStringPart::FString(f) = &s[i] {
                if Self::elements_contain_await(&f.elements) {
                    return true;
                }
            }
            i += 1;
        }
        false
    }

    fn elements_contain_await(s: &Vec<FStringElement>) -> (r: bool)
        ensures
            r == element_await(s@, 0),
        decreases s@, 1nat, 0nat,
    {
        let n: usize = s.len();
        let mut i: usize = 0;
        while i < n
            invariant
                i <= n,
                n == s@.len(),
                element_await(s@, 0) == element_await(s@, i as nat),
            decreases n - i,
        {
            if let FStringElement::Expression(x) = &s[i] {
                if Self::contains_await(&x.expression) {
                    return true;
                }
                if let Some(spec) = &x.format_spec {
                    if Self::elements_contain_await(&spec.elements) {
                        return true;
                    }
                }
            }
            i += 1;
        }
        false
    }
}

} // verus!
