//! The pools of a code object: each item stands in its pool once, at the place where it first
//! came in.
use vstd::prelude::*;

use crate::bigint::bigint_eq;
use crate::bytecode::{constant_models, ConstantData, ConstantModel};
use crate::text::{lemma_position_prefix, position, str_eq, texts};

verus! {

/// Whether two constants share a place in a pool: floats do so by their bits, and a code object
/// with no other.
pub open spec fn same_constant(a: ConstantModel, b: ConstantModel) -> bool
    decreases a,
{
    match (a, b) {
        (ConstantModel::Tuple(x), ConstantModel::Tuple(y)) => x.len() == y.len() && same_constants(
            x,
            y,
            x.len(),
        ),
        (ConstantModel::Code(..), _) => false,
        _ => a == b,
    }
}

/// Whether the first `n` constants of two lists are pairwise the same.
pub open spec fn same_constants(x: Seq<ConstantModel>, y: Seq<ConstantModel>, n: nat) -> bool
    decreases x, n,
{
    n == 0 || n > x.len() || (same_constants(x, y, (n - 1) as nat) && same_constant(
        x[n - 1],
        y[n - 1],
    ))
}

/// The first place in a pool of a constant that is the same as `c`.
pub open spec fn constant_position(pool: Seq<ConstantModel>, c: ConstantModel) -> Option<nat>
    decreases pool.len(),
{
    if pool.len() == 0 {
        None
    } else {
        match constant_position(pool.drop_last(), c) {
            Some(i) => Some(i),
            None => if same_constant(pool.last(), c) {
                Some((pool.len() - 1) as nat)
            } else {
                None
            },
        }
    }
}

/// A pool after `x` came in.
pub open spec fn with_item<T>(pool: Seq<T>, x: T) -> Seq<T> {
    if position(pool, x) is Some {
        pool
    } else {
        pool.push(x)
    }
}

/// The place of `x` in a pool after it came in.
pub open spec fn item_slot<T>(pool: Seq<T>, x: T) -> nat {
    match position(pool, x) {
        Some(i) => i,
        None => pool.len(),
    }
}

/// A pool of constants after `c` came in.
pub open spec fn with_constant(pool: Seq<ConstantModel>, c: ConstantModel) -> Seq<ConstantModel> {
    if constant_position(pool, c) is Some {
        pool
    } else {
        pool.push(c)
    }
}

/// The place of `c` in a pool of constants after it came in.
pub open spec fn constant_slot(pool: Seq<ConstantModel>, c: ConstantModel) -> nat {
    match constant_position(pool, c) {
        Some(i) => i,
        None => pool.len(),
    }
}

proof fn lemma_same_constants_prefix(
    x: Seq<ConstantModel>,
    y: Seq<ConstantModel>,
    i: nat,
    n: nat,
)
    requires
        i <= n <= x.len(),
        !same_constants(x, y, i),
    ensures
        !same_constants(x, y, n),
    decreases n - i,
{
    if i < n {
        lemma_same_constants_prefix(x, y, i, (n - 1) as nat);
    }
}

proof fn lemma_constant_position_prefix(s: Seq<ConstantModel>, c: ConstantModel, n: int)
    requires
        0 <= n <= s.len(),
    ensures
        constant_position(s.take(n), c) is Some ==> constant_position(s, c) == constant_position(
            s.take(n),
            c,
        ),
    decreases s.len() - n,
{
    if n < s.len() {
        assert(s.take(n + 1).drop_last() =~= s.take(n));
        lemma_constant_position_prefix(s, c, n + 1);
    } else {
        assert(s.take(n) =~= s);
    }
}

/// Whether two constants share a place in a pool.
pub fn constant_eq(a: &ConstantData, b: &ConstantData) -> (r: bool)
    ensures
        r == same_constant(a@, b@),
    decreases a,
{
    match (a, b) {
        (ConstantData::Tuple { elements: x }, ConstantData::Tuple { elements: y }) => {
            if x.len() != y.len() {
                return false;
            }
            let n: usize = x.len();
            let mut i: usize = 0;
            let ghost xs = constant_models(x@);
            let ghost ys = constant_models(y@);
            while i < n
                invariant
                    i <= n,
                    n == x@.len(),
                    n == y@.len(),
                    xs == constant_models(x@),
                    ys == constant_models(y@),
                    same_constants(xs, ys, i as nat),
                    a@ == ConstantModel::Tuple(xs),
                    b@ == ConstantModel::Tuple(ys),
                    decreases_to!(a => x@),
                decreases n - i,
            {
                assert(xs[i as int] == x@[i as int]@);
                assert(ys[i as int] == y@[i as int]@);
                if !constant_eq(&x[i], &y[i]) {
                    proof {
                        lemma_same_constants_prefix(xs, ys, (i + 1) as nat, n as nat);
                    }
                    return false;
                }
                i += 1;
            }
            true
        },
        (ConstantData::Integer { value: x }, ConstantData::Integer { value: y }) => bigint_eq(x, y),
        (ConstantData::Float { value: x }, ConstantData::Float { value: y }) => *x == *y,
        (ConstantData::Complex { re, im }, ConstantData::Complex { re: re2, im: im2 }) => *re
            == *re2 && *im == *im2,
        (ConstantData::Boolean { value: x }, ConstantData::Boolean { value: y }) => *x == *y,
        (ConstantData::Str { value: x }, ConstantData::Str { value: y }) => str_eq(
            x.as_str(),
            y.as_str(),
        ),
        (ConstantData::Bytes { value: x }, ConstantData::Bytes { value: y }) => bytes_eq(x, y),
        (ConstantData::NoneValue, ConstantData::NoneValue) => true,
        (ConstantData::Ellipsis, ConstantData::Ellipsis) => true,
        _ => false,
    }
}

fn bytes_eq(x: &Vec<u8>, y: &Vec<u8>) -> (r: bool)
    ensures
        r == (x@ == y@),
{
    if x.len() != y.len() {
        return false;
    }
    let n: usize = x.len();
    let mut i: usize = 0;
    while i < n
        invariant
            i <= n,
            n == x@.len(),
            n == y@.len(),
            forall|j: int| 0 <= j < i ==> x@[j] == y@[j],
        decreases n - i,
    {
        if x[i] != y[i] {
            return false;
        }
        i += 1;
    }
    assert(x@ =~= y@);
    true
}

/// The place of a text in a pool of texts.
pub fn find_text(pool: &Vec<String>, x: &str) -> (r: Option<usize>)
    ensures
        r is Some == position(texts(pool@), x@) is Some,
        r is Some ==> r->0 == position(texts(pool@), x@)->0,
        r is Some ==> r->0 < pool@.len(),
{
    let n: usize = pool.len();
    let mut i: usize = 0;
    let ghost all = texts(pool@);
    assert(all.take(0) =~= Seq::empty());
    while i < n
        invariant
            i <= n,
            n == pool@.len(),
            all == texts(pool@),
            position(all.take(i as int), x@) is None,
        decreases n - i,
    {
        assert(all.take(i + 1).drop_last() =~= all.take(i as int));
        assert(all.take(i + 1).last() == pool@[i as int]@);
        if str_eq(pool[i].as_str(), x) {
            proof {
                lemma_position_prefix(all, x@, i + 1);
            }
            return Some(i);
        }
        i += 1;
    }
    assert(all.take(n as int) =~= all);
    None
}

/// Puts a text into a pool and gives its place.
pub fn insert_text(pool: &mut Vec<String>, x: &str) -> (r: usize)
    ensures
        texts(final(pool)@) == with_item(texts(old(pool)@), x@),
        r == item_slot(texts(old(pool)@), x@),
{
    match find_text(pool, x) {
        Some(i) => i,
        None => {
            let n: usize = pool.len();
            pool.push(x.to_owned());
            assert(texts(pool@) =~= texts(old(pool)@).push(x@));
            n
        },
    }
}

/// Puts a constant into a pool and gives its place.
pub fn insert_constant(pool: &mut Vec<ConstantData>, c: ConstantData) -> (r: usize)
    ensures
        constant_models(final(pool)@) == with_constant(constant_models(old(pool)@), c@),
        r == constant_slot(constant_models(old(pool)@), c@),
{
    let n: usize = pool.len();
    let mut i: usize = 0;
    let ghost all = constant_models(pool@);
    assert(all.take(0) =~= Seq::empty());
    while i < n
        invariant
            i <= n,
            n == pool@.len(),
            *pool == *old(pool),
            all == constant_models(pool@),
            constant_position(all.take(i as int), c@) is None,
        decreases n - i,
    {
        assert(all.take(i + 1).drop_last() =~= all.take(i as int));
        assert(all.take(i + 1).last() == pool@[i as int]@);
        if constant_eq(&pool[i], &c) {
            proof {
                lemma_constant_position_prefix(all, c@, i + 1);
            }
            return i;
        }
        i += 1;
    }
    assert(all.take(n as int) =~= all);
    pool.push(c);
    assert(constant_models(pool@) =~= all.push(c@));
    n
}

} // verus!
