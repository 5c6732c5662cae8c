//! Shapes of datasets and arrays: their element counts and checks on them.

use vstd::prelude::*;

verus! {

/// Number of elements of an array whose axes have the lengths in `shape`.
/// The empty shape (a scalar) holds one element.
pub open spec fn shape_product(shape: Seq<usize>) -> nat
    decreases shape.len(),
{
    if shape.len() == 0 {
        1
    } else {
        shape_product(shape.drop_last()) * (shape.last() as nat)
    }
}

/// Whether some axis of `shape` has length zero.
pub open spec fn has_zero_axis(shape: Seq<usize>) -> bool {
    exists|i: int| 0 <= i < shape.len() && shape[i] == 0
}

/// A shape with a zero-length axis holds no element.
pub proof fn lemma_product_zero(shape: Seq<usize>, i: int)
    requires
        0 <= i < shape.len(),
        shape[i] == 0,
    ensures
        shape_product(shape) == 0,
    decreases shape.len(),
{
    let p = shape_product(shape.drop_last());
    let l = shape.last() as nat;
    if i < shape.len() - 1 {
        lemma_product_zero(shape.drop_last(), i);
        assert(p * l == 0) by (nonlinear_arith)
            requires
                p == 0,
        ;
    } else {
        assert(p * l == 0) by (nonlinear_arith)
            requires
                l == 0,
        ;
    }
}

/// Without zero-length axes, every prefix of a shape holds at most as many
/// elements as the whole shape, and the whole shape holds at least one.
pub proof fn lemma_product_prefix_le(shape: Seq<usize>, k: int)
    requires
        0 <= k <= shape.len(),
        !has_zero_axis(shape),
    ensures
        shape_product(shape.take(k)) <= shape_product(shape),
        shape_product(shape) >= 1,
    decreases shape.len(),
{
    if shape.len() > 0 {
        let init = shape.drop_last();
        assert(!has_zero_axis(init)) by {
            assert forall|i: int| 0 <= i < init.len() implies init[i] != 0 by {
                assert(init[i] == shape[i]);
            }
        }
        if k == shape.len() {
            assert(shape.take(k) =~= shape);
            lemma_product_prefix_le(init, 0);
        } else {
            assert(shape.take(k) =~= init.take(k));
            lemma_product_prefix_le(init, k);
        }
        let p = shape_product(init);
        let l = shape.last() as nat;
        assert(shape[shape.len() - 1] != 0);
        assert(p * l >= p) by (nonlinear_arith)
            requires
                l >= 1,
        ;
        assert(p * l >= 1) by (nonlinear_arith)
            requires
                l >= 1,
                p >= 1,
        ;
    }
}

/// Putting an axis of length `n` in front of a shape multiplies its number
/// of elements by `n`.
pub proof fn lemma_product_prepend(n: usize, shape: Seq<usize>)
    ensures
        shape_product(seq![n] + shape) == n * shape_product(shape),
    decreases shape.len(),
{
    let whole = seq![n] + shape;
    if shape.len() == 0 {
        assert(whole.len() == 1);
        assert(whole.last() == n);
        assert(whole.drop_last() =~= Seq::<usize>::empty());
        assert(shape_product(whole.drop_last()) == 1);
        assert(shape_product(whole) == 1 * (n as nat));
        assert(1 * (n as nat) == n * 1) by (nonlinear_arith);
    } else {
        assert(whole.drop_last() =~= seq![n] + shape.drop_last());
        lemma_product_prepend(n, shape.drop_last());
        let p = shape_product(shape.drop_last());
        let l = shape.last() as nat;
        assert(whole.last() == shape.last());
        assert((n * p) * l == n * (p * l)) by (nonlinear_arith);
    }
}

/// Returns whether some axis of `shape` has length zero.
pub fn contains_zero(shape: &Vec<usize>) -> (r: bool)
    ensures
        r == has_zero_axis(shape@),
{
    let mut i: usize = 0;
    while i < shape.len()
        invariant
            i <= shape@.len(),
            forall|j: int| 0 <= j < i ==> shape@[j] != 0,
        decreases shape@.len() - i,
    {
        if shape[i] == 0 {
            return true;
        }
        i = i + 1;
    }
    false
}

/// Returns whether two shapes are equal axis by axis.
pub fn shapes_equal(a: &Vec<usize>, b: &Vec<usize>) -> (r: bool)
    ensures
        r == (a@ == b@),
{
    if a.len() != b.len() {
        return false;
    }
    let mut i: usize = 0;
    while i < a.len()
        invariant
            i <= a@.len(),
            a@.len() == b@.len(),
            forall|j: int| 0 <= j < i ==> a@[j] == b@[j],
        decreases a@.len() - i,
    {
        if a[i] != b[i] {
            return false;
        }
        i = i + 1;
    }
    assert(a@ =~= b@);
    true
}

/// A copy of `shape`.
pub fn copy_shape(shape: &Vec<usize>) -> (r: Vec<usize>)
    ensures
        r@ == shape@,
{
    let mut r: Vec<usize> = Vec::new();
    let mut i: usize = 0;
    while i < shape.len()
        invariant
            i <= shape@.len(),
            r@ == shape@.take(i as int),
        decreases shape@.len() - i,
    {
        r.push(shape[i]);
        i = i + 1;
        proof {
            assert(r@ =~= shape@.take(i as int));
        }
    }
    proof {
        assert(shape@.take(i as int) =~= shape@);
    }
    r
}

/// Number of elements held by an array of the given shape, or `None` when
/// that number does not fit in a `usize`.
pub fn shape_size(shape: &Vec<usize>) -> (r: Option<usize>)
    ensures
        r is Some <==> shape_product(shape@) <= usize::MAX,
        r matches Some(n) ==> n == shape_product(shape@),
{
    if contains_zero(shape) {
        proof {
            let i = choose|i: int| 0 <= i < shape@.len() && shape@[i] == 0;
            lemma_product_zero(shape@, i);
        }
        return Some(0);
    }
    let mut acc: usize = 1;
    let mut i: usize = 0;
    while i < shape.len()
        invariant
            i <= shape@.len(),
            !has_zero_axis(shape@),
            acc == shape_product(shape@.take(i as int)),
        decreases shape@.len() - i,
    {
        proof {
            assert(shape@.take(i + 1).drop_last() =~= shape@.take(i as int));
        }
        match acc.checked_mul(shape[i]) {
            Some(next) => {
                acc = next;
            },
            None => {
                proof {
                    lemma_product_prefix_le(shape@, i + 1);
                }
                return None;
            },
        }
        i = i + 1;
    }
    assert(shape@.take(i as int) =~= shape@);
    Some(acc)
}

} // verus!
