//! Dimension sequences and element counts. An array's shape is an ordered
//! sequence of extents; the product of the extents is the element count that
//! sizes every typed view. The product is computed with checked arithmetic:
//! a shape whose element count cannot fit the machine's size type is
//! reported, never wrapped.

use vstd::prelude::*;

verus! {

/// The element count of a shape: the product of its extents. The empty
/// shape has one element, matching the host convention that a scalar has
/// a product of one.
pub open spec fn numel_of(dims: Seq<usize>) -> nat
    decreases dims.len(),
{
    if dims.len() == 0 {
        1
    } else {
        numel_of(dims.drop_last()) * (dims.last() as nat)
    }
}

/// A prefix one longer multiplies the shorter prefix's count by the new
/// extent.
pub proof fn lemma_numel_take_succ(dims: Seq<usize>, i: int)
    requires
        0 <= i < dims.len(),
    ensures
        numel_of(dims.take(i + 1)) == numel_of(dims.take(i)) * dims[i],
{
    assert(dims.take(i + 1).drop_last() =~= dims.take(i));
    assert(dims.take(i + 1).last() == dims[i]);
}

/// A shape with a zero extent anywhere has no elements.
pub proof fn lemma_numel_zero(dims: Seq<usize>, i: int)
    requires
        0 <= i < dims.len(),
        dims[i] == 0,
    ensures
        numel_of(dims) == 0,
    decreases dims.len(),
{
    if i == dims.len() - 1 {
        assert(dims.last() == 0);
    } else {
        assert(dims.drop_last()[i] == 0);
        lemma_numel_zero(dims.drop_last(), i);
        assert(numel_of(dims) == 0 * (dims.last() as nat));
    }
}

/// With every extent positive, the count of a prefix never exceeds the count
/// of the whole shape.
pub proof fn lemma_numel_prefix_le(dims: Seq<usize>, i: int)
    requires
        0 <= i <= dims.len(),
        forall|k: int| 0 <= k < dims.len() ==> dims[k] >= 1,
    ensures
        numel_of(dims.take(i)) <= numel_of(dims),
    decreases dims.len() - i,
{
    if i == dims.len() {
        assert(dims.take(i) =~= dims);
    } else {
        lemma_numel_take_succ(dims, i);
        lemma_numel_prefix_le(dims, i + 1);
        assert(numel_of(dims.take(i)) <= numel_of(dims.take(i)) * dims[i]) by (nonlinear_arith)
            requires
                dims[i] >= 1,
                numel_of(dims.take(i)) >= 0,
        ;
    }
}

/// The element count of a shape, checked: `Some(n)` exactly when the product
/// of the extents fits the machine's size type, and then `n` is that product;
/// `None` exactly when it does not.
pub fn numel_checked(dims: &Vec<usize>) -> (r: Option<usize>)
    ensures
        match r {
            Some(n) => n as nat == numel_of(dims@) && numel_of(dims@) <= usize::MAX,
            None => numel_of(dims@) > usize::MAX,
        },
{
    let n = dims.len();
    let mut i: usize = 0;
    while i < n
        invariant
            0 <= i <= n,
            n == dims@.len(),
            forall|k: int| 0 <= k < i ==> dims@[k] >= 1,
        decreases n - i,
    {
        if dims[i] == 0 {
            proof {
                lemma_numel_zero(dims@, i as int);
            }
            return Some(0);
        }
        i = i + 1;
    }
    let mut acc: usize = 1;
    let mut j: usize = 0;
    proof {
        assert(dims@.take(0) =~= Seq::<usize>::empty());
    }
    while j < n
        invariant
            0 <= j <= n,
            n == dims@.len(),
            forall|k: int| 0 <= k < n ==> dims@[k] >= 1,
            acc as nat == numel_of(dims@.take(j as int)),
        decreases n - j,
    {
        let d = dims[j];
        proof {
            lemma_numel_take_succ(dims@, j as int);
        }
        match acc.checked_mul(d) {
            Some(next) => {
                acc = next;
            },
            None => {
                proof {
                    lemma_numel_prefix_le(dims@, j as int + 1);
                }
                return None;
            },
        }
        j = j + 1;
    }
    proof {
        assert(dims@.take(n as int) =~= dims@);
    }
    Some(acc)
}

} // verus!
