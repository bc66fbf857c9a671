//! Shape descriptors: a list of extents, and the number of elements it spans.

use vstd::prelude::*;

verus! {

/// Number of elements of an array with the given extents: their product, 1
/// for the empty list.
pub open spec fn num_elements(shape: Seq<usize>) -> nat
    decreases shape.len(),
{
    if shape.len() == 0 {
        1
    } else {
        num_elements(shape.drop_last()) * (shape.last() as nat)
    }
}

/// A prefix of a shape extended by one extent multiplies its element count.
pub proof fn lemma_num_elements_step(shape: Seq<usize>, i: int)
    requires
        0 <= i < shape.len(),
    ensures
        num_elements(shape.take(i + 1)) == num_elements(shape.take(i)) * (shape[i] as nat),
{
    assert(shape.take(i + 1).drop_last() =~= shape.take(i));
}

/// A shape with an extent of zero spans no element.
pub proof fn lemma_num_elements_zero(shape: Seq<usize>, i: int)
    requires
        0 <= i < shape.len(),
        shape[i] == 0,
    ensures
        num_elements(shape) == 0,
    decreases shape.len(),
{
    if i == shape.len() - 1 {
        assert(num_elements(shape.drop_last()) * 0 == 0) by (nonlinear_arith);
    } else {
        lemma_num_elements_zero(shape.drop_last(), i);
        assert(0 * (shape.last() as nat) == 0) by (nonlinear_arith);
    }
}

/// Without an extent of zero, a prefix spans no more elements than the whole.
pub proof fn lemma_num_elements_prefix(shape: Seq<usize>, i: int)
    requires
        0 <= i <= shape.len(),
        forall|k: int| 0 <= k < shape.len() ==> shape[k] >= 1,
    ensures
        num_elements(shape.take(i)) <= num_elements(shape),
    decreases shape.len() - i,
{
    if i == shape.len() {
        assert(shape.take(i) =~= shape);
    } else {
        lemma_num_elements_step(shape, i);
        lemma_num_elements_prefix(shape, i + 1);
        let p = num_elements(shape.take(i));
        let d = shape[i] as nat;
        assert(p <= p * d) by (nonlinear_arith)
            requires
                d >= 1,
        ;
    }
}

/// The number of elements of `shape`, or `None` where it exceeds `usize::MAX`.
pub fn element_count(shape: &Vec<usize>) -> (r: Option<usize>)
    ensures
        r.is_some() <==> num_elements(shape@) <= usize::MAX,
        r.is_some() ==> r.unwrap() == num_elements(shape@),
{
    let n: usize = shape.len();
    let mut i: usize = 0;
    while i < n
        invariant
            n == shape.len(),
            0 <= i <= n,
            forall|k: int| 0 <= k < i ==> shape[k] >= 1,
        decreases n - i,
    {
        if shape[i] == 0 {
            proof {
                lemma_num_elements_zero(shape@, i as int);
            }
            return Some(0);
        }
        i += 1;
    }
    let mut count: usize = 1;
    let mut j: usize = 0;
    while j < n
        invariant
            n == shape.len(),
            0 <= j <= n,
            forall|k: int| 0 <= k < n ==> shape[k] >= 1,
            count == num_elements(shape@.take(j as int)),
        decreases n - j,
    {
        proof {
            lemma_num_elements_step(shape@, j as int);
            lemma_num_elements_prefix(shape@, j + 1);
        }
        match count.checked_mul(shape[j]) {
            Some(next) => {
                count = next;
            },
            None => {
                return None;
            },
        }
        j += 1;
    }
    proof {
        assert(shape@.take(n as int) =~= shape@);
    }
    Some(count)
}

/// Whether two lists of extents are the same shape.
pub fn same_shape(a: &Vec<usize>, b: &Vec<usize>) -> (r: bool)
    ensures
        r == (a@ == b@),
{
    if a.len() != b.len() {
        return false;
    }
    let mut i: usize = 0;
    while i < a.len()
        invariant
            a@.len() == b@.len(),
            0 <= i <= a@.len(),
            forall|k: int| 0 <= k < i ==> a@[k] == b@[k],
        decreases a@.len() - i,
    {
        if a[i] != b[i] {
            return false;
        }
        i += 1;
    }
    proof {
        assert(a@ =~= b@);
    }
    true
}

/// A copy of a list of numbers.
pub fn duplicate(source: &Vec<usize>) -> (r: Vec<usize>)
    ensures
        r@ == source@,
{
    let mut copy: Vec<usize> = Vec::new();
    let mut i: usize = 0;
    while i < source.len()
        invariant
            0 <= i <= source.len(),
            copy@ == source@.take(i as int),
        decreases source.len() - i,
    {
        copy.push(source[i]);
        proof {
            assert(source@.take(i + 1) =~= source@.take(i as int).push(source@[i as int]));
        }
        i += 1;
    }
    proof {
        assert(source@.take(source.len() as int) =~= source@);
    }
    copy
}

} // verus!
