//! Recording a differentiable operation, and the elementwise mask that
//! replaces by a value.

use vstd::prelude::*;
use crate::number::{numbers_equal, same_number, ONE, ZERO};
use crate::shape::{duplicate, num_elements};
use crate::tape::{constant, GradientRef, GradientTape, Operation};
use crate::tensor::{Grad, Tensor};

verus! {

/// `after` is `before` with one more slot, of zeros and of the extents
/// `shape`, named `output`, and with one more operation at the end of the
/// log, from `output` back to `input` with the given derivative.
pub open spec fn extends(
    before: GradientTape,
    after: GradientTape,
    input: GradientRef,
    output: GradientRef,
    shape: Seq<usize>,
    derivative: Seq<u32>,
) -> bool {
    &&& output.index == before.store().len()
    &&& after.store() == before.store().push(constant(ZERO, num_elements(shape)))
    &&& after.slot_shapes() == before.slot_shapes().push(shape)
    &&& after.recorded().len() == before.recorded().len() + 1
    &&& after.recorded().drop_last() == before.recorded()
    &&& after.recorded().last().output == output
    &&& after.recorded().last().input == input
    &&& after.recorded().last().derivative@ == derivative
}

/// The result of an operation on `t`, given its forward value (`shape`,
/// `data`) and its local derivative, both computed by the caller from the
/// elements alone. Where `t` holds the tape, the tape gets a slot for the
/// result and the operation, and passes to the result; where it holds none,
/// the result has no gradient record.
pub fn record_operation(
    t: Tensor,
    shape: Vec<usize>,
    data: Vec<u32>,
    derivative: Vec<u32>,
) -> (r: Tensor)
    requires
        t.wf(),
        data@.len() == num_elements(shape@),
        derivative@.len() == t.data@.len(),
        data@.len() == t.data@.len() || data@.len() == 1,
    ensures
        r.wf(),
        r.shape == shape,
        r.data == data,
        !t.has_tape() ==> r.grad is None,
        t.has_tape() ==> r.has_tape() && extends(
            t.tape(),
            r.tape(),
            t.slot(),
            r.slot(),
            shape@,
            derivative@,
        ),
{
    let mut source = t;
    let count: usize = data.len();
    assert(count == num_elements(shape@));
    match source.take_tape() {
        None => Tensor::with_grad(shape, data, None),
        Some(held) => {
            let input = source.gradient_ref();
            let mut tape: GradientTape = *held;
            let ghost before = tape;
            proof {
                assert(before.slot_shapes().len() == before.store().len());
                assert(before.store()[input.index as int] == before.values@[input.index as int]@);
                assert(before.slot_shapes()[input.index as int]
                    == before.shapes@[input.index as int]@);
            }
            let output = tape.store_gradient(duplicate(&shape));
            let op = Operation { output, input, derivative };
            tape.add_operation(op);
            proof {
                assert(tape.recorded().drop_last() =~= before.recorded());
                assert(tape.store().len() == tape.values@.len());
            }
            Tensor::with_grad(
                shape,
                data,
                Some(Grad { gradient_ref: output, tape: Some(Box::new(tape)) }),
            )
        },
    }
}

/// `t` with `value` in place of every element whose partner in `other`
/// equals `value`.
pub open spec fn masked(t: Seq<u32>, other: Seq<u32>, value: u32) -> Seq<u32> {
    Seq::new(
        t.len(),
        |i: int|
            if same_number(other[i], value) {
                value
            } else {
                t[i]
            },
    )
}

/// The derivative of the mask by its first argument: zero where the element
/// was replaced, one where it was kept.
pub open spec fn mask_derivative(other: Seq<u32>, value: u32) -> Seq<u32> {
    Seq::new(
        other.len(),
        |i: int|
            if same_number(other[i], value) {
                ZERO
            } else {
                ONE
            },
    )
}

/// Replaces by `value` the elements of `t` at the positions where `other`
/// equals `value`, and records the operation on the tape that `t` holds.
pub fn value_mask(t: Tensor, other: &Tensor, value: u32) -> (r: Tensor)
    requires
        t.wf(),
        other.wf(),
        other.shape@ == t.shape@,
    ensures
        r.wf(),
        r.shape@ == t.shape@,
        r.data@ == masked(t.data@, other.data@, value),
        !t.has_tape() ==> r.grad is None,
        t.has_tape() ==> r.has_tape() && extends(
            t.tape(),
            r.tape(),
            t.slot(),
            r.slot(),
            t.shape@,
            mask_derivative(other.data@, value),
        ),
{
    let n: usize = t.data.len();
    let mut result: Vec<u32> = Vec::new();
    let mut derivative: Vec<u32> = Vec::new();
    let mut i: usize = 0;
    while i < n
        invariant
            0 <= i <= n,
            n == t.data@.len(),
            n == other.data@.len(),
            result@.len() == i,
            derivative@.len() == i,
            forall|j: int| 0 <= j < i ==> result@[j] == masked(t.data@, other.data@, value)[j],
            forall|j: int| 0 <= j < i ==> derivative@[j] == mask_derivative(other.data@, value)[j],
        decreases n - i,
    {
        let replaced: bool = numbers_equal(other.data[i], value);
        if replaced {
            result.push(value);
            derivative.push(ZERO);
        } else {
            result.push(t.data[i]);
            derivative.push(ONE);
        }
        i += 1;
    }
    proof {
        assert(result@ =~= masked(t.data@, other.data@, value));
        assert(derivative@ =~= mask_derivative(other.data@, value));
    }
    let shape = duplicate(&t.shape);
    record_operation(t, shape, result, derivative)
}

} // verus!
