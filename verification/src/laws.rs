//! What holds of the tape and of the tensors that pass it on, whatever the
//! arithmetic.

use vstd::prelude::*;
use crate::mask::extends;
use crate::number::ONE;
use crate::shape::num_elements;
use crate::tape::{fits, replay, seeded, source_index, step, GradientRef, GradientTape, Operation};
use crate::tensor::{tape_of, tracks, Tensor};

verus! {

/// Replaying operations that fit the store changes neither the number of
/// slots nor the number of elements of any slot.
pub proof fn replay_keeps_lengths(
    store: Seq<Seq<u32>>,
    ops: Seq<Operation>,
    times: spec_fn(u32, u32) -> u32,
    plus: spec_fn(u32, u32) -> u32,
)
    requires
        forall|k: int| 0 <= k < ops.len() ==> fits(#[trigger] ops[k], store),
    ensures
        replay(store, ops, times, plus).len() == store.len(),
        forall|i: int|
            0 <= i < store.len() ==> (#[trigger] replay(store, ops, times, plus)[i]).len()
                == store[i].len(),
    decreases ops.len(),
{
    if ops.len() > 0 {
        let next = step(store, ops.last(), times, plus);
        let rest = ops.drop_last();
        assert(fits(ops[ops.len() - 1], store));
        assert forall|k: int| 0 <= k < rest.len() implies fits(#[trigger] rest[k], next) by {
            assert(fits(ops[k], store));
        }
        replay_keeps_lengths(next, rest, times, plus);
        assert forall|i: int| 0 <= i < store.len() implies (#[trigger] replay(
            store,
            ops,
            times,
            plus,
        )[i]).len() == store[i].len() by {
            assert(replay(next, rest, times, plus)[i].len() == next[i].len());
        }
    }
}

/// Replaying an operation that fits the store writes the slot of its input
/// and no other: the gradient of its output, which it reads, and every other
/// slot stay as they were.
pub proof fn step_writes_input_only(
    store: Seq<Seq<u32>>,
    op: Operation,
    times: spec_fn(u32, u32) -> u32,
    plus: spec_fn(u32, u32) -> u32,
    j: int,
)
    requires
        fits(op, store),
        0 <= j < store.len(),
        j != op.input.index,
    ensures
        step(store, op, times, plus)[j] == store[j],
        step(store, op, times, plus)[op.output.index as int] == store[op.output.index as int],
{
}

/// After the backward pass from any slot `root`, the gradient in every slot
/// `r` has as many elements as the extents of `r` span: a gradient has the
/// shape of the tensor that it was allocated for.
pub proof fn gradient_keeps_shape(
    tape: GradientTape,
    root: GradientRef,
    r: GradientRef,
    times: spec_fn(u32, u32) -> u32,
    plus: spec_fn(u32, u32) -> u32,
)
    requires
        tape.wf(),
        tape.has_slot(root),
        tape.has_slot(r),
    ensures
        replay(seeded(tape.store(), root.index as int), tape.recorded(), times, plus).len()
            == tape.store().len(),
        replay(
            seeded(tape.store(), root.index as int),
            tape.recorded(),
            times,
            plus,
        )[r.index as int].len() == num_elements(tape.slot_shapes()[r.index as int]),
{
    let start = seeded(tape.store(), root.index as int);
    let ops = tape.recorded();
    assert forall|k: int| 0 <= k < ops.len() implies fits(#[trigger] ops[k], start) by {
        assert(fits(tape.operations@[k], tape.store()));
    }
    replay_keeps_lengths(start, ops, times, plus);
    assert(replay(start, ops, times, plus)[r.index as int].len() == start[r.index as int].len());
    assert(tape.store()[r.index as int] == tape.values@[r.index as int]@);
}

/// Where an operation from a tensor of the extents `shape` was recorded on a
/// tape, the backward pass from the operation's result leaves in the
/// tensor's slot a gradient of the extents `shape`.
pub proof fn recorded_input_keeps_shape(
    before: GradientTape,
    after: GradientTape,
    input: GradientRef,
    output: GradientRef,
    shape: Seq<usize>,
    result_shape: Seq<usize>,
    derivative: Seq<u32>,
    times: spec_fn(u32, u32) -> u32,
    plus: spec_fn(u32, u32) -> u32,
)
    requires
        before.wf(),
        after.wf(),
        tracks(before, input, shape),
        extends(before, after, input, output, result_shape, derivative),
    ensures
        after.has_slot(input),
        after.has_slot(output),
        after.slot_shapes()[input.index as int] == shape,
        replay(
            seeded(after.store(), output.index as int),
            after.recorded(),
            times,
            plus,
        )[input.index as int].len() == num_elements(shape),
{
    assert(after.store().len() == after.values@.len());
    assert(before.store().len() == before.values@.len());
    assert(before.slot_shapes().len() == before.store().len());
    gradient_keeps_shape(after, output, input, times, plus);
}

/// The backward pass over a single operation, from its output: every element
/// of the input's gradient becomes what it was plus the operation's
/// derivative times one.
pub proof fn single_operation_gradient(
    store: Seq<Seq<u32>>,
    op: Operation,
    times: spec_fn(u32, u32) -> u32,
    plus: spec_fn(u32, u32) -> u32,
    i: int,
)
    requires
        fits(op, store),
        0 <= i < store[op.input.index as int].len(),
    ensures
        replay(seeded(store, op.output.index as int), seq![op], times, plus)[op.input.index as int][i]
            == plus(store[op.input.index as int][i], times(op.derivative@[i], ONE)),
{
    let start = seeded(store, op.output.index as int);
    let ops = seq![op];
    assert(ops.last() == op);
    assert(ops.drop_last() =~= Seq::<Operation>::empty());
    assert(replay(step(start, op, times, plus), Seq::<Operation>::empty(), times, plus) == step(
        start,
        op,
        times,
        plus,
    ));
    assert(replay(start, ops, times, plus) == step(start, op, times, plus));
}

/// Where two recorded operations `first` and `second` read the same input,
/// replaying both adds both contributions to the gradient of that input: to
/// what the slot held, first the one of `second`, which was recorded last,
/// then the one of `first`, each the operation's derivative times the
/// gradient of its own output.
pub proof fn two_consumers_accumulate(
    store: Seq<Seq<u32>>,
    first: Operation,
    second: Operation,
    times: spec_fn(u32, u32) -> u32,
    plus: spec_fn(u32, u32) -> u32,
    i: int,
)
    requires
        fits(first, store),
        fits(second, store),
        first.input == second.input,
        0 <= i < store[first.input.index as int].len(),
    ensures
        replay(store, seq![first, second], times, plus)[first.input.index as int][i] == plus(
            plus(
                store[first.input.index as int][i],
                times(
                    second.derivative@[i],
                    store[second.output.index as int][source_index(
                        store[second.output.index as int].len(),
                        i,
                    )],
                ),
            ),
            times(
                first.derivative@[i],
                store[first.output.index as int][source_index(
                    store[first.output.index as int].len(),
                    i,
                )],
            ),
        ),
{
    let ops = seq![first, second];
    let after_second = step(store, second, times, plus);
    let after_first = step(after_second, first, times, plus);
    assert(ops.last() == second);
    assert(ops.drop_last() =~= seq![first]);
    assert(seq![first].last() == first);
    assert(seq![first].drop_last() =~= Seq::<Operation>::empty());
    assert(replay(after_first, Seq::<Operation>::empty(), times, plus) == after_first);
    assert(replay(after_second, seq![first], times, plus) == after_first);
    assert(replay(store, ops, times, plus) == after_first);
    assert(after_second[first.output.index as int] == store[first.output.index as int]);
}

/// The backward pass reads of each operation only its two slots and the
/// elements of its derivative: two logs that agree in these give the same
/// gradients, element for element.
pub proof fn replay_is_determined(
    store: Seq<Seq<u32>>,
    ops: Seq<Operation>,
    other: Seq<Operation>,
    times: spec_fn(u32, u32) -> u32,
    plus: spec_fn(u32, u32) -> u32,
)
    requires
        ops.len() == other.len(),
        forall|k: int|
            0 <= k < ops.len() ==> (#[trigger] ops[k]).input == other[k].input && ops[k].output
                == other[k].output && ops[k].derivative@ == other[k].derivative@,
    ensures
        replay(store, ops, times, plus) == replay(store, other, times, plus),
    decreases ops.len(),
{
    if ops.len() > 0 {
        let a = ops.last();
        let b = other.last();
        assert(a == ops[ops.len() - 1]);
        assert(a.input == b.input && a.output == b.output && a.derivative@ == b.derivative@);
        assert(step(store, a, times, plus) =~~= step(store, b, times, plus));
        assert forall|k: int| 0 <= k < ops.drop_last().len() implies (#[trigger] ops.drop_last()[k]).input
            == other.drop_last()[k].input && ops.drop_last()[k].output == other.drop_last()[k].output
            && ops.drop_last()[k].derivative@ == other.drop_last()[k].derivative@ by {
            assert(ops.drop_last()[k] == ops[k]);
        }
        replay_is_determined(
            step(store, a, times, plus),
            ops.drop_last(),
            other.drop_last(),
            times,
            plus,
        );
    }
}

/// A tensor whose tape was taken holds none: taking again yields nothing and
/// changes nothing.
pub proof fn second_take_is_empty(t: Tensor)
    ensures
        tape_of(t.detached().grad) is None,
        !t.detached().has_tape(),
        t.detached().detached() == t.detached(),
{
}

} // verus!
