//! Why replaying the log backward is sound: when an operation is replayed,
//! the gradient that it reads is complete.

use vstd::prelude::*;
use crate::laws::replay_keeps_lengths;
use crate::mask::extends;
use crate::tape::{fits, replay, step, GradientRef, GradientTape, Operation};

verus! {

/// Every operation writes into a slot that lies before the outputs of the
/// operations recorded with it or after it.
pub open spec fn ordered(ops: Seq<Operation>) -> bool {
    forall|j: int, k: int|
        0 <= j <= k < ops.len() ==> (#[trigger] ops[j]).input.index < (#[trigger] ops[k]).output.index
}

/// Recording an operation whose output is a fresh slot keeps the log ordered.
pub proof fn recording_keeps_order(
    before: GradientTape,
    after: GradientTape,
    input: GradientRef,
    output: GradientRef,
    shape: Seq<usize>,
    derivative: Seq<u32>,
)
    requires
        before.wf(),
        before.has_slot(input),
        ordered(before.recorded()),
        extends(before, after, input, output, shape, derivative),
    ensures
        ordered(after.recorded()),
{
    let old_ops = before.recorded();
    let ops = after.recorded();
    assert forall|j: int, k: int| 0 <= j <= k < ops.len() implies (#[trigger] ops[j]).input.index < (
    #[trigger] ops[k]).output.index by {
        if k < old_ops.len() {
            assert(ops[j] == ops.drop_last()[j]);
            assert(ops[k] == ops.drop_last()[k]);
        } else if j < old_ops.len() {
            assert(ops[j] == ops.drop_last()[j]);
            assert(fits(before.operations@[j], before.store()));
        }
    }
}

/// Replaying a log is replaying its later part, then its earlier part.
pub proof fn replay_in_two_parts(
    store: Seq<Seq<u32>>,
    earlier: Seq<Operation>,
    later: Seq<Operation>,
    times: spec_fn(u32, u32) -> u32,
    plus: spec_fn(u32, u32) -> u32,
)
    ensures
        replay(store, earlier + later, times, plus) == replay(
            replay(store, later, times, plus),
            earlier,
            times,
            plus,
        ),
    decreases later.len(),
{
    if later.len() == 0 {
        assert(earlier + later =~= earlier);
    } else {
        assert((earlier + later).last() == later.last());
        assert((earlier + later).drop_last() =~= earlier + later.drop_last());
        replay_in_two_parts(
            step(store, later.last(), times, plus),
            earlier,
            later.drop_last(),
            times,
            plus,
        );
    }
}

/// A slot that no operation of the log writes into is the same after the
/// replay as before.
pub proof fn replay_keeps_unwritten_slot(
    store: Seq<Seq<u32>>,
    ops: Seq<Operation>,
    times: spec_fn(u32, u32) -> u32,
    plus: spec_fn(u32, u32) -> u32,
    slot: int,
)
    requires
        0 <= slot < store.len(),
        forall|k: int| 0 <= k < ops.len() ==> fits(#[trigger] ops[k], store),
        forall|k: int| 0 <= k < ops.len() ==> (#[trigger] ops[k]).input.index != slot,
    ensures
        replay(store, ops, times, plus)[slot] == store[slot],
    decreases ops.len(),
{
    if ops.len() > 0 {
        let next = step(store, ops.last(), times, plus);
        let rest = ops.drop_last();
        assert(fits(ops[ops.len() - 1], store));
        assert(ops[ops.len() - 1].input.index != slot);
        assert forall|k: int| 0 <= k < rest.len() implies fits(#[trigger] rest[k], next) by {
            assert(fits(ops[k], store));
        }
        assert forall|k: int| 0 <= k < rest.len() implies (#[trigger] rest[k]).input.index
            != slot by {
            assert(rest[k] == ops[k]);
        }
        replay_keeps_unwritten_slot(next, rest, times, plus, slot);
    }
}

/// In an ordered log, the gradient that the operation at position `k` reads,
/// the one of its output after all later operations were replayed, is
/// already the one that the whole replay ends with: reverse order of
/// recording visits every slot only after all that flows into it.
pub proof fn output_is_complete_when_read(
    store: Seq<Seq<u32>>,
    ops: Seq<Operation>,
    times: spec_fn(u32, u32) -> u32,
    plus: spec_fn(u32, u32) -> u32,
    k: int,
)
    requires
        forall|j: int| 0 <= j < ops.len() ==> fits(#[trigger] ops[j], store),
        ordered(ops),
        0 <= k < ops.len(),
    ensures
        replay(store, ops.subrange(k + 1, ops.len() as int), times, plus)[ops[k].output.index as int]
            == replay(store, ops, times, plus)[ops[k].output.index as int],
{
    let earlier = ops.take(k + 1);
    let later = ops.subrange(k + 1, ops.len() as int);
    let slot = ops[k].output.index as int;
    assert(ops =~= earlier + later);
    replay_in_two_parts(store, earlier, later, times, plus);
    let middle = replay(store, later, times, plus);
    assert forall|j: int| 0 <= j < later.len() implies fits(#[trigger] later[j], store) by {
        assert(later[j] == ops[k + 1 + j]);
    }
    replay_keeps_lengths(store, later, times, plus);
    assert(fits(ops[k], store));
    assert forall|j: int| 0 <= j < earlier.len() implies fits(#[trigger] earlier[j], middle) by {
        assert(earlier[j] == ops[j]);
        assert(fits(ops[j], store));
    }
    assert forall|j: int| 0 <= j < earlier.len() implies (#[trigger] earlier[j]).input.index
        != slot by {
        assert(earlier[j] == ops[j]);
        assert(ops[j].input.index < ops[k].output.index);
    }
    replay_keeps_unwritten_slot(middle, earlier, times, plus, slot);
}

} // verus!
